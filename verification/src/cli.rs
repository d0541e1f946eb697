//! What the command line and the start of the sidecar come to.

use vstd::prelude::*;
use vstd::string::*;
use crate::text::{char_is_space, chars_of, is_space, join3, same_text, texts};

verus! {

/// The command that starts the sidecar in development.
pub const DEFAULT_SIDECAR_CMD: &'static str = "python3 sidecar-python/sidecar.py";

/// How far a command line has been read.
pub struct CmdState {
    /// The words that are complete.
    pub words: Seq<Seq<char>>,
    /// The word that is being read.
    pub word: Seq<char>,
    /// Whether a quotation is open.
    pub quoted: bool,
}

/// A command line as far as it has been read: a double quote opens or closes a quotation
/// and belongs to no word; white space outside a quotation ends a word; everything else
/// belongs to the word.
pub open spec fn read_cmd(s: Seq<char>) -> CmdState
    decreases s.len(),
{
    if s.len() == 0 {
        CmdState { words: Seq::empty(), word: Seq::empty(), quoted: false }
    } else {
        let before = read_cmd(s.drop_last());
        let c = s.last();
        if c == '"' {
            CmdState { quoted: !before.quoted, ..before }
        } else if is_space(c) && !before.quoted {
            if before.word.len() > 0 {
                CmdState { words: before.words.push(before.word), word: Seq::empty(), ..before }
            } else {
                before
            }
        } else {
            CmdState { word: before.word.push(c), ..before }
        }
    }
}

/// The words of a command line.
pub open spec fn cmd_words(s: Seq<char>) -> Seq<Seq<char>> {
    let end = read_cmd(s);
    if end.word.len() > 0 {
        end.words.push(end.word)
    } else {
        end.words
    }
}

/// A program and its arguments, out of a command line: the first word is the program. A
/// path with blanks in it is written in double quotes. Without a word the program is
/// `python3`.
pub fn parse_sidecar_cmd(cmd_str: &str) -> (r: (String, Vec<String>))
    ensures
        if cmd_words(cmd_str@).len() == 0 {
            r.0@ == "python3"@ && r.1@.len() == 0
        } else {
            r.0@ == cmd_words(cmd_str@)[0] && texts(r.1@) == cmd_words(cmd_str@).drop_first()
        },
{
    let chars = chars_of(cmd_str);
    let mut words: Vec<String> = Vec::new();
    let mut word = String::new();
    let mut quoted = false;
    let mut i: usize = 0;
    assert(texts(words@) =~= Seq::empty());
    while i < chars.len()
        invariant
            i <= chars@.len(),
            chars@ == cmd_str@,
            read_cmd(cmd_str@.take(i as int)) == (CmdState {
                words: texts(words@),
                word: word@,
                quoted,
            }),
        decreases chars.len() - i,
    {
        let c = chars[i];
        let ghost upto = cmd_str@.take(i as int + 1);
        assert(upto.drop_last() =~= cmd_str@.take(i as int));
        assert(upto.last() == c);
        if c == '"' {
            quoted = !quoted;
        } else if char_is_space(c) && !quoted {
            if word.as_str().unicode_len() > 0 {
                let ghost before = words@;
                let ghost w = word@;
                words.push(word);
                word = String::new();
                assert(texts(words@) =~= texts(before).push(w));
            }
        } else {
            word.push(c);
        }
        i = i + 1;
    }
    assert(cmd_str@.take(i as int) =~= cmd_str@);
    if word.as_str().unicode_len() > 0 {
        let ghost before = words@;
        let ghost w = word@;
        words.push(word);
        assert(texts(words@) =~= texts(before).push(w));
    }
    assert(texts(words@) == cmd_words(cmd_str@));
    if words.len() == 0 {
        return ("python3".to_owned(), Vec::new());
    }
    let ghost all = words@;
    let program = words.remove(0);
    assert(texts(words@) =~= texts(all).drop_first());
    (program, words)
}

/// No word is empty, and no word has a double quote in it.
pub proof fn law_words_are_proper(s: Seq<char>)
    ensures
        forall|i: int|
            0 <= i < cmd_words(s).len() ==> (#[trigger] cmd_words(s)[i]).len() > 0
                && !cmd_words(s)[i].contains('"'),
        !read_cmd(s).word.contains('"'),
        forall|i: int|
            0 <= i < read_cmd(s).words.len() ==> (#[trigger] read_cmd(s).words[i]).len() > 0
                && !read_cmd(s).words[i].contains('"'),
    decreases s.len(),
{
    if s.len() > 0 {
        let before = read_cmd(s.drop_last());
        let after = read_cmd(s);
        law_words_are_proper(s.drop_last());
        let c = s.last();
        assert(!after.word.contains('"')) by {
            if after.word.contains('"') {
                let k = choose|k: int| 0 <= k < after.word.len() && after.word[k] == '"';
                if k < before.word.len() {
                    assert(before.word[k] == '"');
                }
            }
        }
        assert forall|i: int| 0 <= i < after.words.len() implies (#[trigger] after.words[i]).len()
            > 0 && !after.words[i].contains('"') by {
            if i < before.words.len() {
                assert(after.words[i] == before.words[i]);
            }
        }
    }
    let end = read_cmd(s);
    assert forall|i: int| 0 <= i < cmd_words(s).len() implies (#[trigger] cmd_words(s)[i]).len()
        > 0 && !cmd_words(s)[i].contains('"') by {
        if i < end.words.len() {
            assert(cmd_words(s)[i] == end.words[i]);
        }
    }
}

/// What is quoted is one word, blanks and all.
pub proof fn law_quoted_text_is_one_word(s: Seq<char>)
    requires
        s.len() > 0,
        !s.contains('"'),
    ensures
        cmd_words(seq!['"'] + s + seq!['"']) == seq![s],
{
    let open = seq!['"'] + s;
    lemma_read_quoted(s);
    let all = open + seq!['"'];
    assert(all.drop_last() =~= open);
    assert(cmd_words(all) =~= seq![s]);
}

/// Behind an opening quote every character belongs to the word.
proof fn lemma_read_quoted(s: Seq<char>)
    requires
        !s.contains('"'),
    ensures
        read_cmd(seq!['"'] + s) == (CmdState { words: Seq::empty(), word: s, quoted: true }),
    decreases s.len(),
{
    let t = seq!['"'] + s;
    if s.len() == 0 {
        assert(t.last() == '"');
        assert(t.drop_last().len() == 0);
        assert(read_cmd(t.drop_last()).word == Seq::<char>::empty());
        assert(read_cmd(t).word =~= s);
    } else {
        assert(t.drop_last() =~= seq!['"'] + s.drop_last());
        assert forall|c: char| s.drop_last().contains(c) implies s.contains(c) by {
            let i = choose|i: int| 0 <= i < s.drop_last().len() && s.drop_last()[i] == c;
            assert(s[i] == c);
        }
        lemma_read_quoted(s.drop_last());
        assert(s.contains(s.last()));
        assert(s.drop_last().push(s.last()) =~= s);
    }
}

/// The address of the server with the token in it.
pub open spec fn ws_url(server: Seq<char>, token: Seq<char>) -> Seq<char> {
    if token.len() == 0 {
        server
    } else {
        server + "/?token="@ + token
    }
}

/// The address of the server, with the token as its query where there is one.
pub fn build_ws_url(server: &str, token: &str) -> (r: String)
    ensures
        r@ == ws_url(server@, token@),
{
    if token.unicode_len() == 0 {
        server.to_owned()
    } else {
        join3(server, "/?token=", token)
    }
}

/// How the sidecar is to be started.
pub struct Launch {
    pub program: String,
    pub args: Vec<String>,
    /// The directory to start it in, where it matters.
    pub workdir: Option<String>,
    /// Whether a console window must be kept from flashing up.
    pub no_window: bool,
}

/// How the sidecar is to be started: by the command that the environment gives; else the
/// one that came with the installation; else the script of the repository.
pub fn choose_launch(
    env_cmd: Option<String>,
    bundled: Option<String>,
    workdir: Option<String>,
) -> (r: Launch)
    ensures
        match (env_cmd, bundled) {
            (Some(cmd), _) => {
                &&& if cmd_words(cmd@).len() == 0 {
                    r.program@ == "python3"@ && r.args@.len() == 0
                } else {
                    r.program@ == cmd_words(cmd@)[0] && texts(r.args@) == cmd_words(cmd@).drop_first()
                }
                &&& r.workdir is None
                &&& !r.no_window
            },
            (None, Some(path)) => {
                &&& r.program@ == path@
                &&& r.args@.len() == 0
                &&& r.workdir is None
                &&& r.no_window
            },
            (None, None) => {
                &&& r.program@ == "python3"@
                &&& texts(r.args@) == seq!["sidecar-python/sidecar.py"@]
                &&& r.workdir == workdir
                &&& !r.no_window
            },
        },
{
    match (env_cmd, bundled) {
        (Some(cmd), _) => {
            let (program, args) = parse_sidecar_cmd(cmd.as_str());
            Launch { program, args, workdir: None, no_window: false }
        },
        (None, Some(path)) => {
            Launch { program: path, args: Vec::new(), workdir: None, no_window: true }
        },
        (None, None) => {
            let mut args: Vec<String> = Vec::new();
            args.push("sidecar-python/sidecar.py".to_owned());
            assert(texts(args@) =~= seq!["sidecar-python/sidecar.py"@]);
            Launch { program: "python3".to_owned(), args, workdir, no_window: false }
        },
    }
}

/// What came of waiting for the sidecar to end.
#[derive(Debug, Clone, Copy, PartialEq, Eq, Structural)]
pub enum ShutdownWait {
    /// It has ended.
    Exited,
    /// Its end can no longer be observed.
    WatchLost,
    /// It did not end in time.
    TimedOut,
}

/// Whether the sidecar counts as gone: only one that did not end in time may have been left
/// behind.
pub fn graceful_shutdown(wait: ShutdownWait) -> (r: bool)
    ensures
        r == (wait != ShutdownWait::TimedOut),
{
    match wait {
        ShutdownWait::Exited => true,
        ShutdownWait::WatchLost => true,
        ShutdownWait::TimedOut => false,
    }
}

/// Whether the arguments ask for the command line in place of the window.
pub fn wants_cli(args: &Vec<String>) -> (r: bool)
    ensures
        r == exists|i: int| 0 <= i < args@.len() && (#[trigger] args@[i])@ == "--cli"@,
{
    let mut i: usize = 0;
    while i < args.len()
        invariant
            i <= args@.len(),
            forall|k: int| 0 <= k < i ==> (#[trigger] args@[k])@ != "--cli"@,
        decreases args.len() - i,
    {
        if same_text(args[i].as_str(), "--cli") {
            return true;
        }
        i = i + 1;
    }
    false
}

/// How many double quotes a text has.
pub open spec fn quotes(s: Seq<char>) -> nat {
    s.filter(|c: char| c == '"').len()
}

/// A text without its double quotes.
pub open spec fn unquoted(s: Seq<char>) -> Seq<char> {
    s.filter(|c: char| c != '"')
}

/// A quotation is open where the quotes are odd in number.
proof fn lemma_quotes_are_counted(s: Seq<char>)
    ensures
        read_cmd(s).quoted <==> quotes(s) % 2 == 1,
    decreases s.len(),
{
    reveal(Seq::filter);
    if s.len() > 0 {
        lemma_quotes_are_counted(s.drop_last());
    }
}

/// White space outside of quotations separates words: the words before it and those behind it are
/// read each by themselves, and none is lost.
pub proof fn law_blanks_separate_words(a: Seq<char>, c: char, b: Seq<char>)
    requires
        is_space(c),
        quotes(a) % 2 == 0,
    ensures
        cmd_words(a.push(c) + b) == cmd_words(a) + cmd_words(b),
        read_cmd(a.push(c) + b).words == cmd_words(a) + read_cmd(b).words,
        read_cmd(a.push(c) + b).word == read_cmd(b).word,
        read_cmd(a.push(c) + b).quoted == read_cmd(b).quoted,
    decreases b.len(),
{
    let all = a.push(c) + b;
    if b.len() == 0 {
        lemma_quotes_are_counted(a);
        assert(all.drop_last() =~= a);
        assert(all.last() == c);
        assert(c != '"');
        assert(cmd_words(a) + read_cmd(b).words =~= cmd_words(a));
        assert(read_cmd(all).words =~= cmd_words(a));
        assert(read_cmd(all).word =~= Seq::<char>::empty());
        assert(cmd_words(a) + cmd_words(b) =~= cmd_words(a));
    } else {
        law_blanks_separate_words(a, c, b.drop_last());
        assert(all.drop_last() =~= a.push(c) + b.drop_last());
        assert(all.last() == b.last());
        let w = cmd_words(a);
        let before = read_cmd(b.drop_last());
        assert((w + before.words).push(before.word) =~= w + before.words.push(before.word));
        assert(read_cmd(all).words =~= w + read_cmd(b).words);
        let end = read_cmd(b);
        assert((w + end.words).push(end.word) =~= w + end.words.push(end.word));
        assert(cmd_words(all) =~= w + cmd_words(b));
    }
}

/// A text without white space outside of quotations is one word: all of its characters but the
/// quotes, in order. Where nothing is left there is no word.
pub proof fn law_text_without_blanks_is_one_word(s: Seq<char>)
    requires
        forall|i: int|
            0 <= i < s.len() && is_space(#[trigger] s[i]) ==> quotes(s.take(i)) % 2 == 1,
    ensures
        unquoted(s).len() > 0 ==> cmd_words(s) == seq![unquoted(s)],
        unquoted(s).len() == 0 ==> cmd_words(s).len() == 0,
        read_cmd(s).words.len() == 0,
        read_cmd(s).word == unquoted(s),
    decreases s.len(),
{
    reveal(Seq::filter);
    if s.len() > 0 {
        let init = s.drop_last();
        assert forall|i: int| 0 <= i < init.len() && is_space(#[trigger] init[i]) implies quotes(
            init.take(i),
        ) % 2 == 1 by {
            assert(init[i] == s[i]);
            assert(init.take(i) =~= s.take(i));
        }
        law_text_without_blanks_is_one_word(init);
        lemma_quotes_are_counted(init);
        assert(s.take(s.len() - 1) =~= init);
        assert(s.last() == s[s.len() - 1]);
    }
    assert(read_cmd(s).words =~= Seq::empty());
    assert(unquoted(s).len() > 0 ==> cmd_words(s) =~= seq![unquoted(s)]);
}

/// The address is the server's, followed by the token as its query where there is one: nothing of
/// either is lost, and without a token nothing is added.
pub proof fn law_address_carries_the_token(server: Seq<char>, token: Seq<char>)
    ensures
        token.len() == 0 ==> ws_url(server, token) == server,
        token.len() > 0 ==> {
            let url = ws_url(server, token);
            &&& url.len() == server.len() + 8 + token.len()
            &&& url.take(server.len() as int) == server
            &&& url.skip(server.len() as int + 8) == token
            &&& url.subrange(server.len() as int, server.len() as int + 8) == "/?token="@
        },
{
    reveal_strlit("/?token=");
    let url = server + "/?token="@ + token;
    assert(url.take(server.len() as int) =~= server);
    assert(url.skip(server.len() as int + 8) =~= token);
    assert(url.subrange(server.len() as int, server.len() as int + 8) =~= "/?token="@);
}

} // verus!
