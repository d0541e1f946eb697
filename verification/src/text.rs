//! Text: characters, decimal numbers, trimming, replacing, order.

use vstd::prelude::*;
use vstd::string::*;

verus! {

/// Whether two texts are the same.
pub fn same_text(a: &str, b: &str) -> (r: bool)
    ensures
        r == (a@ == b@),
{
    a.to_owned() == b.to_owned()
}

/// `String::push` appends the character.
pub assume_specification[ String::push ](s: &mut String, c: char)
    ensures
        final(s)@ == old(s)@.push(c),
;

/// The characters of a text, one by one.
pub fn chars_of(s: &str) -> (r: Vec<char>)
    ensures
        r@ == s@,
{
    let mut out: Vec<char> = Vec::new();
    for c in it: s.chars()
        invariant
            it.seq() == s@,
            out@ == s@.take(it.index() as int),
    {
        out.push(c);
        assert(out@ =~= s@.take(it.index() as int + 1));
    }
    assert(s@.take(s@.len() as int) =~= s@);
    out
}

/// The text of `n` characters from place `from` on.
pub fn text_of(chars: &Vec<char>, from: usize, to: usize) -> (r: String)
    requires
        from <= to <= chars@.len(),
    ensures
        r@ == chars@.subrange(from as int, to as int),
{
    let mut out = String::new();
    let mut i: usize = from;
    while i < to
        invariant
            from <= i <= to <= chars@.len(),
            out@ == chars@.subrange(from as int, i as int),
        decreases to - i,
    {
        out.push(chars[i]);
        i = i + 1;
        assert(out@ =~= chars@.subrange(from as int, i as int));
    }
    out
}

/// An optional text, as its characters.
pub open spec fn opt_text(o: Option<String>) -> Option<Seq<char>> {
    match o {
        Some(s) => Some(s@),
        None => None,
    }
}

/// The texts of a list, as their characters.
pub open spec fn texts(v: Seq<String>) -> Seq<Seq<char>> {
    Seq::new(v.len(), |i: int| v[i]@)
}

/// Adding a text adds its characters.
pub proof fn lemma_texts_push(v: Seq<String>, s: String)
    ensures
        texts(v.push(s)) == texts(v).push(s@),
{
    assert(texts(v.push(s)) =~= texts(v).push(s@));
}

/// Copies a list of texts.
pub fn copy_texts(v: &Vec<String>) -> (r: Vec<String>)
    ensures
        texts(r@) == texts(v@),
{
    let mut out: Vec<String> = Vec::new();
    let mut i: usize = 0;
    assert(texts(out@) =~= texts(v@).take(0));
    while i < v.len()
        invariant
            i <= v@.len(),
            texts(out@) == texts(v@).take(i as int),
        decreases v.len() - i,
    {
        let s = v[i].clone();
        proof {
            lemma_texts_push(out@, s);
        }
        out.push(s);
        i = i + 1;
        assert(texts(out@) =~= texts(v@).take(i as int));
    }
    assert(texts(v@).take(i as int) =~= texts(v@));
    out
}

/// One text after the other.
pub fn join2(a: &str, b: &str) -> (r: String)
    ensures
        r@ == a@ + b@,
{
    let mut s = a.to_owned();
    s.append(b);
    s
}

/// Three texts in a row.
pub fn join3(a: &str, b: &str, c: &str) -> (r: String)
    ensures
        r@ == a@ + b@ + c@,
{
    let mut s = join2(a, b);
    s.append(c);
    s
}

/// The character for a decimal digit.
pub open spec fn digit(d: int) -> char {
    if d == 0 {
        '0'
    } else if d == 1 {
        '1'
    } else if d == 2 {
        '2'
    } else if d == 3 {
        '3'
    } else if d == 4 {
        '4'
    } else if d == 5 {
        '5'
    } else if d == 6 {
        '6'
    } else if d == 7 {
        '7'
    } else if d == 8 {
        '8'
    } else {
        '9'
    }
}

/// The decimal digits of a number, without leading zeros.
pub open spec fn decimal(n: nat) -> Seq<char>
    decreases n,
{
    if n < 10 {
        seq![digit(n as int)]
    } else {
        decimal(n / 10).push(digit((n % 10) as int))
    }
}

/// The decimal text of an integer.
pub open spec fn signed_decimal(n: int) -> Seq<char> {
    if n < 0 {
        seq!['-'] + decimal((-n) as nat)
    } else {
        decimal(n as nat)
    }
}

/// The decimal digits of a number, with zeros in front up to `width` of them.
pub open spec fn padded(n: nat, width: nat) -> Seq<char> {
    if decimal(n).len() < width {
        Seq::new((width - decimal(n).len()) as nat, |i: int| '0') + decimal(n)
    } else {
        decimal(n)
    }
}

/// The character for a digit.
fn digit_char(d: u64) -> (r: char)
    requires
        d < 10,
    ensures
        r == digit(d as int),
{
    if d == 0 {
        '0'
    } else if d == 1 {
        '1'
    } else if d == 2 {
        '2'
    } else if d == 3 {
        '3'
    } else if d == 4 {
        '4'
    } else if d == 5 {
        '5'
    } else if d == 6 {
        '6'
    } else if d == 7 {
        '7'
    } else if d == 8 {
        '8'
    } else {
        '9'
    }
}

/// Distinct digits have distinct characters, and no digit is a minus sign or a hyphen.
pub proof fn lemma_digit_injective(a: int, b: int)
    requires
        0 <= a < 10,
        0 <= b < 10,
    ensures
        digit(a) == digit(b) ==> a == b,
        digit(a) != '-',
{
}

/// A decimal text determines its number and has only digits.
pub proof fn lemma_decimal_injective(a: nat, b: nat)
    ensures
        decimal(a) == decimal(b) ==> a == b,
    decreases a,
{
    if decimal(a) == decimal(b) {
        assert(decimal(a).len() >= 1 && decimal(b).len() >= 1);
        lemma_digit_injective((a % 10) as int, (b % 10) as int);
        assert(decimal(a).last() == digit((a % 10) as int));
        assert(decimal(b).last() == digit((b % 10) as int));
        lemma_decimal_len(a);
        lemma_decimal_len(b);
        if a >= 10 {
            assert(decimal(a).drop_last() =~= decimal(a / 10));
            assert(decimal(b).drop_last() =~= decimal(b / 10));
            lemma_decimal_injective(a / 10, b / 10);
        }
    }
}

/// A number below ten has one digit, every other more than one.
proof fn lemma_decimal_len(n: nat)
    ensures
        decimal(n).len() >= 1,
        decimal(n).len() == 1 <==> n < 10,
    decreases n,
{
    if n >= 10 {
        lemma_decimal_len(n / 10);
    }
}

/// Every character of a decimal text is a digit.
pub proof fn lemma_decimal_digits(n: nat)
    ensures
        decimal(n).len() >= 1,
        forall|i: int| 0 <= i < decimal(n).len() ==> (#[trigger] decimal(n)[i]) != '-',
    decreases n,
{
    if n >= 10 {
        lemma_decimal_digits(n / 10);
    }
}

/// The decimal text of a number.
pub fn decimal_text(n: u64) -> (r: String)
    ensures
        r@ == decimal(n as nat),
    decreases n,
{
    if n < 10 {
        let mut s = String::new();
        s.push(digit_char(n));
        assert(s@ =~= seq![digit(n as int)]);
        s
    } else {
        let mut s = decimal_text(n / 10);
        s.push(digit_char(n % 10));
        s
    }
}

/// The decimal text of a number of 128 bits.
pub fn wide_decimal_text(n: u128) -> (r: String)
    ensures
        r@ == decimal(n as nat),
    decreases n,
{
    if n < 10 {
        let mut s = String::new();
        s.push(digit_char(n as u64));
        assert(s@ =~= seq![digit(n as int)]);
        s
    } else {
        let mut s = wide_decimal_text(n / 10);
        s.push(digit_char((n % 10) as u64));
        s
    }
}

/// The decimal text of a signed number.
pub fn signed_text(n: i64) -> (r: String)
    ensures
        r@ == signed_decimal(n as int),
{
    if n < 0 {
        let mut s = String::new();
        s.push('-');
        assert(s@ =~= seq!['-']);
        s.append(decimal_text(magnitude(n)).as_str());
        s
    } else {
        decimal_text(n as u64)
    }
}

/// The decimal text of a number, with zeros in front up to `width` digits.
pub fn padded_text(n: u64, width: usize) -> (r: String)
    ensures
        r@ == padded(n as nat, width as nat),
{
    let digits = decimal_text(n);
    let len: usize = digits.as_str().unicode_len();
    if len < width {
        let mut s = String::new();
        let mut i: usize = 0;
        while i < width - len
            invariant
                len < width,
                i <= width - len,
                s@ == Seq::new(i as nat, |k: int| '0'),
            decreases width - len - i,
        {
            s.push('0');
            i = i + 1;
            assert(s@ =~= Seq::new(i as nat, |k: int| '0'));
        }
        s.append(digits.as_str());
        assert(s@ =~= padded(n as nat, width as nat));
        s
    } else {
        digits
    }
}

/// The decimal digits of an integer, with zeros in front up to `width` characters; a sign
/// comes before the zeros and counts as one.
pub open spec fn signed_padded(n: int, width: nat) -> Seq<char> {
    if n < 0 {
        seq!['-'] + padded(
            (-n) as nat,
            if width > 0 {
                (width - 1) as nat
            } else {
                0
            },
        )
    } else {
        padded(n as nat, width)
    }
}

/// The magnitude of a negative number.
fn magnitude(n: i64) -> (r: u64)
    requires
        n < 0,
    ensures
        r == -n,
{
    if n == i64::MIN {
        9223372036854775808u64
    } else {
        (-n) as u64
    }
}

/// The decimal text of an integer, with zeros in front up to `width` characters.
pub fn signed_padded_text(n: i64, width: usize) -> (r: String)
    ensures
        r@ == signed_padded(n as int, width as nat),
{
    if n < 0 {
        let rest: usize = if width > 0 {
            width - 1
        } else {
            0
        };
        let digits = padded_text(magnitude(n), rest);
        let mut s = String::new();
        s.push('-');
        assert(s@ =~= seq!['-']);
        s.append(digits.as_str());
        s
    } else {
        padded_text(n as u64, width)
    }
}

/// The value of a digit.
pub open spec fn digit_value(c: char) -> int {
    c as int - '0' as int
}

/// Whether a character is a digit.
pub open spec fn is_digit(c: char) -> bool {
    '0' as int <= c as int <= '9' as int
}

/// The number that digits write.
pub open spec fn number_of(s: Seq<char>) -> int
    decreases s.len(),
{
    if s.len() == 0 {
        0
    } else {
        number_of(s.drop_last()) * 10 + digit_value(s.last())
    }
}

/// The digits of a number are digits, and write it.
pub proof fn lemma_number_of_decimal(n: nat)
    ensures
        number_of(decimal(n)) == n,
        forall|i: int| 0 <= i < decimal(n).len() ==> is_digit(#[trigger] decimal(n)[i]),
    decreases n,
{
    reveal_with_fuel(number_of, 2);
    if n < 10 {
        assert(decimal(n).drop_last() =~= Seq::empty());
    } else {
        lemma_number_of_decimal(n / 10);
        assert(decimal(n).drop_last() =~= decimal(n / 10));
    }
}

/// Zeros in front do not change a number.
pub proof fn lemma_number_of_zeros(k: nat, s: Seq<char>)
    ensures
        number_of(Seq::new(k, |i: int| '0') + s) == number_of(s),
    decreases k + s.len(),
{
    let z = Seq::new(k, |i: int| '0');
    let t = z + s;
    if s.len() > 0 {
        assert(t.drop_last() =~= z + s.drop_last());
        lemma_number_of_zeros(k, s.drop_last());
    } else if k > 0 {
        let z1 = Seq::new((k - 1) as nat, |i: int| '0');
        assert(t.drop_last() =~= z1 + s);
        lemma_number_of_zeros((k - 1) as nat, s);
        assert(t.last() == '0');
    } else {
        assert(t =~= s);
    }
}

/// A number with zeros in front has the width that was asked for, consists of digits, and
/// is written by them.
pub proof fn lemma_padded(n: nat, width: nat)
    requires
        decimal(n).len() <= width,
    ensures
        padded(n, width).len() == width,
        number_of(padded(n, width)) == n,
        forall|i: int| 0 <= i < width ==> is_digit(#[trigger] padded(n, width)[i]),
{
    lemma_number_of_decimal(n);
    if decimal(n).len() < width {
        let k = (width - decimal(n).len()) as nat;
        lemma_number_of_zeros(k, decimal(n));
        let z = Seq::new(k, |i: int| '0');
        assert(padded(n, width) =~= z + decimal(n));
        assert forall|i: int| 0 <= i < width implies is_digit(#[trigger] padded(n, width)[i]) by {
            if i >= k {
                assert(is_digit(decimal(n)[i - k]));
            }
        }
    }
}

/// The parts of a text between the places where a character stands.
pub open spec fn split(s: Seq<char>, c: char) -> Seq<Seq<char>>
    decreases s.len(),
{
    if s.len() == 0 {
        seq![Seq::empty()]
    } else {
        let rest = split(s.drop_first(), c);
        if s[0] == c {
            seq![Seq::<char>::empty()] + rest
        } else {
            seq![seq![s[0]] + rest[0]] + rest.drop_first()
        }
    }
}

/// A text in which a character does not stand is one part.
pub proof fn lemma_split_one(s: Seq<char>, c: char)
    requires
        !s.contains(c),
    ensures
        split(s, c) == seq![s],
    decreases s.len(),
{
    if s.len() == 0 {
        assert(s =~= Seq::empty());
    } else {
        assert(s.contains(s[0]));
        lemma_drop_first_lacks(s, c);
        lemma_split_one(s.drop_first(), c);
        assert(seq![s[0]] + s.drop_first() =~= s);
        assert(split(s, c) =~= seq![s]);
    }
}

/// What is not in a text is not behind its first character.
proof fn lemma_drop_first_lacks(s: Seq<char>, c: char)
    requires
        s.len() > 0,
        !s.contains(c),
    ensures
        !s.drop_first().contains(c),
{
    if s.drop_first().contains(c) {
        let i = choose|i: int| 0 <= i < s.drop_first().len() && s.drop_first()[i] == c;
        assert(s[i + 1] == c);
    }
}

/// What comes before the first such character is the first part, and the parts of what comes
/// behind it follow.
pub proof fn lemma_split_first(a: Seq<char>, c: char, b: Seq<char>)
    requires
        !a.contains(c),
    ensures
        split(a + seq![c] + b, c) == seq![a] + split(b, c),
    decreases a.len(),
{
    let s = a + seq![c] + b;
    if a.len() == 0 {
        assert(s.drop_first() =~= b);
        assert(a =~= Seq::empty());
    } else {
        assert(a.contains(a[0]));
        lemma_drop_first_lacks(a, c);
        lemma_split_first(a.drop_first(), c, b);
        assert(s.drop_first() =~= a.drop_first() + seq![c] + b);
        assert(seq![a[0]] + a.drop_first() =~= a);
        assert(split(s, c) =~= seq![a] + split(b, c));
    }
}

/// White space: the characters with Unicode's `White_Space` property.
pub open spec fn is_space(c: char) -> bool {
    let u = c as u32;
    ||| 0x9 <= u <= 0xd
    ||| u == 0x20
    ||| u == 0x85
    ||| u == 0xa0
    ||| u == 0x1680
    ||| 0x2000 <= u <= 0x200a
    ||| u == 0x2028
    ||| u == 0x2029
    ||| u == 0x202f
    ||| u == 0x205f
    ||| u == 0x3000
}

/// Whether a character is white space.
pub fn char_is_space(c: char) -> (r: bool)
    ensures
        r == is_space(c),
{
    let u: u32 = c as u32;
    (0x9 <= u && u <= 0xd) || u == 0x20 || u == 0x85 || u == 0xa0 || u == 0x1680 || (0x2000 <= u
        && u <= 0x200a) || u == 0x2028 || u == 0x2029 || u == 0x202f || u == 0x205f || u == 0x3000
}

/// The text without its leading white space.
pub open spec fn trimmed_start(s: Seq<char>) -> Seq<char>
    decreases s.len(),
{
    if s.len() > 0 && is_space(s[0]) {
        trimmed_start(s.drop_first())
    } else {
        s
    }
}

/// The text without its trailing white space.
pub open spec fn trimmed_end(s: Seq<char>) -> Seq<char>
    decreases s.len(),
{
    if s.len() > 0 && is_space(s.last()) {
        trimmed_end(s.drop_last())
    } else {
        s
    }
}

/// The text without the white space around it.
pub open spec fn trimmed(s: Seq<char>) -> Seq<char> {
    trimmed_end(trimmed_start(s))
}

/// Removes the white space around a text.
pub fn trim(s: &str) -> (r: String)
    ensures
        r@ == trimmed(s@),
{
    let chars = chars_of(s);
    let mut from: usize = 0;
    assert(s@.skip(0) =~= s@);
    while from < chars.len() && char_is_space(chars[from])
        invariant
            from <= chars@.len(),
            chars@ == s@,
            trimmed_start(s@) == trimmed_start(s@.skip(from as int)),
        decreases chars.len() - from,
    {
        assert(s@.skip(from as int).drop_first() =~= s@.skip(from as int + 1));
        from = from + 1;
    }
    assert(trimmed_start(s@) == s@.skip(from as int));
    let mut to: usize = chars.len();
    assert(s@.skip(from as int) =~= s@.subrange(from as int, to as int));
    while from < to && char_is_space(chars[to - 1])
        invariant
            from <= to <= chars@.len(),
            chars@ == s@,
            trimmed(s@) == trimmed_end(s@.subrange(from as int, to as int)),
        decreases to,
    {
        assert(s@.subrange(from as int, to as int).drop_last() =~= s@.subrange(
            from as int,
            to as int - 1,
        ));
        to = to - 1;
    }
    text_of(&chars, from, to)
}

/// How many bytes a character has in UTF-8.
pub open spec fn utf8_len(c: char) -> nat {
    if (c as u32) < 0x80 {
        1
    } else if (c as u32) < 0x800 {
        2
    } else if (c as u32) < 0x10000 {
        3
    } else {
        4
    }
}

/// The number of the line that a text ends in, counted from 1.
pub open spec fn line_number(s: Seq<char>) -> nat
    decreases s.len(),
{
    if s.len() == 0 {
        1
    } else if s.last() == '\n' {
        line_number(s.drop_last()) + 1
    } else {
        line_number(s.drop_last())
    }
}

/// How many bytes the line has that a text ends in.
pub open spec fn column(s: Seq<char>) -> nat
    decreases s.len(),
{
    if s.len() == 0 || s.last() == '\n' {
        0
    } else {
        column(s.drop_last()) + utf8_len(s.last())
    }
}

/// The line and the column in which a text ends, white space aside.
pub fn end_position(text: &str) -> (r: (u128, u128))
    ensures
        r.0 == line_number(trimmed_end(text@)),
        r.1 == column(trimmed_end(text@)),
{
    let chars = chars_of(text);
    let mut n: usize = chars.len();
    assert(chars@.take(n as int) =~= text@);
    while n > 0 && char_is_space(chars[n - 1])
        invariant
            n <= chars@.len(),
            trimmed_end(text@) == trimmed_end(chars@.take(n as int)),
        decreases n,
    {
        assert(chars@.take(n as int).drop_last() =~= chars@.take(n as int - 1));
        n = n - 1;
    }
    assert(trimmed_end(text@) =~= chars@.take(n as int));
    let mut line: u128 = 1;
    let mut col: u128 = 0;
    let mut i: usize = 0;
    while i < n
        invariant
            i <= n <= chars@.len(),
            line == line_number(chars@.take(i as int)),
            col == column(chars@.take(i as int)),
            line <= i + 1,
            col <= 4 * i,
        decreases n - i,
    {
        let c = chars[i];
        let u: u32 = c as u32;
        assert(chars@.take(i as int + 1).drop_last() =~= chars@.take(i as int));
        if c == '\n' {
            line = line + 1;
            col = 0;
        } else if u < 0x80 {
            col = col + 1;
        } else if u < 0x800 {
            col = col + 2;
        } else if u < 0x10000 {
            col = col + 3;
        } else {
            col = col + 4;
        }
        i = i + 1;
    }
    (line, col)
}

/// Whether `pat` stands in `s` at place `i`.
pub open spec fn stands_at(s: Seq<char>, pat: Seq<char>, i: int) -> bool {
    0 <= i && i + pat.len() <= s.len() && s.subrange(i, i + pat.len()) == pat
}

/// `s` with every occurrence of `pat` replaced by `by`, found from left to right, each
/// search going on behind the last occurrence.
pub open spec fn replaced(s: Seq<char>, pat: Seq<char>, by: Seq<char>) -> Seq<char>
    decreases s.len(),
{
    if s.len() == 0 || pat.len() == 0 {
        s
    } else if stands_at(s, pat, 0) {
        by + replaced(s.skip(pat.len() as int), pat, by)
    } else {
        seq![s[0]] + replaced(s.skip(1), pat, by)
    }
}

/// Whether `pat` stands in `chars` at place `i`.
fn matches_at(chars: &Vec<char>, pat: &Vec<char>, i: usize) -> (r: bool)
    requires
        i <= chars@.len(),
    ensures
        r == stands_at(chars@, pat@, i as int),
{
    if pat.len() > chars.len() - i {
        return false;
    }
    let mut k: usize = 0;
    while k < pat.len()
        invariant
            i + pat@.len() <= chars@.len(),
            chars@.len() <= usize::MAX,
            k <= pat@.len(),
            forall|j: int| 0 <= j < k ==> chars@[i + j] == #[trigger] pat@[j],
        decreases pat.len() - k,
    {
        if chars[i + k] != pat[k] {
            assert(chars@.subrange(i as int, i + pat@.len())[k as int] != pat@[k as int]);
            return false;
        }
        k = k + 1;
    }
    assert(chars@.subrange(i as int, i + pat@.len()) =~= pat@);
    true
}

/// Replaces every occurrence of a text that is not empty.
pub fn replace_all(s: &str, pat: &str, by: &str) -> (r: String)
    requires
        pat@.len() > 0,
    ensures
        r@ == replaced(s@, pat@, by@),
{
    let chars = chars_of(s);
    let pat_chars = chars_of(pat);
    let mut out = String::new();
    let mut i: usize = 0;
    assert(s@.skip(0) =~= s@);
    assert(replaced(s@, pat@, by@) =~= out@ + replaced(s@, pat@, by@));
    while i < chars.len()
        invariant
            i <= chars@.len(),
            chars@ == s@,
            pat_chars@ == pat@,
            pat@.len() > 0,
            replaced(s@, pat@, by@) == out@ + replaced(s@.skip(i as int), pat@, by@),
        decreases chars.len() - i,
    {
        let ghost rest = s@.skip(i as int);
        if matches_at(&chars, &pat_chars, i) {
            assert(rest.subrange(0, pat@.len() as int) =~= s@.subrange(
                i as int,
                i + pat@.len(),
            ));
            out.append(by);
            i = i + pat_chars.len();
            assert(rest.skip(pat@.len() as int) =~= s@.skip(i as int));
        } else {
            assert(stands_at(rest, pat@, 0) ==> rest.subrange(0, pat@.len() as int) =~= s@.subrange(
                i as int,
                i + pat@.len(),
            ));
            let ghost before = out@;
            out.push(chars[i]);
            i = i + 1;
            assert(rest.skip(1) =~= s@.skip(i as int));
            assert(before + (seq![rest[0]] + replaced(rest.skip(1), pat@, by@)) =~= out@ + replaced(
                rest.skip(1),
                pat@,
                by@,
            ));
        }
        assert(replaced(s@, pat@, by@) =~= out@ + replaced(s@.skip(i as int), pat@, by@));
    }
    assert(replaced(s@.skip(i as int), pat@, by@) =~= Seq::empty());
    out
}

/// The place of the first line break, or the length where there is none.
pub open spec fn line_end(s: Seq<char>) -> int
    decreases s.len(),
{
    if s.len() == 0 || s[0] == '\n' {
        0
    } else {
        1 + line_end(s.drop_first())
    }
}

/// A line without the carriage return at its end.
pub open spec fn without_return(s: Seq<char>) -> Seq<char> {
    if s.len() > 0 && s.last() == '\r' {
        s.drop_last()
    } else {
        s
    }
}

/// The lines of a text: what stands before each line break (without a carriage return
/// before it), and what stands behind the last one, if anything does.
pub open spec fn lines_of(s: Seq<char>) -> Seq<Seq<char>>
    decreases s.len(),
{
    let n = line_end(s);
    if s.len() == 0 {
        Seq::empty()
    } else if 0 <= n < s.len() {
        seq![without_return(s.take(n))] + lines_of(s.skip(n + 1))
    } else {
        seq![s]
    }
}

/// Every line is ended by a line break.
pub open spec fn whole_lines(s: Seq<char>) -> bool {
    s.len() == 0 || s.last() == '\n'
}

/// The first line break comes after characters that are none.
proof fn lemma_line_end(s: Seq<char>)
    ensures
        0 <= line_end(s) <= s.len(),
        forall|i: int| 0 <= i < line_end(s) ==> s[i] != '\n',
        line_end(s) < s.len() ==> s[line_end(s)] == '\n',
    decreases s.len(),
{
    if s.len() > 0 && s[0] != '\n' {
        let rest = s.drop_first();
        lemma_line_end(rest);
        assert forall|i: int| 0 <= i < line_end(s) implies s[i] != '\n' by {
            if i > 0 {
                assert(rest[i - 1] == s[i]);
            }
        }
    }
}

/// The first line break is where the only characters before it are none.
proof fn lemma_line_end_unique(s: Seq<char>, n: int)
    requires
        0 <= n <= s.len(),
        forall|i: int| 0 <= i < n ==> s[i] != '\n',
        n < s.len() ==> s[n] == '\n',
    ensures
        line_end(s) == n,
{
    lemma_line_end(s);
    if line_end(s) < n {
        assert(s[line_end(s)] != '\n');
    }
    if n < line_end(s) {
        assert(s[n] != '\n');
    }
}

/// A line that is appended to whole lines becomes the last line.
pub proof fn lemma_lines_append(s: Seq<char>, l: Seq<char>)
    requires
        whole_lines(s),
        !l.contains('\n'),
        !l.contains('\r'),
    ensures
        lines_of(s + l.push('\n')) == lines_of(s).push(l),
        whole_lines(s + l.push('\n')),
    decreases s.len(),
{
    let t = s + l.push('\n');
    assert(t.last() == '\n');
    if s.len() == 0 {
        assert(t =~= l.push('\n'));
        assert forall|i: int| 0 <= i < l.len() implies t[i] != '\n' by {
            assert(l.contains(l[i]));
        }
        lemma_line_end_unique(t, l.len() as int);
        assert(t.take(l.len() as int) =~= l);
        if l.len() > 0 {
            assert(l.contains(l.last()));
        }
        let rest = t.skip(l.len() as int + 1);
        assert(rest.len() == 0);
        assert(lines_of(rest) =~= Seq::empty());
        assert(lines_of(s) =~= Seq::empty());
        assert(lines_of(t) == seq![without_return(t.take(l.len() as int))] + lines_of(rest));
        assert(lines_of(t) =~= lines_of(s).push(l));
    } else {
        let n = line_end(s);
        lemma_line_end(s);
        assert(n < s.len()) by {
            if n == s.len() {
                assert(s[s.len() - 1] != '\n');
            }
        }
        assert forall|i: int| 0 <= i < n implies t[i] != '\n' by {
            assert(t[i] == s[i]);
        }
        lemma_line_end_unique(t, n);
        assert(t.take(n) =~= s.take(n));
        let rest = s.skip(n + 1);
        assert(t.skip(n + 1) =~= rest + l.push('\n'));
        assert(whole_lines(rest)) by {
            if rest.len() > 0 {
                assert(rest.last() == s.last());
            }
        }
        lemma_lines_append(rest, l);
        assert(lines_of(t) =~= lines_of(s).push(l));
    }
}

/// The lines of a text.
pub fn split_lines(s: &str) -> (r: Vec<String>)
    ensures
        Seq::new(r@.len(), |i: int| r@[i]@) == lines_of(s@),
{
    let chars = chars_of(s);
    let mut out: Vec<String> = Vec::new();
    let mut from: usize = 0;
    assert(s@.skip(0) =~= s@);
    assert(lines_of(s@) =~= Seq::new(out@.len(), |i: int| out@[i]@) + lines_of(s@));
    while from < chars.len()
        invariant
            from <= chars@.len(),
            chars@ == s@,
            lines_of(s@) == Seq::new(out@.len(), |i: int| out@[i]@) + lines_of(s@.skip(from as int)),
        decreases chars.len() - from,
    {
        let ghost rest = s@.skip(from as int);
        let ghost before = Seq::new(out@.len(), |i: int| out@[i]@);
        let mut to: usize = from;
        while to < chars.len() && chars[to] != '\n'
            invariant
                from <= to <= chars@.len(),
                chars@ == s@,
                forall|i: int| from <= i < to ==> chars@[i] != '\n',
            decreases chars.len() - to,
        {
            to = to + 1;
        }
        proof {
            assert forall|i: int| 0 <= i < to - from implies rest[i] != '\n' by {
                assert(rest[i] == chars@[from + i]);
            }
            lemma_line_end_unique(rest, to - from);
            assert(rest.take(to - from) =~= s@.subrange(from as int, to as int));
        }
        if to < chars.len() {
            let end: usize = if to > from && chars[to - 1] == '\r' {
                to - 1
            } else {
                to
            };
            let line = text_of(&chars, from, end);
            proof {
                assert(line@ =~= without_return(rest.take(to - from)));
                assert(rest.skip(to - from + 1) =~= s@.skip(to as int + 1));
            }
            out.push(line);
            assert(Seq::new(out@.len(), |i: int| out@[i]@) =~= before.push(line@));
            from = to + 1;
            assert(before + lines_of(rest) =~= before.push(line@) + lines_of(s@.skip(from as int)));
        } else {
            let line = text_of(&chars, from, to);
            assert(line@ =~= rest);
            out.push(line);
            assert(Seq::new(out@.len(), |i: int| out@[i]@) =~= before.push(line@));
            from = to;
            assert(s@.skip(from as int) =~= Seq::empty());
            assert(before + lines_of(rest) =~= before.push(line@) + lines_of(s@.skip(from as int)));
        }
    }
    assert(lines_of(s@.skip(from as int)) =~= Seq::empty());
    assert(lines_of(s@) =~= Seq::new(out@.len(), |i: int| out@[i]@));
    out
}

/// Lexicographic order of texts by their characters' code points (for UTF-8, the order of
/// the bytes as well).
pub open spec fn text_less(a: Seq<char>, b: Seq<char>) -> bool
    decreases a.len(),
{
    if b.len() == 0 {
        false
    } else if a.len() == 0 {
        true
    } else if a[0] != b[0] {
        (a[0] as int) < (b[0] as int)
    } else {
        text_less(a.drop_first(), b.drop_first())
    }
}

/// The order is strict and total.
pub proof fn lemma_text_less_total(a: Seq<char>, b: Seq<char>)
    ensures
        !(text_less(a, b) && text_less(b, a)),
        a == b ==> !text_less(a, b),
        a != b ==> text_less(a, b) || text_less(b, a),
    decreases a.len(),
{
    if a.len() > 0 && b.len() > 0 {
        lemma_text_less_total(a.drop_first(), b.drop_first());
        if a[0] == b[0] && a.drop_first() == b.drop_first() {
            assert(a =~= seq![a[0]] + a.drop_first());
            assert(b =~= seq![b[0]] + b.drop_first());
        }
    } else if a.len() == 0 && b.len() == 0 {
        assert(a =~= b);
    }
}

/// The order is transitive.
pub proof fn lemma_text_less_transitive(a: Seq<char>, b: Seq<char>, c: Seq<char>)
    requires
        text_less(a, b),
        text_less(b, c),
    ensures
        text_less(a, c),
    decreases a.len(),
{
    if a.len() > 0 && b.len() > 0 && c.len() > 0 && a[0] == b[0] && b[0] == c[0] {
        lemma_text_less_transitive(a.drop_first(), b.drop_first(), c.drop_first());
    }
}

/// A common beginning does not change the order.
pub proof fn lemma_text_less_prefix(p: Seq<char>, a: Seq<char>, b: Seq<char>)
    ensures
        text_less(p + a, p + b) == text_less(a, b),
    decreases p.len(),
{
    if p.len() == 0 {
        assert(p + a =~= a);
        assert(p + b =~= b);
    } else {
        lemma_text_less_prefix(p.drop_first(), a, b);
        assert((p + a).drop_first() =~= p.drop_first() + a);
        assert((p + b).drop_first() =~= p.drop_first() + b);
    }
}

/// What follows texts of the same length does not change their order.
pub proof fn lemma_text_less_extend(a: Seq<char>, u: Seq<char>, b: Seq<char>, v: Seq<char>)
    requires
        a.len() == b.len(),
        text_less(a, b),
    ensures
        text_less(a + u, b + v),
    decreases a.len(),
{
    if a.len() > 0 && a[0] == b[0] {
        lemma_text_less_extend(a.drop_first(), u, b.drop_first(), v);
        assert((a + u).drop_first() =~= a.drop_first() + u);
        assert((b + v).drop_first() =~= b.drop_first() + v);
    }
}

/// Numbers with as many digits are in the order of their texts.
pub proof fn lemma_decimal_less(a: nat, b: nat)
    requires
        a < b,
        decimal(a).len() == decimal(b).len(),
    ensures
        text_less(decimal(a), decimal(b)),
    decreases b,
{
    lemma_decimal_len(a);
    lemma_decimal_len(b);
    if b < 10 {
        assert(decimal(a)[0] == digit(a as int));
        assert(decimal(b)[0] == digit(b as int));
    } else {
        let x = decimal(a / 10);
        let y = decimal(b / 10);
        let u = seq![digit((a % 10) as int)];
        let v = seq![digit((b % 10) as int)];
        assert(decimal(a) =~= x + u);
        assert(decimal(b) =~= y + v);
        if a / 10 < b / 10 {
            lemma_decimal_less(a / 10, b / 10);
            lemma_text_less_extend(x, u, y, v);
        } else {
            assert(a / 10 == b / 10);
            lemma_text_less_prefix(x, u, v);
        }
    }
}

/// Ten times ten times ten, and so on.
pub open spec fn ten_to(k: nat) -> nat
    decreases k,
{
    if k == 0 {
        1
    } else {
        10 * ten_to((k - 1) as nat)
    }
}

/// A number that is small enough has no more digits than that.
pub proof fn lemma_decimal_width(n: nat, k: nat)
    requires
        k >= 1,
        n < ten_to(k),
    ensures
        decimal(n).len() <= k,
    decreases k,
{
    reveal_with_fuel(ten_to, 2);
    if n >= 10 {
        lemma_decimal_width(n / 10, (k - 1) as nat);
    }
}

/// A number of 64 bits has twenty digits at most.
pub proof fn lemma_decimal_width_u64(n: u64)
    ensures
        decimal(n as nat).len() <= 20,
{
    reveal_with_fuel(ten_to, 21);
    lemma_decimal_width(n as nat, 20);
}

/// The digits of a number with zeros in front are those of its tenth and its last digit.
proof fn lemma_padded_last(n: nat, width: nat)
    requires
        width >= 2,
        decimal(n).len() <= width,
    ensures
        decimal(n / 10).len() <= width - 1,
        padded(n, width) == padded(n / 10, (width - 1) as nat) + seq![digit((n % 10) as int)],
{
    reveal_with_fuel(decimal, 2);
    assert(padded(n, width) =~= padded(n / 10, (width - 1) as nat) + seq![digit((n % 10) as int)]);
}

/// Numbers that are written with as many digits, zeros in front, are in the order of their
/// texts.
pub proof fn lemma_padded_less(a: nat, b: nat, width: nat)
    requires
        a < b,
        decimal(a).len() <= width,
        decimal(b).len() <= width,
    ensures
        padded(a, width).len() == width,
        padded(b, width).len() == width,
        text_less(padded(a, width), padded(b, width)),
    decreases width,
{
    lemma_decimal_len(a);
    lemma_decimal_len(b);
    if width == 1 {
        lemma_decimal_less(a, b);
    } else {
        lemma_padded_last(a, width);
        lemma_padded_last(b, width);
        let w = (width - 1) as nat;
        let u = seq![digit((a % 10) as int)];
        let v = seq![digit((b % 10) as int)];
        if a / 10 < b / 10 {
            lemma_padded_less(a / 10, b / 10, w);
            lemma_text_less_extend(padded(a / 10, w), u, padded(b / 10, w), v);
        } else {
            assert(a / 10 == b / 10);
            lemma_text_less_prefix(padded(a / 10, w), u, v);
        }
    }
}

/// Whether one text comes before another.
pub fn text_before(a: &str, b: &str) -> (r: bool)
    ensures
        r == text_less(a@, b@),
{
    let x = chars_of(a);
    let y = chars_of(b);
    let mut i: usize = 0;
    assert(a@.skip(0) =~= a@ && b@.skip(0) =~= b@);
    while i < x.len() && i < y.len()
        invariant
            i <= x@.len(),
            i <= y@.len(),
            x@ == a@,
            y@ == b@,
            text_less(a@, b@) == text_less(a@.skip(i as int), b@.skip(i as int)),
        decreases x.len() - i,
    {
        if x[i] != y[i] {
            return x[i] < y[i];
        }
        assert(a@.skip(i as int).drop_first() =~= a@.skip(i as int + 1));
        assert(b@.skip(i as int).drop_first() =~= b@.skip(i as int + 1));
        i = i + 1;
    }
    i < y.len()
}

/// A list of texts has the characters of each text, in order.
pub proof fn law_texts_are_taken_one_by_one(v: Seq<String>, i: int, s: String)
    ensures
        texts(v).len() == v.len(),
        0 <= i < v.len() ==> texts(v)[i] == v[i]@,
        opt_text(Some(s)) == Some(s@),
        opt_text(None) is None,
{
}

/// A number is written by its digits: the last one is what is left over ten, the others write the
/// tenth of it, and a number below ten has no others. So no number begins with a needless zero, and
/// reading the digits gives the number.
pub proof fn law_decimal_digits_write_the_number(n: nat)
    ensures
        decimal(n).len() >= 1,
        decimal(n).last() as int == 48 + n % 10,
        n < 10 ==> decimal(n).len() == 1,
        n >= 10 ==> decimal(n).drop_last() == decimal(n / 10),
        number_of(decimal(n)) == n,
        n > 0 ==> decimal(n)[0] != '0',
    decreases n,
{
    lemma_number_of_decimal(n);
    if n >= 10 {
        law_decimal_digits_write_the_number(n / 10);
        assert(decimal(n).drop_last() =~= decimal(n / 10));
        assert(decimal(n)[0] == decimal(n / 10)[0]);
    }
}

/// Each further digit makes a number ten times as great and adds its value.
pub proof fn law_digits_are_read_by_place(s: Seq<char>, c: char)
    ensures
        number_of(Seq::empty()) == 0,
        number_of(s.push(c)) == number_of(s) * 10 + (c as int - 48),
        is_digit(c) <==> 48 <= c as int <= 57,
{
    assert(s.push(c).drop_last() =~= s);
}

/// A negative number has a minus sign before the digits of its magnitude; no other has one.
pub proof fn law_sign_comes_first(n: int)
    ensures
        n >= 0 ==> signed_decimal(n) == decimal(n as nat),
        n < 0 ==> signed_decimal(n).len() == 1 + decimal((-n) as nat).len() && signed_decimal(n)[0]
            == '-' && signed_decimal(n).drop_first() == decimal((-n) as nat),
{
    if n < 0 {
        assert(signed_decimal(n).drop_first() =~= decimal((-n) as nat));
    }
}

/// Padding puts zeros in front, as many as are missing; the digits of the number stay, and a sign
/// counts as one place.
pub proof fn law_padding_puts_zeros_in_front(n: nat, width: nat, i: int, m: int)
    ensures
        padded(n, width).len() == if decimal(n).len() < width {
            width
        } else {
            decimal(n).len()
        },
        padded(n, width).skip(padded(n, width).len() - decimal(n).len()) == decimal(n),
        0 <= i < padded(n, width).len() - decimal(n).len() ==> padded(n, width)[i] == '0',
        m >= 0 ==> signed_padded(m, width) == padded(m as nat, width),
        m < 0 && width > 0 ==> signed_padded(m, width) == seq!['-'] + padded(
            (-m) as nat,
            (width - 1) as nat,
        ),
        m < 0 && width == 0 ==> signed_padded(m, width) == seq!['-'] + padded((-m) as nat, 0),
{
    assert(padded(n, width).skip(padded(n, width).len() - decimal(n).len()) =~= decimal(n));
}

/// Trimming takes white space off both ends, all of it, and nothing else: what it takes off is
/// white space, and what it leaves neither begins nor ends with any.
pub proof fn law_trimming_takes_the_white_space_off(s: Seq<char>) -> (r: (int, int))
    ensures
        0 <= r.0 <= r.1 <= s.len(),
        trimmed(s) == s.subrange(r.0, r.1),
        forall|i: int| 0 <= i < r.0 || r.1 <= i < s.len() ==> is_space(#[trigger] s[i]),
        r.0 < r.1 ==> !is_space(s[r.0]) && !is_space(s[r.1 - 1]),
{
    let from = lemma_trimmed_start(s);
    let rest = s.skip(from);
    let to = lemma_trimmed_end(rest);
    assert(rest.take(to) =~= s.subrange(from, from + to));
    assert forall|i: int| 0 <= i < from || from + to <= i < s.len() implies is_space(
        #[trigger] s[i],
    ) by {
        if i >= from {
            assert(rest[i - from] == s[i]);
        }
    }
    if 0 < to {
        assert(rest[to - 1] == s[from + to - 1]);
    }
    (from, from + to)
}

/// How many characters of white space a text begins with.
proof fn lemma_trimmed_start(s: Seq<char>) -> (n: int)
    ensures
        0 <= n <= s.len(),
        trimmed_start(s) == s.skip(n),
        forall|i: int| 0 <= i < n ==> is_space(#[trigger] s[i]),
        n < s.len() ==> !is_space(s[n]),
    decreases s.len(),
{
    if s.len() > 0 && is_space(s[0]) {
        let rest = s.drop_first();
        let n = lemma_trimmed_start(rest);
        assert(rest.skip(n) =~= s.skip(n + 1));
        assert forall|i: int| 0 <= i < n + 1 implies is_space(#[trigger] s[i]) by {
            if i > 0 {
                assert(rest[i - 1] == s[i]);
            }
        }
        n + 1
    } else {
        assert(s.skip(0) =~= s);
        0
    }
}

/// How many characters a text has before the white space that it ends with.
proof fn lemma_trimmed_end(s: Seq<char>) -> (n: int)
    ensures
        0 <= n <= s.len(),
        trimmed_end(s) == s.take(n),
        forall|i: int| n <= i < s.len() ==> is_space(#[trigger] s[i]),
        n > 0 ==> !is_space(s[n - 1]),
    decreases s.len(),
{
    if s.len() > 0 && is_space(s.last()) {
        let rest = s.drop_last();
        let n = lemma_trimmed_end(rest);
        assert(rest.take(n) =~= s.take(n));
        assert forall|i: int| n <= i < s.len() implies is_space(#[trigger] s[i]) by {
            if i < rest.len() {
                assert(rest[i] == s[i]);
            }
        }
        n
    } else {
        assert(s.take(s.len() as int) =~= s);
        s.len() as int
    }
}

/// The end of a text is trimmed by itself, too.
pub proof fn law_trimming_the_end(s: Seq<char>) -> (n: int)
    ensures
        0 <= n <= s.len(),
        trimmed_end(s) == s.take(n),
        forall|i: int| n <= i < s.len() ==> is_space(#[trigger] s[i]),
        n > 0 ==> !is_space(s[n - 1]),
{
    lemma_trimmed_end(s)
}

/// What stands before a line break, less a carriage return, is a line, and what stands behind it is
/// lines of its own; a text without a line break is one line, and the empty text is none.
pub proof fn law_line_breaks_end_lines(l: Seq<char>, rest: Seq<char>)
    requires
        !l.contains('\n'),
    ensures
        lines_of(l.push('\n') + rest) == seq![
            if l.len() > 0 && l.last() == '\r' {
                l.drop_last()
            } else {
                l
            },
        ] + lines_of(rest),
        l.len() > 0 ==> lines_of(l) == seq![l],
        lines_of(Seq::empty()).len() == 0,
{
    let s = l.push('\n') + rest;
    assert forall|i: int| 0 <= i < l.len() implies s[i] != '\n' by {
        assert(l.contains(l[i]));
    }
    lemma_line_end_unique(s, l.len() as int);
    assert(s.take(l.len() as int) =~= l);
    assert(s.skip(l.len() as int + 1) =~= rest);
    assert forall|i: int| 0 <= i < l.len() implies l[i] != '\n' by {
        assert(l.contains(l[i]));
    }
    lemma_line_end_unique(l, l.len() as int);
}

/// The first place where a text stands is filled with the other one, and the replacing goes on
/// behind it; where it stands nowhere, nothing is changed.
pub proof fn law_every_occurrence_is_replaced(
    a: Seq<char>,
    pat: Seq<char>,
    b: Seq<char>,
    by: Seq<char>,
)
    requires
        pat.len() > 0,
    ensures
        (forall|i: int| 0 <= i < a.len() ==> #[trigger] (a + pat + b).subrange(i, i + pat.len()) != pat)
            ==> replaced(a + pat + b, pat, by) == a + by + replaced(b, pat, by),
        (forall|i: int|
            0 <= i <= a.len() - pat.len() ==> #[trigger] a.subrange(i, i + pat.len()) != pat)
            ==> replaced(a, pat, by) == a,
    decreases a.len(),
{
    let s = a + pat + b;
    if forall|i: int| 0 <= i < a.len() ==> #[trigger] s.subrange(i, i + pat.len()) != pat {
        if a.len() == 0 {
            assert(s.subrange(0, pat.len() as int) =~= pat);
            assert(s.skip(pat.len() as int) =~= b);
            assert(a + by + replaced(b, pat, by) =~= by + replaced(b, pat, by));
        } else {
            let t = a.drop_first();
            assert(s.skip(1) =~= t + pat + b);
            assert(!stands_at(s, pat, 0)) by {
                assert(s.subrange(0, 0 + pat.len() as int) != pat);
            }
            assert forall|i: int| 0 <= i < t.len() implies #[trigger] (t + pat + b).subrange(
                i,
                i + pat.len(),
            ) != pat by {
                assert((t + pat + b).subrange(i, i + pat.len()) =~= s.subrange(
                    i + 1,
                    i + 1 + pat.len(),
                ));
            }
            law_every_occurrence_is_replaced(t, pat, b, by);
            assert(seq![s[0]] + (t + by + replaced(b, pat, by)) =~= a + by + replaced(b, pat, by));
        }
    }
    if forall|i: int|
        0 <= i <= a.len() - pat.len() ==> #[trigger] a.subrange(i, i + pat.len()) != pat {
        if a.len() > 0 {
            let t = a.drop_first();
            assert(a.skip(1) =~= t);
            assert(!stands_at(a, pat, 0)) by {
                if pat.len() <= a.len() {
                    assert(a.subrange(0, 0 + pat.len() as int) != pat);
                }
            }
            assert forall|i: int| 0 <= i <= t.len() - pat.len() implies #[trigger] t.subrange(
                i,
                i + pat.len(),
            ) != pat by {
                assert(t.subrange(i, i + pat.len()) =~= a.subrange(i + 1, i + 1 + pat.len()));
            }
            law_every_occurrence_is_replaced(t, pat, b, by);
            assert(replaced(a, pat, by) =~= a);
        }
    }
}

/// Texts are ordered by the first character in which they differ; where one is the beginning of the
/// other, the shorter one comes first.
pub proof fn law_texts_are_ordered_by_their_first_difference(a: Seq<char>, b: Seq<char>, k: int)
    requires
        0 <= k <= a.len(),
        k <= b.len(),
        a.take(k) == b.take(k),
    ensures
        k < a.len() && k < b.len() && a[k] != b[k] ==> (text_less(a, b) <==> (a[k] as int) < (
        b[k] as int)),
        k == a.len() ==> (text_less(a, b) <==> k < b.len()),
        k == b.len() ==> !text_less(a, b),
{
    lemma_text_less_prefix(a.take(k), a.skip(k), b.skip(k));
    assert(a.take(k) + a.skip(k) =~= a);
    assert(a.take(k) + b.skip(k) =~= b);
}

/// A text ends in the line after as many as it has line breaks, at as many bytes as stand behind
/// the last of them.
pub proof fn law_position_counts_breaks_and_bytes(s: Seq<char>, c: char)
    ensures
        line_number(Seq::empty()) == 1,
        line_number(s.push('\n')) == line_number(s) + 1,
        c != '\n' ==> line_number(s.push(c)) == line_number(s),
        line_number(s) == 1 + s.filter(|x: char| x == '\n').len(),
        column(Seq::empty()) == 0,
        column(s.push('\n')) == 0,
        c != '\n' ==> column(s.push(c)) == column(s) + utf8_len(c),
        (c as u32) < 0x80 ==> utf8_len(c) == 1,
        0x80 <= (c as u32) < 0x800 ==> utf8_len(c) == 2,
        0x800 <= (c as u32) < 0x10000 ==> utf8_len(c) == 3,
        0x10000 <= (c as u32) ==> utf8_len(c) == 4,
    decreases s.len(),
{
    reveal(Seq::filter);
    assert(s.push(c).drop_last() =~= s);
    assert(s.push('\n').drop_last() =~= s);
    if s.len() > 0 {
        law_position_counts_breaks_and_bytes(s.drop_last(), c);
    }
}

} // verus!
