//! Alerts to a web hook. An alert never holds anything up: it is sent once, and lost if it
//! does not get through.
//!
//! A template is read as JSON before its placeholders are filled in, so that quotes and
//! line breaks in what is filled in cannot break it.

use vstd::prelude::*;
use vstd::string::*;
use crate::json::{
    lemma_array_tree, lemma_object_tree, lemma_put_get, members_get, members_of, members_put,
    pairs_of, parse_json, text_tree, tree_text, trees_of, write_json, Json, JsonTree, PARSE_DEPTH,
};
use crate::text::{
    chars_of, decimal, decimal_text, is_digit, join3, lemma_number_of_decimal, replace_all,
    replaced, stands_at, text_of, trim, trimmed,
};

verus! {

/// How long an alert may take, in seconds.
pub const SEND_TIMEOUT_SECS: u64 = 5;

/// What is filled into a template.
pub struct Words {
    pub title: Seq<char>,
    pub detail: Seq<char>,
    pub ts: u64,
    pub device: Seq<char>,
}

/// A text with its placeholders filled in, one kind after the other.
pub open spec fn filled_text(s: Seq<char>, w: Words) -> Seq<char> {
    replaced(
        replaced(
            replaced(replaced(s, "{title}"@, w.title), "{detail}"@, w.detail),
            "{ts}"@,
            decimal(w.ts as nat),
        ),
        "{device}"@,
        w.device,
    )
}

/// A value with the placeholders in all its strings filled in, however deep they are. The
/// names of members stay as they are.
pub open spec fn filled(t: JsonTree, w: Words) -> JsonTree
    decreases t,
{
    match t {
        JsonTree::Str(s) => JsonTree::Str(filled_text(s, w)),
        JsonTree::Arr(a) => JsonTree::Arr(
            Seq::new(
                a.len(),
                |i: int|
                    if 0 <= i < a.len() {
                        filled(a[i], w)
                    } else {
                        JsonTree::Null
                    },
            ),
        ),
        JsonTree::Obj(o) => JsonTree::Obj(
            Seq::new(
                o.len(),
                |i: int|
                    if 0 <= i < o.len() {
                        (o[i].0, filled(o[i].1, w))
                    } else {
                        (Seq::empty(), JsonTree::Null)
                    },
            ),
        ),
        _ => t,
    }
}

/// Values with their placeholders filled in.
pub open spec fn filled_all(a: Seq<JsonTree>, w: Words) -> Seq<JsonTree> {
    Seq::new(a.len(), |i: int| filled(a[i], w))
}

/// Members with their placeholders filled in.
pub open spec fn filled_members(o: Seq<(Seq<char>, JsonTree)>, w: Words) -> Seq<
    (Seq<char>, JsonTree),
> {
    Seq::new(o.len(), |i: int| (o[i].0, filled(o[i].1, w)))
}

/// An array is filled in item by item.
proof fn lemma_filled_array(a: Seq<JsonTree>, w: Words)
    ensures
        filled(JsonTree::Arr(a), w) == JsonTree::Arr(filled_all(a, w)),
{
    assert(filled(JsonTree::Arr(a), w)->Arr_0 =~= filled_all(a, w));
}

/// An object is filled in member by member.
proof fn lemma_filled_object(o: Seq<(Seq<char>, JsonTree)>, w: Words)
    ensures
        filled(JsonTree::Obj(o), w) == JsonTree::Obj(filled_members(o, w)),
{
    assert(filled(JsonTree::Obj(o), w)->Obj_0 =~= filled_members(o, w));
}

/// It is all the same whether a member is filled in before or after it is put.
proof fn lemma_filled_put(o: Seq<(Seq<char>, JsonTree)>, k: Seq<char>, t: JsonTree, w: Words)
    ensures
        filled_members(members_put(o, k, t), w) == members_put(
            filled_members(o, w),
            k,
            filled(t, w),
        ),
    decreases o.len(),
{
    let left = filled_members(members_put(o, k, t), w);
    let right = members_put(filled_members(o, w), k, filled(t, w));
    if o.len() > 0 {
        assert(filled_members(o, w).drop_first() =~= filled_members(o.drop_first(), w));
        lemma_filled_put(o.drop_first(), k, t, w);
    }
    assert(left =~= right);
}

/// It is all the same whether pairs are filled in before or after they are put together.
proof fn lemma_filled_build(pairs: Seq<(Seq<char>, JsonTree)>, w: Words)
    ensures
        filled_members(members_of(pairs), w) == members_of(filled_members(pairs, w)),
    decreases pairs.len(),
{
    if pairs.len() == 0 {
        assert(filled_members(members_of(pairs), w) =~= members_of(filled_members(pairs, w)));
    } else {
        lemma_filled_build(pairs.drop_last(), w);
        lemma_filled_put(members_of(pairs.drop_last()), pairs.last().0, pairs.last().1, w);
        assert(filled_members(pairs, w).drop_last() =~= filled_members(pairs.drop_last(), w));
    }
}

/// A text with its placeholders filled in.
fn fill_text(s: &str, title: &str, detail: &str, ts: u64, device: &str) -> (r: String)
    ensures
        r@ == filled_text(s@, Words { title: title@, detail: detail@, ts, device: device@ }),
{
    proof {
        reveal_strlit("{title}");
        reveal_strlit("{detail}");
        reveal_strlit("{ts}");
        reveal_strlit("{device}");
    }
    let a = replace_all(s, "{title}", title);
    let b = replace_all(a.as_str(), "{detail}", detail);
    let c = replace_all(b.as_str(), "{ts}", decimal_text(ts).as_str());
    replace_all(c.as_str(), "{device}", device)
}

/// A value with its placeholders filled in.
#[verifier::loop_isolation(false)]
fn fill(v: &Json, title: &str, detail: &str, ts: u64, device: &str) -> (r: Json)
    ensures
        r@ == filled(v@, Words { title: title@, detail: detail@, ts, device: device@ }),
        v is Object ==> r is Object,
    decreases v,
{
    let ghost w = Words { title: title@, detail: detail@, ts, device: device@ };
    match v {
        Json::Null => Json::Null,
        Json::Bool(b) => Json::Bool(*b),
        Json::Uint(n) => Json::Uint(*n),
        Json::Int(n) => Json::Int(*n),
        Json::Real(_) => v.copy(),
        Json::Str(s) => Json::Str(fill_text(s.as_str(), title, detail, ts, device)),
        Json::Array(a) => {
            let mut out: Vec<Json> = Vec::new();
            let mut i: usize = 0;
            while i < a.len()
                invariant
                    i <= a.len(),
                    *v == Json::Array(*a),
                    trees_of(out@) == filled_all(trees_of(a@), w).take(i as int),
                decreases a.len() - i,
            {
                let ghost before = out@;
                let item = fill(&a[i], title, detail, ts, device);
                out.push(item);
                i = i + 1;
                assert(trees_of(out@) =~= trees_of(before).push(item@));
                assert(trees_of(out@) =~= filled_all(trees_of(a@), w).take(i as int));
            }
            proof {
                lemma_array_tree(*a);
                lemma_array_tree(out);
                lemma_filled_array(trees_of(a@), w);
                assert(filled_all(trees_of(a@), w).take(i as int) =~= filled_all(trees_of(a@), w));
            }
            Json::Array(out)
        },
        Json::Object(o) => {
            let mut out: Vec<(String, Json)> = Vec::new();
            let mut i: usize = 0;
            while i < o.len()
                invariant
                    i <= o.len(),
                    *v == Json::Object(*o),
                    pairs_of(out@) == filled_members(pairs_of(o@), w).take(i as int),
                decreases o.len() - i,
            {
                let ghost before = out@;
                let key = o[i].0.clone();
                let item = fill(&o[i].1, title, detail, ts, device);
                out.push((key, item));
                i = i + 1;
                assert(pairs_of(out@) =~= pairs_of(before).push((key@, item@)));
                assert(pairs_of(out@) =~= filled_members(pairs_of(o@), w).take(i as int));
            }
            proof {
                lemma_object_tree(*o);
                lemma_object_tree(out);
                lemma_filled_build(pairs_of(o@), w);
                lemma_filled_object(members_of(pairs_of(o@)), w);
                assert(filled_members(pairs_of(o@), w).take(i as int) =~= filled_members(
                    pairs_of(o@),
                    w,
                ));
            }
            Json::Object(out)
        },
    }
}

/// Fills in the placeholders `{title}`, `{detail}`, `{ts}` and `{device}` in every string
/// of a value.
pub fn apply_placeholders(v: &mut Json, title: &str, detail: &str, ts: u64, device: &str)
    ensures
        final(v)@ == filled(
            old(v)@,
            Words { title: title@, detail: detail@, ts, device: device@ },
        ),
{
    let r = fill(&*v, title, detail, ts, device);
    *v = r;
}

/// The usual form of an alert.
pub open spec fn usual_payload(w: Words) -> JsonTree {
    JsonTree::object().put("title"@, JsonTree::Str(w.title)).put(
        "detail"@,
        JsonTree::Str(w.detail),
    ).put("ts"@, JsonTree::Int(w.ts as int)).put("device"@, JsonTree::Str(w.device))
}

/// What an alert looks like: the template filled in, if it is a JSON object; the usual form
/// otherwise.
pub open spec fn payload(template: Seq<char>, w: Words) -> JsonTree {
    match text_tree(trimmed(template)) {
        Some(t) => if trimmed(template).len() > 0 && t is Obj {
            filled(t, w)
        } else {
            usual_payload(w)
        },
        None => usual_payload(w),
    }
}

/// What an alert looks like, for a template that has been read: `None` where it was empty
/// or no JSON.
pub fn payload_for(
    template: Option<Json>,
    title: &str,
    detail: &str,
    ts: u64,
    device: &str,
) -> (r: Json)
    ensures
        ({
            let w = Words { title: title@, detail: detail@, ts, device: device@ };
            r@ == match template {
                Some(j) => if j is Object {
                    filled(j@, w)
                } else {
                    usual_payload(w)
                },
                None => usual_payload(w),
            }
        }),
{
    match template {
        Some(Json::Object(o)) => {
            let mut v = Json::Object(o);
            apply_placeholders(&mut v, title, detail, ts, device);
            v
        },
        _ => Json::object().put("title", Json::text(title)).put("detail", Json::text(detail)).put(
            "ts",
            Json::Uint(ts),
        ).put("device", Json::text(device)),
    }
}

/// What an alert looks like.
pub fn render_payload(template: &str, title: &str, detail: &str, ts: u64, device: &str) -> (r: Json)
    ensures
        r@ == payload(template@, Words { title: title@, detail: detail@, ts, device: device@ }),
{
    let t = trim(template);
    let parsed = if t.as_str().unicode_len() > 0 {
        parse_json(t.as_str())
    } else {
        None
    };
    proof {
        if parsed is Some {
            lemma_object_means_object(parsed->0);
        }
    }
    payload_for(parsed, title, detail, ts, device)
}

/// A value means an object exactly if it is one.
proof fn lemma_object_means_object(j: Json)
    ensures
        j is Object <==> j@ is Obj,
{
    if let Json::Array(a) = j {
        lemma_array_tree(a);
    }
    if let Json::Object(o) = j {
        lemma_object_tree(o);
    }
}

/// What `url::Url::parse` makes of a text: `None` where it is no URL, else the scheme
/// (`Url::scheme`) and the host (`Url::host_str`), where there is one.
pub uninterp spec fn url_parts(text: Seq<char>) -> Option<(Seq<char>, Option<Seq<char>>)>;

/// The scheme and the host of a URL, as characters.
pub open spec fn parts_view(o: Option<(String, Option<String>)>) -> Option<
    (Seq<char>, Option<Seq<char>>),
> {
    match o {
        Some((scheme, Some(host))) => Some((scheme@, Some(host@))),
        Some((scheme, None)) => Some((scheme@, None)),
        None => None,
    }
}

/// `url::Url::parse`, `Url::scheme` and `Url::host_str`: whether a text is a URL, and what
/// its scheme and its host are, is a function of the text.
#[verifier::external_body]
fn parse_url(text: &str) -> (r: Option<(String, Option<String>)>)
    ensures
        parts_view(r) == url_parts(text@),
{
    url::Url::parse(text).ok().map(|u| (u.scheme().to_string(), u.host_str().map(|h| h.to_string())))
}

/// The last four characters of a text, or all of fewer.
pub open spec fn last_four(s: Seq<char>) -> Seq<char> {
    if s.len() > 4 {
        s.skip(s.len() - 4)
    } else {
        s
    }
}

/// What is shown of a URL whose scheme and host are known: these two and its last four
/// characters.
pub open spec fn masked(
    url: Seq<char>,
    parts: Option<(Seq<char>, Option<Seq<char>>)>,
) -> Seq<char> {
    match parts {
        None => "<invalid-url>"@,
        Some((scheme, host)) => scheme + "://"@ + (match host {
            Some(h) => h,
            None => "?"@,
        }) + "..."@ + last_four(url),
    }
}

/// What is shown of a URL whose scheme and host are known.
pub fn mask_with(url: &str, parts: Option<(String, Option<String>)>) -> (r: String)
    ensures
        r@ == masked(url@, parts_view(parts)),
{
    match parts {
        None => "<invalid-url>".to_owned(),
        Some((scheme, host)) => {
            let chars = chars_of(url);
            let from: usize = if chars.len() > 4 {
                chars.len() - 4
            } else {
                0
            };
            let tail = text_of(&chars, from, chars.len());
            assert(tail@ =~= last_four(url@));
            let shown = match host {
                Some(h) => h,
                None => "?".to_owned(),
            };
            let head = join3(scheme.as_str(), "://", shown.as_str());
            join3(head.as_str(), "...", tail.as_str())
        },
    }
}

/// What is shown of a web hook's URL in the log: enough to recognise it, too little to use
/// it.
pub fn mask_webhook_url(url: &str) -> (r: String)
    ensures
        r@ == masked(url@, url_parts(url@)),
{
    mask_with(url, parse_url(url))
}

/// The name of the machine, out of two variables of the environment: the first that is set;
/// empty where neither is.
pub fn hostname(computer: Option<String>, host: Option<String>) -> (r: String)
    ensures
        r@ == match (computer, host) {
            (Some(name), _) => name@,
            (None, Some(name)) => name@,
            (None, None) => ""@,
        },
{
    match (computer, host) {
        (Some(name), _) => name,
        (None, Some(name)) => name,
        (None, None) => "".to_owned(),
    }
}

/// Where alerts go, and what they look like.
pub struct AlertClient {
    url: String,
    template: String,
    device: String,
}

/// What a client knows.
pub struct AlertClientView {
    pub url: Seq<char>,
    pub template: Seq<char>,
    pub device: Seq<char>,
}

/// A request to make.
pub struct AlertPost {
    pub url: String,
    /// The body, in JSON.
    pub body: String,
}

/// Whether a request is the one for an alert at a time: none where there is no web hook. The
/// receiver reads from the body what the alert looks like, quotes, line breaks and all, if it
/// has no fraction in it and is not nested too deep.
pub open spec fn post_fits(
    r: Option<AlertPost>,
    c: AlertClientView,
    title: Seq<char>,
    detail: Seq<char>,
    ts: u64,
) -> bool {
    let p = payload(c.template, Words { title, detail, ts, device: c.device });
    match r {
        None => trimmed(c.url).len() == 0,
        Some(post) => {
            &&& trimmed(c.url).len() > 0
            &&& post.url@ == c.url
            &&& post.body@ == tree_text(p)
            &&& p.plain(PARSE_DEPTH as nat) ==> text_tree(post.body@) == Some(p)
        },
    }
}

impl AlertClient {
    /// What the client knows.
    pub closed spec fn view(&self) -> AlertClientView {
        AlertClientView { url: self.url@, template: self.template@, device: self.device@ }
    }

    /// A client for a web hook; without a URL it sends nothing.
    pub fn new(webhook_url: String, webhook_template: String, device: String) -> (r: AlertClient)
        ensures
            r.view() == (AlertClientView {
                url: webhook_url@,
                template: webhook_template@,
                device: device@,
            }),
    {
        AlertClient { url: webhook_url, template: webhook_template, device }
    }

    /// Another client that knows the same.
    pub fn copy(&self) -> (r: AlertClient)
        ensures
            r.view() == self.view(),
    {
        AlertClient {
            url: self.url.clone(),
            template: self.template.clone(),
            device: self.device.clone(),
        }
    }

    /// The request for an alert at a time: none where there is no web hook.
    pub fn send(&self, title: &str, detail: &str, ts: u64) -> (r: Option<AlertPost>)
        ensures
            post_fits(r, self.view(), title@, detail@, ts),
    {
        if trim(self.url.as_str()).as_str().unicode_len() == 0 {
            return None;
        }
        let j = render_payload(self.template.as_str(), title, detail, ts, self.device.as_str());
        Some(AlertPost { url: self.url.clone(), body: write_json(&j) })
    }

    /// What became of an alert, for the answer to it.
    pub fn do_send(success: bool, body: &str) -> (r: AlertOutcome)
        ensures
            r == answer_outcome(success, text_tree(body@)),
    {
        if !success {
            return AlertOutcome::HttpRejected;
        }
        judge_answer(true, parse_json(body))
    }

    /// What is shown of the web hook in the log.
    pub fn masked_url(&self) -> (r: String)
        ensures
            r@ == masked(self.view().url, url_parts(self.view().url)),
    {
        mask_webhook_url(self.url.as_str())
    }
}

/// What became of an alert that was answered.
#[derive(Debug, Clone, Copy, PartialEq, Eq, Structural)]
pub enum AlertOutcome {
    Delivered,
    /// The answer has a status of failure.
    HttpRejected,
    /// The answer has a status of success, and a code that is not 0.
    AppRejected(i64),
}

/// What an answer says: some receivers refuse with a status of success and a `code`.
pub open spec fn answer_outcome(success: bool, body: Option<JsonTree>) -> AlertOutcome {
    if !success {
        AlertOutcome::HttpRejected
    } else {
        match body {
            None => AlertOutcome::Delivered,
            Some(t) => match t.get("code"@) {
                None => AlertOutcome::Delivered,
                Some(v) => match v.as_i64() {
                    Some(code) => if code == 0 {
                        AlertOutcome::Delivered
                    } else {
                        AlertOutcome::AppRejected(code)
                    },
                    None => AlertOutcome::Delivered,
                },
            },
        }
    }
}

/// What became of an alert, for an answer whose body has been read as JSON, if it is any.
pub fn judge_answer(success: bool, body: Option<Json>) -> (r: AlertOutcome)
    ensures
        r == answer_outcome(
            success,
            match body {
                Some(j) => Some(j@),
                None => None,
            },
        ),
{
    if !success {
        return AlertOutcome::HttpRejected;
    }
    match body {
        None => AlertOutcome::Delivered,
        Some(j) => match j.get("code") {
            None => AlertOutcome::Delivered,
            Some(v) => match v.as_i64() {
                Some(code) => if code == 0 {
                    AlertOutcome::Delivered
                } else {
                    AlertOutcome::AppRejected(code)
                },
                None => AlertOutcome::Delivered,
            },
        },
    }
}

/// Whether a text stands somewhere in another.
pub open spec fn holds(s: Seq<char>, pat: Seq<char>) -> bool {
    exists|i: int| #[trigger] stands_at(s, pat, i)
}

/// What stands nowhere is not replaced.
proof fn lemma_replaced_absent(s: Seq<char>, pat: Seq<char>, by: Seq<char>)
    requires
        !holds(s, pat),
    ensures
        replaced(s, pat, by) == s,
    decreases s.len(),
{
    if s.len() > 0 && pat.len() > 0 {
        assert(!stands_at(s, pat, 0));
        let rest = s.skip(1);
        assert(!holds(rest, pat)) by {
            if holds(rest, pat) {
                let i = choose|i: int| #[trigger] stands_at(rest, pat, i);
                assert(s.subrange(i + 1, i + 1 + pat.len()) =~= rest.subrange(i, i + pat.len()));
                assert(stands_at(s, pat, i + 1));
            }
        }
        lemma_replaced_absent(rest, pat, by);
        assert(replaced(s, pat, by) =~= s);
    }
}

/// Whether a text holds one of the four placeholders.
pub open spec fn has_placeholder(s: Seq<char>) -> bool {
    ||| holds(s, "{title}"@)
    ||| holds(s, "{detail}"@)
    ||| holds(s, "{ts}"@)
    ||| holds(s, "{device}"@)
}

/// A text without one of the placeholders stays as it is.
pub proof fn law_plain_text_stays(s: Seq<char>, w: Words)
    requires
        !has_placeholder(s),
    ensures
        filled_text(s, w) == s,
{
    lemma_replaced_absent(s, "{title}"@, w.title);
    lemma_replaced_absent(s, "{detail}"@, w.detail);
    lemma_replaced_absent(s, "{ts}"@, decimal(w.ts as nat));
    lemma_replaced_absent(s, "{device}"@, w.device);
}

/// Whether two values differ in nothing but the texts of their strings, however deep these
/// are: objects have the same names in the same order, arrays the same length.
pub open spec fn same_shape(a: JsonTree, b: JsonTree) -> bool
    decreases a,
{
    match (a, b) {
        (JsonTree::Str(_), JsonTree::Str(_)) => true,
        (JsonTree::Arr(x), JsonTree::Arr(y)) => x.len() == y.len() && forall|i: int|
            0 <= i < x.len() ==> same_shape(#[trigger] x[i], y[i]),
        (JsonTree::Obj(x), JsonTree::Obj(y)) => x.len() == y.len() && forall|i: int|
            0 <= i < x.len() ==> (#[trigger] x[i]).0 == y[i].0 && same_shape(x[i].1, y[i].1),
        _ => a == b,
    }
}

/// Filling in changes nothing but the texts of strings, however deep these are: what is
/// filled in can neither add nor remove a member or an item.
pub proof fn law_filling_keeps_the_shape(t: JsonTree, w: Words)
    ensures
        same_shape(t, filled(t, w)),
    decreases t,
{
    match t {
        JsonTree::Arr(x) => {
            lemma_filled_array(x, w);
            let y = filled_all(x, w);
            assert forall|i: int| 0 <= i < x.len() implies same_shape(#[trigger] x[i], y[i]) by {
                law_filling_keeps_the_shape(x[i], w);
            }
        },
        JsonTree::Obj(x) => {
            lemma_filled_object(x, w);
            let y = filled_members(x, w);
            assert forall|i: int| 0 <= i < x.len() implies (#[trigger] x[i]).0 == y[i].0
                && same_shape(x[i].1, y[i].1) by {
                law_filling_keeps_the_shape(x[i].1, w);
            }
        },
        _ => {},
    }
}

/// Where a text does not stand before a place, nothing is replaced before it.
proof fn lemma_replaced_behind(u: Seq<char>, b: Seq<char>, pat: Seq<char>, by: Seq<char>)
    requires
        forall|i: int| 0 <= i < u.len() ==> !#[trigger] stands_at(u + b, pat, i),
    ensures
        replaced(u + b, pat, by) == u + replaced(b, pat, by),
    decreases u.len(),
{
    if u.len() == 0 {
        assert(u + b =~= b);
        assert(u + replaced(b, pat, by) =~= replaced(b, pat, by));
    } else if pat.len() > 0 {
        let rest = u.drop_first();
        assert((u + b).skip(1) =~= rest + b);
        assert(!stands_at(u + b, pat, 0));
        assert forall|i: int| 0 <= i < rest.len() implies !#[trigger] stands_at(
            rest + b,
            pat,
            i,
        ) by {
            if stands_at(rest + b, pat, i) {
                assert((u + b).subrange(i + 1, i + 1 + pat.len()) =~= (rest + b).subrange(
                    i,
                    i + pat.len(),
                ));
                assert(stands_at(u + b, pat, i + 1));
            }
        }
        lemma_replaced_behind(rest, b, pat, by);
        assert(seq![(u + b)[0]] + (rest + replaced(b, pat, by)) =~= u + replaced(b, pat, by));
    }
}

/// A placeholder does not stand where there is no brace.
proof fn lemma_no_brace_no_placeholder(u: Seq<char>, b: Seq<char>, pat: Seq<char>)
    requires
        pat.len() > 0,
        pat[0] == '{',
        !u.contains('{'),
    ensures
        forall|i: int| 0 <= i < u.len() ==> !#[trigger] stands_at(u + b, pat, i),
{
    assert forall|i: int| 0 <= i < u.len() implies !#[trigger] stands_at(u + b, pat, i) by {
        if stands_at(u + b, pat, i) {
            assert((u + b).subrange(i, i + pat.len())[0] == u[i]);
            assert(u.contains(u[i]));
        }
    }
}

/// Replacing one kind of placeholder passes over a text without braces and over a placeholder of
/// another kind.
proof fn lemma_replaced_passes(
    a: Seq<char>,
    p: Seq<char>,
    b: Seq<char>,
    pat: Seq<char>,
    by: Seq<char>,
    d: int,
)
    requires
        !a.contains('{'),
        p.len() > 0,
        p[0] == '{',
        !p.drop_first().contains('{'),
        pat.len() > 0,
        pat[0] == '{',
        0 <= d < p.len(),
        d < pat.len(),
        p[d] != pat[d],
    ensures
        replaced(a + p + b, pat, by) == a + p + replaced(b, pat, by),
{
    let u = a + p;
    assert forall|i: int| 0 <= i < u.len() implies !#[trigger] stands_at(u + b, pat, i) by {
        if stands_at(u + b, pat, i) {
            let sub = (u + b).subrange(i, i + pat.len());
            assert(sub[0] == u[i]);
            if i < a.len() {
                assert(a.contains(a[i]));
            } else if i == a.len() {
                assert(sub[d] == p[d]);
            } else {
                assert(p.drop_first()[i - a.len() - 1] == u[i]);
                assert(p.drop_first().contains(u[i]));
            }
        }
    }
    lemma_replaced_behind(u, b, pat, by);
}

/// Replacing a placeholder behind a text without braces fills it in, and goes on behind it.
proof fn lemma_replaced_fills(
    a: Seq<char>,
    pat: Seq<char>,
    b: Seq<char>,
    by: Seq<char>,
)
    requires
        !a.contains('{'),
        pat.len() > 0,
        pat[0] == '{',
    ensures
        replaced(a + pat + b, pat, by) == a + by + replaced(b, pat, by),
{
    let rest = pat + b;
    lemma_no_brace_no_placeholder(a, rest, pat);
    assert(a + pat + b =~= a + rest);
    lemma_replaced_behind(a, rest, pat, by);
    assert(rest.subrange(0, pat.len() as int) =~= pat);
    assert(stands_at(rest, pat, 0));
    assert(rest.skip(pat.len() as int) =~= b);
    assert(a + (by + replaced(b, pat, by)) =~= a + by + replaced(b, pat, by));
}

/// Replacing a placeholder passes over a text without braces.
proof fn lemma_replaced_skips(u: Seq<char>, b: Seq<char>, pat: Seq<char>, by: Seq<char>)
    requires
        !u.contains('{'),
        pat.len() > 0,
        pat[0] == '{',
    ensures
        replaced(u + b, pat, by) == u + replaced(b, pat, by),
{
    lemma_no_brace_no_placeholder(u, b, pat);
    lemma_replaced_behind(u, b, pat, by);
}

/// Two texts without braces have none in a row either.
proof fn lemma_no_braces(a: Seq<char>, b: Seq<char>)
    requires
        !a.contains('{'),
        !b.contains('{'),
    ensures
        !(a + b).contains('{'),
{
    if (a + b).contains('{') {
        let i = choose|i: int| 0 <= i < (a + b).len() && (a + b)[i] == '{';
        if i < a.len() {
            assert(a.contains(a[i]));
        } else {
            assert(b.contains(b[i - a.len()]));
        }
    }
}

/// The four placeholders differ from one another, and have no brace but the first and the last.
proof fn lemma_placeholders()
    ensures
        "{title}"@.len() == 7 && "{title}"@[0] == '{' && !"{title}"@.drop_first().contains('{'),
        "{detail}"@.len() == 8 && "{detail}"@[0] == '{' && !"{detail}"@.drop_first().contains('{'),
        "{ts}"@.len() == 4 && "{ts}"@[0] == '{' && !"{ts}"@.drop_first().contains('{'),
        "{device}"@.len() == 8 && "{device}"@[0] == '{' && !"{device}"@.drop_first().contains('{'),
        "{title}"@[1] != "{detail}"@[1],
        "{title}"@[2] != "{ts}"@[2],
        "{title}"@[1] != "{device}"@[1],
        "{detail}"@[1] != "{ts}"@[1],
        "{detail}"@[3] != "{device}"@[3],
        "{ts}"@[1] != "{device}"@[1],
{
    reveal_strlit("{title}");
    reveal_strlit("{detail}");
    reveal_strlit("{ts}");
    reveal_strlit("{device}");
}

/// No digit is a brace.
proof fn lemma_digits_have_no_brace(n: nat)
    ensures
        !decimal(n).contains('{'),
{
    lemma_number_of_decimal(n);
    if decimal(n).contains('{') {
        let i = choose|i: int| 0 <= i < decimal(n).len() && decimal(n)[i] == '{';
        assert(is_digit(decimal(n)[i]));
    }
}

/// Every placeholder is filled in with what it stands for, the title with the title, the detail
/// with the detail, the time with its digits and the device with its name, wherever it stands and
/// however often; the text around it stays. It holds for texts and words without stray braces.
pub proof fn law_placeholders_are_filled_in(a: Seq<char>, b: Seq<char>, w: Words)
    requires
        !a.contains('{'),
        !w.title.contains('{'),
        !w.detail.contains('{'),
        !w.device.contains('{'),
    ensures
        filled_text(a + "{title}"@ + b, w) == a + w.title + filled_text(b, w),
        filled_text(a + "{detail}"@ + b, w) == a + w.detail + filled_text(b, w),
        filled_text(a + "{ts}"@ + b, w) == a + decimal(w.ts as nat) + filled_text(b, w),
        filled_text(a + "{device}"@ + b, w) == a + w.device + filled_text(b, w),
        filled_text(a + b, w) == a + filled_text(b, w),
{
    lemma_placeholders();
    lemma_digits_have_no_brace(w.ts as nat);
    let ts = decimal(w.ts as nat);
    let b1 = replaced(b, "{title}"@, w.title);
    let b2 = replaced(b1, "{detail}"@, w.detail);
    let b3 = replaced(b2, "{ts}"@, ts);
    lemma_no_braces(a, w.title);
    lemma_no_braces(a, w.detail);
    lemma_no_braces(a, ts);
    lemma_no_braces(a, w.device);
    lemma_replaced_fills(a, "{title}"@, b, w.title);
    lemma_replaced_skips(a + w.title, b1, "{detail}"@, w.detail);
    lemma_replaced_skips(a + w.title, b2, "{ts}"@, ts);
    lemma_replaced_skips(a + w.title, b3, "{device}"@, w.device);
    lemma_replaced_passes(a, "{detail}"@, b, "{title}"@, w.title, 1);
    lemma_replaced_fills(a, "{detail}"@, b1, w.detail);
    lemma_replaced_skips(a + w.detail, b2, "{ts}"@, ts);
    lemma_replaced_skips(a + w.detail, b3, "{device}"@, w.device);
    lemma_replaced_passes(a, "{ts}"@, b, "{title}"@, w.title, 2);
    lemma_replaced_passes(a, "{ts}"@, b1, "{detail}"@, w.detail, 1);
    lemma_replaced_fills(a, "{ts}"@, b2, ts);
    lemma_replaced_skips(a + ts, b3, "{device}"@, w.device);
    lemma_replaced_passes(a, "{device}"@, b, "{title}"@, w.title, 1);
    lemma_replaced_passes(a, "{device}"@, b1, "{detail}"@, w.detail, 3);
    lemma_replaced_passes(a, "{device}"@, b2, "{ts}"@, ts, 1);
    lemma_replaced_fills(a, "{device}"@, b3, w.device);
    lemma_replaced_skips(a, b, "{title}"@, w.title);
    lemma_replaced_skips(a, b1, "{detail}"@, w.detail);
    lemma_replaced_skips(a, b2, "{ts}"@, ts);
    lemma_replaced_skips(a, b3, "{device}"@, w.device);
}

/// The placeholders are filled in one kind after the other: what is filled in for the title may
/// itself hold the other three, and is filled in with them; the device comes last, and stays as it
/// is.
pub proof fn law_title_is_filled_in_first(w: Words)
    ensures
        filled_text("{title}"@, w) == replaced(
            replaced(
                replaced(w.title, "{detail}"@, w.detail),
                "{ts}"@,
                decimal(w.ts as nat),
            ),
            "{device}"@,
            w.device,
        ),
        filled_text("{detail}"@, w) == replaced(
            replaced(w.detail, "{ts}"@, decimal(w.ts as nat)),
            "{device}"@,
            w.device,
        ),
        filled_text("{ts}"@, w) == decimal(w.ts as nat),
        filled_text("{device}"@, w) == w.device,
{
    lemma_placeholders();
    lemma_digits_have_no_brace(w.ts as nat);
    let ts = decimal(w.ts as nat);
    let e = Seq::<char>::empty();
    assert forall|s: Seq<char>| #[trigger] (e + s + e) == s by {
        assert(e + s + e =~= s);
    }
    assert forall|s: Seq<char>| #[trigger] (s + e) == s by {
        assert(s + e =~= s);
    }
    assert(replaced(e, "{title}"@, w.title) == e);
    assert(replaced(e, "{detail}"@, w.detail) == e);
    assert(replaced(e, "{ts}"@, ts) == e);
    assert(replaced(e, "{device}"@, w.device) == e);
    assert(e + "{title}"@ + e == "{title}"@);
    lemma_replaced_fills(e, "{title}"@, e, w.title);
    assert(e + w.title + e == w.title);
    assert(e + "{detail}"@ + e == "{detail}"@);
    lemma_replaced_passes(e, "{detail}"@, e, "{title}"@, w.title, 1);
    lemma_replaced_fills(e, "{detail}"@, e, w.detail);
    assert(e + w.detail + e == w.detail);
    assert(e + "{ts}"@ + e == "{ts}"@);
    lemma_replaced_passes(e, "{ts}"@, e, "{title}"@, w.title, 2);
    lemma_replaced_passes(e, "{ts}"@, e, "{detail}"@, w.detail, 1);
    lemma_replaced_fills(e, "{ts}"@, e, ts);
    assert(e + ts + e == ts);
    assert(e + "{device}"@ + e == "{device}"@);
    lemma_replaced_passes(e, "{device}"@, e, "{title}"@, w.title, 1);
    lemma_replaced_passes(e, "{device}"@, e, "{detail}"@, w.detail, 3);
    lemma_replaced_passes(e, "{device}"@, e, "{ts}"@, ts, 1);
    lemma_replaced_fills(e, "{device}"@, e, w.device);
    assert(e + w.device + e == w.device);
    lemma_replaced_skips(ts, e, "{device}"@, w.device);
    assert(ts + e == ts);
}

/// The strings of a value are filled in wherever they stand, in arrays item by item and in objects
/// member by member; every other value stays as it is.
pub proof fn law_every_string_is_filled_in(t: JsonTree, w: Words, k: Seq<char>)
    ensures
        match t {
            JsonTree::Str(s) => filled(t, w) == JsonTree::Str(filled_text(s, w)),
            JsonTree::Arr(a) => filled(t, w) matches JsonTree::Arr(b) && b.len() == a.len()
                && forall|i: int| 0 <= i < a.len() ==> #[trigger] b[i] == filled(a[i], w),
            JsonTree::Obj(_) => match t.get(k) {
                Some(v) => filled(t, w).get(k) == Some(filled(v, w)),
                None => filled(t, w).get(k) is None,
            },
            _ => filled(t, w) == t,
        },
        t is Obj <==> filled(t, w) is Obj,
{
    match t {
        JsonTree::Arr(a) => {
            lemma_filled_array(a, w);
        },
        JsonTree::Obj(o) => {
            lemma_filled_object(o, w);
            lemma_filled_get(o, w, k);
        },
        _ => {},
    }
}

/// A member that is filled in stands under the name it stood under.
proof fn lemma_filled_get(o: Seq<(Seq<char>, JsonTree)>, w: Words, k: Seq<char>)
    ensures
        members_get(filled_members(o, w), k) == match members_get(o, k) {
            Some(v) => Some(filled(v, w)),
            None => None,
        },
    decreases o.len(),
{
    if o.len() > 0 {
        assert(filled_members(o, w).drop_first() =~= filled_members(o.drop_first(), w));
        lemma_filled_get(o.drop_first(), w, k);
    }
}

/// Without a template, or with one that is no JSON object, an alert names its title, its detail,
/// its time and the device; with a template it is the template, filled in.
pub proof fn law_alert_looks_like_its_template(template: Seq<char>, w: Words, t: JsonTree, k: Seq<char>)
    ensures
        trimmed(template).len() > 0 && text_tree(trimmed(template)) == Some(t) && t is Obj
            ==> payload(template, w) == filled(t, w),
        !(trimmed(template).len() > 0 && text_tree(trimmed(template)) is Some && text_tree(
            trimmed(template),
        )->0 is Obj) ==> {
            let p = payload(template, w);
            &&& p.get("title"@) == Some(JsonTree::Str(w.title))
            &&& p.get("detail"@) == Some(JsonTree::Str(w.detail))
            &&& p.get("ts"@) == Some(JsonTree::Int(w.ts as int))
            &&& p.get("device"@) == Some(JsonTree::Str(w.device))
            &&& p.get(k) is Some ==> k == "title"@ || k == "detail"@ || k == "ts"@ || k == "device"@
            &&& p is Obj
        },
        usual_payload(w).get("title"@) == Some(JsonTree::Str(w.title)),
        usual_payload(w).get("detail"@) == Some(JsonTree::Str(w.detail)),
        usual_payload(w).get("ts"@) == Some(JsonTree::Int(w.ts as int)),
        usual_payload(w).get("device"@) == Some(JsonTree::Str(w.device)),
{
    broadcast use lemma_put_get;

    reveal_strlit("title");
    reveal_strlit("detail");
    reveal_strlit("ts");
    reveal_strlit("device");
    assert("title"@.len() == 5);
    assert("detail"@.len() == 6);
    assert("ts"@.len() == 2);
    assert("device"@.len() == 6);
    assert("detail"@[2] != "device"@[2]);
}

/// Of a web hook's URL the scheme, the host and the last four characters are shown, and nothing
/// else; of what is no URL nothing.
pub proof fn law_mask_shows_the_ends_only(
    url: Seq<char>,
    scheme: Seq<char>,
    host: Option<Seq<char>>,
)
    ensures
        masked(url, None) == "<invalid-url>"@,
        ({
            let m = masked(url, Some((scheme, host)));
            let shown = match host {
                Some(h) => h,
                None => seq!['?'],
            };
            let n: int = if url.len() < 4 {
                url.len() as int
            } else {
                4
            };
            let a = scheme.len() as int;
            let b = a + 3 + shown.len();
            &&& m.len() == b + 3 + n
            &&& m.take(a) == scheme
            &&& m.subrange(a, a + 3) == "://"@
            &&& m.subrange(a + 3, b) == shown
            &&& m.subrange(b, b + 3) == "..."@
            &&& m.skip(b + 3) == url.skip(url.len() - n)
        }),
{
    reveal_strlit("://");
    reveal_strlit("...");
    reveal_strlit("?");
    assert("?"@ =~= seq!['?']);
    let m = masked(url, Some((scheme, host)));
    let shown = match host {
        Some(h) => h,
        None => seq!['?'],
    };
    let n: int = if url.len() < 4 {
        url.len() as int
    } else {
        4
    };
    assert(last_four(url) =~= url.skip(url.len() - n));
    let a = scheme.len() as int;
    let b = a + 3 + shown.len();
    assert(m.take(a) =~= scheme);
    assert(m.subrange(a, a + 3) =~= "://"@);
    assert(m.subrange(a + 3, b) =~= shown);
    assert(m.subrange(b, b + 3) =~= "..."@);
    assert(m.skip(b + 3) =~= url.skip(url.len() - n));
}

/// An alert is sent exactly where there is a web hook, to the web hook, and its body is what the
/// alert looks like, with its own title, detail, time and device.
pub proof fn law_alert_goes_to_its_web_hook(
    r: Option<AlertPost>,
    c: AlertClientView,
    title: Seq<char>,
    detail: Seq<char>,
    ts: u64,
)
    requires
        post_fits(r, c, title, detail, ts),
    ensures
        r is Some <==> trimmed(c.url).len() > 0,
        r matches Some(post) ==> post.url@ == c.url && post.body@ == tree_text(
            payload(c.template, Words { title, detail, ts, device: c.device }),
        ),
{
}

/// An alert is rejected where the answer's status says so, or where its status does not and it has
/// a code that is a whole number of 64 bits and not 0; otherwise it is delivered.
pub proof fn law_answers_are_judged_by_status_and_code(t: JsonTree, code: i64)
    ensures
        answer_outcome(false, Some(t)) == AlertOutcome::HttpRejected,
        answer_outcome(false, None) == AlertOutcome::HttpRejected,
        answer_outcome(true, None) == AlertOutcome::Delivered,
        t.get("code"@) == Some(JsonTree::Int(code as int)) && code != 0 ==> answer_outcome(
            true,
            Some(t),
        ) == AlertOutcome::AppRejected(code),
        t.get("code"@) == Some(JsonTree::Int(0)) ==> answer_outcome(true, Some(t))
            == AlertOutcome::Delivered,
        !(t.get("code"@) matches Some(JsonTree::Int(n)) && i64::MIN <= n <= i64::MAX)
            ==> answer_outcome(true, Some(t)) == AlertOutcome::Delivered,
{
}

/// The scheme and the host of a URL are shown as they are.
pub proof fn law_parts_are_taken_as_they_are(scheme: String, host: String)
    ensures
        parts_view(None) is None,
        parts_view(Some((scheme, Some(host)))) == Some((scheme@, Some(host@))),
        parts_view(Some((scheme, None))) == Some((scheme@, None::<Seq<char>>)),
{
}

} // verus!
