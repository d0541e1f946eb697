//! The commands that the front end can give.

use vstd::prelude::*;
use vstd::string::*;
use crate::json::{Json, JsonTree};
use crate::outbox::json_views;
use crate::sidecar::protocol::{outcome, RpcError};
use crate::state::{AppState, InitFail};
use crate::text::{join2, trim, trimmed};
use crate::ui_events::{app_state_name, state_name};
use crate::ui_log::{AppLogEntryView, LogRing};

verus! {

/// How long an activation may take, in milliseconds: it may go over the network.
pub const ACTIVATE_TIMEOUT: u64 = 30_000;

/// The state's name, for a state that may not be there yet: the sidecar is starting then.
pub fn get_app_state(state: Option<AppState>) -> (r: &'static str)
    ensures
        r@ == state_name(
            match state {
                Some(s) => s,
                None => AppState::SidecarBooting,
            },
        ),
{
    match state {
        Some(s) => app_state_name(&s),
        None => app_state_name(&AppState::SidecarBooting),
    }
}

/// Why the last start-up failed, for a failure that may not be there.
pub fn get_init_fail_reason(fail: Option<&InitFail>) -> (r: Option<String>)
    ensures
        match fail {
            Some(f) => r matches Some(s) && s@ == f@.reason,
            None => r is None,
        },
{
    match fail {
        Some(f) => Some(f.reason.clone()),
        None => None,
    }
}

/// The entries in JSON.
pub open spec fn entries_trees(s: Seq<AppLogEntryView>) -> Seq<JsonTree> {
    Seq::new(s.len(), |i: int| s[i].tree())
}

/// The run-time log, oldest entry first.
pub fn get_recent_logs(ring: &LogRing) -> (r: Vec<Json>)
    ensures
        json_views(r@) == entries_trees(ring.view()),
{
    let entries = ring.snapshot();
    let ghost all = entries_trees(ring.view());
    let mut out: Vec<Json> = Vec::new();
    let mut i: usize = 0;
    assert(json_views(out@) =~= all.take(0));
    while i < entries.len()
        invariant
            i <= entries@.len(),
            all == entries_trees(ring.view()),
            crate::ui_log::entries_view(entries@) == ring.view(),
            json_views(out@) == all.take(i as int),
        decreases entries.len() - i,
    {
        let ghost before = out@;
        let j = entries[i].to_json();
        assert(crate::ui_log::entries_view(entries@)[i as int] == entries@[i as int]@);
        out.push(j);
        i = i + 1;
        assert(json_views(out@) =~= json_views(before).push(j@));
        assert(json_views(out@) =~= all.take(i as int));
    }
    assert(all.take(i as int) =~= all);
    out
}

/// The parameters of an activation: the code without the white space around it. An empty
/// code is refused before the sidecar is asked.
pub fn activation_params(code: &str) -> (r: Result<Json, String>)
    ensures
        if trimmed(code@).len() == 0 {
            r matches Err(text) && text@ == "激活码不能为空"@
        } else {
            r matches Ok(j) && j@ == JsonTree::object().put("code"@, JsonTree::Str(trimmed(code@)))
        },
{
    let code = trim(code);
    if code.as_str().unicode_len() == 0 {
        return Err("激活码不能为空".to_owned());
    }
    Ok(Json::object().put("code", Json::Str(code)))
}

/// What an activation comes to: the sidecar's answer, and whether the start-up is to be
/// tried again, which is so exactly if the answer is `ok`.
pub fn activate_license(answer: Result<Json, RpcError>) -> (r: (Result<Json, String>, bool))
    ensures
        match outcome(answer) {
            Ok(t) => {
                &&& r.0 matches Ok(j) && j@ == t
                &&& r.1 == (t.get_bool("ok"@) == Some(true))
            },
            Err(e) => {
                &&& r.0 matches Err(text) && text@ == "激活请求失败："@ + e.text()
                &&& !r.1
            },
        },
{
    match answer {
        Ok(j) => {
            let ok = match j.get_bool("ok") {
                Some(b) => b,
                None => false,
            };
            (Ok(j), ok)
        },
        Err(e) => (Err(join2("激活请求失败：", e.message().as_str())), false),
    }
}

/// What a manual operation comes to for the front end: the result, or the error in words.
pub fn manual_execute(answer: Result<Json, RpcError>) -> (r: Result<Json, String>)
    ensures
        match outcome(answer) {
            Ok(t) => r matches Ok(j) && j@ == t,
            Err(e) => r matches Err(text) && text@ == e.text(),
        },
{
    match answer {
        Ok(j) => Ok(j),
        Err(e) => Err(e.message()),
    }
}

/// The run-time log is shown entry by entry, in order.
pub proof fn law_log_is_shown_in_order(s: Seq<AppLogEntryView>, i: int)
    ensures
        entries_trees(s).len() == s.len(),
        0 <= i < s.len() ==> entries_trees(s)[i] == s[i].tree(),
{
}

} // verus!
