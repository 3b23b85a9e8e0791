//! What a reply on Herdr's socket means. The socket itself, and the requests
//! written to it, belong to the program; this module reads the line that came
//! back.

use vstd::prelude::*;

use crate::domain::error::AppError;
use crate::domain::ids::{PaneId, TabId};
use crate::domain::json::{first_key_from, json_error_text, json_parse, member, parse_json, JsonValue};
use crate::domain::pane::{CreatedTab, OpenedPane};
use crate::domain::text::{copy_string, owned, same_text, trim_text, trimmed};

verus! {

/// The request id of a method: `herdr-npm:<method>`.
pub open spec fn spec_request_id(method: Seq<char>) -> Seq<char> {
    "herdr-npm:"@ + method
}

pub fn request_id(method: &str) -> (r: String)
    ensures
        r@ == spec_request_id(method@),
{
    let mut id = owned("herdr-npm:");
    id.append(method);
    id
}

/// How `{:?}` prints an optional text (std's `Debug`).
pub uninterp spec fn debug_text(v: Option<Seq<char>>) -> Seq<char>;

/// `format!("{:?}", v)` for an optional text.
#[verifier::external_body]
fn debug_of(v: Option<&str>) -> (r: String)
    ensures
        r@ == debug_text(
            match v {
                Some(s) => Some(s@),
                None => None,
            },
        ),
{
    format!("{v:?}")
}

/// The text the value holds, if it is a string.
pub open spec fn as_text(v: Option<JsonValue>) -> Option<Seq<char>> {
    match v {
        Some(JsonValue::Str(s)) => Some(s@),
        _ => None,
    }
}

fn text_of(v: Option<&JsonValue>) -> (r: Option<&str>)
    ensures
        match r {
            Some(s) => as_text(
                match v {
                    Some(x) => Some(*x),
                    None => None,
                },
            ) == Some(s@),
            None => as_text(
                match v {
                    Some(x) => Some(*x),
                    None => None,
                },
            ) is None,
        },
{
    match v {
        Some(JsonValue::Str(s)) => Some(s.as_str()),
        _ => None,
    }
}

fn find_key(entries: &Vec<(String, JsonValue)>, key: &str) -> (r: Option<usize>)
    ensures
        match r {
            Some(i) => i < entries@.len() && first_key_from(entries@, key@, 0) == Some(i as int),
            None => first_key_from(entries@, key@, 0) is None,
        },
{
    let mut i: usize = 0;
    while i < entries.len()
        invariant
            i <= entries@.len(),
            first_key_from(entries@, key@, 0) == first_key_from(entries@, key@, i as int),
        decreases entries.len() - i,
    {
        if same_text(entries[i].0.as_str(), key) {
            return Some(i);
        }
        i += 1;
    }
    None
}

/// The member value moved out of an object.
fn take_member(value: JsonValue, key: &str) -> (r: Option<JsonValue>)
    ensures
        r == member(value, key@),
{
    match value {
        JsonValue::Object(entries) => match find_key(&entries, key) {
            Some(i) => {
                let mut rest = entries;
                let pair = rest.remove(i);
                Some(pair.1)
            },
            None => None,
        },
        _ => None,
    }
}

/// The error a reply carries, read from its `error` member: its code and
/// message where they are strings, else `unknown` and `herdr error`.
pub open spec fn reply_error(method: Seq<char>, error: JsonValue) -> (Seq<char>, Seq<char>, Seq<char>) {
    (
        method,
        match as_text(member(error, "code"@)) {
            Some(c) => c,
            None => "unknown"@,
        },
        match as_text(member(error, "message"@)) {
            Some(m) => m,
            None => "herdr error"@,
        },
    )
}

/// What a reply line means for a request of `method`: its `result`, or the
/// error it reports. A reply that is not JSON, that answers another request,
/// or that carries neither result nor error leaves the request unconfirmed.
pub open spec fn reply_outcome_ok(method: Seq<char>, bytes: Seq<u8>, r: Result<JsonValue, AppError>) -> bool {
    match json_parse(bytes) {
        None => r is Err && r->Err_0 is Uncertain && r->Err_0->Uncertain_method@ == method
            && r->Err_0->Uncertain_message@ == "response is not JSON: "@ + json_error_text(bytes),
        Some(v) => {
            let got = as_text(member(v, "id"@));
            if got != Some(spec_request_id(method)) {
                r is Err && r->Err_0 is Uncertain && r->Err_0->Uncertain_method@ == method
                    && r->Err_0->Uncertain_message@ == "response id "@ + debug_text(got)
                    + " does not match request"@
            } else {
                match member(v, "error"@) {
                    Some(e) => r is Err && r->Err_0 is Herdr && (
                    r->Err_0->Herdr_method@, r->Err_0->Herdr_code@, r->Err_0->Herdr_message@)
                        == reply_error(method, e),
                    None => match member(v, "result"@) {
                        Some(res) => r == Ok::<JsonValue, AppError>(res),
                        None => r is Err && r->Err_0 is Uncertain && r->Err_0->Uncertain_method@
                            == method && r->Err_0->Uncertain_message@
                            == "response has neither result nor error"@,
                    },
                }
            }
        },
    }
}

/// Read the reply line to a request of `method`.
pub fn interpret_reply(method: &str, line: &str) -> (r: Result<JsonValue, AppError>)
    ensures
        reply_outcome_ok(method@, vstd::utf8::encode_utf8(trimmed(line@)), r),
{
    let text = trim_text(line);
    let parsed = parse_json(text.as_str().as_bytes());
    let value = match parsed {
        Ok(v) => v,
        Err(e) => {
            let mut message = owned("response is not JSON: ");
            message.append(e.as_str());
            return Err(AppError::Uncertain { method: owned(method), message });
        },
    };
    let id = request_id(method);
    let got = text_of(value.get("id"));
    let matches = match got {
        Some(g) => same_text(g, id.as_str()),
        None => false,
    };
    if !matches {
        let mut message = owned("response id ");
        let shown = debug_of(got);
        message.append(shown.as_str());
        message.append(" does not match request");
        return Err(AppError::Uncertain { method: owned(method), message });
    }
    if let Some(error) = value.get("error") {
        let code = match text_of(error.get("code")) {
            Some(c) => owned(c),
            None => owned("unknown"),
        };
        let message = match text_of(error.get("message")) {
            Some(m) => owned(m),
            None => owned("herdr error"),
        };
        return Err(AppError::Herdr { method: owned(method), code, message });
    }
    match take_member(value, "result") {
        Some(result) => Ok(result),
        None => Err(AppError::uncertain(method, "response has neither result nor error")),
    }
}

/// The string at a path of members.
pub open spec fn text_at2(v: JsonValue, a: Seq<char>, b: Seq<char>) -> Option<Seq<char>> {
    match member(v, a) {
        Some(x) => as_text(member(x, b)),
        None => None,
    }
}

fn text_at(v: &JsonValue, a: &str, b: &str) -> (r: Option<String>)
    ensures
        match r {
            Some(s) => text_at2(*v, a@, b@) == Some(s@),
            None => text_at2(*v, a@, b@) is None,
        },
{
    match v.get(a) {
        Some(x) => match text_of(x.get(b)) {
            Some(s) => Some(owned(s)),
            None => None,
        },
        None => None,
    }
}

/// The tab and root pane that `tab.create` reports; a reply without either id
/// as a string leaves the creation unconfirmed.
pub fn created_tab_from(result: &JsonValue) -> (r: Result<CreatedTab, AppError>)
    ensures
        match (text_at2(*result, "tab"@, "tab_id"@), text_at2(*result, "root_pane"@, "pane_id"@)) {
            (Some(t), Some(p)) => r is Ok && r->Ok_0.tab_id.0@ == t && r->Ok_0.root_pane_id.0@ == p,
            (None, _) => r is Err && r->Err_0 is Uncertain && r->Err_0->Uncertain_method@
                == "tab.create"@ && r->Err_0->Uncertain_message@ == "response has no tab.tab_id"@,
            (Some(_), None) => r is Err && r->Err_0 is Uncertain && r->Err_0->Uncertain_method@
                == "tab.create"@ && r->Err_0->Uncertain_message@
                == "response has no root_pane.pane_id"@,
        },
{
    let tab_id = match text_at(result, "tab", "tab_id") {
        Some(t) => t,
        None => {
            return Err(AppError::uncertain("tab.create", "response has no tab.tab_id"));
        },
    };
    let root_pane_id = match text_at(result, "root_pane", "pane_id") {
        Some(p) => p,
        None => {
            return Err(AppError::uncertain("tab.create", "response has no root_pane.pane_id"));
        },
    };
    Ok(CreatedTab { tab_id: TabId(tab_id), root_pane_id: PaneId(root_pane_id) })
}

/// The id of the pane that `plugin.pane.open` reports.
pub open spec fn opened_id(v: JsonValue) -> Option<Seq<char>> {
    match member(v, "plugin_pane"@) {
        Some(p) => match member(p, "pane"@) {
            Some(q) => as_text(member(q, "pane_id"@)),
            None => None,
        },
        None => None,
    }
}

pub fn opened_pane_from(result: &JsonValue) -> (r: Result<OpenedPane, AppError>)
    ensures
        match opened_id(*result) {
            Some(id) => r is Ok && r->Ok_0.pane_id.0@ == id,
            None => r is Err && r->Err_0 is Uncertain && r->Err_0->Uncertain_method@
                == "plugin.pane.open"@ && r->Err_0->Uncertain_message@
                == "response has no plugin_pane.pane.pane_id"@,
        },
{
    let id = match result.get("plugin_pane") {
        Some(p) => match p.get("pane") {
            Some(q) => text_of(q.get("pane_id")),
            None => None,
        },
        None => None,
    };
    match id {
        Some(id) => Ok(OpenedPane { pane_id: PaneId(owned(id)) }),
        None => Err(AppError::uncertain("plugin.pane.open", "response has no plugin_pane.pane.pane_id")),
    }
}

/// The layout member of a `pane.layout` result.
pub fn layout_of(result: JsonValue) -> (r: Result<JsonValue, AppError>)
    ensures
        match member(result, "layout"@) {
            Some(l) => r == Ok::<JsonValue, AppError>(l),
            None => r is Err && r->Err_0 is SnapshotUnreadable && r->Err_0->SnapshotUnreadable_detail@
                == "pane.layout result has no layout"@,
        },
{
    match take_member(result, "layout") {
        Some(l) => Ok(l),
        None => Err(AppError::SnapshotUnreadable { detail: owned("pane.layout result has no layout") }),
    }
}

} // verus!
