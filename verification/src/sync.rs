use vstd::prelude::*;

verus! {

/// What the sync daemon does with the admin's answer.
#[derive(Debug, PartialEq, Eq)]
pub enum SyncAction {
    /// The admin answered with a non-success status: keep the last whitelist.
    KeepOnErrorStatus,
    /// The body is not JSON: keep the last whitelist.
    KeepOnInvalidJson,
    /// The JSON is not an array: keep the last whitelist.
    KeepOnNotArray,
    /// The JSON could not be printed again: the round fails.
    PrintFailed,
    /// Replace the whitelist file by this text, an array of `entries` entries.
    Replace { content: String, entries: usize },
}

/// `SyncAction` with the text as characters.
pub enum SyncActionView {
    KeepOnErrorStatus,
    KeepOnInvalidJson,
    KeepOnNotArray,
    PrintFailed,
    Replace { content: Seq<char>, entries: usize },
}

pub open spec fn sync_action_view(a: SyncAction) -> SyncActionView {
    match a {
        SyncAction::KeepOnErrorStatus => SyncActionView::KeepOnErrorStatus,
        SyncAction::KeepOnInvalidJson => SyncActionView::KeepOnInvalidJson,
        SyncAction::KeepOnNotArray => SyncActionView::KeepOnNotArray,
        SyncAction::PrintFailed => SyncActionView::PrintFailed,
        SyncAction::Replace { content, entries } => SyncActionView::Replace { content: content@, entries },
    }
}

/// What `serde_json` makes of a body: `None` when it is not JSON, else
/// `Some(n)` for an array of `n` values and `Some(None)` for any other value.
pub uninterp spec fn json_array_length(body: Seq<u8>) -> Option<Option<usize>>;

/// The body parsed by `serde_json` and printed again by
/// `serde_json::to_string_pretty`; `None` when either step fails.
pub uninterp spec fn json_pretty_text(body: Seq<u8>) -> Option<Seq<char>>;

/// Calls `serde_json::from_slice::<serde_json::Value>` and, on success,
/// `Value::as_array` and the array's `len`. Claims only that the answer is
/// a function of the body bytes.
#[verifier::external_body]
fn json_array_len_of(body: &[u8]) -> (r: Option<Option<usize>>)
    ensures
        r == json_array_length(body@),
{
    match serde_json::from_slice::<serde_json::Value>(body) {
        Ok(v) => match v.as_array() {
            Some(a) => Some(Some(a.len())),
            None => Some(None),
        },
        Err(_) => None,
    }
}

/// Calls `serde_json::from_slice::<serde_json::Value>` and, on success,
/// `serde_json::to_string_pretty`. Claims only that the text is a function
/// of the body bytes.
#[verifier::external_body]
fn json_pretty_of(body: &[u8]) -> (r: Option<String>)
    ensures
        match r {
            Some(s) => json_pretty_text(body@) == Some(s@),
            None => json_pretty_text(body@) is None,
        },
{
    match serde_json::from_slice::<serde_json::Value>(body) {
        Ok(v) => match serde_json::to_string_pretty(&v) {
            Ok(s) => Some(s),
            Err(_) => None,
        },
        Err(_) => None,
    }
}

/// The daemon's decision on an answer of the admin: the local whitelist is
/// replaced only by a successful answer whose body is a JSON array, and
/// then by the pretty-printed text of that body (`json_pretty_text`).
pub open spec fn sync_plan(status_success: bool, body: Seq<u8>) -> SyncActionView {
    if !status_success {
        SyncActionView::KeepOnErrorStatus
    } else {
        match json_array_length(body) {
            None => SyncActionView::KeepOnInvalidJson,
            Some(len) => match len {
                None => SyncActionView::KeepOnNotArray,
                Some(n) => match json_pretty_text(body) {
                    None => SyncActionView::PrintFailed,
                    Some(text) => SyncActionView::Replace { content: text, entries: n },
                },
            },
        }
    }
}

/// Decides what to do with the admin's answer to a whitelist download.
pub fn plan_sync(status_success: bool, body: &[u8]) -> (r: SyncAction)
    ensures
        sync_action_view(r) == sync_plan(status_success, body@),
        status_success && json_array_length(body@) is Some && json_array_length(body@)->0 is Some
            && json_pretty_text(body@) is Some ==> r is Replace && r->content@ == json_pretty_text(body@)->0
            && r->entries == json_array_length(body@)->0->0,
{
    if !status_success {
        return SyncAction::KeepOnErrorStatus;
    }
    match json_array_len_of(body) {
        None => SyncAction::KeepOnInvalidJson,
        Some(None) => SyncAction::KeepOnNotArray,
        Some(Some(n)) => match json_pretty_of(body) {
            None => SyncAction::PrintFailed,
            Some(text) => SyncAction::Replace { content: text, entries: n },
        },
    }
}

/// The whitelist is never replaced unless the admin answered with success
/// and a JSON array: an unreachable or misbehaving admin leaves the last
/// synced whitelist in force.
pub proof fn lemma_replace_only_on_array(status_success: bool, body: Seq<u8>)
    ensures
        sync_plan(status_success, body) is Replace ==> status_success && json_array_length(body) matches Some(
            Some(_),
        ),
        !status_success ==> sync_plan(status_success, body) is KeepOnErrorStatus,
{
}

/// A successful answer that is a JSON array, of any length (an empty one
/// included), replaces the whitelist with the pretty-printed body and its
/// entry count; a successful answer that is JSON but no array, or no JSON at
/// all, leaves it in force.
pub proof fn lemma_every_array_replaces(body: Seq<u8>)
    ensures
        json_array_length(body) is Some && json_array_length(body)->0 is Some && json_pretty_text(body) is Some
            ==> sync_plan(true, body) == (SyncActionView::Replace {
            content: json_pretty_text(body)->0,
            entries: json_array_length(body)->0->0,
        }),
        json_array_length(body) == Some(None::<usize>) ==> sync_plan(true, body) is KeepOnNotArray,
        json_array_length(body) is None ==> sync_plan(true, body) is KeepOnInvalidJson,
{
}

} // verus!
