use vstd::prelude::*;

use crate::peers::copy_opt_string;
use crate::text::str_is_empty;

verus! {

#[derive(Debug)]
pub struct CreateWhitelistRequest {
    pub ip: String,
    pub comment: Option<String>,
    pub hostname: Option<String>,
}

/// A whitelist entry as the admin UI lists it.
#[derive(Debug, PartialEq, Eq)]
pub struct WhitelistEntry {
    pub id: i32,
    pub ip: String,
    pub comment: Option<String>,
    pub hostname: Option<String>,
    pub created_by: String,
    pub created_at: String,
}

#[derive(Debug)]
pub struct WhitelistResponse {
    pub entries: Vec<WhitelistEntry>,
}

#[derive(Debug)]
pub struct DeleteWhitelistRequest {
    pub id: i32,
}

#[derive(Debug)]
pub struct UnbindWhitelistRequest {
    pub id: i32,
}

/// A whitelist entry as agents download it.
#[derive(Debug, PartialEq, Eq)]
pub struct PublicWhitelistEntry {
    pub ip: String,
    pub hostname: Option<String>,
}

/// A stored whitelist row (its creation time already written in RFC 3339).
#[derive(Debug)]
pub struct WhitelistRow {
    pub id: i32,
    pub ip: String,
    pub comment: Option<String>,
    pub hostname: Option<String>,
    pub created_by: String,
    pub created_at: String,
}

/// A hostname binding as it is published: an empty hostname is no binding.
pub open spec fn published_hostname(h: Option<String>) -> Option<String> {
    match h {
        Some(s) => if s@.len() == 0 {
            None
        } else {
            Some(s)
        },
        None => None,
    }
}

/// Publishes a hostname binding, dropping an empty one.
pub fn publish_hostname(h: Option<String>) -> (r: Option<String>)
    ensures
        r == published_hostname(h),
{
    match h {
        Some(s) => if str_is_empty(s.as_str()) {
            None
        } else {
            Some(s)
        },
        None => None,
    }
}

/// The list entry of a row: the row with its hostname published.
pub open spec fn entry_of(row: WhitelistRow) -> WhitelistEntry {
    WhitelistEntry {
        id: row.id,
        ip: row.ip,
        comment: row.comment,
        hostname: published_hostname(row.hostname),
        created_by: row.created_by,
        created_at: row.created_at,
    }
}

/// The exported entry of a row: its ip and published hostname.
pub open spec fn public_entry_of(row: WhitelistRow) -> PublicWhitelistEntry {
    PublicWhitelistEntry { ip: row.ip, hostname: published_hostname(row.hostname) }
}

/// The whitelist as the admin UI lists it, one entry per row in order.
pub fn list_whitelist(rows: Vec<WhitelistRow>) -> (r: WhitelistResponse)
    ensures
        r.entries@.len() == rows@.len(),
        forall|i: int| 0 <= i < rows@.len() ==> r.entries@[i] == entry_of(#[trigger] rows@[i]),
        forall|i: int|
            0 <= i < rows@.len() ==> {
                &&& (#[trigger] r.entries@[i]).id == rows@[i].id
                &&& r.entries@[i].ip == rows@[i].ip
                &&& r.entries@[i].comment == rows@[i].comment
                &&& r.entries@[i].created_by == rows@[i].created_by
                &&& r.entries@[i].created_at == rows@[i].created_at
            },
{
    let mut entries: Vec<WhitelistEntry> = Vec::new();
    let mut i: usize = 0;
    while i < rows.len()
        invariant
            i <= rows@.len(),
            entries@.len() == i,
            forall|j: int| 0 <= j < i ==> entries@[j] == entry_of(#[trigger] rows@[j]),
        decreases rows@.len() - i,
    {
        let row = &rows[i];
        entries.push(
            WhitelistEntry {
                id: row.id,
                ip: row.ip.clone(),
                comment: copy_opt_string(&row.comment),
                hostname: publish_hostname(copy_opt_string(&row.hostname)),
                created_by: row.created_by.clone(),
                created_at: row.created_at.clone(),
            },
        );
        i = i + 1;
    }
    WhitelistResponse { entries }
}

/// The public whitelist that agents download, one entry per row in order.
pub fn export_whitelist(rows: Vec<WhitelistRow>) -> (r: Vec<PublicWhitelistEntry>)
    ensures
        r@.len() == rows@.len(),
        forall|i: int| 0 <= i < rows@.len() ==> r@[i] == public_entry_of(#[trigger] rows@[i]),
{
    let mut out: Vec<PublicWhitelistEntry> = Vec::new();
    let mut i: usize = 0;
    while i < rows.len()
        invariant
            i <= rows@.len(),
            out@.len() == i,
            forall|j: int| 0 <= j < i ==> out@[j] == public_entry_of(#[trigger] rows@[j]),
        decreases rows@.len() - i,
    {
        let row = &rows[i];
        out.push(
            PublicWhitelistEntry {
                ip: row.ip.clone(),
                hostname: publish_hostname(copy_opt_string(&row.hostname)),
            },
        );
        i = i + 1;
    }
    out
}

/// The row after its hostname is unbound.
pub fn unbind_hostname(row: WhitelistRow) -> (r: WhitelistRow)
    ensures
        r.hostname is None,
        r.id == row.id,
        r.ip == row.ip,
        r.comment == row.comment,
        r.created_by == row.created_by,
        r.created_at == row.created_at,
{
    WhitelistRow { hostname: None, ..row }
}

/// The admin UI and the agents see the same binding for every row.
pub proof fn lemma_list_and_export_agree(row: WhitelistRow)
    ensures
        entry_of(row).ip == public_entry_of(row).ip,
        entry_of(row).hostname == public_entry_of(row).hostname,
{
}

/// After an unbind, agents receive the entry with no hostname (a null
/// binding), under the same ip.
pub proof fn lemma_unbound_exports_null(before: WhitelistRow, after: WhitelistRow)
    requires
        after.hostname is None,
        after.ip == before.ip,
    ensures
        public_entry_of(after) == (PublicWhitelistEntry { ip: before.ip, hostname: None }),
{
}

/// A bound hostname reaches the agents unchanged; an empty one is
/// published as no binding.
pub proof fn lemma_binding_published(row: WhitelistRow)
    ensures
        row.hostname matches Some(h) && h@.len() > 0 ==> public_entry_of(row).hostname == row.hostname,
        row.hostname matches Some(h) && h@.len() == 0 ==> public_entry_of(row).hostname is None,
{
}

/// A listed entry is its row: the same id, ip, comment, creator and
/// creation time, and the row's hostname when it is bound to a non-empty
/// name (no hostname otherwise).
pub proof fn lemma_listed_entry_is_its_row(row: WhitelistRow)
    ensures
        entry_of(row).id == row.id,
        entry_of(row).ip == row.ip,
        entry_of(row).comment == row.comment,
        entry_of(row).created_by == row.created_by,
        entry_of(row).created_at == row.created_at,
        (row.hostname matches Some(h) && h@.len() > 0) ==> entry_of(row).hostname == row.hostname,
        !(row.hostname matches Some(h) && h@.len() > 0) ==> entry_of(row).hostname is None,
{
}

} // verus!
