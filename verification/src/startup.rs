//! What is computed once when the process starts: the site's base address
//! and the names of the top-level documents.

use vstd::prelude::*;
use vstd::string::*;
use crate::page::AppState;
use crate::route::names_view;

verus! {

/// The base address in development.
pub const LOCAL_DOMAIN: &'static str = "http://localhost:8000";

/// The name of the root document's file.
pub const ROOT_DOCUMENT: &'static str = "index.md";

/// The extension of a document's file.
pub const EXTENSION: &'static str = ".md";

/// The base address: the local one where no project is named, else the
/// project's public address.
pub open spec fn base_domain(project: Option<Seq<char>>) -> Seq<char> {
    match project {
        None => LOCAL_DOMAIN@,
        Some(name) => "https://"@ + name + ".shuttleapp.rs"@,
    }
}

/// `name` ends in the document extension.
pub open spec fn has_extension(name: Seq<char>) -> bool {
    name.len() >= EXTENSION@.len() && name.skip(name.len() - EXTENSION@.len()) == EXTENSION@
}

/// The listed name of a directory entry: the entry's name without the
/// extension, for an entry that ends in the extension and is not the root
/// document; none for any other.
pub open spec fn listed_name(entry: Seq<char>) -> Option<Seq<char>> {
    if has_extension(entry) && entry != ROOT_DOCUMENT@ {
        Some(entry.take(entry.len() - EXTENSION@.len()))
    } else {
        None
    }
}

/// The listed names of a directory's entries, in the entries' order.
pub open spec fn listed_names(entries: Seq<Seq<char>>) -> Seq<Seq<char>>
    decreases entries.len(),
{
    if entries.len() == 0 {
        Seq::empty()
    } else {
        match listed_name(entries.last()) {
            Some(name) => listed_names(entries.drop_last()).push(name),
            None => listed_names(entries.drop_last()),
        }
    }
}

/// The base address of the site.
pub fn site_domain(project: Option<&str>) -> (out: String)
    ensures
        out@ == base_domain(
            match project {
                Some(name) => Some(name@),
                None => None,
            },
        ),
{
    match project {
        None => String::from_str(LOCAL_DOMAIN),
        Some(name) => {
            let mut out = String::from_str("https://");
            out.append(name);
            out.append(".shuttleapp.rs");
            out
        },
    }
}

/// The listed name of one directory entry, if it has one.
pub fn document_name(entry: &str) -> (out: Option<String>)
    ensures
        out.is_some() == listed_name(entry@).is_some(),
        out matches Some(name) ==> listed_name(entry@) == Some(name@),
{
    let n: usize = entry.unicode_len();
    let e: usize = EXTENSION.unicode_len();
    if n < e {
        return None;
    }
    let tail = String::from_str(entry.substring_char(n - e, n));
    let whole = String::from_str(entry);
    if tail != String::from_str(EXTENSION) || whole == String::from_str(ROOT_DOCUMENT) {
        return None;
    }
    Some(String::from_str(entry.substring_char(0, n - e)))
}

/// The names of the top-level documents among a directory's entries, in the
/// entries' order.
pub fn catalog(entries: &Vec<String>) -> (out: Vec<String>)
    ensures
        names_view(out@) == listed_names(names_view(entries@)),
{
    let ghost all = names_view(entries@);
    let mut out: Vec<String> = Vec::new();
    let mut i: usize = 0;
    assert(names_view(out@) =~= listed_names(all.take(0)));
    while i < entries.len()
        invariant
            i <= entries.len(),
            all == names_view(entries@),
            names_view(out@) == listed_names(all.take(i as int)),
        decreases entries.len() - i,
    {
        let ghost before = names_view(out@);
        assert(all.take(i + 1).drop_last() =~= all.take(i as int));
        assert(all.take(i + 1).last() == entries@[i as int]@);
        match document_name(entries[i].as_str()) {
            Some(name) => {
                out.push(name);
                assert(names_view(out@) =~= before.push(name@));
            },
            None => {},
        }
        i += 1;
    }
    assert(all.take(entries.len() as int) =~= all);
    out
}

impl AppState {
    /// The state of a site with the given base address and directory entries.
    pub fn from_entries(domain: String, entries: &Vec<String>) -> (out: AppState)
        ensures
            out.domain@ == domain@,
            names_view(out.top_level_documents@) == listed_names(names_view(entries@)),
    {
        AppState { domain, top_level_documents: catalog(entries) }
    }
}

} // verus!
