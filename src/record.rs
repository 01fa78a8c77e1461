//! The records the share walk emits, and how they are built from what the
//! filesystem reports.

use vstd::prelude::*;
use crate::acl::{AccessEntry, AccessEntryView, decode_descriptor, descriptor_entries, entries_view};
use crate::text::{lower_of, lowercase};

verus! {

/// The kind of filesystem object a record describes.
#[derive(Clone, Copy, Debug, PartialEq, Eq, Structural)]
pub enum EntryType {
    File,
    Directory,
    Share,
}

impl EntryType {
    /// The label written for this kind: `file`, `directory` or `share`.
    pub fn as_text(&self) -> (r: String)
        ensures
            r@ == (match self {
                EntryType::File => "file"@,
                EntryType::Directory => "directory"@,
                EntryType::Share => "share"@,
            }),
    {
        match self {
            EntryType::File => String::from_str("file"),
            EntryType::Directory => String::from_str("directory"),
            EntryType::Share => String::from_str("share"),
        }
    }
}

/// One directory entry as a listing reports it.
pub struct DirItem {
    /// Leaf name.
    pub name: String,
    /// Absolute or UNC path.
    pub full_path: String,
    /// Whether the listing reports a directory, which the walk descends into.
    pub is_dir: bool,
}

/// What the filesystem reports of one object whose metadata could be read.
pub struct EntryFacts {
    pub size: u64,
    pub is_dir: bool,
    /// Creation time, in seconds since the Unix epoch, when the OS gives one.
    pub created: Option<i64>,
    /// Last write time, in seconds since the Unix epoch, when the OS gives one.
    pub modified: Option<i64>,
    /// The self-relative security descriptor, or `None` when the OS handed
    /// none back.
    pub descriptor: Option<Vec<u8>>,
}

/// One emitted record.
pub struct ResourceEntry {
    pub name: String,
    pub full_path: String,
    pub size: Option<u64>,
    pub extension: Option<String>,
    pub created: Option<String>,
    pub modified: Option<String>,
    pub acls: Option<Vec<AccessEntry>>,
    pub entry_type: EntryType,
}

/// The UTC text (`%Y-%m-%d %H:%M:%S UTC`) chrono gives a Unix time.
pub uninterp spec fn utc_format(secs: int) -> Seq<char>;

/// Relies on chrono's `DateTime::<Utc>::from_timestamp` (`None` out of range)
/// and `format` with `%Y-%m-%d %H:%M:%S UTC`: the text depends on `secs` alone.
#[verifier::external_body]
fn utc_text(secs: i64) -> (r: Option<String>)
    ensures
        r is Some ==> r->0@ == utc_format(secs as int),
{
    match chrono::DateTime::<chrono::Utc>::from_timestamp(secs, 0) {
        Some(t) => Some(t.format("%Y-%m-%d %H:%M:%S UTC").to_string()),
        None => None,
    }
}

/// What a record says of a time: nothing when none was read; otherwise its
/// text, or nothing when the time lies outside the calendar.
pub open spec fn time_ok(t: Option<i64>, r: Option<String>) -> bool {
    match t {
        None => r is None,
        Some(secs) => r is Some ==> r->0@ == utc_format(secs as int),
    }
}

fn time_text(t: Option<i64>) -> (r: Option<String>)
    ensures
        time_ok(t, r),
{
    match t {
        Some(secs) => utc_text(secs),
        None => None,
    }
}

/// The ACL entries recorded for an object: no entries when the OS handed no
/// descriptor back; otherwise what the descriptor's DACL decodes to, absent
/// when the buffer is not a descriptor.
pub open spec fn acls_of(descriptor: Option<Seq<u8>>) -> Option<Seq<AccessEntryView>> {
    match descriptor {
        None => Some(Seq::empty()),
        Some(d) => descriptor_entries(d),
    }
}

/// Whether the decoded ACLs of a record are those of `descriptor`.
pub open spec fn acls_ok(descriptor: Option<Vec<u8>>, r: Option<Vec<AccessEntry>>) -> bool {
    match acls_of(
        match descriptor {
            Some(d) => Some(d@),
            None => None,
        },
    ) {
        Some(s) => r is Some && entries_view(r->0@) == s,
        None => r is None,
    }
}

fn acl_list(descriptor: &Option<Vec<u8>>) -> (r: Option<Vec<AccessEntry>>)
    ensures
        acls_ok(*descriptor, r),
{
    match descriptor {
        Some(d) => decode_descriptor(d.as_slice()),
        None => {
            let none: Vec<AccessEntry> = Vec::new();
            proof {
                assert(entries_view(none@) =~= Seq::<AccessEntryView>::empty());
            }
            Some(none)
        },
    }
}

/// The index of the last `.` among the first `n` characters of `s`, or -1.
pub open spec fn last_dot(s: Seq<char>, n: int) -> int
    decreases n,
{
    if n <= 0 {
        -1
    } else if s[n - 1] == '.' {
        n - 1
    } else {
        last_dot(s, n - 1)
    }
}

/// The extension of a leaf name: what follows its last `.`, unless there is
/// no dot or the only text before it is empty.
pub open spec fn extension_of(name: Seq<char>) -> Option<Seq<char>> {
    let k = last_dot(name, name.len() as int);
    if k <= 0 {
        None
    } else {
        Some(name.subrange(k + 1, name.len() as int))
    }
}

/// The extension of a leaf name, as [`extension_of`] defines it.
pub fn file_extension(name: &str) -> (r: Option<String>)
    ensures
        match extension_of(name@) {
            Some(e) => r is Some && r->0@ == e,
            None => r is None,
        },
{
    let n = name.unicode_len();
    let mut i: usize = n;
    while i > 0
        invariant
            i <= n,
            n == name@.len(),
            last_dot(name@, n as int) == last_dot(name@, i as int),
        decreases i,
    {
        if name.get_char(i - 1) == '.' {
            if i - 1 == 0 {
                return None;
            }
            return Some(String::from_str(name.substring_char(i, n)));
        }
        i = i - 1;
    }
    None
}

/// Whether `r` is the record of a share root: named by its UNC path,
/// without size or extension.
pub open spec fn share_record_ok(unc_path: Seq<char>, facts: EntryFacts, r: ResourceEntry) -> bool {
    &&& r.name@ == unc_path
    &&& r.full_path@ == unc_path
    &&& r.size is None
    &&& r.extension is None
    &&& time_ok(facts.created, r.created)
    &&& time_ok(facts.modified, r.modified)
    &&& acls_ok(facts.descriptor, r.acls)
    &&& r.entry_type == EntryType::Share
}

/// The record of a share root.
pub fn share_record(unc_path: &str, facts: &EntryFacts) -> (r: ResourceEntry)
    ensures
        share_record_ok(unc_path@, *facts, r),
{
    ResourceEntry {
        name: String::from_str(unc_path),
        full_path: String::from_str(unc_path),
        size: None,
        extension: None,
        created: time_text(facts.created),
        modified: time_text(facts.modified),
        acls: acl_list(&facts.descriptor),
        entry_type: EntryType::Share,
    }
}

/// Whether `r` is the record of a directory entry: size and lower-cased
/// extension for files only.
pub open spec fn item_record_ok(item: DirItem, facts: EntryFacts, r: ResourceEntry) -> bool {
    &&& r.name@ == item.name@
    &&& r.full_path@ == item.full_path@
    &&& r.entry_type == (if facts.is_dir {
        EntryType::Directory
    } else {
        EntryType::File
    })
    &&& r.size == (if facts.is_dir {
        None
    } else {
        Some(facts.size)
    })
    &&& (if facts.is_dir {
        r.extension is None
    } else {
        match extension_of(item.name@) {
            Some(e) => r.extension is Some && r.extension->0@ == lower_of(e),
            None => r.extension is None,
        }
    })
    &&& time_ok(facts.created, r.created)
    &&& time_ok(facts.modified, r.modified)
    &&& acls_ok(facts.descriptor, r.acls)
}

/// The record of one directory entry.
pub fn item_record(item: &DirItem, facts: &EntryFacts) -> (r: ResourceEntry)
    ensures
        item_record_ok(*item, *facts, r),
{
    let extension = if facts.is_dir {
        None
    } else {
        match file_extension(item.name.as_str()) {
            Some(e) => Some(lowercase(e.as_str())),
            None => None,
        }
    };
    ResourceEntry {
        name: item.name.clone(),
        full_path: item.full_path.clone(),
        size: if facts.is_dir {
            None
        } else {
            Some(facts.size)
        },
        extension,
        created: time_text(facts.created),
        modified: time_text(facts.modified),
        acls: acl_list(&facts.descriptor),
        entry_type: if facts.is_dir {
            EntryType::Directory
        } else {
            EntryType::File
        },
    }
}

} // verus!
