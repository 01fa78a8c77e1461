//! The statements the graph importer runs for each kind of record.

use vstd::prelude::*;
use crate::text::{lower_of, lowercase, same_text};

verus! {

/// Size and kind of a file offered for import.
pub struct FileMetadata {
    pub size: u64,
    pub is_jsonl: bool,
}

/// Upserts user identities.
pub const USERS_IMPORT_QUERY: &'static str = "
            WITH apoc.convert.fromJsonList($data) AS items
            UNWIND items AS item
            MERGE (i:Identity {sid: item.sid})
            SET i:User,
                i.distinguished_name = item.distinguished_name,
                i.name = item.cn,
                i.sam_account_name = item.sam_account_name,
                i.when_created = item.when_created,
                i.last_logon = datetime(item.last_logon)
            RETURN count(i) as count";

/// Upserts groups and their memberships.
pub const GROUPS_IMPORT_QUERY: &'static str = "
            WITH apoc.convert.fromJsonList($data) AS items
                UNWIND items AS item

                // Merge group as an Identity node and label it also as Group
                MERGE (i:Identity {sid: item.sid})
                SET i:Group,
                    i.name = item.cn,
                    i.distinguished_name = item.distinguished_name

                WITH i, item.members AS members
                UNWIND members AS member_dn
                MATCH (m:Identity {distinguished_name: member_dn})
                MERGE (m)-[:MEMBER_OF]->(i)

            RETURN count(i) as count;";

/// Creates entries and permission edges, for a first import of share records.
pub const SHARES_INITIAL_IMPORT_QUERY: &'static str = "
                WITH apoc.convert.fromJsonList($data) AS items
                UNWIND items AS item

                    // Create the entry node (no duplicate checks)
                    CREATE (entry { full_path: item.full_path })
                    REMOVE entry:Entry
                    SET entry.name = item.name,
                        entry.size = item.size,
                        entry.extension = item.extension,
                        entry.created = item.created,
                        entry.modified = item.modified

                    // Dynamically label the node
                    WITH entry, item
                    CALL apoc.create.setLabels(entry, [item.entry_type]) YIELD node
                    WITH node AS entry, item

                    // Unwind the ACL array
                    WITH entry, item
                    UNWIND CASE WHEN item.acls IS NOT NULL THEN item.acls ELSE [] END AS acl
                        // Merge the Identity node (duplicate checks)
                        MERGE (identity:Identity { sid: acl.identity })

                        // Important: add a WITH here before the next UNWIND
                        WITH entry, identity, acl

                        // Unwind permissions to create dynamic relationships
                        UNWIND acl.permissions AS permission
                        CALL apoc.create.relationship(
                            identity,
                            permission,
                            { ace_type: acl.ace_type, access_mask: acl.access_mask },
                            entry
                        ) YIELD rel

                RETURN count(entry) AS count";

/// Merges entries with existing ones and adds permission edges, for a later import of share records.
pub const SHARES_MERGE_IMPORT_QUERY: &'static str = "
                WITH apoc.convert.fromJsonList($data) AS items
                UNWIND items AS item
                // Match any existing file, directory, or share node with the same full_path
                OPTIONAL MATCH (existing)
                WHERE (existing:file OR existing:directory OR existing:share)
                AND existing.full_path = item.full_path
                WITH item, existing
                CALL apoc.do.when(
                    existing IS NOT NULL,
                    'RETURN existing AS entry',
                    'CREATE (entry:Entry { full_path: item.full_path }) RETURN entry',
                    {item: item, existing: existing}
                ) YIELD value
                WITH value.entry AS entry, item
                SET entry.name = item.name,
                    entry.size = item.size,
                    entry.extension = item.extension,
                    entry.created = item.created,
                    entry.modified = item.modified


                    // Dynamically label the node only if a new node was created with the merge 
                    WITH entry, item
                    CALL apoc.create.setLabels(entry, [item.entry_type]) YIELD node
                    WITH node AS entry, item

                    // Unwind the ACL array
                    WITH entry, item
                    UNWIND CASE WHEN item.acls IS NOT NULL THEN item.acls ELSE [] END AS acl
                        // Merge the Identity node (duplicate checks)
                        MERGE (identity:Identity { sid: acl.identity })

                        // Important: add a WITH here before the next UNWIND
                        WITH entry, identity, acl

                        // Unwind permissions to create dynamic relationships
                        UNWIND acl.permissions AS permission
                        CALL apoc.create.relationship(
                            identity,
                            permission,
                            { ace_type: acl.ace_type, access_mask: acl.access_mask },
                            entry
                        ) YIELD rel

                RETURN count(entry) AS count";

/// Creates computer nodes.
pub const COMPUTERS_IMPORT_QUERY: &'static str = "
              WITH apoc.convert.fromJsonList($data) AS items
              UNWIND items AS item
              CREATE (n:Computer {distinguished_name: item.distinguished_name})
              SET n.name = item.cn,
                  n.dns_hostname = item.dns_hostname,
                  n.operating_system = item.operating_system,
                  n.os_version = item.os_version,
                  n.when_created = item.when_created,
                  n.last_logon = datetime(item.last_logon)
              RETURN count(n) as count";

/// The text returned for a mode that has no query.
pub const UNKNOWN_MODE_TEXT: &'static str = "Error: Unknown mode";

/// Creates the built-in identities, after a domain import.
pub const BUILTIN_SIDS_QUERY: &'static str = r#"
UNWIND [
    {sid: "S-1-5-18", name: "NT AUTHORITY\\SYSTEM"},
    {sid: "S-1-5-19", name: "NT AUTHORITY\\LOCAL SERVICE"},
    {sid: "S-1-5-20", name: "NT AUTHORITY\\NETWORK SERVICE"},
    {sid: "S-1-5-32-544", name: "BUILTIN\\Administrators"},
    {sid: "S-1-5-32-545", name: "BUILTIN\\Users"},
    {sid: "S-1-5-32-546", name: "BUILTIN\\Guests"},
    {sid: "S-1-5-32-547", name: "BUILTIN\\Power Users"},
    {sid: "S-1-5-32-548", name: "BUILTIN\\Account Operators"},
    {sid: "S-1-5-32-549", name: "BUILTIN\\Server Operators"},
    {sid: "S-1-5-32-550", name: "BUILTIN\\Print Operators"},
    {sid: "S-1-5-32-551", name: "BUILTIN\\Backup Operators"},
    {sid: "S-1-5-32-552", name: "BUILTIN\\Replicators"},
    {sid: "S-1-5-32-554", name: "BUILTIN\\Pre-Windows 2000 Compatible Access"},
    {sid: "S-1-5-32-555", name: "BUILTIN\\Remote Desktop Users"},
    {sid: "S-1-5-32-556", name: "BUILTIN\\Network Configuration Operators"},
    {sid: "S-1-5-32-557", name: "BUILTIN\\Incoming Forest Trust Builders"},
    {sid: "S-1-5-32-558", name: "BUILTIN\\Performance Monitor Users"},
    {sid: "S-1-5-32-559", name: "BUILTIN\\Performance Log Users"},
    {sid: "S-1-5-32-560", name: "BUILTIN\\Windows Authorization Access Group"},
    {sid: "S-1-5-32-561", name: "BUILTIN\\Terminal Server License Servers"},
    {sid: "S-1-5-32-562", name: "BUILTIN\\Distributed COM Users"},
    {sid: "S-1-5-32-568", name: "BUILTIN\\IIS_IUSRS"},
    {sid: "S-1-5-32-569", name: "BUILTIN\\Cryptographic Operators"},
    {sid: "S-1-5-32-573", name: "BUILTIN\\Event Log Readers"},
    {sid: "S-1-5-32-574", name: "BUILTIN\\Certificate Service DCOM Access"},
    {sid: "S-1-5-32-575", name: "BUILTIN\\RDS Remote Access Servers"},
    {sid: "S-1-5-32-576", name: "BUILTIN\\RDS Endpoint Servers"},
    {sid: "S-1-5-32-577", name: "BUILTIN\\RDS Management Servers"},
    {sid: "S-1-5-32-578", name: "BUILTIN\\Hyper-V Administrators"},
    {sid: "S-1-5-32-579", name: "BUILTIN\\Access Control Assistance Operators"},
    {sid: "S-1-5-32-580", name: "BUILTIN\\Remote Management Users"},
    {sid: "S-1-5-80-956008885-3418522649-1831038044-1853292631-2271478464", name: "NT SERVICE\\TrustedInstaller"},
    {sid: "S-1-5-32-583", name: "BUILTIN\\Device Owners"},
    {sid: "S-1-15-2-1", name: "ALL APPLICATION PACKAGES"},
    {sid: "S-1-15-2-2", name: "ALL RESTRICTED APPLICATION PACKAGES"},
    {sid: "S-1-1-0", name: "Everyone"},
    {sid: "S-1-5-11", name: "Authenticated Users"},
    {sid: "S-1-5-2", name: "NETWORK"},
    {sid: "S-1-5-4", name: "INTERACTIVE"},
    {sid: "S-1-5-6", name: "SERVICE"},
    {sid: "S-1-5-7", name: "ANONYMOUS"},
    {sid: "S-1-5-9", name: "ENTERPRISE DOMAIN CONTROLLERS"},
    {sid: "S-1-5-10", name: "Principal Self"},
    {sid: "S-1-3-0", name: "CREATOR OWNER"},
    {sid: "S-1-3-1", name: "CREATOR GROUP"},
    {sid: "S-1-5-32-553", name: "BUILTIN\\Backup Operators"}
] AS item
MERGE (n:Identity {sid: item.sid})
SET n.name = item.name
"#;

/// Links users to the built-in groups, after a domain import.
pub const LINK_USERS_TO_BUILTIN_GROUPS_QUERY: &'static str = r#"
MATCH (u:User)
MATCH (i:Identity)
WHERE i.name IN ["Everyone", "Authenticated Users"]
OR i.sid ENDS WITH "-513"
MERGE (u)-[:MEMBER_OF]->(i)"#;

/// Adds the domain users group to the built-in users group, after a domain import.
pub const ADD_DOMAIN_GROUP_TO_BUILTIN_USERS_GROUP_QUERY: &'static str = r#"
MATCH (o:Identity)
WHERE o.sid ENDS WITH "-513"
MATCH (b:Identity)
WHERE b.sid = "S-1-5-32-545"
MERGE (o)-[:MEMBER_OF]->(b)
"#;

/// Indexes file entries by full path.
pub const ADD_INDEX_FOR_FULLPATH_ON_FILES_QUERY: &'static str = r#"
CREATE INDEX IF NOT EXISTS FOR (f:file) ON (f.full_path);
"#;

/// Indexes identities by SID.
pub const ADD_INDEX_FOR_IDENTITY_SID_QUERY: &'static str = r#"
CREATE INDEX IF NOT EXISTS FOR (i:Identity) ON (i.sid);
"#;

/// The import statement for a mode: `users`, `groups`, `shares` (a first
/// import or a later one) or `computers`.
pub open spec fn import_query(mode: Seq<char>, is_initial_share_import: bool) -> Seq<char> {
    if mode == "users"@ {
        USERS_IMPORT_QUERY@
    } else if mode == "groups"@ {
        GROUPS_IMPORT_QUERY@
    } else if mode == "shares"@ {
        if is_initial_share_import {
            SHARES_INITIAL_IMPORT_QUERY@
        } else {
            SHARES_MERGE_IMPORT_QUERY@
        }
    } else if mode == "computers"@ {
        COMPUTERS_IMPORT_QUERY@
    } else {
        UNKNOWN_MODE_TEXT@
    }
}

/// The import statement for a mode, as [`import_query`] gives it.
pub fn get_import_query_for_mode(mode: &str, is_initial_share_import: bool) -> (r: String)
    ensures
        r@ == import_query(mode@, is_initial_share_import),
{
    if same_text(mode, "users") {
        String::from_str(USERS_IMPORT_QUERY)
    } else if same_text(mode, "groups") {
        String::from_str(GROUPS_IMPORT_QUERY)
    } else if same_text(mode, "shares") {
        if is_initial_share_import {
            String::from_str(SHARES_INITIAL_IMPORT_QUERY)
        } else {
            String::from_str(SHARES_MERGE_IMPORT_QUERY)
        }
    } else if same_text(mode, "computers") {
        String::from_str(COMPUTERS_IMPORT_QUERY)
    } else {
        String::from_str(UNKNOWN_MODE_TEXT)
    }
}

/// Whether a lower-cased path names a line-delimited JSON file.
pub open spec fn jsonl_name(lower: Seq<char>) -> bool {
    lower.len() >= 6 && lower.subrange(lower.len() - 6, lower.len() as int) == ".jsonl"@
}

/// Whether an already lower-cased path ends in `.jsonl`.
pub fn is_jsonl_name(lower: &str) -> (r: bool)
    ensures
        r == jsonl_name(lower@),
{
    proof {
        reveal_strlit(".jsonl");
    }
    let n = lower.unicode_len();
    if n < 6 {
        return false;
    }
    same_text(lower.substring_char(n - 6, n), ".jsonl")
}

/// Whether a path ends in `.jsonl`, in any case.
pub fn is_jsonl_path(path: &str) -> (r: bool)
    ensures
        r == jsonl_name(lower_of(path@)),
{
    let lower = lowercase(path);
    is_jsonl_name(lower.as_str())
}

/// Whether `mode` is one the importer knows.
pub open spec fn import_mode(mode: Seq<char>) -> bool {
    mode == "users"@ || mode == "groups"@ || mode == "computers"@ || mode == "domain"@ || mode
        == "shares"@
}

/// Whether `mode` is one the importer knows.
pub fn is_import_mode(mode: &str) -> (r: bool)
    ensures
        r == import_mode(mode@),
{
    same_text(mode, "users") || same_text(mode, "groups") || same_text(mode, "computers")
        || same_text(mode, "domain") || same_text(mode, "shares")
}

/// What an import reads.
#[derive(Clone, Copy, Debug, PartialEq, Eq, Structural)]
pub enum ImportSource {
    /// Line-delimited JSON records.
    Jsonl,
    /// A zip archive of the files of a directory enumeration.
    DomainArchive,
    /// Nothing the importer can read in that mode.
    Unsupported,
}

/// Whether a lower-cased path ends in `suffix`.
pub open spec fn ends_with(lower: Seq<char>, suffix: Seq<char>) -> bool {
    lower.len() >= suffix.len() && lower.subrange(lower.len() - suffix.len(), lower.len() as int)
        == suffix
}

/// What a file is read as: line-delimited JSON by its `.jsonl` name, or, in
/// `domain` mode, a zip archive by its `.zip` name.
pub open spec fn source_of(path: Seq<char>, mode: Seq<char>) -> ImportSource {
    if ends_with(lower_of(path), ".jsonl"@) {
        ImportSource::Jsonl
    } else if ends_with(lower_of(path), ".zip"@) && mode == "domain"@ {
        ImportSource::DomainArchive
    } else {
        ImportSource::Unsupported
    }
}

fn has_suffix(lower: &str, suffix: &str) -> (r: bool)
    ensures
        r == ends_with(lower@, suffix@),
{
    let n = lower.unicode_len();
    let m = suffix.unicode_len();
    if n < m {
        return false;
    }
    same_text(lower.substring_char(n - m, n), suffix)
}

/// What a file is read as, as [`source_of`] says.
pub fn import_source(path: &str, mode: &str) -> (r: ImportSource)
    ensures
        r == source_of(path@, mode@),
{
    let lower = lowercase(path);
    if has_suffix(lower.as_str(), ".jsonl") {
        ImportSource::Jsonl
    } else if has_suffix(lower.as_str(), ".zip") && same_text(mode, "domain") {
        ImportSource::DomainArchive
    } else {
        ImportSource::Unsupported
    }
}

/// The number of batches of at most `size` records that `n` records fill.
pub fn batch_count(n: usize, size: usize) -> (r: usize)
    requires
        size > 0,
    ensures
        r as int == (n as int + size as int - 1) / size as int,
{
    let q = n / size;
    let r = if n % size == 0 {
        q
    } else {
        proof {
            assert(q < usize::MAX) by (nonlinear_arith)
                requires
                    size > 0,
                    q == n / size,
                    n % size != 0,
                    n <= usize::MAX,
            ;
        }
        q + 1
    };
    proof {
        assert(r as int == (n as int + size as int - 1) / size as int) by (nonlinear_arith)
            requires
                size > 0,
                q == n / size,
                r as int == (if n % size == 0 {
                    q as int
                } else {
                    q as int + 1
                }),
        ;
    }
    r
}

/// The records of batch `k`: from `k * size` up to `size` records, within
/// the `n` there are.
pub fn batch_range(n: usize, size: usize, k: usize) -> (r: (usize, usize))
    requires
        size > 0,
        k < (n as int + size as int - 1) / size as int,
    ensures
        r.0 as int == k as int * size as int,
        r.1 as int == (if k as int * size as int + size as int <= n as int {
            k as int * size as int + size as int
        } else {
            n as int
        }),
        r.0 < r.1 <= n,
{
    proof {
        assert(k * size < n) by (nonlinear_arith)
            requires
                size > 0,
                k < (n as int + size as int - 1) / size as int,
        ;
    }
    let start = k * size;
    let end = if n - start >= size {
        start + size
    } else {
        n
    };
    (start, end)
}

/// The index of the last of the first `n` names that starts with `prefix`.
pub open spec fn last_with_prefix(names: Seq<Seq<char>>, prefix: Seq<char>, n: int) -> Option<int>
    decreases n,
{
    if n <= 0 {
        None
    } else if names[n - 1].len() >= prefix.len() && names[n - 1].subrange(0, prefix.len() as int)
        == prefix {
        Some(n - 1)
    } else {
        last_with_prefix(names, prefix, n - 1)
    }
}

fn has_prefix(s: &str, prefix: &str) -> (r: bool)
    ensures
        r == (s@.len() >= prefix@.len() && s@.subrange(0, prefix@.len() as int) == prefix@),
{
    let n = s.unicode_len();
    let m = prefix.unicode_len();
    if n < m {
        return false;
    }
    same_text(s.substring_char(0, m), prefix)
}

/// The files of a directory-enumeration archive, by kind: the index of the
/// last name that starts with `computers_`, `users_` and `groups_`.
pub fn domain_files(names: &[String]) -> (r: (Option<usize>, Option<usize>, Option<usize>))
    ensures
        ({
            let ns = names@.map_values(|s: String| s@);
            let as_int = |o: Option<usize>| match o {
                Some(i) => Some(i as int),
                None => None,
            };
            &&& as_int(r.0) == last_with_prefix(ns, "computers_"@, ns.len() as int)
            &&& as_int(r.1) == last_with_prefix(ns, "users_"@, ns.len() as int)
            &&& as_int(r.2) == last_with_prefix(ns, "groups_"@, ns.len() as int)
        }),
{
    let ghost ns = names@.map_values(|s: String| s@);
    let mut computers: Option<usize> = None;
    let mut users: Option<usize> = None;
    let mut groups: Option<usize> = None;
    let mut i: usize = 0;
    while i < names.len()
        invariant
            i <= names@.len(),
            ns == names@.map_values(|s: String| s@),
            (match computers {
                Some(j) => Some(j as int),
                None => None,
            }) == last_with_prefix(ns, "computers_"@, i as int),
            (match users {
                Some(j) => Some(j as int),
                None => None,
            }) == last_with_prefix(ns, "users_"@, i as int),
            (match groups {
                Some(j) => Some(j as int),
                None => None,
            }) == last_with_prefix(ns, "groups_"@, i as int),
        decreases names@.len() - i,
    {
        proof {
            assert(ns[i as int] == names@[i as int]@);
        }
        let name = names[i].as_str();
        if has_prefix(name, "computers_") {
            computers = Some(i);
        }
        if has_prefix(name, "users_") {
            users = Some(i);
        }
        if has_prefix(name, "groups_") {
            groups = Some(i);
        }
        i = i + 1;
    }
    (computers, users, groups)
}

} // verus!
