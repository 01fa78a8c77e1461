//! Helpers of the directory-service collector: well-known groups, base
//! DNs, and directory timestamps.

use vstd::prelude::*;
use crate::sid::{parse_sid, sid_complete, sid_text};
use crate::text::{
    contains_text, find_char, index_from, lower_of, lowercase, same_text, text_contains, trim_of,
    trim_text,
};

verus! {

/// Settings of a directory enumeration as the front end hands them over.
pub struct LdapIndexConfig {
    pub dc_hostname: String,
    pub base_dn: String,
    pub username: String,
    pub password: String,
    pub use_ldaps: bool,
    pub mode: String,
    pub debug_mode: bool,
}

/// A progress event of a directory enumeration.
pub struct ProgressUpdate {
    pub message: String,
    pub current: usize,
    pub total: Option<usize>,
    /// One of `connecting`, `enumerating`, `complete`, `error`.
    pub stage: String,
}

/// The outcome of a directory enumeration.
pub struct IndexResult {
    pub success: bool,
    pub message: String,
    pub output_files: Vec<String>,
    pub total_entries: usize,
    pub errors: Vec<String>,
}

/// Number of built-in group names with a well-known SID.
pub const WELL_KNOWN_COUNT: usize = 29;

/// The `i`-th built-in group name.
pub open spec fn well_known_name(i: int) -> Seq<char> {
    if i == 0 { "Administrators"@ }
    else if i == 1 { "Users"@ }
    else if i == 2 { "Guests"@ }
    else if i == 3 { "Power Users"@ }
    else if i == 4 { "Account Operators"@ }
    else if i == 5 { "Server Operators"@ }
    else if i == 6 { "Print Operators"@ }
    else if i == 7 { "Backup Operators"@ }
    else if i == 8 { "Replicators"@ }
    else if i == 9 { "Replicator"@ }
    else if i == 10 { "Pre-Windows 2000 Compatible Access"@ }
    else if i == 11 { "Remote Desktop Users"@ }
    else if i == 12 { "Network Configuration Operators"@ }
    else if i == 13 { "Incoming Forest Trust Builders"@ }
    else if i == 14 { "Performance Monitor Users"@ }
    else if i == 15 { "Performance Log Users"@ }
    else if i == 16 { "Windows Authorization Access Group"@ }
    else if i == 17 { "Terminal Server License Servers"@ }
    else if i == 18 { "Distributed COM Users"@ }
    else if i == 19 { "IIS_IUSRS"@ }
    else if i == 20 { "Cryptographic Operators"@ }
    else if i == 21 { "Event Log Readers"@ }
    else if i == 22 { "Certificate Service DCOM Access"@ }
    else if i == 23 { "RDS Remote Access Servers"@ }
    else if i == 24 { "RDS Endpoint Servers"@ }
    else if i == 25 { "RDS Management Servers"@ }
    else if i == 26 { "Hyper-V Administrators"@ }
    else if i == 27 { "Access Control Assistance Operators"@ }
    else { "Remote Management Users"@ }
}

/// The SID of the `i`-th built-in group.
pub open spec fn well_known_value(i: int) -> Seq<char> {
    if i == 0 { "S-1-5-32-544"@ }
    else if i == 1 { "S-1-5-32-545"@ }
    else if i == 2 { "S-1-5-32-546"@ }
    else if i == 3 { "S-1-5-32-547"@ }
    else if i == 4 { "S-1-5-32-548"@ }
    else if i == 5 { "S-1-5-32-549"@ }
    else if i == 6 { "S-1-5-32-550"@ }
    else if i == 7 { "S-1-5-32-551"@ }
    else if i == 8 { "S-1-5-32-552"@ }
    else if i == 9 { "S-1-5-32-552"@ }
    else if i == 10 { "S-1-5-32-554"@ }
    else if i == 11 { "S-1-5-32-555"@ }
    else if i == 12 { "S-1-5-32-556"@ }
    else if i == 13 { "S-1-5-32-557"@ }
    else if i == 14 { "S-1-5-32-558"@ }
    else if i == 15 { "S-1-5-32-559"@ }
    else if i == 16 { "S-1-5-32-560"@ }
    else if i == 17 { "S-1-5-32-561"@ }
    else if i == 18 { "S-1-5-32-562"@ }
    else if i == 19 { "S-1-5-32-568"@ }
    else if i == 20 { "S-1-5-32-569"@ }
    else if i == 21 { "S-1-5-32-573"@ }
    else if i == 22 { "S-1-5-32-574"@ }
    else if i == 23 { "S-1-5-32-575"@ }
    else if i == 24 { "S-1-5-32-576"@ }
    else if i == 25 { "S-1-5-32-577"@ }
    else if i == 26 { "S-1-5-32-578"@ }
    else if i == 27 { "S-1-5-32-579"@ }
    else { "S-1-5-32-580"@ }
}

/// The SID of the first built-in group from index `i` on that is named `name`.
pub open spec fn well_known_from(name: Seq<char>, i: int) -> Option<Seq<char>>
    decreases WELL_KNOWN_COUNT - i,
{
    if i < 0 || i >= WELL_KNOWN_COUNT {
        None
    } else if name == well_known_name(i) {
        Some(well_known_value(i))
    } else {
        well_known_from(name, i + 1)
    }
}

fn well_known_name_at(i: usize) -> (r: &'static str)
    ensures
        r@ == well_known_name(i as int),
{
    match i {
        0 => "Administrators",
        1 => "Users",
        2 => "Guests",
        3 => "Power Users",
        4 => "Account Operators",
        5 => "Server Operators",
        6 => "Print Operators",
        7 => "Backup Operators",
        8 => "Replicators",
        9 => "Replicator",
        10 => "Pre-Windows 2000 Compatible Access",
        11 => "Remote Desktop Users",
        12 => "Network Configuration Operators",
        13 => "Incoming Forest Trust Builders",
        14 => "Performance Monitor Users",
        15 => "Performance Log Users",
        16 => "Windows Authorization Access Group",
        17 => "Terminal Server License Servers",
        18 => "Distributed COM Users",
        19 => "IIS_IUSRS",
        20 => "Cryptographic Operators",
        21 => "Event Log Readers",
        22 => "Certificate Service DCOM Access",
        23 => "RDS Remote Access Servers",
        24 => "RDS Endpoint Servers",
        25 => "RDS Management Servers",
        26 => "Hyper-V Administrators",
        27 => "Access Control Assistance Operators",
        _ => "Remote Management Users",
    }
}

fn well_known_value_at(i: usize) -> (r: &'static str)
    ensures
        r@ == well_known_value(i as int),
{
    match i {
        0 => "S-1-5-32-544",
        1 => "S-1-5-32-545",
        2 => "S-1-5-32-546",
        3 => "S-1-5-32-547",
        4 => "S-1-5-32-548",
        5 => "S-1-5-32-549",
        6 => "S-1-5-32-550",
        7 => "S-1-5-32-551",
        8 => "S-1-5-32-552",
        9 => "S-1-5-32-552",
        10 => "S-1-5-32-554",
        11 => "S-1-5-32-555",
        12 => "S-1-5-32-556",
        13 => "S-1-5-32-557",
        14 => "S-1-5-32-558",
        15 => "S-1-5-32-559",
        16 => "S-1-5-32-560",
        17 => "S-1-5-32-561",
        18 => "S-1-5-32-562",
        19 => "S-1-5-32-568",
        20 => "S-1-5-32-569",
        21 => "S-1-5-32-573",
        22 => "S-1-5-32-574",
        23 => "S-1-5-32-575",
        24 => "S-1-5-32-576",
        25 => "S-1-5-32-577",
        26 => "S-1-5-32-578",
        27 => "S-1-5-32-579",
        _ => "S-1-5-32-580",
    }
}

/// The well-known SID of a built-in group, by its English name.
pub fn get_well_known_sid(group_name: &str) -> (r: Option<String>)
    ensures
        match well_known_from(group_name@, 0) {
            Some(s) => r is Some && r->0@ == s,
            None => r is None,
        },
{
    let mut i: usize = 0;
    while i < WELL_KNOWN_COUNT
        invariant
            i <= WELL_KNOWN_COUNT,
            well_known_from(group_name@, i as int) == well_known_from(group_name@, 0),
        decreases WELL_KNOWN_COUNT - i,
    {
        if same_text(group_name, well_known_name_at(i)) {
            return Some(String::from_str(well_known_value_at(i)));
        }
        i = i + 1;
    }
    None
}

/// What follows the first `@` of a user name, up to the next `@`.
pub open spec fn upn_domain(u: Seq<char>) -> Option<Seq<char>> {
    let a = index_from(u, '@', 0);
    if a >= u.len() {
        None
    } else {
        Some(u.subrange(a + 1, index_from(u, '@', a + 1)))
    }
}

/// The first `n` characters of a domain with each `.` written `,DC=`.
pub open spec fn dc_body(d: Seq<char>, n: int) -> Seq<char>
    decreases n,
{
    if n <= 0 {
        Seq::empty()
    } else {
        dc_body(d, n - 1) + (if d[n - 1] == '.' {
            ",DC="@
        } else {
            seq![d[n - 1]]
        })
    }
}

/// The base DN derived from a user principal name: one `DC=` component per
/// dot-separated part of its domain, when the domain has at least two parts.
pub open spec fn base_dn_of(u: Seq<char>) -> Option<Seq<char>> {
    match upn_domain(u) {
        Some(d) => if d.contains('.') {
            Some("DC="@ + dc_body(d, d.len() as int))
        } else {
            None
        },
        None => None,
    }
}

/// Derives a base DN (`DC=corp,DC=example`) from a name such as
/// `user@corp.example`.
pub fn derive_base_dn_from_upn(username: &str) -> (r: Option<String>)
    ensures
        match base_dn_of(username@) {
            Some(s) => r is Some && r->0@ == s,
            None => r is None,
        },
{
    let n = username.unicode_len();
    let a = find_char(username, '@', 0, n);
    if a >= n {
        return None;
    }
    let b = find_char(username, '@', a + 1, n);
    let domain = username.substring_char(a + 1, b);
    let m = b - (a + 1);
    let mut body = String::from_str("DC=");
    let mut dotted = false;
    let mut i: usize = 0;
    while i < m
        invariant
            i <= m,
            m == domain@.len(),
            body@ == "DC="@ + dc_body(domain@, i as int),
            dotted == (exists|k: int| 0 <= k < i && domain@[k] == '.'),
        decreases m - i,
    {
        let c = domain.get_char(i);
        if c == '.' {
            body.append(",DC=");
            dotted = true;
        } else {
            body.append(domain.substring_char(i, i + 1));
        }
        proof {
            assert(body@ =~= "DC="@ + dc_body(domain@, i + 1));
        }
        i = i + 1;
    }
    if dotted {
        Some(body)
    } else {
        None
    }
}

/// Whether `c` is an ASCII decimal digit.
pub open spec fn is_digit(c: char) -> bool {
    '0' <= c && c <= '9'
}

/// The value of the first `n` characters of `s`, read as decimal digits.
pub open spec fn digits_value(s: Seq<char>, n: int) -> int
    decreases n,
{
    if n <= 0 {
        0
    } else {
        digits_value(s, n - 1) * 10 + ((s[n - 1] as u32) - ('0' as u32))
    }
}

/// Whether every character of `s` is a decimal digit.
pub open spec fn all_digits(s: Seq<char>) -> bool {
    forall|i: int| 0 <= i < s.len() ==> is_digit(#[trigger] s[i])
}

/// Whether a text starts with a sign.
pub open spec fn has_sign(s: Seq<char>) -> bool {
    s.len() > 0 && (s[0] == '-' || s[0] == '+')
}

/// The digits of a text, after its sign if any.
pub open spec fn unsigned_part(s: Seq<char>) -> Seq<char> {
    if has_sign(s) {
        s.subrange(1, s.len() as int)
    } else {
        s
    }
}

/// The value a text writes, when its digits are all digits.
pub open spec fn signed_value(s: Seq<char>) -> int {
    let magnitude = digits_value(unsigned_part(s), unsigned_part(s).len() as int);
    if s.len() > 0 && s[0] == '-' {
        -magnitude
    } else {
        magnitude
    }
}

/// The 64-bit integer a text writes: an optional `+` or `-`, then one or more
/// decimal digits, with a value that fits.
pub open spec fn i64_of_text(s: Seq<char>) -> Option<i64> {
    if unsigned_part(s).len() == 0 || !all_digits(unsigned_part(s)) || signed_value(s) < i64::MIN
        || signed_value(s) > i64::MAX {
        None
    } else {
        Some(signed_value(s) as i64)
    }
}

proof fn lemma_digits_grow(s: Seq<char>, k: int, n: int)
    requires
        0 <= k <= n <= s.len(),
        forall|i: int| 0 <= i < n ==> is_digit(#[trigger] s[i]),
    ensures
        0 <= digits_value(s, k) <= digits_value(s, n),
    decreases n,
{
    if n > k {
        lemma_digits_grow(s, k, n - 1);
        assert(is_digit(s[n - 1]));
    } else if n > 0 {
        lemma_digits_grow(s, n - 1, n - 1);
        assert(is_digit(s[n - 1]));
    }
}

/// Reads a decimal 64-bit integer, as [`i64_of_text`] defines it.
pub fn parse_i64(text: &str) -> (r: Option<i64>)
    ensures
        r == i64_of_text(text@),
{
    let n = text.unicode_len();
    if n == 0 {
        return None;
    }
    let first = text.get_char(0);
    let negative = first == '-';
    let start: usize = if first == '-' || first == '+' {
        1
    } else {
        0
    };
    if start == n {
        return None;
    }
    let body = text.substring_char(start, n);
    proof {
        assert(body@ =~= unsigned_part(text@));
    }
    let m = n - start;
    let bound: u64 = if negative {
        0x8000000000000000
    } else {
        0x7fffffffffffffff
    };
    let mut acc: u64 = 0;
    let mut j: usize = 0;
    while j < m
        invariant
            j <= m,
            m == body@.len(),
            m > 0,
            acc as int == digits_value(body@, j as int),
            acc <= bound,
            bound == (if negative {
                0x8000000000000000u64
            } else {
                0x7fffffffffffffffu64
            }),
            n == text@.len(),
            n > 0,
            negative == (text@[0] == '-'),
            body@ == unsigned_part(text@),
            forall|i: int| 0 <= i < j ==> is_digit(#[trigger] body@[i]),
        decreases m - j,
    {
        let c = body.get_char(j);
        if c < '0' || c > '9' {
            proof {
                assert(!is_digit(body@[j as int]));
            }
            return None;
        }
        let d = (c as u32 - '0' as u32) as u64;
        proof {
            assert(d <= 9);
        }
        if acc > (bound - d) / 10 {
            proof {
                assert(acc * 10 + d > bound) by (nonlinear_arith)
                    requires
                        acc > (bound - d) / 10,
                        d <= 9,
                        bound >= d,
                ;
                if all_digits(body@) {
                    lemma_digits_grow(body@, j + 1, m as int);
                }
            }
            return None;
        }
        proof {
            assert(acc * 10 + d <= bound) by (nonlinear_arith)
                requires
                    acc <= (bound - d) / 10,
                    d <= 9,
                    bound >= d,
            ;
        }
        acc = acc * 10 + d;
        j = j + 1;
    }
    if negative {
        if acc == 0x8000000000000000 {
            Some(i64::MIN)
        } else {
            Some(-(acc as i64))
        }
    } else {
        Some(acc as i64)
    }
}

/// Quotient of `a` by a positive `d`, rounded toward zero.
pub open spec fn quotient_toward_zero(a: int, d: int) -> int {
    if a >= 0 {
        a / d
    } else {
        -((-a) / d)
    }
}

/// Seconds between 1601-01-01 and 1970-01-01.
pub const WINDOWS_TO_UNIX_SECONDS: i64 = 11644473600;

/// Intervals of 100 ns in a second.
pub const FILETIME_TICKS_PER_SECOND: i64 = 10000000;

/// The RFC 3339 text chrono gives a Unix time.
pub uninterp spec fn rfc3339_format(secs: int) -> Seq<char>;

/// Relies on chrono's `DateTime::<Utc>::from_timestamp` (`None` out of range)
/// and `to_rfc3339`: the text depends on `secs` alone.
#[verifier::external_body]
fn rfc3339_text(secs: i64) -> (r: Option<String>)
    ensures
        r is Some ==> r->0@ == rfc3339_format(secs as int),
{
    match chrono::DateTime::<chrono::Utc>::from_timestamp(secs, 0) {
        Some(t) => Some(t.to_rfc3339()),
        None => None,
    }
}

/// The Unix time of a directory timestamp (100 ns intervals since 1601).
pub open spec fn filetime_unix_seconds(ft: int) -> int {
    quotient_toward_zero(ft, FILETIME_TICKS_PER_SECOND as int) - WINDOWS_TO_UNIX_SECONDS
}

/// What a record says of a directory timestamp written in decimal: nothing
/// for a text that is no 64-bit integer or for zero (never); otherwise its
/// RFC 3339 text, or nothing for a time the calendar cannot hold.
pub open spec fn filetime_ok(filetime: Seq<char>, r: Option<String>) -> bool {
    match i64_of_text(filetime) {
        None => r is None,
        Some(ft) => if ft == 0 {
            r is None
        } else {
            r is Some ==> r->0@ == rfc3339_format(filetime_unix_seconds(ft as int))
        },
    }
}

/// The RFC 3339 text of a directory timestamp, as [`filetime_ok`] says.
pub fn filetime_to_datetime(filetime: &str) -> (r: Option<String>)
    ensures
        filetime_ok(filetime@, r),
{
    let ft = match parse_i64(filetime) {
        Some(v) => v,
        None => return None,
    };
    if ft == 0 {
        return None;
    }
    let wide = ft as i128;
    let magnitude: i128 = if wide < 0 {
        -wide
    } else {
        wide
    };
    let q = magnitude / (FILETIME_TICKS_PER_SECOND as i128);
    let seconds: i128 = if wide < 0 {
        -q
    } else {
        q
    };
    proof {
        assert(q <= magnitude);
    }
    let unix = (seconds - WINDOWS_TO_UNIX_SECONDS as i128) as i64;
    rfc3339_text(unix)
}

/// One entry of a directory search: its DN and its attributes, text-valued
/// and binary-valued, each name with its values.
pub struct DirectoryEntry {
    pub dn: String,
    pub attrs: Vec<(String, Vec<String>)>,
    pub bin_attrs: Vec<(String, Vec<Vec<u8>>)>,
}

/// The values of the first attribute from index `i` on that is named `name`.
pub open spec fn values_from<T>(attrs: Seq<(String, Vec<T>)>, name: Seq<char>, i: int) -> Option<
    Seq<T>,
>
    decreases attrs.len() - i,
{
    if i < 0 || i >= attrs.len() {
        None
    } else if attrs[i].0@ == name {
        Some(attrs[i].1@)
    } else {
        values_from(attrs, name, i + 1)
    }
}

/// The first value of the attribute `name`, if it has one.
pub open spec fn first_value<T>(attrs: Seq<(String, Vec<T>)>, name: Seq<char>) -> Option<T> {
    match values_from(attrs, name, 0) {
        Some(v) => if v.len() > 0 {
            Some(v[0])
        } else {
            None
        },
        None => None,
    }
}

/// The first text value of the attribute `name`, as characters.
pub open spec fn first_text(e: DirectoryEntry, name: Seq<char>) -> Option<Seq<char>> {
    match first_value(e.attrs@, name) {
        Some(v) => Some(v@),
        None => None,
    }
}

/// The text of an optional value, or nothing when it is absent.
pub open spec fn text_or_empty(t: Option<Seq<char>>) -> Seq<char> {
    match t {
        Some(s) => s,
        None => Seq::empty(),
    }
}

/// Whether an optional string holds exactly the optional text `t`.
pub open spec fn holds_text(r: Option<String>, t: Option<Seq<char>>) -> bool {
    match t {
        Some(s) => r is Some && r->0@ == s,
        None => r is None,
    }
}

fn find_attr<T>(attrs: &Vec<(String, Vec<T>)>, name: &str) -> (r: Option<usize>)
    ensures
        match values_from(attrs@, name@, 0) {
            Some(v) => r is Some && r->0 < attrs@.len() && attrs@[r->0 as int].1@ == v,
            None => r is None,
        },
{
    let mut i: usize = 0;
    while i < attrs.len()
        invariant
            i <= attrs@.len(),
            values_from(attrs@, name@, i as int) == values_from(attrs@, name@, 0),
        decreases attrs@.len() - i,
    {
        if same_text(attrs[i].0.as_str(), name) {
            return Some(i);
        }
        i = i + 1;
    }
    None
}

/// The first text value of an attribute.
pub fn get_string_attr(entry: &DirectoryEntry, attr_name: &str) -> (r: Option<String>)
    ensures
        holds_text(r, first_text(*entry, attr_name@)),
{
    match find_attr(&entry.attrs, attr_name) {
        Some(i) => {
            if entry.attrs[i].1.len() > 0 {
                Some(entry.attrs[i].1[0].clone())
            } else {
                None
            }
        },
        None => None,
    }
}

/// The SID of an entry: the text form of the first binary value of the
/// attribute `name` when there is one (nothing when it is malformed);
/// otherwise, for an entry under `CN=Builtin,`, the well-known SID of its
/// `cn`.
pub open spec fn sid_of_entry(e: DirectoryEntry, name: Seq<char>) -> Option<Seq<char>> {
    match first_value(e.bin_attrs@, name) {
        Some(b) => if sid_complete(b@) {
            Some(sid_text(b@))
        } else {
            None
        },
        None => if contains_text(e.dn@, "CN=Builtin,"@) {
            well_known_from(text_or_empty(first_text(e, "cn"@)), 0)
        } else {
            None
        },
    }
}

fn string_or_empty(s: Option<String>) -> (r: String)
    ensures
        r@ == text_or_empty(
            match s {
                Some(v) => Some(v@),
                None => None,
            },
        ),
{
    match s {
        Some(v) => v,
        None => String::new(),
    }
}

/// The SID of an entry, as [`sid_of_entry`] says.
pub fn get_sid_attr(entry: &DirectoryEntry, attr_name: &str) -> (r: Option<String>)
    ensures
        holds_text(r, sid_of_entry(*entry, attr_name@)),
{
    if let Some(i) = find_attr(&entry.bin_attrs, attr_name) {
        if entry.bin_attrs[i].1.len() > 0 {
            return parse_sid(entry.bin_attrs[i].1[0].as_slice());
        }
    }
    if text_contains(entry.dn.as_str(), "CN=Builtin,") {
        let cn = string_or_empty(get_string_attr(entry, "cn"));
        return get_well_known_sid(cn.as_str());
    }
    None
}

/// A computer account of the directory.
pub struct ComputerAccount {
    pub distinguished_name: String,
    pub cn: String,
    pub dns_hostname: Option<String>,
    pub operating_system: Option<String>,
    pub os_version: Option<String>,
    pub when_created: Option<String>,
    pub last_logon: Option<String>,
}

/// A user account of the directory.
pub struct UserAccount {
    pub distinguished_name: String,
    pub cn: String,
    pub sam_account_name: Option<String>,
    pub sid: Option<String>,
    pub when_created: Option<String>,
    pub last_logon: Option<String>,
}

/// A group of the directory, with the DNs of its members.
pub struct Group {
    pub distinguished_name: String,
    pub cn: String,
    pub sid: Option<String>,
    pub members: Vec<String>,
}

/// What a record says of the last logon of an entry.
pub open spec fn last_logon_ok(e: DirectoryEntry, r: Option<String>) -> bool {
    match first_text(e, "lastLogonTimestamp"@) {
        Some(t) => filetime_ok(t, r),
        None => r is None,
    }
}

fn last_logon(entry: &DirectoryEntry) -> (r: Option<String>)
    ensures
        last_logon_ok(*entry, r),
{
    match get_string_attr(entry, "lastLogonTimestamp") {
        Some(t) => filetime_to_datetime(t.as_str()),
        None => None,
    }
}

/// The computer account an entry describes.
pub fn computer_account(entry: &DirectoryEntry) -> (r: ComputerAccount)
    ensures
        r.distinguished_name@ == text_or_empty(first_text(*entry, "distinguishedName"@)),
        r.cn@ == text_or_empty(first_text(*entry, "cn"@)),
        holds_text(r.dns_hostname, first_text(*entry, "dNSHostName"@)),
        holds_text(r.operating_system, first_text(*entry, "operatingSystem"@)),
        holds_text(r.os_version, first_text(*entry, "operatingSystemVersion"@)),
        holds_text(r.when_created, first_text(*entry, "whenCreated"@)),
        last_logon_ok(*entry, r.last_logon),
{
    ComputerAccount {
        distinguished_name: string_or_empty(get_string_attr(entry, "distinguishedName")),
        cn: string_or_empty(get_string_attr(entry, "cn")),
        dns_hostname: get_string_attr(entry, "dNSHostName"),
        operating_system: get_string_attr(entry, "operatingSystem"),
        os_version: get_string_attr(entry, "operatingSystemVersion"),
        when_created: get_string_attr(entry, "whenCreated"),
        last_logon: last_logon(entry),
    }
}

/// The user account an entry describes.
pub fn user_account(entry: &DirectoryEntry) -> (r: UserAccount)
    ensures
        r.distinguished_name@ == text_or_empty(first_text(*entry, "distinguishedName"@)),
        r.cn@ == text_or_empty(first_text(*entry, "cn"@)),
        holds_text(r.sam_account_name, first_text(*entry, "sAMAccountName"@)),
        holds_text(r.sid, sid_of_entry(*entry, "objectSid"@)),
        holds_text(r.when_created, first_text(*entry, "whenCreated"@)),
        last_logon_ok(*entry, r.last_logon),
{
    UserAccount {
        distinguished_name: string_or_empty(get_string_attr(entry, "distinguishedName")),
        cn: string_or_empty(get_string_attr(entry, "cn")),
        sam_account_name: get_string_attr(entry, "sAMAccountName"),
        sid: get_sid_attr(entry, "objectSid"),
        when_created: get_string_attr(entry, "whenCreated"),
        last_logon: last_logon(entry),
    }
}

/// The members of an entry: every value of its `member` attribute.
pub open spec fn members_of(e: DirectoryEntry) -> Seq<String> {
    match values_from(e.attrs@, "member"@, 0) {
        Some(v) => v,
        None => Seq::empty(),
    }
}

/// The group an entry describes; a group without a SID is known by its `cn`.
pub fn group_record(entry: &DirectoryEntry) -> (r: Group)
    ensures
        r.distinguished_name@ == text_or_empty(first_text(*entry, "distinguishedName"@)),
        r.cn@ == text_or_empty(first_text(*entry, "cn"@)),
        holds_text(
            r.sid,
            match sid_of_entry(*entry, "objectSid"@) {
                Some(s) => Some(s),
                None => Some(text_or_empty(first_text(*entry, "cn"@))),
            },
        ),
        r.members@ == members_of(*entry),
{
    let cn = string_or_empty(get_string_attr(entry, "cn"));
    let sid = match get_sid_attr(entry, "objectSid") {
        Some(s) => Some(s),
        None => Some(cn.clone()),
    };
    let members = match find_attr(&entry.attrs, "member") {
        Some(i) => entry.attrs[i].1.clone(),
        None => Vec::new(),
    };
    Group {
        distinguished_name: string_or_empty(get_string_attr(entry, "distinguishedName")),
        cn,
        sid,
        members,
    }
}

/// The URL of a domain controller: its trimmed host name, on port 636 for
/// LDAPS and 389 otherwise unless the name carries a port of its own.
pub open spec fn ldap_url_of(dc_hostname: Seq<char>, use_ldaps: bool) -> Seq<char> {
    let host = trim_of(dc_hostname);
    let scheme = if use_ldaps {
        "ldaps://"@
    } else {
        "ldap://"@
    };
    if host.contains(':') {
        scheme + host
    } else {
        scheme + host + (if use_ldaps {
            ":636"@
        } else {
            ":389"@
        })
    }
}

/// Whether a text contains the character `c`.
fn has_char(s: &str, c: char) -> (r: bool)
    ensures
        r == s@.contains(c),
{
    let n = s.unicode_len();
    let i = find_char(s, c, 0, n);
    proof {
        if i < n {
            assert(s@[i as int] == c) by {
                lemma_index_from_hits(s@, c, 0);
            }
        } else {
            assert forall|k: int| 0 <= k < s@.len() implies s@[k] != c by {
                lemma_index_from_first(s@, c, 0, k);
            }
        }
    }
    i < n
}

proof fn lemma_index_from_hits(s: Seq<char>, c: char, i: int)
    requires
        0 <= i,
    ensures
        index_from(s, c, i) < s.len() ==> s[index_from(s, c, i)] == c,
    decreases s.len() - i,
{
    if i < s.len() && s[i] != c {
        lemma_index_from_hits(s, c, i + 1);
    }
}

proof fn lemma_index_from_first(s: Seq<char>, c: char, i: int, k: int)
    requires
        0 <= i <= k < index_from(s, c, i),
        k < s.len(),
    ensures
        s[k] != c,
    decreases k - i,
{
    if i < k {
        lemma_index_from_first(s, c, i + 1, k);
    }
}

/// The URL to reach a domain controller, as [`ldap_url_of`] says.
pub fn ldap_url(dc_hostname: &str, use_ldaps: bool) -> (r: String)
    ensures
        r@ == ldap_url_of(dc_hostname@, use_ldaps),
{
    let host = trim_text(dc_hostname);
    let mut url = if use_ldaps {
        String::from_str("ldaps://")
    } else {
        String::from_str("ldap://")
    };
    url.append(host.as_str());
    if !has_char(host.as_str(), ':') {
        if use_ldaps {
            url.append(":636");
        } else {
            url.append(":389");
        }
    }
    url
}

/// Whether a run in `mode` (in any case) enumerates the kind `kind`: its
/// own mode, or `all`.
pub open spec fn mode_covers(mode: Seq<char>, kind: Seq<char>) -> bool {
    lower_of(mode) == kind || lower_of(mode) == "all"@
}

/// Whether a run in `mode` enumerates the kind `kind`.
pub fn enumerates(mode: &str, kind: &str) -> (r: bool)
    ensures
        r == mode_covers(mode@, kind@),
{
    let lower = lowercase(mode);
    same_text(lower.as_str(), kind) || same_text(lower.as_str(), "all")
}

/// The base DN a run starts from, before asking the server: the one given,
/// trimmed, or else the one a principal name such as `user@corp.example`
/// gives.
pub open spec fn chosen_base_dn(base_dn: Seq<char>, username: Seq<char>) -> Option<Seq<char>> {
    if trim_of(base_dn).len() > 0 {
        Some(trim_of(base_dn))
    } else {
        base_dn_of(trim_of(username))
    }
}

/// The base DN a run starts from, as [`chosen_base_dn`] says; `None` means
/// the server's default naming context is to be asked for.
pub fn configured_base_dn(base_dn: &str, username: &str) -> (r: Option<String>)
    ensures
        holds_text(r, chosen_base_dn(base_dn@, username@)),
{
    let given = trim_text(base_dn);
    if given.unicode_len() > 0 {
        return Some(given);
    }
    let user = trim_text(username);
    derive_base_dn_from_upn(user.as_str())
}

/// The message for a failed enumeration of `mode`: a size-limit refusal of
/// the server is explained, another error of the directory or of the output
/// is reported with its text.
pub open spec fn enumeration_error_text(mode: Seq<char>, error: Seq<char>, from_directory: bool) -> Seq<
    char,
> {
    if from_directory && (contains_text(error, "rc:4"@) || contains_text(
        error,
        "Size limit exceeded"@,
    )) {
        "ERROR: Size limit exceeded while enumerating "@ + mode
            + ". This means the server has a hard limit that prevents returning results. Try a more specific base DN or contact your AD administrator."@
    } else if from_directory {
        "LDAP Error during "@ + mode + " enumeration: "@ + error
    } else {
        "Error during "@ + mode + " enumeration: "@ + error
    }
}

/// The message for a failed enumeration, as [`enumeration_error_text`] says.
pub fn enumeration_error_message(mode: &str, error: &str, from_directory: bool) -> (r: String)
    ensures
        r@ == enumeration_error_text(mode@, error@, from_directory),
{
    if from_directory && (text_contains(error, "rc:4") || text_contains(error, "Size limit exceeded")) {
        let mut m = String::from_str("ERROR: Size limit exceeded while enumerating ");
        m.append(mode);
        m.append(
            ". This means the server has a hard limit that prevents returning results. Try a more specific base DN or contact your AD administrator.",
        );
        m
    } else {
        let mut m = if from_directory {
            String::from_str("LDAP Error during ")
        } else {
            String::from_str("Error during ")
        };
        m.append(mode);
        m.append(" enumeration: ");
        m.append(error);
        m
    }
}

/// The message for a bind that failed: a server that requires signing is
/// named as such.
pub open spec fn bind_error_text(error: Seq<char>) -> Seq<char> {
    if contains_text(error, "integrity checking"@) || contains_text(error, "signing"@) {
        "LDAP signing is required by the server. Try using LDAPS instead."@
    } else {
        "Bind failed: "@ + error
    }
}

/// The message for a bind that failed, as [`bind_error_text`] says.
pub fn bind_error_message(error: &str) -> (r: String)
    ensures
        r@ == bind_error_text(error@),
{
    if text_contains(error, "integrity checking") || text_contains(error, "signing") {
        String::from_str("LDAP signing is required by the server. Try using LDAPS instead.")
    } else {
        let mut m = String::from_str("Bind failed: ");
        m.append(error);
        m
    }
}

} // verus!
