//! Settings of an indexing run, and the choice of shares to walk.

use vstd::prelude::*;
use crate::text::{
    lower_of, lowercase, pieces_from, same_text, split_at_char, trim_lines, trimmed_nonempty,
};

verus! {

/// Settings of an indexing run as the front end hands them over.
pub struct IndexConfig {
    /// Comma-separated hosts, or the path of a file of hosts.
    pub targets: String,
    pub max_depth: usize,
    pub max_entries: Option<usize>,
    pub debug_mode: bool,
    pub share_enum_only: bool,
    pub shares_file: Option<String>,
}

/// A progress event of an indexing run.
pub struct ProgressUpdate {
    pub message: String,
    pub current: usize,
    pub total: Option<usize>,
    /// One of `connecting`, `enumerating`, `walking`, `complete`, `error`.
    pub stage: String,
}

/// The outcome of an indexing run.
pub struct IndexResult {
    pub success: bool,
    pub message: String,
    pub output_file: String,
    pub total_entries: usize,
    pub errors: Vec<String>,
}

/// The settings a run works with.
pub struct Config {
    pub target_or_file: String,
    pub max_depth: usize,
    pub output_path: String,
    pub max_entries: Option<usize>,
    pub debug_mode: bool,
    pub share_enum_only: bool,
    pub shares_file: Option<String>,
}

impl Config {
    /// The settings of a run from the front end's settings and the output path.
    pub fn from_index_config(index_config: IndexConfig, output_path: String) -> (r: Config)
        ensures
            r.target_or_file == index_config.targets,
            r.max_depth == index_config.max_depth,
            r.output_path == output_path,
            r.max_entries == index_config.max_entries,
            r.debug_mode == index_config.debug_mode,
            r.share_enum_only == index_config.share_enum_only,
            r.shares_file == index_config.shares_file,
    {
        Config {
            target_or_file: index_config.targets,
            max_depth: index_config.max_depth,
            output_path,
            max_entries: index_config.max_entries,
            debug_mode: index_config.debug_mode,
            share_enum_only: index_config.share_enum_only,
            shares_file: index_config.shares_file,
        }
    }
}

/// Whether a lower-cased share name is one of the administrative shares.
pub open spec fn admin_share(lower: Seq<char>) -> bool {
    lower == "admin$"@ || lower == "ipc$"@ || lower == "print$"@
}

/// Whether an already lower-cased share name is administrative.
pub fn is_admin_share_name(lower: &str) -> (r: bool)
    ensures
        r == admin_share(lower@),
{
    same_text(lower, "admin$") || same_text(lower, "ipc$") || same_text(lower, "print$")
}

/// Whether a share is left out of the walk: `admin$`, `ipc$` and `print$`,
/// in any case.
pub fn should_skip_share(share: &str) -> (r: bool)
    ensures
        r == admin_share(lower_of(share@)),
{
    let lower = lowercase(share);
    is_admin_share_name(lower.as_str())
}

/// The UNC path `\\host\share`.
pub open spec fn unc_of(host: Seq<char>, share: Seq<char>) -> Seq<char> {
    "\\\\"@ + host + "\\"@ + share
}

/// The UNC path of a share on a host.
pub fn unc_path(host: &str, share: &str) -> (r: String)
    ensures
        r@ == unc_of(host@, share@),
{
    let mut r = String::from_str("\\\\");
    r.append(host);
    r.append("\\");
    r.append(share);
    r
}

/// Bytes added to the size the OS asks for a security descriptor, so that a
/// descriptor that grows between the two queries still fits.
pub const DESCRIPTOR_PADDING: u32 = 1024;

/// The buffer length for the second query of a security descriptor, from the
/// outcome of the first query (made with no buffer) and the size it asked for.
/// `None` means no descriptor: the first query succeeded, which it should not,
/// or the padded size does not fit 32 bits.
pub fn descriptor_buffer_len(first_call_succeeded: bool, required: u32) -> (r: Option<u32>)
    ensures
        r == (if first_call_succeeded || required as int + DESCRIPTOR_PADDING > u32::MAX {
            None
        } else {
            Some((required + DESCRIPTOR_PADDING) as u32)
        }),
{
    if first_call_succeeded {
        return None;
    }
    required.checked_add(DESCRIPTOR_PADDING)
}

/// The UNC paths of the first `n` shares of a host that are walked: every
/// share but the administrative ones, in the order the host lists them.
pub open spec fn share_targets(host: Seq<char>, shares: Seq<Seq<char>>, n: int) -> Seq<Seq<char>>
    decreases n,
{
    if n <= 0 {
        Seq::empty()
    } else if admin_share(lower_of(shares[n - 1])) {
        share_targets(host, shares, n - 1)
    } else {
        share_targets(host, shares, n - 1).push(unc_of(host, shares[n - 1]))
    }
}

/// The UNC paths of the shares of `host` that are walked.
pub fn share_paths(host: &str, shares: &[String]) -> (r: Vec<String>)
    ensures
        r.deep_view() == share_targets(host@, shares@.map_values(|s: String| s@), shares@.len() as int),
{
    let ghost names = shares@.map_values(|s: String| s@);
    let mut paths: Vec<String> = Vec::new();
    let mut i: usize = 0;
    while i < shares.len()
        invariant
            i <= shares@.len(),
            names == shares@.map_values(|s: String| s@),
            paths.deep_view() == share_targets(host@, names, i as int),
        decreases shares@.len() - i,
    {
        proof {
            assert(names[i as int] == shares@[i as int]@);
        }
        if !should_skip_share(shares[i].as_str()) {
            let ghost before = paths.deep_view();
            paths.push(unc_path(host, shares[i].as_str()));
            proof {
                assert(paths.deep_view() =~= before.push(unc_of(host@, names[i as int])));
            }
        }
        i = i + 1;
    }
    paths
}

/// The hosts of a comma-separated list: each item trimmed, empty ones left
/// out.
pub fn split_targets(targets: &str) -> (r: Vec<String>)
    ensures
        r.deep_view() == trimmed_nonempty(
            pieces_from(targets@, ',', 0),
            pieces_from(targets@, ',', 0).len() as int,
        ),
{
    let pieces = split_at_char(targets, ',');
    proof {
        assert(pieces@.map_values(|l: String| l@) =~= pieces.deep_view());
    }
    trim_lines(pieces.as_slice())
}

} // verus!
