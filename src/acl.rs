//! Decoding of the discretionary ACL of a self-relative security descriptor.

use vstd::prelude::*;
use crate::mask::{mask_permissions, parse_access_mask};
use crate::sid::{sid_identity, sid_to_identity};

verus! {

/// Whether an access-control entry grants or refuses its rights.
#[derive(Clone, Copy, Debug, PartialEq, Eq, Structural)]
pub enum AceKind {
    Allowed,
    Denied,
}

impl AceKind {
    /// The label written for this kind: `ALLOWED` or `DENIED`.
    pub fn as_text(&self) -> (r: String)
        ensures
            r@ == (match self {
                AceKind::Allowed => "ALLOWED"@,
                AceKind::Denied => "DENIED"@,
            }),
    {
        match self {
            AceKind::Allowed => String::from_str("ALLOWED"),
            AceKind::Denied => String::from_str("DENIED"),
        }
    }
}

/// One decoded access-control entry.
pub struct AccessEntry {
    pub identity: String,
    pub ace_type: AceKind,
    pub access_mask: u32,
    pub permissions: Vec<String>,
}

/// What an [`AccessEntry`] holds, as mathematical values.
pub struct AccessEntryView {
    pub identity: Seq<char>,
    pub ace_type: AceKind,
    pub access_mask: u32,
    pub permissions: Seq<Seq<char>>,
}

impl View for AccessEntry {
    type V = AccessEntryView;

    open spec fn view(&self) -> AccessEntryView {
        AccessEntryView {
            identity: self.identity@,
            ace_type: self.ace_type,
            access_mask: self.access_mask,
            permissions: self.permissions.deep_view(),
        }
    }
}

/// The views of a sequence of entries.
pub open spec fn entries_view(s: Seq<AccessEntry>) -> Seq<AccessEntryView> {
    s.map_values(|e: AccessEntry| e@)
}

/// A little-endian 16-bit field at offset `o`.
pub open spec fn u16_at(d: Seq<u8>, o: int) -> nat {
    (d[o] as nat) + (d[o + 1] as nat) * 0x100
}

/// A little-endian 32-bit field at offset `o`.
pub open spec fn u32_at(d: Seq<u8>, o: int) -> nat {
    (d[o] as nat) + (d[o + 1] as nat) * 0x100 + (d[o + 2] as nat) * 0x10000 + (d[o + 3] as nat)
        * 0x1000000
}

/// Type byte of an allow entry.
pub const ACCESS_ALLOWED_ACE_TYPE: u8 = 0;

/// Type byte of a deny entry.
pub const ACCESS_DENIED_ACE_TYPE: u8 = 1;

/// The kind of an entry type byte, for the two types that are recorded.
pub open spec fn kind_of(t: u8) -> Option<AceKind> {
    if t == ACCESS_ALLOWED_ACE_TYPE {
        Some(AceKind::Allowed)
    } else if t == ACCESS_DENIED_ACE_TYPE {
        Some(AceKind::Denied)
    } else {
        None
    }
}

/// The recorded entry for an allow or deny ACE starting at `pos`, of `size` bytes.
pub open spec fn ace_entry(d: Seq<u8>, pos: int, size: int, kind: AceKind) -> AccessEntryView {
    let mask = u32_at(d, pos + 4) as u32;
    AccessEntryView {
        identity: sid_identity(d.subrange(pos + 8, pos + size)),
        ace_type: kind,
        access_mask: mask,
        permissions: mask_permissions(mask),
    }
}

/// The entries recorded from `n` ACEs laid out from `pos` on. Each ACE begins
/// with its type byte, a flags byte and its 16-bit size; the walk stops at an
/// ACE that does not fit the buffer. Only allow and deny entries that carry a
/// mask are recorded; every other type is passed over.
pub open spec fn decode_aces(d: Seq<u8>, pos: int, n: nat) -> Seq<AccessEntryView>
    decreases n,
{
    if n == 0 || pos < 0 || pos + 4 > d.len() {
        Seq::empty()
    } else {
        let size = u16_at(d, pos + 2) as int;
        if size < 4 || pos + size > d.len() {
            Seq::empty()
        } else {
            let rest = decode_aces(d, pos + size, (n - 1) as nat);
            match kind_of(d[pos]) {
                Some(kind) => if size >= 8 {
                    seq![ace_entry(d, pos, size, kind)] + rest
                } else {
                    rest
                },
                None => rest,
            }
        }
    }
}

/// Length of the fixed header of a self-relative security descriptor.
pub const DESCRIPTOR_HEADER_LEN: usize = 20;

/// The entries of the discretionary ACL of a self-relative security
/// descriptor: `None` when the buffer is not such a descriptor or its ACL
/// header lies outside it; no entries when no DACL is present.
pub open spec fn descriptor_entries(d: Seq<u8>) -> Option<Seq<AccessEntryView>> {
    if d.len() < DESCRIPTOR_HEADER_LEN || d[3] < 0x80 {
        None
    } else if (d[2] / 4) % 2 == 0 || u32_at(d, 16) == 0 {
        Some(Seq::empty())
    } else if u32_at(d, 16) + 8 > d.len() {
        None
    } else {
        let off = u32_at(d, 16) as int;
        Some(decode_aces(d, off + 8, u16_at(d, off + 4)))
    }
}

fn read_u16(d: &[u8], o: usize) -> (r: usize)
    requires
        o + 2 <= d@.len(),
    ensures
        r as nat == u16_at(d@, o as int),
{
    (d[o] as usize) + (d[o + 1] as usize) * 0x100
}

fn read_u32(d: &[u8], o: usize) -> (r: u32)
    requires
        o + 4 <= d@.len(),
    ensures
        r as nat == u32_at(d@, o as int),
{
    (d[o] as u32) + (d[o + 1] as u32) * 0x100 + (d[o + 2] as u32) * 0x10000 + (d[o + 3] as u32)
        * 0x1000000
}

/// Decodes the allow and deny entries of the ACE run that starts at `start`.
fn decode_ace_run(d: &[u8], start: usize, count: usize) -> (r: Vec<AccessEntry>)
    requires
        start <= d@.len(),
    ensures
        entries_view(r@) == decode_aces(d@, start as int, count as nat),
{
    let mut out: Vec<AccessEntry> = Vec::new();
    let mut pos: usize = start;
    let mut left: usize = count;
    while left > 0
        invariant
            pos <= d@.len(),
            entries_view(out@) + decode_aces(d@, pos as int, left as nat) == decode_aces(
                d@,
                start as int,
                count as nat,
            ),
        decreases left,
    {
        if d.len() < 4 || pos > d.len() - 4 {
            proof {
                assert(entries_view(out@) + Seq::<AccessEntryView>::empty() =~= entries_view(out@));
            }
            return out;
        }
        let size = read_u16(d, pos + 2);
        if size < 4 || size > d.len() - pos {
            proof {
                assert(entries_view(out@) + Seq::<AccessEntryView>::empty() =~= entries_view(out@));
            }
            return out;
        }
        let ghost before = entries_view(out@);
        let t = d[pos];
        if (t == ACCESS_ALLOWED_ACE_TYPE || t == ACCESS_DENIED_ACE_TYPE) && size >= 8 {
            let kind = if t == ACCESS_ALLOWED_ACE_TYPE {
                AceKind::Allowed
            } else {
                AceKind::Denied
            };
            let mask = read_u32(d, pos + 4);
            let sid = &d[pos + 8..pos + size];
            let entry = AccessEntry {
                identity: sid_to_identity(sid),
                ace_type: kind,
                access_mask: mask,
                permissions: parse_access_mask(mask),
            };
            out.push(entry);
            proof {
                assert(entries_view(out@) =~= before.push(
                    ace_entry(d@, pos as int, size as int, kind),
                ));
                assert(decode_aces(d@, pos as int, left as nat) == seq![
                    ace_entry(d@, pos as int, size as int, kind),
                ] + decode_aces(d@, (pos + size) as int, (left - 1) as nat));
                assert(entries_view(out@) + decode_aces(d@, (pos + size) as int, (left - 1) as nat)
                    =~= before + decode_aces(d@, pos as int, left as nat));
            }
        }
        pos = pos + size;
        left = left - 1;
    }
    proof {
        assert(entries_view(out@) + Seq::<AccessEntryView>::empty() =~= entries_view(out@));
    }
    out
}

/// Decodes the discretionary ACL of a self-relative security descriptor into
/// its allow and deny entries.
pub fn decode_descriptor(d: &[u8]) -> (r: Option<Vec<AccessEntry>>)
    ensures
        match descriptor_entries(d@) {
            Some(s) => r is Some && entries_view(r->0@) == s,
            None => r is None,
        },
{
    if d.len() < DESCRIPTOR_HEADER_LEN || d[3] < 0x80 {
        return None;
    }
    let off = read_u32(d, 16);
    if (d[2] / 4) % 2 == 0 || off == 0 {
        let none: Vec<AccessEntry> = Vec::new();
        proof {
            assert(entries_view(none@) =~= Seq::<AccessEntryView>::empty());
        }
        return Some(none);
    }
    if off as usize > d.len() || d.len() - (off as usize) < 8 {
        return None;
    }
    let off = off as usize;
    let count = read_u16(d, off + 4);
    Some(decode_ace_run(d, off + 8, count))
}

/// Whether some byte at or after `pos` is the type byte of an entry of `kind`.
pub open spec fn type_byte_from(d: Seq<u8>, pos: int, kind: AceKind) -> bool {
    exists|p: int| pos <= p < d.len() && kind_of(#[trigger] d[p]) == Some(kind)
}

/// Only allow and deny entries are recorded: every decoded entry comes from
/// an ACE whose type byte, at some offset of the run, is that of an allow or a
/// deny entry of the same kind.
pub proof fn ace_filtering(d: Seq<u8>, pos: int, n: nat)
    ensures
        forall|i: int|
            0 <= i < decode_aces(d, pos, n).len() ==> type_byte_from(
                d,
                pos,
                (#[trigger] decode_aces(d, pos, n)[i]).ace_type,
            ),
    decreases n,
{
    if n == 0 || pos < 0 || pos + 4 > d.len() {
    } else {
        let size = u16_at(d, pos + 2) as int;
        if size < 4 || pos + size > d.len() {
        } else {
            let rest = decode_aces(d, pos + size, (n - 1) as nat);
            ace_filtering(d, pos + size, (n - 1) as nat);
            let all = decode_aces(d, pos, n);
            assert forall|i: int| 0 <= i < all.len() implies type_byte_from(
                d,
                pos,
                #[trigger] all[i].ace_type,
            ) by {
                let skip = match kind_of(d[pos]) {
                    Some(kind) => size < 8,
                    None => true,
                };
                if !skip && i == 0 {
                    assert(kind_of(d[pos]) == Some(all[i].ace_type));
                } else {
                    let j = if skip { i } else { i - 1 };
                    assert(all[i] == rest[j]);
                    assert(type_byte_from(d, pos + size, rest[j].ace_type));
                    let p = choose|p: int|
                        pos + size <= p < d.len() && kind_of(#[trigger] d[p]) == Some(
                            rest[j].ace_type,
                        );
                    assert(pos <= p < d.len() && kind_of(d[p]) == Some(all[i].ace_type));
                }
            }
        }
    }
}

} // verus!
