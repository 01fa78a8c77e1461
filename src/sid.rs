//! Text form of binary security identifiers.

use vstd::prelude::*;
use crate::text::{decimal, decimal_string, digit_char};

verus! {

/// The 48-bit identifier authority, stored big-endian in bytes 2 to 7.
pub open spec fn sid_authority(b: Seq<u8>) -> nat {
    (b[2] as nat) * 0x10000000000 + (b[3] as nat) * 0x100000000 + (b[4] as nat) * 0x1000000
        + (b[5] as nat) * 0x10000 + (b[6] as nat) * 0x100 + (b[7] as nat)
}

/// The `i`-th sub-authority, stored little-endian in four bytes after the header.
pub open spec fn sub_authority(b: Seq<u8>, i: int) -> nat {
    let o = 8 + 4 * i;
    (b[o] as nat) + (b[o + 1] as nat) * 0x100 + (b[o + 2] as nat) * 0x10000 + (b[o + 3] as nat)
        * 0x1000000
}

/// `-` followed by each of the first `n` sub-authorities in decimal.
pub open spec fn sub_authorities_text(b: Seq<u8>, n: int) -> Seq<char>
    decreases n,
{
    if n <= 0 {
        Seq::empty()
    } else {
        sub_authorities_text(b, n - 1) + "-"@ + decimal(sub_authority(b, n - 1))
    }
}

/// Whether `b` holds the fixed header and every sub-authority it announces.
pub open spec fn sid_complete(b: Seq<u8>) -> bool {
    b.len() >= 8 && b.len() >= 8 + 4 * (b[1] as int)
}

/// The dashed text form `S-<revision>-<authority>-<sub>...` of a binary SID.
pub open spec fn sid_text(b: Seq<u8>) -> Seq<char> {
    "S-"@ + decimal(b[0] as nat) + "-"@ + decimal(sid_authority(b)) + sub_authorities_text(
        b,
        b[1] as int,
    )
}

/// Whether `b` is a well-formed SID: revision 1, at most fifteen
/// sub-authorities, all of them present.
pub open spec fn sid_valid(b: Seq<u8>) -> bool {
    sid_complete(b) && b[0] == 1 && b[1] <= 15
}

/// The literal that stands for a principal whose SID cannot be rendered.
pub open spec fn invalid_sid_text() -> Seq<char> {
    "<INVALID SID>"@
}

/// The identity recorded for an embedded SID.
pub open spec fn sid_identity(b: Seq<u8>) -> Seq<char> {
    if sid_valid(b) {
        canonical_sid_text(b)
    } else {
        invalid_sid_text()
    }
}

fn append_sub_authorities(result: &mut String, sid_bytes: &[u8], count: usize)
    requires
        count == sid_bytes@[1] as usize,
        sid_bytes@.len() >= 8 + count * 4,
    ensures
        final(result)@ == old(result)@ + sub_authorities_text(sid_bytes@, count as int),
{
    let ghost head = result@;
    let mut i: usize = 0;
    while i < count
        invariant
            i <= count,
            count == sid_bytes@[1] as usize,
            sid_bytes@.len() >= 8 + count * 4,
            result@ == head + sub_authorities_text(sid_bytes@, i as int),
        decreases count - i,
    {
        let o = 8 + i * 4;
        let sub: u64 = (sid_bytes[o] as u64) + (sid_bytes[o + 1] as u64) * 0x100
            + (sid_bytes[o + 2] as u64) * 0x10000 + (sid_bytes[o + 3] as u64) * 0x1000000;
        result.append("-");
        result.append(decimal_string(sub).as_str());
        proof {
            assert(result@ =~= head + sub_authorities_text(sid_bytes@, i + 1));
        }
        i = i + 1;
    }
}

fn authority_of(sid_bytes: &[u8]) -> (r: u64)
    requires
        sid_bytes@.len() >= 8,
    ensures
        r as nat == sid_authority(sid_bytes@),
{
    (sid_bytes[2] as u64) * 0x10000000000 + (sid_bytes[3] as u64) * 0x100000000 + (sid_bytes[4]
        as u64) * 0x1000000 + (sid_bytes[5] as u64) * 0x10000 + (sid_bytes[6] as u64) * 0x100 + (
    sid_bytes[7] as u64)
}

/// Renders a binary SID in its dashed text form; `None` when the bytes are
/// too short for the header or for the sub-authorities it announces.
pub fn parse_sid(sid_bytes: &[u8]) -> (r: Option<String>)
    ensures
        r is Some <==> sid_complete(sid_bytes@),
        r is Some ==> r->0@ == sid_text(sid_bytes@),
{
    if sid_bytes.len() < 8 {
        return None;
    }
    let count = sid_bytes[1] as usize;
    if sid_bytes.len() < 8 + count * 4 {
        return None;
    }
    let mut result = String::from_str("S-");
    result.append(decimal_string(sid_bytes[0] as u64).as_str());
    result.append("-");
    result.append(decimal_string(authority_of(sid_bytes)).as_str());
    append_sub_authorities(&mut result, sid_bytes, count);
    proof {
        assert(result@ =~= sid_text(sid_bytes@));
    }
    Some(result)
}

/// The hexadecimal digit for `d < 16`, upper case.
pub open spec fn hex_digit(d: nat) -> char {
    if d < 10 {
        digit_char(d)
    } else if d == 10 {
        'A'
    } else if d == 11 {
        'B'
    } else if d == 12 {
        'C'
    } else if d == 13 {
        'D'
    } else if d == 14 {
        'E'
    } else {
        'F'
    }
}

/// The last `n` hexadecimal digits of `v`, leading zeros included.
pub open spec fn hex_digits(v: nat, n: nat) -> Seq<char>
    decreases n,
{
    if n == 0 {
        Seq::empty()
    } else {
        hex_digits(v / 16, (n - 1) as nat).push(hex_digit(v % 16))
    }
}

/// The identifier authority as the canonical form writes it: in decimal
/// below 2^32, otherwise `0x` and twelve hexadecimal digits.
pub open spec fn authority_text(a: nat) -> Seq<char> {
    if a < 0x100000000 {
        decimal(a)
    } else {
        "0x"@ + hex_digits(a, 12)
    }
}

/// The canonical text form of a well-formed SID.
pub open spec fn canonical_sid_text(b: Seq<u8>) -> Seq<char> {
    "S-"@ + decimal(b[0] as nat) + "-"@ + authority_text(sid_authority(b)) + sub_authorities_text(
        b,
        b[1] as int,
    )
}

fn hex_char_str(d: u64) -> (r: &'static str)
    requires
        d < 16,
    ensures
        r@ == seq![hex_digit(d as nat)],
{
    proof {
        reveal_strlit("0");
        reveal_strlit("1");
        reveal_strlit("2");
        reveal_strlit("3");
        reveal_strlit("4");
        reveal_strlit("5");
        reveal_strlit("6");
        reveal_strlit("7");
        reveal_strlit("8");
        reveal_strlit("9");
        reveal_strlit("A");
        reveal_strlit("B");
        reveal_strlit("C");
        reveal_strlit("D");
        reveal_strlit("E");
        reveal_strlit("F");
    }
    match d {
        0 => "0",
        1 => "1",
        2 => "2",
        3 => "3",
        4 => "4",
        5 => "5",
        6 => "6",
        7 => "7",
        8 => "8",
        9 => "9",
        10 => "A",
        11 => "B",
        12 => "C",
        13 => "D",
        14 => "E",
        _ => "F",
    }
}

fn hex_string(v: u64, n: usize) -> (r: String)
    ensures
        r@ == hex_digits(v as nat, n as nat),
    decreases n,
{
    if n == 0 {
        String::new()
    } else {
        let head = hex_string(v / 16, n - 1);
        let r = head.concat(hex_char_str(v % 16));
        proof {
            assert(r@ =~= hex_digits(v as nat, n as nat));
        }
        r
    }
}

/// The identity of an embedded SID: its canonical text form when it is well
/// formed, otherwise the invalid-SID literal.
pub fn sid_to_identity(sid_bytes: &[u8]) -> (r: String)
    ensures
        r@ == sid_identity(sid_bytes@),
{
    if sid_bytes.len() < 8 || sid_bytes[0] != 1 || sid_bytes[1] > 15 {
        return String::from_str("<INVALID SID>");
    }
    let count = sid_bytes[1] as usize;
    if sid_bytes.len() < 8 + count * 4 {
        return String::from_str("<INVALID SID>");
    }
    let authority = authority_of(sid_bytes);
    let mut result = String::from_str("S-1-");
    if authority < 0x100000000 {
        result.append(decimal_string(authority).as_str());
    } else {
        result.append("0x");
        result.append(hex_string(authority, 12).as_str());
    }
    append_sub_authorities(&mut result, sid_bytes, count);
    proof {
        reveal_strlit("S-1-");
        reveal_strlit("S-");
        reveal_strlit("-");
        assert(decimal(1) == seq!['1']);
        assert(result@ =~= canonical_sid_text(sid_bytes@));
    }
    result
}

} // verus!
