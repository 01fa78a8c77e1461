//! Names of the rights in a raw access mask.

use vstd::prelude::*;

verus! {

/// Number of single-bit rights that the bitwise tier knows.
pub const RIGHT_COUNT: usize = 20;

/// Composite masks that are named as a whole, in the order they are tried.
pub open spec fn composite_names(mask: u32) -> Option<Seq<char>> {
    if mask == 0x1f01ff {
        Some("FullControl"@)
    } else if mask == 0x0301bf {
        Some("Modify"@)
    } else if mask == 0x0200a9 {
        Some("ReadAndExecute"@)
    } else if mask == 0x02019f {
        Some("ReadAndWrite"@)
    } else if mask == 0x020089 {
        Some("Read"@)
    } else if mask == 0x000116 {
        Some("Write"@)
    } else {
        None
    }
}

/// The bit of the `i`-th entry of the table of single rights.
pub open spec fn right_bit_spec(i: int) -> u32 {
    if i == 0 { 0x80000000 }
    else if i == 1 { 0x40000000 }
    else if i == 2 { 0x20000000 }
    else if i == 3 { 0x10000000 }
    else if i == 4 { 0x02000000 }
    else if i == 5 { 0x01000000 }
    else if i == 6 { 0x00100000 }
    else if i == 7 { 0x00080000 }
    else if i == 8 { 0x00040000 }
    else if i == 9 { 0x00020000 }
    else if i == 10 { 0x00010000 }
    else if i == 11 { 0x00000100 }
    else if i == 12 { 0x00000080 }
    else if i == 13 { 0x00000040 }
    else if i == 14 { 0x00000020 }
    else if i == 15 { 0x00000010 }
    else if i == 16 { 0x00000008 }
    else if i == 17 { 0x00000004 }
    else if i == 18 { 0x00000002 }
    else { 0x00000001 }
}

/// The name of the `i`-th entry of the table of single rights.
pub open spec fn right_name_spec(i: int) -> Seq<char> {
    if i == 0 { "GenericRead"@ }
    else if i == 1 { "GenericWrite"@ }
    else if i == 2 { "GenericExecute"@ }
    else if i == 3 { "GenericAll"@ }
    else if i == 4 { "MaximumAllowed"@ }
    else if i == 5 { "AccessSystemSecurity"@ }
    else if i == 6 { "Synchronize"@ }
    else if i == 7 { "WriteOwner"@ }
    else if i == 8 { "WriteDAC"@ }
    else if i == 9 { "ReadControl"@ }
    else if i == 10 { "Delete"@ }
    else if i == 11 { "WriteAttributes"@ }
    else if i == 12 { "ReadAttributes"@ }
    else if i == 13 { "DeleteChild"@ }
    else if i == 14 { "Execute/Traverse"@ }
    else if i == 15 { "WriteExtendedAttributes"@ }
    else if i == 16 { "ReadExtendedAttributes"@ }
    else if i == 17 { "AppendData/AddSubdirectory"@ }
    else if i == 18 { "WriteData/AddFile"@ }
    else { "ReadData/ListDirectory"@ }
}

/// Names of the table entries `0..n` whose bit is set in `mask`, in table order.
pub open spec fn bit_names(mask: u32, n: int) -> Seq<Seq<char>>
    decreases n,
{
    if n <= 0 {
        Seq::empty()
    } else if mask & right_bit_spec(n - 1) != 0 {
        bit_names(mask, n - 1).push(right_name_spec(n - 1))
    } else {
        bit_names(mask, n - 1)
    }
}

/// The symbolic permissions of a raw access mask: the composite name on an
/// exact match, otherwise every single right whose bit is set.
pub open spec fn mask_permissions(mask: u32) -> Seq<Seq<char>> {
    match composite_names(mask) {
        Some(name) => seq![name],
        None => bit_names(mask, RIGHT_COUNT as int),
    }
}

fn composite_name(mask: u32) -> (r: Option<&'static str>)
    ensures
        match composite_names(mask) {
            Some(n) => r is Some && r->0@ == n,
            None => r is None,
        },
{
    if mask == 0x1f01ff {
        Some("FullControl")
    } else if mask == 0x0301bf {
        Some("Modify")
    } else if mask == 0x0200a9 {
        Some("ReadAndExecute")
    } else if mask == 0x02019f {
        Some("ReadAndWrite")
    } else if mask == 0x020089 {
        Some("Read")
    } else if mask == 0x000116 {
        Some("Write")
    } else {
        None
    }
}

fn right_bit(i: usize) -> (r: u32)
    ensures
        r == right_bit_spec(i as int),
{
    match i {
        0 => 0x80000000,
        1 => 0x40000000,
        2 => 0x20000000,
        3 => 0x10000000,
        4 => 0x02000000,
        5 => 0x01000000,
        6 => 0x00100000,
        7 => 0x00080000,
        8 => 0x00040000,
        9 => 0x00020000,
        10 => 0x00010000,
        11 => 0x00000100,
        12 => 0x00000080,
        13 => 0x00000040,
        14 => 0x00000020,
        15 => 0x00000010,
        16 => 0x00000008,
        17 => 0x00000004,
        18 => 0x00000002,
        _ => 0x00000001,
    }
}

fn right_name(i: usize) -> (r: &'static str)
    ensures
        r@ == right_name_spec(i as int),
{
    match i {
        0 => "GenericRead",
        1 => "GenericWrite",
        2 => "GenericExecute",
        3 => "GenericAll",
        4 => "MaximumAllowed",
        5 => "AccessSystemSecurity",
        6 => "Synchronize",
        7 => "WriteOwner",
        8 => "WriteDAC",
        9 => "ReadControl",
        10 => "Delete",
        11 => "WriteAttributes",
        12 => "ReadAttributes",
        13 => "DeleteChild",
        14 => "Execute/Traverse",
        15 => "WriteExtendedAttributes",
        16 => "ReadExtendedAttributes",
        17 => "AppendData/AddSubdirectory",
        18 => "WriteData/AddFile",
        _ => "ReadData/ListDirectory",
    }
}

/// Translates a raw access mask into its symbolic permission names.
pub fn parse_access_mask(mask: u32) -> (r: Vec<String>)
    ensures
        r.deep_view() == mask_permissions(mask),
{
    if let Some(name) = composite_name(mask) {
        let mut one: Vec<String> = Vec::new();
        one.push(String::from_str(name));
        proof {
            assert(one.deep_view() =~= seq![name@]);
        }
        return one;
    }
    let mut perms: Vec<String> = Vec::new();
    let mut i: usize = 0;
    while i < RIGHT_COUNT
        invariant
            i <= RIGHT_COUNT,
            perms.deep_view() == bit_names(mask, i as int),
        decreases RIGHT_COUNT - i,
    {
        let bit = right_bit(i);
        if mask & bit != 0 {
            let ghost before = perms.deep_view();
            perms.push(String::from_str(right_name(i)));
            proof {
                assert(perms.deep_view() =~= before.push(right_name_spec(i as int)));
            }
        }
        i = i + 1;
    }
    perms
}

} // verus!
