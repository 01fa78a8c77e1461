use share_indexer::ldap::{derive_base_dn_from_upn, filetime_to_datetime, get_well_known_sid, parse_i64};
use share_indexer::sid::{parse_sid, sid_to_identity};

fn sid_bytes(revision: u8, authority: u64, subs: &[u32]) -> Vec<u8> {
    let mut b = vec![revision, subs.len() as u8];
    for shift in [40u32, 32, 24, 16, 8, 0] {
        b.push(((authority >> shift) & 0xff) as u8);
    }
    for s in subs {
        b.extend_from_slice(&s.to_le_bytes());
    }
    b
}

#[test]
fn sid_of_domain_administrator() {
    let b = sid_bytes(1, 5, &[21, 1004336348, 1177238915, 682003330, 500]);
    assert_eq!(
        parse_sid(&b),
        Some("S-1-5-21-1004336348-1177238915-682003330-500".to_string())
    );
}

#[test]
fn sid_without_sub_authorities() {
    assert_eq!(parse_sid(&sid_bytes(1, 1, &[])), Some("S-1-1".to_string()));
}

#[test]
fn sid_with_large_authority_and_sub_authority() {
    let b = sid_bytes(1, 0x0000_1234_5678_9abc, &[u32::MAX]);
    assert_eq!(parse_sid(&b), Some("S-1-20015998343868-4294967295".to_string()));
}

#[test]
fn sid_too_short() {
    assert_eq!(parse_sid(&[1, 0, 0, 0, 0, 0, 5]), None);
    let mut b = sid_bytes(1, 5, &[32, 544]);
    b.pop();
    assert_eq!(parse_sid(&b), None);
}

#[test]
fn identity_of_invalid_sid_is_the_sentinel() {
    assert_eq!(sid_to_identity(&[]), "<INVALID SID>");
    assert_eq!(sid_to_identity(&sid_bytes(2, 5, &[18])), "<INVALID SID>");
    assert_eq!(sid_to_identity(&sid_bytes(1, 5, &[18])), "S-1-5-18");
}

#[test]
fn identity_of_large_authority_is_hexadecimal() {
    assert_eq!(sid_to_identity(&sid_bytes(1, 0x0000_1234_5678_9abc, &[7])), "S-1-0x123456789ABC-7");
    assert_eq!(sid_to_identity(&sid_bytes(1, 0xffff_ffff, &[])), "S-1-4294967295");
    assert_eq!(sid_to_identity(&sid_bytes(1, 0x1_0000_0000, &[])), "S-1-0x000100000000");
}

#[test]
fn well_known_groups() {
    assert_eq!(get_well_known_sid("Administrators"), Some("S-1-5-32-544".to_string()));
    assert_eq!(get_well_known_sid("Replicator"), Some("S-1-5-32-552".to_string()));
    assert_eq!(get_well_known_sid("Remote Management Users"), Some("S-1-5-32-580".to_string()));
    assert_eq!(get_well_known_sid("administrators"), None);
    assert_eq!(get_well_known_sid(""), None);
}

#[test]
fn base_dn_from_principal_name() {
    assert_eq!(
        derive_base_dn_from_upn("alice@corp.example.com"),
        Some("DC=corp,DC=example,DC=com".to_string())
    );
    assert_eq!(derive_base_dn_from_upn("alice@local"), None);
    assert_eq!(derive_base_dn_from_upn("alice"), None);
    assert_eq!(derive_base_dn_from_upn("a@b.c@d.e"), Some("DC=b,DC=c".to_string()));
    assert_eq!(derive_base_dn_from_upn("a@.x"), Some("DC=,DC=x".to_string()));
}

#[test]
fn decimal_integers_are_read() {
    assert_eq!(parse_i64("0"), Some(0));
    assert_eq!(parse_i64("+42"), Some(42));
    assert_eq!(parse_i64("-17"), Some(-17));
    assert_eq!(parse_i64("9223372036854775807"), Some(i64::MAX));
    assert_eq!(parse_i64("-9223372036854775808"), Some(i64::MIN));
    assert_eq!(parse_i64("9223372036854775808"), None);
    assert_eq!(parse_i64("99999999999999999999999"), None);
    assert_eq!(parse_i64(""), None);
    assert_eq!(parse_i64("-"), None);
    assert_eq!(parse_i64("12a"), None);
    assert_eq!(parse_i64(" 1"), None);
}

#[test]
fn directory_timestamps_in_rfc3339() {
    assert_eq!(
        filetime_to_datetime("132000000000000000"),
        Some("2019-04-17T18:40:00+00:00".to_string())
    );
    assert_eq!(
        filetime_to_datetime("116444736000000000"),
        Some("1970-01-01T00:00:00+00:00".to_string())
    );
    assert_eq!(filetime_to_datetime("0"), None);
    assert_eq!(filetime_to_datetime("never"), None);
    assert_eq!(filetime_to_datetime("9223372036854775807").is_some(), true);
}
