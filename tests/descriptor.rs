use share_indexer::acl::{decode_descriptor, AceKind};
use share_indexer::shares::descriptor_buffer_len;

fn sid(subs: &[u32]) -> Vec<u8> {
    let mut b = vec![1u8, subs.len() as u8, 0, 0, 0, 0, 0, 5];
    for s in subs {
        b.extend_from_slice(&s.to_le_bytes());
    }
    b
}

fn ace(kind: u8, mask: u32, sid: &[u8]) -> Vec<u8> {
    let size = (8 + sid.len()) as u16;
    let mut b = vec![kind, 0];
    b.extend_from_slice(&size.to_le_bytes());
    b.extend_from_slice(&mask.to_le_bytes());
    b.extend_from_slice(sid);
    b
}

fn descriptor(aces: &[Vec<u8>]) -> Vec<u8> {
    let mut d = vec![1u8, 0, 0x04, 0x80];
    d.extend_from_slice(&[0u8; 12]);
    d.extend_from_slice(&20u32.to_le_bytes());
    let body: Vec<u8> = aces.concat();
    let acl_size = (8 + body.len()) as u16;
    d.extend_from_slice(&[2, 0]);
    d.extend_from_slice(&acl_size.to_le_bytes());
    d.extend_from_slice(&(aces.len() as u16).to_le_bytes());
    d.extend_from_slice(&[0, 0]);
    d.extend_from_slice(&body);
    d
}

#[test]
fn allow_and_deny_entries_are_decoded() {
    let d = descriptor(&[
        ace(0, 0x1f01ff, &sid(&[21, 1, 2, 3, 500])),
        ace(1, 0x00000002, &sid(&[32, 545])),
    ]);
    let r = decode_descriptor(&d).unwrap();
    assert_eq!(r.len(), 2);
    assert_eq!(r[0].identity, "S-1-5-21-1-2-3-500");
    assert_eq!(r[0].ace_type, AceKind::Allowed);
    assert_eq!(r[0].ace_type.as_text(), "ALLOWED");
    assert_eq!(r[0].access_mask, 0x1f01ff);
    assert_eq!(r[0].permissions, vec!["FullControl".to_string()]);
    assert_eq!(r[1].identity, "S-1-5-32-545");
    assert_eq!(r[1].ace_type, AceKind::Denied);
    assert_eq!(r[1].ace_type.as_text(), "DENIED");
    assert_eq!(r[1].permissions, vec!["WriteData/AddFile".to_string()]);
}

#[test]
fn other_ace_types_are_skipped() {
    let d = descriptor(&[
        ace(2, 0x1f01ff, &sid(&[18])),
        ace(5, 0x1f01ff, &sid(&[18])),
        ace(0, 0x020089, &sid(&[11])),
    ]);
    let r = decode_descriptor(&d).unwrap();
    assert_eq!(r.len(), 1);
    assert_eq!(r[0].identity, "S-1-5-11");
    assert_eq!(r[0].permissions, vec!["Read".to_string()]);
}

#[test]
fn malformed_sid_gets_the_sentinel() {
    let d = descriptor(&[ace(0, 1, &[1u8, 3, 0, 0, 0, 0, 0, 5])]);
    let r = decode_descriptor(&d).unwrap();
    assert_eq!(r[0].identity, "<INVALID SID>");
}

#[test]
fn no_dacl_gives_no_entries() {
    let mut d = descriptor(&[ace(0, 1, &sid(&[18]))]);
    d[2] = 0;
    assert_eq!(decode_descriptor(&d).unwrap().len(), 0);
    let mut d = descriptor(&[]);
    d[16..20].copy_from_slice(&0u32.to_le_bytes());
    assert_eq!(decode_descriptor(&d).unwrap().len(), 0);
}

#[test]
fn not_a_descriptor() {
    assert!(decode_descriptor(&[1, 0, 4]).is_none());
    let mut d = descriptor(&[]);
    d[3] = 0;
    assert!(decode_descriptor(&d).is_none());
    let mut d = descriptor(&[]);
    d[16..20].copy_from_slice(&1000u32.to_le_bytes());
    assert!(decode_descriptor(&d).is_none());
}

#[test]
fn truncated_ace_run_stops_the_walk() {
    let mut d = descriptor(&[ace(0, 1, &sid(&[18])), ace(1, 1, &sid(&[19]))]);
    d.truncate(d.len() - 3);
    let r = decode_descriptor(&d).unwrap();
    assert_eq!(r.len(), 1);
    assert_eq!(r[0].identity, "S-1-5-18");
}

#[test]
fn second_query_buffer_is_padded() {
    assert_eq!(descriptor_buffer_len(false, 100), Some(1124));
    assert_eq!(descriptor_buffer_len(true, 100), None);
    assert_eq!(descriptor_buffer_len(false, u32::MAX - 10), None);
}
