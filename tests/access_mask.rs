use share_indexer::mask::parse_access_mask;

#[test]
fn full_control_is_named_alone() {
    assert_eq!(parse_access_mask(0x1f01ff), vec!["FullControl".to_string()]);
}

#[test]
fn read_data_bit_alone() {
    assert_eq!(parse_access_mask(0x00000001), vec!["ReadData/ListDirectory".to_string()]);
}

#[test]
fn every_composite_is_named() {
    assert_eq!(parse_access_mask(0x0301bf), vec!["Modify".to_string()]);
    assert_eq!(parse_access_mask(0x0200a9), vec!["ReadAndExecute".to_string()]);
    assert_eq!(parse_access_mask(0x02019f), vec!["ReadAndWrite".to_string()]);
    assert_eq!(parse_access_mask(0x020089), vec!["Read".to_string()]);
    assert_eq!(parse_access_mask(0x000116), vec!["Write".to_string()]);
}

#[test]
fn bits_are_listed_in_table_order() {
    let r = parse_access_mask(0x80000000 | 0x00100000 | 0x00000020 | 0x00000002);
    assert_eq!(
        r,
        vec![
            "GenericRead".to_string(),
            "Synchronize".to_string(),
            "Execute/Traverse".to_string(),
            "WriteData/AddFile".to_string(),
        ]
    );
}

#[test]
fn composite_plus_one_bit_is_spelled_out() {
    let r = parse_access_mask(0x1f01ff | 0x10000000);
    assert_eq!(r.len(), 15);
    assert_eq!(r[0], "GenericAll");
    assert!(!r.contains(&"FullControl".to_string()));
}

#[test]
fn zero_mask_names_nothing() {
    assert!(parse_access_mask(0).is_empty());
}
