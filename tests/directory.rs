use share_indexer::ldap::{
    bind_error_message, computer_account, configured_base_dn, enumerates, enumeration_error_message,
    get_sid_attr, get_string_attr, group_record, ldap_url, user_account, DirectoryEntry,
};

fn entry(dn: &str, attrs: &[(&str, &[&str])], bin: &[(&str, Vec<u8>)]) -> DirectoryEntry {
    DirectoryEntry {
        dn: dn.to_string(),
        attrs: attrs
            .iter()
            .map(|(k, v)| (k.to_string(), v.iter().map(|s| s.to_string()).collect()))
            .collect(),
        bin_attrs: bin.iter().map(|(k, v)| (k.to_string(), vec![v.clone()])).collect(),
    }
}

fn sid_bytes(subs: &[u32]) -> Vec<u8> {
    let mut b = vec![1u8, subs.len() as u8, 0, 0, 0, 0, 0, 5];
    for s in subs {
        b.extend_from_slice(&s.to_le_bytes());
    }
    b
}

#[test]
fn first_values_of_attributes() {
    let e = entry("CN=a", &[("cn", &["alice", "second"]), ("empty", &[])], &[]);
    assert_eq!(get_string_attr(&e, "cn"), Some("alice".to_string()));
    assert_eq!(get_string_attr(&e, "empty"), None);
    assert_eq!(get_string_attr(&e, "missing"), None);
}

#[test]
fn sid_from_binary_attribute() {
    let e = entry("CN=bob,DC=x", &[], &[("objectSid", sid_bytes(&[21, 7, 8, 9, 1105]))]);
    assert_eq!(get_sid_attr(&e, "objectSid"), Some("S-1-5-21-7-8-9-1105".to_string()));
}

#[test]
fn builtin_group_falls_back_to_well_known_sid() {
    let e = entry("CN=Administrators,CN=Builtin,DC=x", &[("cn", &["Administrators"])], &[]);
    assert_eq!(get_sid_attr(&e, "objectSid"), Some("S-1-5-32-544".to_string()));
    let e = entry("CN=Administrators,CN=Users,DC=x", &[("cn", &["Administrators"])], &[]);
    assert_eq!(get_sid_attr(&e, "objectSid"), None);
}

#[test]
fn malformed_binary_sid_gives_none() {
    let e = entry("CN=Guests,CN=Builtin,DC=x", &[("cn", &["Guests"])], &[("objectSid", vec![1, 4, 0])]);
    assert_eq!(get_sid_attr(&e, "objectSid"), None);
}

#[test]
fn user_record_from_entry() {
    let e = entry(
        "CN=bob,DC=x",
        &[
            ("distinguishedName", &["CN=bob,DC=x"]),
            ("cn", &["bob"]),
            ("sAMAccountName", &["bob"]),
            ("whenCreated", &["20200101000000.0Z"]),
            ("lastLogonTimestamp", &["132000000000000000"]),
        ],
        &[("objectSid", sid_bytes(&[21, 1, 2, 3, 1000]))],
    );
    let u = user_account(&e);
    assert_eq!(u.distinguished_name, "CN=bob,DC=x");
    assert_eq!(u.cn, "bob");
    assert_eq!(u.sam_account_name, Some("bob".to_string()));
    assert_eq!(u.sid, Some("S-1-5-21-1-2-3-1000".to_string()));
    assert_eq!(u.when_created, Some("20200101000000.0Z".to_string()));
    assert_eq!(u.last_logon, Some("2019-04-17T18:40:00+00:00".to_string()));
}

#[test]
fn computer_record_from_entry() {
    let e = entry(
        "CN=pc1,DC=x",
        &[("cn", &["pc1"]), ("dNSHostName", &["pc1.x"]), ("operatingSystem", &["Windows"]), ("lastLogonTimestamp", &["0"])],
        &[],
    );
    let c = computer_account(&e);
    assert_eq!(c.distinguished_name, "");
    assert_eq!(c.cn, "pc1");
    assert_eq!(c.dns_hostname, Some("pc1.x".to_string()));
    assert_eq!(c.operating_system, Some("Windows".to_string()));
    assert_eq!(c.os_version, None);
    assert_eq!(c.last_logon, None);
}

#[test]
fn group_without_sid_is_known_by_cn() {
    let e = entry("CN=Staff,DC=x", &[("cn", &["Staff"]), ("member", &["CN=a,DC=x", "CN=b,DC=x"])], &[]);
    let g = group_record(&e);
    assert_eq!(g.sid, Some("Staff".to_string()));
    assert_eq!(g.members, vec!["CN=a,DC=x".to_string(), "CN=b,DC=x".to_string()]);
    let e = entry("CN=Empty,DC=x", &[], &[]);
    let g = group_record(&e);
    assert_eq!(g.sid, Some(String::new()));
    assert!(g.members.is_empty());
}

#[test]
fn controller_urls() {
    assert_eq!(ldap_url(" dc1 ", false), "ldap://dc1:389");
    assert_eq!(ldap_url("dc1", true), "ldaps://dc1:636");
    assert_eq!(ldap_url("dc1:3268", false), "ldap://dc1:3268");
    assert_eq!(ldap_url("dc1:3269", true), "ldaps://dc1:3269");
}

#[test]
fn modes_select_enumerations() {
    assert!(enumerates("ALL", "users"));
    assert!(enumerates("Users", "users"));
    assert!(!enumerates("users", "groups"));
}

#[test]
fn base_dn_is_given_or_derived() {
    assert_eq!(configured_base_dn("  DC=a,DC=b ", "x@c.d"), Some("DC=a,DC=b".to_string()));
    assert_eq!(configured_base_dn("", " x@c.d "), Some("DC=c,DC=d".to_string()));
    assert_eq!(configured_base_dn(" ", "CORP\\x"), None);
}

#[test]
fn error_messages() {
    assert_eq!(
        enumeration_error_message("users", "rc:4, Size limit", true),
        "ERROR: Size limit exceeded while enumerating users. This means the server has a hard limit that prevents returning results. Try a more specific base DN or contact your AD administrator."
    );
    assert_eq!(
        enumeration_error_message("groups", "timeout", true),
        "LDAP Error during groups enumeration: timeout"
    );
    assert_eq!(enumeration_error_message("groups", "Io", false), "Error during groups enumeration: Io");
    assert_eq!(
        bind_error_message("strongAuthRequired: signing required"),
        "LDAP signing is required by the server. Try using LDAPS instead."
    );
    assert_eq!(bind_error_message("invalid credentials"), "Bind failed: invalid credentials");
}
