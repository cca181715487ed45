use bridge_channel::allow_list::AllowList;

#[test]
fn allow_list_empty_denies_all() {
    let al = AllowList::parse(&[]);
    assert!(!al.is_allowed("user_a"));
}

#[test]
fn allow_list_wildcard_allows_all() {
    let al = AllowList::parse(&["*".to_string()]);
    assert!(al.is_allowed("user_a"));
    assert!(al.is_allowed("anything"));
}

#[test]
fn allow_list_specific_ids() {
    let al = AllowList::parse(&["user_a".to_string(), "user_b".to_string()]);
    assert!(al.is_allowed("user_a"));
    assert!(al.is_allowed("user_b"));
    assert!(!al.is_allowed("user_c"));
}

#[test]
fn allow_list_wildcard_mixed_allows_all() {
    let al = AllowList::parse(&["user_a".to_string(), "*".to_string()]);
    assert!(al.is_allowed("user_a"));
    assert!(al.is_allowed("unknown"));
}
