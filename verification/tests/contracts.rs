use merter::contracts::ContractSet;

#[test]
fn new_set_is_empty() {
    let set = ContractSet::new();
    assert_eq!(set.len(), 0);
    assert!(set.all().is_empty());
    assert!(!set.contains("0xA"));
    assert_eq!(set.get("0xA"), None);
}

#[test]
fn inserting_an_address_many_times_holds_it_once() {
    let mut set = ContractSet::new();
    for _ in 0..25 {
        set.insert("0xA".to_string());
    }
    assert_eq!(set.len(), 1);
    assert_eq!(set.all(), vec!["0xA".to_string()]);
    assert!(set.contains("0xA"));
}

#[test]
fn inserted_address_carries_the_flag_false() {
    let mut set = ContractSet::new();
    set.insert("0xA".to_string());
    assert_eq!(set.get("0xA"), Some(false));
    assert_eq!(set.get("0xB"), None);
}

#[test]
fn distinct_addresses_are_all_held() {
    let mut set = ContractSet::new();
    set.insert("0xA".to_string());
    set.insert("0xB".to_string());
    set.insert("0xA".to_string());
    set.insert("0xC".to_string());
    set.insert("0xB".to_string());
    assert_eq!(set.len(), 3);
    let mut all = set.all();
    all.sort();
    assert_eq!(all, vec!["0xA".to_string(), "0xB".to_string(), "0xC".to_string()]);
}

#[test]
fn addresses_differ_by_case() {
    let mut set = ContractSet::new();
    set.insert("0xab".to_string());
    set.insert("0xAB".to_string());
    assert_eq!(set.len(), 2);
    assert!(set.contains("0xab"));
    assert!(set.contains("0xAB"));
    assert!(!set.contains("0xAb"));
}
