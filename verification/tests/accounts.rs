use state_machine::accounts::{AccountKey, AccountMap};

#[test]
fn strings_name_the_same_account_when_equal() {
    let alice = "alice".to_string();
    assert!(alice.same_account(&"alice".to_string()));
    assert!(!alice.same_account(&"alicf".to_string()));
    assert!(!alice.same_account(&"alic".to_string()));
    assert!(!alice.same_account(&String::new()));
}

#[test]
fn duplicate_names_the_same_account() {
    let alice = "alice".to_string();
    let copy = alice.duplicate();
    assert_eq!(copy, alice);
    assert!(copy.same_account(&alice));
}

#[test]
fn empty_map_holds_nothing() {
    let map = AccountMap::<String, u32>::new();
    assert_eq!(map.get(&"alice".to_string()), None);
}

#[test]
fn insert_then_get() {
    let mut map = AccountMap::<String, u32>::new();
    map.insert(&"alice".to_string(), 3);
    map.insert(&"bob".to_string(), 4);
    assert_eq!(map.get(&"alice".to_string()), Some(3));
    assert_eq!(map.get(&"bob".to_string()), Some(4));
    assert_eq!(map.get(&"carol".to_string()), None);
}

#[test]
fn insert_replaces_the_value_of_its_account() {
    let mut map = AccountMap::<String, u32>::new();
    map.insert(&"alice".to_string(), 3);
    map.insert(&"bob".to_string(), 4);
    map.insert(&"alice".to_string(), 5);
    map.insert(&"bob".to_string(), 0);
    assert_eq!(map.get(&"alice".to_string()), Some(5));
    assert_eq!(map.get(&"bob".to_string()), Some(0));
}

#[test]
fn many_accounts_stay_apart() {
    let mut map = AccountMap::<String, u128>::new();
    for i in 0..200u128 {
        map.insert(&format!("account-{i}"), i);
    }
    for i in (0..200u128).step_by(2) {
        map.insert(&format!("account-{i}"), i + 1000);
    }
    for i in 0..200u128 {
        let expected = if i % 2 == 0 { i + 1000 } else { i };
        assert_eq!(map.get(&format!("account-{i}")), Some(expected));
    }
}

#[test]
fn strings_are_ordered_as_strings_are() {
    let names = [
        "", "a", "A", "Z", "ab", "abc", "b", "ba", "alice", "alicf", "bob", "é", "z", "zz",
        "\u{7f}", "\u{80}", "\u{7ff}", "\u{800}", "\u{ffff}", "\u{10000}", "a\u{10000}", "aé",
    ];
    for a in names {
        for b in names {
            let left = a.to_string();
            let right = b.to_string();
            assert_eq!(left.comes_before(&right), left < right, "{a:?} before {b:?}");
        }
    }
}

#[test]
fn no_string_comes_before_itself() {
    for name in ["", "alice", "é\u{10000}"] {
        let account = name.to_string();
        assert!(!account.comes_before(&account));
    }
}

#[test]
fn a_prefix_comes_before_what_it_begins() {
    assert!("alic".to_string().comes_before(&"alice".to_string()));
    assert!(!"alice".to_string().comes_before(&"alic".to_string()));
    assert!(String::new().comes_before(&"a".to_string()));
}

#[test]
fn accounts_are_kept_in_ascending_order() {
    let mut forward = AccountMap::<String, u32>::new();
    let mut backward = AccountMap::<String, u32>::new();
    let names = ["alice", "bob", "carol", "dave", "erin"];
    for (i, name) in names.iter().enumerate() {
        forward.insert(&name.to_string(), i as u32);
    }
    for (i, name) in names.iter().enumerate().rev() {
        backward.insert(&name.to_string(), i as u32);
    }
    let shown = format!("{:?}", forward);
    assert_eq!(shown, format!("{:?}", backward));
    let places: Vec<usize> = names.iter().map(|name| shown.find(name).unwrap()).collect();
    assert!(places.windows(2).all(|pair| pair[0] < pair[1]));
}
