use tracing_etw::order::{str_eq, str_lt, stable_sort_order};
use tracing_etw::span::{field_position, new_span_data, span_parent_id, MAX_SPAN_FIELDS};

fn std_stable_order(names: &[&str]) -> Vec<u8> {
    let mut idx: Vec<u8> = (0..names.len() as u8).collect();
    idx.sort_by_key(|i| names[*i as usize]);
    idx
}

#[test]
fn str_lt_is_byte_order() {
    assert!(str_lt("a", "b"));
    assert!(str_lt("a", "ab"));
    assert!(!str_lt("ab", "a"));
    assert!(!str_lt("abc", "abc"));
    assert!(str_lt("", "a"));
    assert!(!str_lt("", ""));
    assert!(str_lt("Z", "a"));
    assert!(str_lt("z", "\u{e9}"));
}

#[test]
fn stable_sort_order_sorts_names() {
    let names = vec!["b", "a", "c", "a"];
    assert_eq!(stable_sort_order(&names), vec![1, 3, 0, 2]);
}

#[test]
fn stable_sort_order_empty() {
    let names: Vec<&str> = vec![];
    assert_eq!(stable_sort_order(&names), Vec::<u8>::new());
}

#[test]
fn stable_sort_order_matches_std_stable_sort() {
    let cases: Vec<Vec<&str>> = vec![
        vec!["message", "count", "user", "count", "id"],
        vec!["z", "y", "x", "w", "v", "u", "t"],
        vec!["same", "same", "same"],
        vec!["ab", "a", "abc", "", "b"],
        vec!["\u{e9}t\u{e9}", "ete", "Ete", "zeta"],
    ];
    for names in cases {
        assert_eq!(stable_sort_order(&names), std_stable_order(&names));
    }
}

#[test]
fn new_span_data_indexes_fields() {
    let names: Vec<&'static str> = vec!["message", "count", "user"];
    let seed = [0xAAu8; 16];
    let d = new_span_data(&names, 5, 0, &seed);
    assert_eq!(d.fields.len(), 3);
    let fields: Vec<&str> = d.fields.iter().map(|f| f.field).collect();
    assert_eq!(fields, names);
    let order: Vec<u8> = d.fields.iter().map(|f| f.sort_index).collect();
    assert_eq!(order, vec![1, 0, 2]);
}

#[test]
fn new_span_data_takes_up_to_max_fields() {
    let all: Vec<&'static str> = vec![
        "f31", "f30", "f29", "f28", "f27", "f26", "f25", "f24", "f23", "f22", "f21", "f20", "f19",
        "f18", "f17", "f16", "f15", "f14", "f13", "f12", "f11", "f10", "f09", "f08", "f07", "f06",
        "f05", "f04", "f03", "f02", "f01", "f00",
    ];
    assert_eq!(all.len(), MAX_SPAN_FIELDS);
    let d = new_span_data(&all, 1, 0, &[0u8; 16]);
    let order: Vec<u8> = d.fields.iter().map(|f| f.sort_index).collect();
    let expected: Vec<u8> = (0..32u8).rev().collect();
    assert_eq!(order, expected);
}

#[test]
fn activity_id_encodes_span_id() {
    let seed: [u8; 16] = [9, 1, 2, 3, 4, 5, 6, 7, 8, 9, 10, 11, 12, 13, 14, 15];
    let d = new_span_data(&vec![], 0x0102_0304_0506_0708, 0, &seed);
    assert_eq!(d.activity_id, [1, 1, 2, 3, 4, 5, 6, 7, 8, 7, 6, 5, 4, 3, 2, 1]);
    let mut tail = [0u8; 8];
    tail.copy_from_slice(&d.activity_id[8..16]);
    assert_eq!(u64::from_le_bytes(tail), 0x0102_0304_0506_0708);
}

#[test]
fn related_activity_id_without_parent_is_seed_with_byte0_cleared() {
    let seed: [u8; 16] = [9, 1, 2, 3, 4, 5, 6, 7, 8, 9, 10, 11, 12, 13, 14, 15];
    let d = new_span_data(&vec![], 3, 0, &seed);
    assert_eq!(d.related_activity_id, [0, 1, 2, 3, 4, 5, 6, 7, 8, 9, 10, 11, 12, 13, 14, 15]);
}

#[test]
fn related_activity_id_with_parent_is_parent_activity_id() {
    let seed: [u8; 16] = [9, 1, 2, 3, 4, 5, 6, 7, 8, 9, 10, 11, 12, 13, 14, 15];
    let d = new_span_data(&vec![], 3, 77, &seed);
    let parent = new_span_data(&vec![], 77, 0, &seed);
    assert_eq!(d.related_activity_id, parent.activity_id);
    assert_eq!(d.related_activity_id[0], 1);
    assert_eq!(d.related_activity_id[8], 77);
}

#[test]
fn distinct_span_ids_give_distinct_activity_ids() {
    let seed = [0u8; 16];
    let a = new_span_data(&vec![], 1, 0, &seed);
    let b = new_span_data(&vec![], 1 << 56, 0, &seed);
    assert_ne!(a.activity_id, b.activity_id);
}

#[test]
fn parent_id_only_for_contextual_spans() {
    assert_eq!(span_parent_id(true, Some(12)), 12);
    assert_eq!(span_parent_id(true, None), 0);
    assert_eq!(span_parent_id(false, Some(12)), 0);
    assert_eq!(span_parent_id(false, None), 0);
}

#[test]
fn str_eq_is_byte_equality() {
    assert!(str_eq("abc", "abc"));
    assert!(str_eq("", ""));
    assert!(!str_eq("abc", "abd"));
    assert!(!str_eq("abc", "ab"));
    assert!(!str_eq("a", "A"));
}

#[test]
fn field_position_finds_first_match() {
    let names: Vec<&'static str> = vec!["message", "count", "user", "count"];
    let d = new_span_data(&names, 1, 0, &[0u8; 16]);
    assert_eq!(field_position(&d.fields, "message"), Some(0));
    assert_eq!(field_position(&d.fields, "count"), Some(1));
    assert_eq!(field_position(&d.fields, "user"), Some(2));
    assert_eq!(field_position(&d.fields, "missing"), None);
    assert_eq!(field_position(&d.fields, "coun"), None);
}
