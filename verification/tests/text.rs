use rift::collections::{VecMap, VecSet};
use rift::text::{
    chars_of, find, is_text, padded_decimal, parse_i32, parse_u32, push_signed, push_unsigned,
    same_optional, same_text, split_text, text_contains, text_ends_with, text_starts_with,
    to_lowercase,
};
use rift::window_id::WindowId;

#[test]
fn legacy_window_id_strings_still_decode() {
    assert_eq!(
        WindowId::from_debug_string("WindowId { pid: 42, idx: 7 }"),
        Some(WindowId::new(42, 7))
    );
}

#[test]
fn window_ids_survive_being_written() {
    for (pid, idx) in [(0, 1), (-5, 1), (i32::MAX, u32::MAX), (i32::MIN, 9)] {
        let id = WindowId::new(pid, idx);
        assert_eq!(WindowId::from_debug_string(&id.to_debug_string()), Some(id));
    }
    assert_eq!(WindowId::new(42, 7).to_debug_string(), "WindowId { pid: 42, idx: 7 }");
}

#[test]
fn malformed_window_ids_are_refused() {
    for text in [
        "",
        "WindowId",
        "WindowId { pid: 42 }",
        "WindowId { pid: x, idx: 7 }",
        "WindowId { pid: 42, idx: 0 }",
        "WindowId { pid: 42, idx: 4294967296 }",
        "Window { pid: 42, idx: 7 }",
    ] {
        assert_eq!(WindowId::from_debug_string(text), None, "{text}");
    }
}

fn parsed(s: &str) -> (Option<u32>, Option<i32>) {
    (parse_u32(&chars_of(s)), parse_i32(&chars_of(s)))
}

#[test]
fn numbers_are_read_as_the_standard_library_reads_them() {
    for s in
        ["", "+", "-", "0", "007", "+5", "-5", "-0", "4294967295", "4294967296", "2147483648",
         "-2147483648", "-2147483649", " 1", "1 ", "1a", "99999999999999999999"]
    {
        assert_eq!(parsed(s), (s.parse::<u32>().ok(), s.parse::<i32>().ok()), "{s}");
    }
}

#[test]
fn numbers_are_written_as_the_standard_library_writes_them() {
    for n in [0u64, 7, 10, 1234567890, u64::MAX] {
        let mut s = String::new();
        push_unsigned(&mut s, n);
        assert_eq!(s, n.to_string());
    }
    for n in [0i64, -1, 42, i64::MAX, i64::MIN + 1] {
        let mut s = String::new();
        push_signed(&mut s, n);
        assert_eq!(s, n.to_string());
    }
    assert_eq!(padded_decimal(7, 3), "007");
    assert_eq!(padded_decimal(1234, 3), "1234");
    assert_eq!(padded_decimal(0, 0), "0");
}

#[test]
fn texts_are_searched() {
    let s = chars_of("window");
    assert_eq!(find(&s, &chars_of("do")), Some(3));
    assert_eq!(find(&s, &chars_of("od")), None);
    assert_eq!(find(&s, &chars_of("")), Some(0));
    assert!(text_starts_with(&s, &chars_of("win")));
    assert!(!text_starts_with(&s, &chars_of("in")));
    assert!(text_ends_with(&s, &chars_of("dow")));
    assert!(!text_ends_with(&s, &chars_of("do")));
    assert!(text_contains(&s, &chars_of("ind")));
    assert_eq!(to_lowercase(&chars_of("AbC-9")), chars_of("abc-9"));
    assert_eq!(split_text("a.b..c", '.'), vec!["a", "b", "", "c"]);
    assert_eq!(split_text("", '.'), vec![""]);
}

#[test]
fn texts_are_compared() {
    assert!(same_text("a", "a"));
    assert!(!same_text("a", "ab"));
    let a = Some("x".to_string());
    assert!(is_text(&a, "x"));
    assert!(!is_text(&None, "x"));
    assert!(same_optional(&a, &Some("x".to_string())));
    assert!(same_optional(&None, &None));
    assert!(!same_optional(&a, &None));
}

#[test]
fn maps_hold_one_value_for_a_key() {
    let mut m: VecMap<u32, char> = VecMap::new();
    assert!(m.is_empty());
    assert_eq!(m.insert(1, 'a'), None);
    assert_eq!(m.insert(2, 'b'), None);
    assert_eq!(m.insert(1, 'c'), Some('a'));
    assert_eq!(m.get(&1), Some(&'c'));
    assert_eq!(m.keys(), vec![1, 2]);
    assert_eq!(m.remove(&1), Some('c'));
    assert_eq!(m.remove(&1), None);
    assert!(!m.contains_key(&1) && m.contains_key(&2));
    assert_eq!(m.duplicate().get(&2), Some(&'b'));
    m.clear();
    assert!(m.is_empty());
}

#[test]
fn sets_hold_an_item_once() {
    let mut s: VecSet<u64> = VecSet::new();
    assert!(s.insert(4));
    assert!(!s.insert(4));
    assert!(s.insert(5));
    assert_eq!(s.items(), vec![4, 5]);
    assert!(s.remove(&4));
    assert!(!s.remove(&4));
    assert!(s.duplicate().contains(&5));
    s.clear();
    assert!(s.is_empty());
}
