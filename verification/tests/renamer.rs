use ast_importer::names::{
    decimal_string, hint_for, is_c_identifier_str, is_identifier_str, keywords, suffixed_name,
};
use ast_importer::renamer::Renamer;

#[test]
fn insert_suffixes_colliding_names() {
    let mut r = Renamer::new(vec![]);
    assert_eq!(r.insert("x".to_string(), "x"), Some("x".to_string()));
    r.add_scope();
    assert_eq!(r.insert("x".to_string(), "x"), Some("x_1".to_string()));
    r.add_scope();
    assert_eq!(r.insert("x".to_string(), "x"), Some("x_2".to_string()));
    assert_eq!(r.get("x"), Some("x_2".to_string()));
    r.drop_scope();
    assert_eq!(r.get("x"), Some("x_1".to_string()));
    r.drop_scope();
    assert_eq!(r.get("x"), Some("x".to_string()));
}

#[test]
fn insert_twice_in_one_scope_gives_nothing_and_changes_nothing() {
    let mut r = Renamer::new(vec![]);
    assert_eq!(r.insert("a".to_string(), "a"), Some("a".to_string()));
    assert_eq!(r.insert("a".to_string(), "b"), None);
    assert_eq!(r.get("a"), Some("a".to_string()));
    // "b" was not given out by the refused insert
    assert_eq!(r.insert("b".to_string(), "b"), Some("b".to_string()));
}

#[test]
fn inner_scope_shadows_and_outer_binding_returns() {
    let mut r = Renamer::new(vec![]);
    r.insert("v".to_string(), "v");
    r.add_scope();
    assert_eq!(r.get("v"), Some("v".to_string()));
    let inner = r.insert("v".to_string(), "v").unwrap();
    assert_ne!(inner, "v");
    assert_eq!(r.get("v"), Some(inner));
    r.drop_scope();
    assert_eq!(r.get("v"), Some("v".to_string()));
}

#[test]
fn get_of_unbound_name_is_nothing() {
    let r = Renamer::new(vec![]);
    assert_eq!(r.get("nobody"), None);
}

#[test]
fn reserved_words_are_never_chosen() {
    let mut r = Renamer::new(vec!["match".to_string(), "match_1".to_string()]);
    assert_eq!(r.insert("match".to_string(), "match"), Some("match_2".to_string()));
    assert_eq!(r.get("match"), Some("match_2".to_string()));
}

#[test]
fn names_of_dropped_scopes_are_not_given_out_again() {
    let mut r = Renamer::new(vec![]);
    r.add_scope();
    assert_eq!(r.insert("t".to_string(), "t"), Some("t".to_string()));
    r.drop_scope();
    assert_eq!(r.get("t"), None);
    r.add_scope();
    assert_eq!(r.insert("t".to_string(), "t"), Some("t_1".to_string()));
}

#[test]
fn fresh_names_are_distinct_from_each_other_and_from_inserted_names() {
    let mut r = Renamer::new(vec![]);
    assert_eq!(r.insert("fresh".to_string(), "fresh"), Some("fresh".to_string()));
    let a = r.fresh();
    let b = r.fresh();
    let c = r.fresh();
    assert_eq!(a, "fresh_1");
    assert_eq!(b, "fresh_2");
    assert_eq!(c, "fresh_3");
    assert_eq!(r.insert("fresh_2".to_string(), "fresh_2"), Some("fresh_2_1".to_string()));
    assert_eq!(r.get("fresh_1"), None);
}

#[test]
fn first_fresh_name_is_the_bare_hint() {
    let mut r = Renamer::new(vec![]);
    assert_eq!(r.fresh(), "fresh");
    assert_eq!(r.fresh(), "fresh_1");
}

#[test]
fn all_outputs_are_pairwise_distinct() {
    let mut r = Renamer::new(vec!["i".to_string()]);
    let mut seen: Vec<String> = vec![];
    for round in 0..5 {
        r.add_scope();
        for hint in ["i", "j", "i_1", "fresh"] {
            let name = r.insert(format!("{}{}", hint, round), hint).unwrap();
            assert!(!seen.contains(&name), "{} given out twice", name);
            assert_ne!(name, "i");
            seen.push(name);
        }
        let t = r.fresh();
        assert!(!seen.contains(&t), "{} given out twice", t);
        seen.push(t);
        if round % 2 == 0 {
            r.drop_scope();
        }
    }
    assert_eq!(seen.len(), 25);
}

#[test]
fn depth_counts_open_scopes() {
    let mut r = Renamer::new(vec![]);
    assert_eq!(r.depth(), 1);
    r.add_scope();
    r.add_scope();
    assert_eq!(r.depth(), 3);
    r.drop_scope();
    assert_eq!(r.depth(), 2);
}

#[test]
fn suffix_numbers_pass_ten() {
    let mut r = Renamer::new(vec![]);
    let mut last = String::new();
    for i in 0..12 {
        r.add_scope();
        last = r.insert(format!("k{}", i), "n").unwrap();
    }
    assert_eq!(last, "n_11");
}

#[test]
fn decimal_string_renders_numbers() {
    assert_eq!(decimal_string(0), "0");
    assert_eq!(decimal_string(7), "7");
    assert_eq!(decimal_string(10), "10");
    assert_eq!(decimal_string(1905), "1905");
    assert_eq!(decimal_string(usize::MAX), usize::MAX.to_string());
}

#[test]
fn suffixed_name_keeps_the_hint_for_zero() {
    assert_eq!(suffixed_name("x", 0), "x");
    assert_eq!(suffixed_name("x", 1), "x_1");
    assert_eq!(suffixed_name("", 42), "_42");
    assert_eq!(suffixed_name("a_b", 120), "a_b_120");
}

#[test]
fn identifier_check_accepts_and_rejects() {
    for good in ["x", "_x", "x1", "__", "a_b_c", "Z9", "_0"] {
        assert!(is_identifier_str(good), "{} is an identifier", good);
    }
    for bad in ["", "_", "1x", "a-b", "a b", "x$", "é", "a.b", "9"] {
        assert!(!is_identifier_str(bad), "{:?} is no identifier", bad);
    }
}

#[test]
fn c_identifiers_include_the_lone_underscore() {
    for good in ["_", "x", "_x", "x1", "__"] {
        assert!(is_c_identifier_str(good), "{} is an identifier of C", good);
    }
    for bad in ["", "1x", "a-b", "a b", "x$"] {
        assert!(!is_c_identifier_str(bad), "{:?} is no identifier of C", bad);
    }
}

#[test]
fn hint_is_the_name_itself_where_the_target_takes_it() {
    assert_eq!(hint_for("x"), "x");
    assert_eq!(hint_for("__"), "__");
    assert_eq!(hint_for("_"), "underscore");
    assert!(is_identifier_str(hint_for("_")));
}

#[test]
fn keywords_hold_the_strict_and_the_reserved_words() {
    let words = keywords();
    assert_eq!(words.len(), 51);
    for word in ["as", "fn", "match", "type", "Self", "async", "await", "dyn", "yield", "try"] {
        assert!(words.contains(&word.to_string()), "{} is reserved", word);
    }
    assert!(!words.contains(&"union".to_string()));
    let mut sorted = words.clone();
    sorted.sort();
    sorted.dedup();
    assert_eq!(sorted.len(), words.len());
}
