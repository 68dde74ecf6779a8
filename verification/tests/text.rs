use components::text::{
    chars_of, compare, contains, ends_with, matches_at, same_chars, same_text, starts_with,
    Precedence,
};

fn chars(s: &str) -> Vec<char> {
    s.chars().collect()
}

#[test]
fn chars_of_gives_the_characters_in_order() {
    assert_eq!(chars_of("gen1"), vec!['g', 'e', 'n', '1']);
    assert_eq!(chars_of(""), Vec::<char>::new());
    assert_eq!(chars_of("né"), vec!['n', 'é']);
}

#[test]
fn matches_at_tests_one_position() {
    assert!(matches_at(&chars("en"), &chars("gen1"), 1));
    assert!(!matches_at(&chars("en"), &chars("gen1"), 0));
    assert!(matches_at(&chars(""), &chars("gen1"), 4));
    assert!(!matches_at(&chars(""), &chars("gen1"), 5));
    assert!(!matches_at(&chars("n1"), &chars("gen1"), 3));
    assert!(!matches_at(&chars("gen12"), &chars("gen1"), 0));
    assert!(!matches_at(&chars("1"), &chars("gen1"), usize::MAX));
}

#[test]
fn contains_finds_a_part_anywhere() {
    assert!(contains(&chars("parse_json"), &chars("se_j")));
    assert!(contains(&chars("parse_json"), &chars("parse_json")));
    assert!(contains(&chars("parse_json"), &chars("n")));
    assert!(!contains(&chars("parse_json"), &chars("sej")));
    assert!(!contains(&chars("gen"), &chars("gen1")));
}

#[test]
fn contains_holds_of_the_empty_pattern() {
    assert!(contains(&chars("gen1"), &chars("")));
    assert!(contains(&chars(""), &chars("")));
    assert!(!contains(&chars(""), &chars("a")));
}

#[test]
fn contains_is_case_sensitive() {
    assert!(!contains(&chars("gen1"), &chars("GEN")));
    assert!(contains(&chars("GEN1"), &chars("GEN")));
}

#[test]
fn starts_with_tests_the_front() {
    assert!(starts_with(&chars("gen1"), &chars("gen")));
    assert!(starts_with(&chars("gen1"), &chars("")));
    assert!(starts_with(&chars("gen1"), &chars("gen1")));
    assert!(!starts_with(&chars("gen1"), &chars("en1")));
    assert!(!starts_with(&chars("gen"), &chars("gen1")));
}

#[test]
fn ends_with_tests_the_back() {
    assert!(ends_with(&chars("gen1"), &chars("n1")));
    assert!(ends_with(&chars("gen1"), &chars("")));
    assert!(ends_with(&chars("gen1"), &chars("gen1")));
    assert!(!ends_with(&chars("gen1"), &chars("gen")));
    assert!(!ends_with(&chars("n1"), &chars("gen1")));
}

#[test]
fn same_chars_and_same_text_test_equality() {
    assert!(same_chars(&chars("gen1"), &chars("gen1")));
    assert!(!same_chars(&chars("gen1"), &chars("gen2")));
    assert!(!same_chars(&chars("gen1"), &chars("gen")));
    assert!(same_chars(&chars(""), &chars("")));
    assert!(same_text("devnull", "devnull"));
    assert!(!same_text("devnull", "Devnull"));
    assert!(!same_text("devnull", "devnul"));
}

#[test]
fn compare_orders_lexicographically() {
    assert_eq!(compare(&chars("devnull"), &chars("gen1")), Precedence::Before);
    assert_eq!(compare(&chars("gen2"), &chars("gen1")), Precedence::After);
    assert_eq!(compare(&chars("gen1"), &chars("gen1")), Precedence::Tied);
    assert_eq!(compare(&chars(""), &chars("")), Precedence::Tied);
}

#[test]
fn compare_puts_a_prefix_first() {
    assert_eq!(compare(&chars("gen"), &chars("gen1")), Precedence::Before);
    assert_eq!(compare(&chars("gen1"), &chars("gen")), Precedence::After);
    assert_eq!(compare(&chars(""), &chars("a")), Precedence::Before);
}

#[test]
fn compare_agrees_with_the_order_of_str() {
    let samples = ["", "a", "B", "ab", "aB", "b", "gen1", "gen10", "gen2", "é", "z", "日本"];
    for a in samples.iter() {
        for b in samples.iter() {
            let expected = match a.cmp(b) {
                std::cmp::Ordering::Less => Precedence::Before,
                std::cmp::Ordering::Equal => Precedence::Tied,
                std::cmp::Ordering::Greater => Precedence::After,
            };
            assert_eq!(compare(&chars(a), &chars(b)), expected);
        }
    }
}

#[test]
fn flip_swaps_before_and_after() {
    assert_eq!(Precedence::Before.flip(), Precedence::After);
    assert_eq!(Precedence::After.flip(), Precedence::Before);
    assert_eq!(Precedence::Tied.flip(), Precedence::Tied);
}
