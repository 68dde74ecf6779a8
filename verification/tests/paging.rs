use components::relay::{query, Connection, Params, QueryError};
use components::{source, Component, ComponentKey, DataType};

fn source_of(key: &str) -> Component {
    Component::Source(source::Source(source::Data {
        component_key: ComponentKey::from(key),
        component_type: "demo_logs".to_string(),
        output_type: DataType::Any,
    }))
}

fn items(n: usize) -> Vec<Component> {
    (0..n).map(|i| source_of(&format!("c{}", i))).collect()
}

fn cursor(i: usize) -> Option<String> {
    Some(format!("c{}", i))
}

fn keys(connection: &Connection) -> Vec<String> {
    connection
        .edges
        .iter()
        .map(|e| e.node.get_component_key().id().to_string())
        .collect()
}

fn page(
    n: usize,
    after: Option<String>,
    before: Option<String>,
    first: Option<i32>,
    last: Option<i32>,
    default_page_size: usize,
) -> Connection {
    query(items(n), Params::new(after, before, first, last), default_page_size).unwrap()
}

fn error_of(r: Result<Connection, QueryError>) -> QueryError {
    match r {
        Ok(c) => panic!("a page came back: {:?}", c),
        Err(e) => e,
    }
}

#[test]
fn params_new_keeps_the_four_parameters() {
    let p = Params::new(cursor(1), cursor(2), Some(3), Some(4));
    assert_eq!(p.after, cursor(1));
    assert_eq!(p.before, cursor(2));
    assert_eq!(p.first, Some(3));
    assert_eq!(p.last, Some(4));
}

#[test]
fn first_takes_from_the_front() {
    let c = page(5, None, None, Some(2), None, 10);
    assert_eq!(keys(&c), ["c0", "c1"]);
    assert!(!c.page_info.has_previous_page);
    assert!(c.page_info.has_next_page);
    assert_eq!(c.page_info.start_cursor, cursor(0));
    assert_eq!(c.page_info.end_cursor, cursor(1));
    assert_eq!(c.total_count, 5);
}

#[test]
fn edges_carry_the_cursor_of_their_component() {
    let c = page(3, None, None, None, None, 10);
    assert_eq!(c.edges.len(), 3);
    for (i, edge) in c.edges.iter().enumerate() {
        assert_eq!(edge.cursor, format!("c{}", i));
        assert_eq!(edge.node, source_of(&format!("c{}", i)));
    }
}

#[test]
fn first_larger_than_what_is_there_takes_all() {
    let c = page(3, None, None, Some(7), None, 10);
    assert_eq!(keys(&c), ["c0", "c1", "c2"]);
    assert!(!c.page_info.has_previous_page);
    assert!(!c.page_info.has_next_page);
    let c = page(3, None, None, Some(i32::MAX), None, 1);
    assert_eq!(keys(&c), ["c0", "c1", "c2"]);
}

#[test]
fn after_drops_up_to_and_including_the_cursor() {
    let c = page(5, cursor(1), None, Some(2), None, 10);
    assert_eq!(keys(&c), ["c2", "c3"]);
    assert!(c.page_info.has_previous_page);
    assert!(c.page_info.has_next_page);
    let c = page(5, cursor(2), None, Some(2), None, 10);
    assert_eq!(keys(&c), ["c3", "c4"]);
    assert!(c.page_info.has_previous_page);
    assert!(!c.page_info.has_next_page);
}

#[test]
fn after_the_last_component_gives_an_empty_page() {
    let c = page(5, cursor(4), None, Some(2), None, 10);
    assert!(c.edges.is_empty());
    assert!(c.page_info.has_previous_page);
    assert!(!c.page_info.has_next_page);
    assert_eq!(c.page_info.start_cursor, None);
    assert_eq!(c.page_info.end_cursor, None);
}

#[test]
fn last_takes_from_the_back() {
    let c = page(5, None, None, None, Some(2), 10);
    assert_eq!(keys(&c), ["c3", "c4"]);
    assert!(c.page_info.has_previous_page);
    assert!(!c.page_info.has_next_page);
    assert_eq!(c.page_info.start_cursor, cursor(3));
    assert_eq!(c.page_info.end_cursor, cursor(4));
}

#[test]
fn before_keeps_what_strictly_precedes_the_cursor() {
    let c = page(5, None, cursor(3), None, Some(2), 10);
    assert_eq!(keys(&c), ["c1", "c2"]);
    assert!(c.page_info.has_previous_page);
    assert!(c.page_info.has_next_page);
    let c = page(5, None, cursor(3), None, Some(7), 10);
    assert_eq!(keys(&c), ["c0", "c1", "c2"]);
    assert!(!c.page_info.has_previous_page);
    assert!(c.page_info.has_next_page);
}

#[test]
fn before_the_first_component_gives_an_empty_page() {
    let c = page(5, None, cursor(0), None, Some(2), 10);
    assert!(c.edges.is_empty());
    assert!(!c.page_info.has_previous_page);
    assert!(c.page_info.has_next_page);
}

#[test]
fn before_with_first_counts_from_the_front() {
    let c = page(6, None, cursor(4), Some(2), None, 10);
    assert_eq!(keys(&c), ["c0", "c1"]);
    assert!(!c.page_info.has_previous_page);
    assert!(c.page_info.has_next_page);
    let c = page(6, None, cursor(1), Some(3), None, 10);
    assert_eq!(keys(&c), ["c0"]);
}

#[test]
fn after_with_last_counts_from_the_back() {
    let c = page(6, cursor(1), None, None, Some(2), 10);
    assert_eq!(keys(&c), ["c4", "c5"]);
    let c = page(6, cursor(3), None, None, Some(5), 10);
    assert_eq!(keys(&c), ["c4", "c5"]);
    assert!(c.page_info.has_previous_page);
    assert!(!c.page_info.has_next_page);
}

#[test]
fn after_and_before_bound_the_page_on_both_sides() {
    let c = page(8, cursor(1), cursor(6), Some(10), None, 10);
    assert_eq!(keys(&c), ["c2", "c3", "c4", "c5"]);
    assert!(c.page_info.has_previous_page);
    assert!(c.page_info.has_next_page);
    let c = page(8, cursor(1), cursor(6), Some(3), None, 10);
    assert_eq!(keys(&c), ["c2", "c3", "c4"]);
    let c = page(8, cursor(1), cursor(6), None, Some(3), 10);
    assert_eq!(keys(&c), ["c3", "c4", "c5"]);
    let c = page(8, cursor(1), cursor(6), None, None, 2);
    assert_eq!(keys(&c), ["c2", "c3"]);
}

#[test]
fn bounds_that_cross_give_an_empty_page() {
    let c = page(8, cursor(5), cursor(2), Some(3), None, 10);
    assert!(c.edges.is_empty());
    assert!(c.page_info.has_previous_page);
    assert!(c.page_info.has_next_page);
    let c = page(8, cursor(5), cursor(2), None, Some(3), 10);
    assert!(c.edges.is_empty());
    let c = page(8, cursor(3), cursor(3), None, None, 10);
    assert!(c.edges.is_empty());
    let c = page(8, cursor(2), cursor(3), None, None, 10);
    assert!(c.edges.is_empty());
}

#[test]
fn default_page_size_applies_without_a_limit() {
    let c = page(25, None, None, None, None, 10);
    assert_eq!(c.edges.len(), 10);
    assert_eq!(c.page_info.start_cursor, cursor(0));
    assert_eq!(c.page_info.end_cursor, cursor(9));
    assert!(c.page_info.has_next_page);
    let c = page(25, cursor(19), None, None, None, 10);
    assert_eq!(keys(&c), ["c20", "c21", "c22", "c23", "c24"]);
    assert!(!c.page_info.has_next_page);
}

#[test]
fn default_page_size_is_counted_from_the_back_when_only_before_is_given() {
    let c = page(25, None, cursor(15), None, None, 10);
    assert_eq!(c.page_info.start_cursor, cursor(5));
    assert_eq!(c.page_info.end_cursor, cursor(14));
    assert_eq!(c.edges.len(), 10);
    assert!(c.page_info.has_previous_page);
    assert!(c.page_info.has_next_page);
}

#[test]
fn default_page_size_of_zero_gives_an_empty_page() {
    let c = page(3, None, None, None, None, 0);
    assert!(c.edges.is_empty());
    assert!(!c.page_info.has_previous_page);
    assert!(c.page_info.has_next_page);
}

#[test]
fn first_zero_gives_no_edge_and_accurate_flags() {
    let c = page(5, None, None, Some(0), None, 10);
    assert!(c.edges.is_empty());
    assert!(!c.page_info.has_previous_page);
    assert!(c.page_info.has_next_page);
    let c = page(5, cursor(2), None, Some(0), None, 10);
    assert!(c.edges.is_empty());
    assert!(c.page_info.has_previous_page);
    assert!(c.page_info.has_next_page);
    let c = page(5, cursor(4), None, Some(0), None, 10);
    assert!(c.page_info.has_previous_page);
    assert!(!c.page_info.has_next_page);
}

#[test]
fn last_zero_gives_no_edge_and_accurate_flags() {
    let c = page(5, None, None, None, Some(0), 10);
    assert!(c.edges.is_empty());
    assert!(c.page_info.has_previous_page);
    assert!(!c.page_info.has_next_page);
    let c = page(5, None, cursor(2), None, Some(0), 10);
    assert!(c.page_info.has_previous_page);
    assert!(c.page_info.has_next_page);
    let c = page(5, None, cursor(0), None, Some(0), 10);
    assert!(!c.page_info.has_previous_page);
    assert!(c.page_info.has_next_page);
}

#[test]
fn empty_input_gives_an_empty_connection() {
    let c = page(0, None, None, None, None, 10);
    assert!(c.edges.is_empty());
    assert!(!c.page_info.has_previous_page);
    assert!(!c.page_info.has_next_page);
    assert_eq!(c.page_info.start_cursor, None);
    assert_eq!(c.page_info.end_cursor, None);
    assert_eq!(c.total_count, 0);
    let c = page(0, None, None, Some(3), None, 10);
    assert!(c.edges.is_empty());
    let c = page(0, None, None, None, Some(3), 10);
    assert!(!c.page_info.has_previous_page && !c.page_info.has_next_page);
}

#[test]
fn negative_limits_are_invalid_arguments() {
    let r = query(items(3), Params::new(None, None, Some(-1), None), 10);
    assert_eq!(error_of(r), QueryError::InvalidArgument);
    let r = query(items(3), Params::new(None, None, None, Some(-1)), 10);
    assert_eq!(error_of(r), QueryError::InvalidArgument);
    let r = query(items(3), Params::new(None, None, Some(i32::MIN), None), 10);
    assert_eq!(error_of(r), QueryError::InvalidArgument);
}

#[test]
fn two_limits_are_invalid_arguments() {
    let r = query(items(3), Params::new(None, None, Some(1), Some(1)), 10);
    assert_eq!(error_of(r), QueryError::InvalidArgument);
    let r = query(items(3), Params::new(None, None, Some(0), Some(0)), 10);
    assert_eq!(error_of(r), QueryError::InvalidArgument);
}

#[test]
fn unknown_cursors_are_invalid_cursors() {
    let r = query(items(3), Params::new(cursor(7), None, None, None), 10);
    assert_eq!(error_of(r), QueryError::InvalidCursor);
    let r = query(items(3), Params::new(None, cursor(7), None, None), 10);
    assert_eq!(error_of(r), QueryError::InvalidCursor);
    let r = query(items(3), Params::new(cursor(1), Some(String::new()), None, None), 10);
    assert_eq!(error_of(r), QueryError::InvalidCursor);
    let r = query(items(0), Params::new(cursor(0), None, None, None), 10);
    assert_eq!(error_of(r), QueryError::InvalidCursor);
}

#[test]
fn bad_limits_are_reported_before_bad_cursors() {
    let r = query(items(3), Params::new(cursor(7), None, Some(-1), None), 10);
    assert_eq!(error_of(r), QueryError::InvalidArgument);
    let r = query(items(3), Params::new(None, cursor(7), Some(1), Some(1)), 10);
    assert_eq!(error_of(r), QueryError::InvalidArgument);
}

#[test]
fn walking_forward_sees_every_component_once() {
    for n in [0usize, 1, 2, 5, 9, 10, 11] {
        for size in [1i32, 2, 3, 10] {
            let mut seen: Vec<String> = Vec::new();
            let mut after: Option<String> = None;
            let mut pages = 0;
            loop {
                let c = page(n, after.clone(), None, Some(size), None, 10);
                pages += 1;
                assert!(pages <= n + 1);
                seen.extend(keys(&c));
                if !c.page_info.has_next_page {
                    break;
                }
                assert_eq!(c.edges.len(), size as usize);
                after = c.page_info.end_cursor.clone();
                assert!(after.is_some());
            }
            let expected: Vec<String> = (0..n).map(|i| format!("c{}", i)).collect();
            assert_eq!(seen, expected);
        }
    }
}

#[test]
fn the_next_page_begins_where_the_page_ended() {
    let one = page(7, cursor(0), None, Some(3), None, 10);
    assert_eq!(keys(&one), ["c1", "c2", "c3"]);
    assert!(one.page_info.has_next_page);
    let two = page(7, one.page_info.end_cursor.clone(), None, Some(3), None, 10);
    assert_eq!(keys(&two), ["c4", "c5", "c6"]);
    assert!(!two.page_info.has_next_page);
    assert!(two.page_info.has_previous_page);
}

#[test]
fn walking_backward_sees_every_component_once() {
    let mut seen: Vec<String> = Vec::new();
    let mut before: Option<String> = None;
    loop {
        let c = page(7, None, before.clone(), None, Some(3), 10);
        let mut front = keys(&c);
        front.extend(seen);
        seen = front;
        if !c.page_info.has_previous_page {
            break;
        }
        before = c.page_info.start_cursor.clone();
    }
    let expected: Vec<String> = (0..7).map(|i| format!("c{}", i)).collect();
    assert_eq!(seen, expected);
}

#[test]
fn a_cursor_names_the_first_component_with_its_key() {
    let twice = vec![source_of("a"), source_of("b"), source_of("a"), source_of("c")];
    let c = query(twice, Params::new(Some("a".to_string()), None, None, None), 10).unwrap();
    assert_eq!(keys(&c), ["b", "a", "c"]);
}
