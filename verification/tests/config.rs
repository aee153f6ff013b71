use plex_pg_core::pg_client_config::{
    effective_pool_max, env_nonzero, parse_positive_env_or_default,
};

#[test]
fn the_operators_ceiling_stands_when_the_server_allows_more() {
    assert_eq!(effective_pool_max(100, 400), 100);
}

#[test]
fn the_servers_limit_lowers_a_ceiling_it_cannot_honour() {
    assert_eq!(effective_pool_max(100, 50), 50);
}

#[test]
fn a_server_limit_that_could_not_be_read_changes_nothing() {
    assert_eq!(effective_pool_max(100, 0), 100);
    assert_eq!(effective_pool_max(100, -1), 100);
}

#[test]
fn an_exact_match_is_left_alone() {
    assert_eq!(effective_pool_max(400, 400), 400);
}

#[test]
fn a_positive_number_is_read_with_white_space_around_it() {
    assert_eq!(parse_positive_env_or_default(Some(" 12\n"), 5), 12);
    assert_eq!(parse_positive_env_or_default(Some("+7"), 5), 7);
    assert_eq!(parse_positive_env_or_default(Some("\u{2003}9\u{3000}"), 5), 9);
    assert_eq!(parse_positive_env_or_default(Some("2147483647"), 5), i32::MAX);
}

#[test]
fn anything_else_leaves_the_default() {
    assert_eq!(parse_positive_env_or_default(None, 5), 5);
    assert_eq!(parse_positive_env_or_default(Some(""), 5), 5);
    assert_eq!(parse_positive_env_or_default(Some("0"), 5), 5);
    assert_eq!(parse_positive_env_or_default(Some("-3"), 5), 5);
    assert_eq!(parse_positive_env_or_default(Some("+"), 5), 5);
    assert_eq!(parse_positive_env_or_default(Some("1 2"), 5), 5);
    assert_eq!(parse_positive_env_or_default(Some("2147483648"), 5), 5);
    assert_eq!(parse_positive_env_or_default(Some("-2147483648"), 5), 5);
    assert_eq!(parse_positive_env_or_default(Some("99999999999999999999"), 5), 5);
}

#[test]
fn a_variable_is_nonzero_unless_empty_or_zero() {
    assert!(env_nonzero(Some("1")));
    assert!(env_nonzero(Some("no")));
    assert!(env_nonzero(Some("00")));
    assert!(!env_nonzero(Some("0")));
    assert!(!env_nonzero(Some("")));
    assert!(!env_nonzero(None));
}
