use res_gen::handler::{
    added_data, adding_data, deleted_data, deleting_data, like_pattern, printing_all_data,
    skill_created, skill_found, DataErr,
};
use res_gen::text::decimal;
use res_gen::{AppConfig, Verbosity};

#[test]
fn the_command_line_goes_before_the_environment() {
    let config = AppConfig::new(
        Some("sqlite:flag.db".into()),
        Some("sqlite:env.db".into()),
        Some(Verbosity::Debug),
    )
    .unwrap();
    assert_eq!(config.dburl(), "sqlite:flag.db");
    assert_eq!(config.verbose(), Verbosity::Debug);
}

#[test]
fn the_environment_fills_in() {
    let config = AppConfig::new(None, Some("sqlite:env.db".into()), Some(Verbosity::Warn)).unwrap();
    assert_eq!(config.dburl(), "sqlite:env.db");
    assert_eq!(config.verbose(), Verbosity::Warn);
}

#[test]
fn only_errors_are_put_out_unless_asked() {
    let config = AppConfig::new(Some("sqlite:x".into()), None, None).unwrap();
    assert_eq!(config.verbose(), Verbosity::Error);
    let config = AppConfig::new(Some("sqlite:x".into()), None, Some(Verbosity::Info)).unwrap();
    assert_eq!(config.verbose(), Verbosity::Info);
}

#[test]
fn without_a_connection_string_there_is_no_configuration() {
    assert!(AppConfig::new(None, None, Some(Verbosity::Debug)).is_none());
    assert!(AppConfig::new(None, None, None).is_none());
}

#[test]
fn a_missing_record_is_named_by_its_id() {
    let err = DataErr::NotFoundById { id: 12i64 };
    assert_eq!(err.message(), "No record found matching id 12");
    let err = DataErr::NotFoundById { id: "abc" };
    assert_eq!(err.message(), "No record found matching id \"abc\"");
}

#[test]
fn a_like_pattern_wraps_the_query() {
    assert_eq!(like_pattern("rust"), "%rust%");
    assert_eq!(like_pattern(""), "%%");
    assert_eq!(like_pattern("50%"), "%50%%");
}

#[test]
fn integers_are_written_in_decimal() {
    use_decimal(0, "0");
    use_decimal(7, "7");
    use_decimal(10, "10");
    use_decimal(-1, "-1");
    use_decimal(1234567890, "1234567890");
    use_decimal(-9080706050, "-9080706050");
    use_decimal(i64::MAX, "9223372036854775807");
    use_decimal(i64::MIN, "-9223372036854775808");
}

fn use_decimal(n: i64, expected: &str) {
    assert_eq!(decimal(n), expected);
    assert_eq!(decimal(n), n.to_string());
}

#[test]
fn the_lines_of_the_data_commands() {
    assert_eq!(adding_data("my data"), "Adding data w/ description 'my data'");
    assert_eq!(added_data(1), "Added data with id 1");
    assert_eq!(deleting_data(12), "Deleting data w/ id '12'");
    assert_eq!(deleted_data(12, true), "Deleted data with id 12");
    assert_eq!(deleted_data(12, false), "Invalid id 12");
    assert_eq!(deleted_data(-3, false), "Invalid id -3");
    assert_eq!(printing_all_data(), "Printing all data");
}

#[test]
fn the_lines_of_the_skill_commands() {
    assert_eq!(skill_created("Rust", 4), "New Skill, Rust, created with id 4");
    assert_eq!(skill_found(4, "Rust"), "Skill found: 4: Rust");
    assert_eq!(skill_found(-40, ""), "Skill found: -40: ");
}
