use remotefs_ftp::parser::{parse_datetime, seconds_since_epoch};

#[test]
fn should_parse_datetime() {
    assert_eq!(
        parse_datetime("04-08-14  03:09PM", "%d-%m-%y %I:%M%p").ok().unwrap(),
        1407164940
    );
    // Not enough argument for datetime
    assert!(parse_datetime("04-08-14", "%d-%m-%y").is_err());
}

#[test]
fn dates_before_the_epoch_count_as_the_epoch() {
    assert_eq!(
        parse_datetime("1969-12-31 23:59:59", "%Y-%m-%d %H:%M:%S").ok().unwrap(),
        0
    );
    assert_eq!(
        parse_datetime("1970-01-01 00:00:01", "%Y-%m-%d %H:%M:%S").ok().unwrap(),
        1
    );
    assert_eq!(seconds_since_epoch(-1), 0);
    assert_eq!(seconds_since_epoch(i64::MIN), 0);
    assert_eq!(seconds_since_epoch(0), 0);
    assert_eq!(seconds_since_epoch(1407164940), 1407164940);
}

#[test]
fn a_date_that_does_not_parse_keeps_the_reason() {
    let err = parse_datetime("yesterday", "%Y-%m-%d %H:%M:%S").err().unwrap();
    assert_eq!(err.message, "input contains invalid characters");
}
