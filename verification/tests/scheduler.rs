use my_rss_feeder::notification::scheduler::parse_time;

#[test]
fn parse_time_valid() {
    assert_eq!(parse_time("10:00"), Some((10, 0)));
    assert_eq!(parse_time("00:00"), Some((0, 0)));
    assert_eq!(parse_time("23:59"), Some((23, 59)));
    assert_eq!(parse_time("08:30"), Some((8, 30)));
}

#[test]
fn parse_time_invalid() {
    assert_eq!(parse_time("24:00"), None);
    assert_eq!(parse_time("10:60"), None);
    assert_eq!(parse_time("abc"), None);
    assert_eq!(parse_time("10"), None);
    assert_eq!(parse_time(""), None);
    assert_eq!(parse_time("10:00:00"), None);
}
