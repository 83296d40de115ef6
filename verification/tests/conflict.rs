use abi::conflict::ParsedInfo;
use abi::{parse_datetime, KeyValueMap, ReservationConflict, ReservationConflictInfo, ReservationWindow, UtcDateTime};

const ERR_MSG: &str = "Key (resource_id, timespan)=(ocean-view-room-713, [\"2023-08-16 22:00:00+00\",\"2023-08-30 22:00:00+00\")) conflicts with existing key (resource_id, timespan)=(ocean-view-room-713, [\"2023-08-15 22:00:00+00\",\"2023-08-25 22:00:00+00\")).";

fn rfc3339(t: UtcDateTime) -> String {
    chrono::DateTime::<chrono::Utc>::from_timestamp(t.timestamp, t.nanos)
        .unwrap()
        .to_rfc3339()
}

#[test]
fn parse_datetime_should_work() {
    let dt = parse_datetime("2023-07-23 22:00:00+00").unwrap();
    assert_eq!(rfc3339(dt), "2023-07-23T22:00:00+00:00")
}

#[test]
fn parsed_info_should_work() {
    let info: ParsedInfo = ERR_MSG.parse().unwrap();
    assert_eq!(info.new.get("resource_id").unwrap(), "ocean-view-room-713");
    assert_eq!(
        info.new.get("timespan").unwrap(),
        "\"2023-08-16 22:00:00+00\",\"2023-08-30 22:00:00+00\""
    );
    assert_eq!(info.old.get("resource_id").unwrap(), "ocean-view-room-713");
    assert_eq!(
        info.old.get("timespan").unwrap(),
        "\"2023-08-15 22:00:00+00\",\"2023-08-25 22:00:00+00\""
    );
}

#[test]
fn hash_map_to_reservation_window_should_work() {
    let mut map = KeyValueMap::new();
    map.insert("resource_id".to_string(), "ocean-view-room-713".to_string());
    map.insert(
        "timespan".to_string(),
        "\"2023-12-26 22:00:00+00\",\"2023-12-30 19:00:00+00\"".to_string(),
    );
    let window: ReservationWindow = ReservationWindow::try_from(map).unwrap();
    assert_eq!(window.rid, "ocean-view-room-713");
    assert_eq!(rfc3339(window.start), "2023-12-26T22:00:00+00:00");
    assert_eq!(rfc3339(window.end), "2023-12-30T19:00:00+00:00");
}

#[test]
fn conflict_error_message_should_parse() {
    let info = ERR_MSG.parse().unwrap();
    match info {
        ReservationConflictInfo::Parsed(conflict) => {
            assert_eq!(conflict.new.rid, "ocean-view-room-713");
            assert_eq!(rfc3339(conflict.new.start), "2023-08-16T22:00:00+00:00");
            assert_eq!(rfc3339(conflict.new.end), "2023-08-30T22:00:00+00:00");
            assert_eq!(conflict.old.rid, "ocean-view-room-713");
            assert_eq!(rfc3339(conflict.old.start), "2023-08-15T22:00:00+00:00");
            assert_eq!(rfc3339(conflict.old.end), "2023-08-25T22:00:00+00:00");
        }
        ReservationConflictInfo::Unparsed(_) => panic!("should be parsed"),
    }
}

#[test]
fn reserve_conflict_reservation_test() {
    const ERR_MSG1: &str = "Key (resource_id, timespan)=(ocean-view-room-713, [\"2023-07-26 22:00:00+00\",\"2023-07-30 19:00:00+00\")) conflicts with existing key (resource_id, timespan)=(ocean-view-room-713, [\"2023-07-25 22:00:00+00\",\"2023-07-28 19:00:00+00\")).";

    let info = ERR_MSG1.parse().unwrap();
    match info {
        ReservationConflictInfo::Parsed(conflict) => {
            assert_eq!(conflict.old.rid, "ocean-view-room-713");
            assert_eq!(rfc3339(conflict.old.start), "2023-07-25T22:00:00+00:00");
            assert_eq!(rfc3339(conflict.old.end), "2023-07-28T19:00:00+00:00");
            assert_eq!(conflict.new.rid, "ocean-view-room-713");
            assert_eq!(rfc3339(conflict.new.start), "2023-07-26T22:00:00+00:00");
            assert_eq!(rfc3339(conflict.new.end), "2023-07-30T19:00:00+00:00");
        }
        ReservationConflictInfo::Unparsed(_) => panic!("测试测试panic了哦弄个"),
    }
}

#[test]
fn reserve_conflict_reservation_should_reject_test() {
    const ERR_MSG: &str = "Key (resource_id, timespan)=(ocean-view-room-713, [\"2023-07-26 22:00:00+00\",\"2023-07-30 19:00:00+00\")) conflicts with existing key (resource_id, timespan)=(ocean-view-room-713, [\"2023-07-25 22:00:00+00\",\"2023-07-28 19:00:00+00\")).";

    let info = ERR_MSG.parse().unwrap();
    match info {
        ReservationConflictInfo::Parsed(conflict) => {
            assert_eq!(conflict.old.rid, "ocean-view-room-713");
            assert_eq!(rfc3339(conflict.old.start), "2023-07-25T22:00:00+00:00");
            assert_eq!(rfc3339(conflict.old.end), "2023-07-28T19:00:00+00:00");
            assert_eq!(rfc3339(conflict.new.start), "2023-07-26T22:00:00+00:00");
            assert_eq!(rfc3339(conflict.new.end), "2023-07-30T19:00:00+00:00");
        }
        ReservationConflictInfo::Unparsed(_) => panic!("测试测试panic了哦弄个"),
    }
}

#[test]
fn parse_datetime_converts_offset_to_utc() {
    let dt = parse_datetime("2023-08-15 15:00:00-07").unwrap();
    assert_eq!(rfc3339(dt), "2023-08-15T22:00:00+00:00");
    let dt = parse_datetime("2023-08-15 15:00:00+0530").unwrap();
    assert_eq!(rfc3339(dt), "2023-08-15T09:30:00+00:00");
    assert_eq!(dt.timestamp, 1692091800);
    assert_eq!(dt.nanos, 0);
}

#[test]
fn parse_datetime_rejects_other_formats() {
    assert!(parse_datetime("2023-07-23T22:00:00+00:00").is_err());
    assert!(parse_datetime("2023-07-23 22:00:00").is_err());
    assert!(parse_datetime("").is_err());
}

#[test]
fn unparsable_detail_is_kept_as_text() {
    let text = "duplicate key value violates unique constraint";
    let info: ReservationConflictInfo = text.parse().unwrap();
    assert_eq!(info, ReservationConflictInfo::Unparsed(text.to_string()));
}

#[test]
fn detail_with_bad_timestamp_is_kept_as_text() {
    let text = "Key (resource_id, timespan)=(room-1, [\"yesterday\",\"2023-07-30 19:00:00+00\")) conflicts with existing key (resource_id, timespan)=(room-1, [\"2023-07-25 22:00:00+00\",\"2023-07-28 19:00:00+00\")).";
    let info: ReservationConflictInfo = text.parse().unwrap();
    assert_eq!(info, ReservationConflictInfo::Unparsed(text.to_string()));
    assert!(text.parse::<ReservationConflict>().is_err());
    assert!(text.parse::<ParsedInfo>().is_ok());
}

#[test]
fn parsed_info_needs_exactly_two_keys() {
    let one = "Key (resource_id, timespan)=(room-1, [\"2023-07-26 22:00:00+00\",\"2023-07-30 19:00:00+00\")).";
    assert!(one.parse::<ParsedInfo>().is_err());
    let three = format!("{} {}", ERR_MSG, one);
    assert!(three.parse::<ParsedInfo>().is_err());
    assert!("".parse::<ParsedInfo>().is_err());
}

#[test]
fn parsed_info_accepts_white_space_around_commas() {
    let text = "(resource_id ,\ttimespan)=(room-9 ,  [\"2023-01-01 00:00:00+00\",\"2023-01-02 00:00:00+00\"))(a,b)=(c,[d]";
    let info: ParsedInfo = text.parse().unwrap();
    assert_eq!(info.new.get("resource_id").unwrap(), "room-9");
    assert_eq!(info.old.get("a").unwrap(), "c");
    assert_eq!(info.old.get("b").unwrap(), "d");
    assert!(info.old.get("resource_id").is_none());
}

#[test]
fn parsed_info_repeated_key_keeps_second_value() {
    let text = "(k,k)=(one,[two)(x,y)=(z,[w)";
    let info: ParsedInfo = text.parse().unwrap();
    assert_eq!(info.new.get("k").unwrap(), "two");
}

#[test]
fn window_needs_both_fields_and_a_comma() {
    let mut map = KeyValueMap::new();
    map.insert("timespan".to_string(), "\"2023-12-26 22:00:00+00\",\"2023-12-30 19:00:00+00\"".to_string());
    assert!(ReservationWindow::try_from(map).is_err());

    let mut map = KeyValueMap::new();
    map.insert("resource_id".to_string(), "room".to_string());
    assert!(ReservationWindow::try_from(map).is_err());

    let mut map = KeyValueMap::new();
    map.insert("resource_id".to_string(), "room".to_string());
    map.insert("timespan".to_string(), "\"2023-12-26 22:00:00+00\"".to_string());
    assert!(ReservationWindow::try_from(map).is_err());
}

#[test]
fn window_splits_timespan_at_first_comma() {
    let mut map = KeyValueMap::new();
    map.insert("resource_id".to_string(), "room".to_string());
    map.insert("timespan".to_string(), "2023-12-26 22:00:00+00,\"2023-12-30 19:00:00+00\"".to_string());
    let window = ReservationWindow::try_from(map).unwrap();
    assert_eq!(window.rid, "room");
    assert_eq!(rfc3339(window.start), "2023-12-26T22:00:00+00:00");
    assert_eq!(rfc3339(window.end), "2023-12-30T19:00:00+00:00");
}

#[test]
fn conflict_of_parsed_info() {
    let info: ParsedInfo = ERR_MSG.parse().unwrap();
    let conflict = ReservationConflict::try_from(info).unwrap();
    assert_eq!(conflict.new.rid, "ocean-view-room-713");
    assert_eq!(rfc3339(conflict.old.end), "2023-08-25T22:00:00+00:00");
}

#[test]
fn refused_and_stored_windows_keep_their_order() {
    let text = "Key (resource_id, timespan)=(room-b, [\"2024-02-01 10:00:00+00\",\"2024-02-03 10:00:00+00\")) conflicts with existing key (resource_id, timespan)=(room_a, [\"2024-01-31 08:30:00+01\",\"2024-02-02 00:00:00+00\")).";
    match text.parse::<ReservationConflictInfo>().unwrap() {
        ReservationConflictInfo::Parsed(conflict) => {
            assert_eq!(conflict.new.rid, "room-b");
            assert_eq!(rfc3339(conflict.new.start), "2024-02-01T10:00:00+00:00");
            assert_eq!(rfc3339(conflict.new.end), "2024-02-03T10:00:00+00:00");
            assert_eq!(conflict.old.rid, "room_a");
            assert_eq!(rfc3339(conflict.old.start), "2024-01-31T07:30:00+00:00");
            assert_eq!(rfc3339(conflict.old.end), "2024-02-02T00:00:00+00:00");
        }
        ReservationConflictInfo::Unparsed(_) => panic!("should be parsed"),
    }
}
