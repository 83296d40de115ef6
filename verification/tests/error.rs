use abi::{DatabaseFailure, DbFailure, Error, ReservationConflictInfo, UtcDateTime};

const DETAIL: &str = "Key (resource_id, timespan)=(ocean-view-room-713, [\"2023-07-26 22:00:00+00\",\"2023-07-30 19:00:00+00\")) conflicts with existing key (resource_id, timespan)=(ocean-view-room-713, [\"2023-07-25 22:00:00+00\",\"2023-07-28 19:00:00+00\")).";

fn rfc3339(t: UtcDateTime) -> String {
    chrono::DateTime::<chrono::Utc>::from_timestamp(t.timestamp, t.nanos)
        .unwrap()
        .to_rfc3339()
}

fn failure(code: &str, schema: Option<&str>, table: Option<&str>, detail: Option<&str>) -> DbFailure {
    DbFailure::Database(DatabaseFailure {
        code: code.to_string(),
        schema: schema.map(|s| s.to_string()),
        table: table.map(|s| s.to_string()),
        detail: detail.map(|s| s.to_string()),
        message: "conflicting key value violates exclusion constraint".to_string(),
    })
}

#[test]
fn exclusion_violation_becomes_parsed_conflict() {
    let err = Error::from(failure("23P01", Some("rsvp"), Some("reservations"), Some(DETAIL)));
    if let Error::ConflictReservation(ReservationConflictInfo::Parsed(info)) = err {
        assert_eq!(info.old.rid, "ocean-view-room-713");
        assert_eq!(rfc3339(info.old.start), "2023-07-25T22:00:00+00:00");
        assert_eq!(rfc3339(info.old.end), "2023-07-28T19:00:00+00:00");
        assert_eq!(info.new.rid, "ocean-view-room-713");
        assert_eq!(rfc3339(info.new.start), "2023-07-26T22:00:00+00:00");
        assert_eq!(rfc3339(info.new.end), "2023-07-30T19:00:00+00:00");
    } else {
        panic!("expect conflict reservation error");
    }
}

#[test]
fn exclusion_violation_with_other_detail_keeps_text() {
    let err = Error::from(failure("23P01", Some("rsvp"), Some("reservations"), Some("no keys here")));
    match err {
        Error::ConflictReservation(ReservationConflictInfo::Unparsed(s)) => assert_eq!(s, "no keys here"),
        other => panic!("unexpected {:?}", other),
    }
}

#[test]
fn other_database_errors_are_kept() {
    for f in [
        failure("23505", Some("rsvp"), Some("reservations"), Some(DETAIL)),
        failure("23P01", Some("public"), Some("reservations"), Some(DETAIL)),
        failure("23P01", Some("rsvp"), None, Some(DETAIL)),
        failure("23P01", None, Some("reservations"), None),
    ] {
        match Error::from(f) {
            Error::DbError1(DbFailure::Database(d)) => assert_eq!(d.message, "conflicting key value violates exclusion constraint"),
            other => panic!("unexpected {:?}", other),
        }
    }
}

#[test]
fn missing_row_is_not_found() {
    assert!(matches!(Error::from(DbFailure::RowNotFound), Error::NotFound));
}

#[test]
fn driver_failure_is_kept() {
    match Error::from(DbFailure::Other("pool timed out".to_string())) {
        Error::DbError1(DbFailure::Other(s)) => assert_eq!(s, "pool timed out"),
        other => panic!("unexpected {:?}", other),
    }
}
