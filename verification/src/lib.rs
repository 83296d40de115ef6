//! Error types of the reservation service, and the parser that turns the
//! detail text of a Postgres exclusion-constraint violation into the two
//! conflicting reservation windows.

pub mod text;
pub mod datetime;
pub mod pattern;
pub mod fields;
pub mod conflict;
pub mod error;
pub mod detail;

pub use conflict::{ParsedInfo, ReservationConflict, ReservationConflictInfo, ReservationWindow};
pub use datetime::{parse_datetime, UtcDateTime};
pub use error::{DatabaseFailure, DbFailure, Error};
pub use fields::KeyValueMap;
