//! The error type of the reservation service, and how a failed database
//! call becomes one.

use vstd::prelude::*;

use crate::conflict::{spec_conflict_info, ConflictInfoModel, ReservationConflictInfo};

verus! {

broadcast use vstd::string::group_string_axioms;

/// What the database reported when a Postgres statement failed: the fields
/// of a `PgDatabaseError` that decide how the failure is reported.
#[derive(Clone, Debug)]
pub struct DatabaseFailure {
    /// The SQLSTATE code, such as `23P01` for an exclusion violation.
    pub code: String,
    pub schema: Option<String>,
    pub table: Option<String>,
    pub detail: Option<String>,
    pub message: String,
}

/// A failed database call, as the service sees it.
#[derive(Clone, Debug)]
pub enum DbFailure {
    /// The server refused the statement.
    Database(DatabaseFailure),
    /// A query that was to return one row returned none.
    RowNotFound,
    /// Any other failure of the driver (I/O, protocol, pool, decoding...),
    /// with its description.
    Other(String),
}

pub struct DatabaseFailureModel {
    pub code: Seq<char>,
    pub schema: Option<Seq<char>>,
    pub table: Option<Seq<char>>,
    pub detail: Option<Seq<char>>,
    pub message: Seq<char>,
}

pub enum DbFailureModel {
    Database(DatabaseFailureModel),
    RowNotFound,
    Other(Seq<char>),
}

pub open spec fn option_text(o: Option<String>) -> Option<Seq<char>> {
    match o {
        Some(s) => Some(s@),
        None => None,
    }
}

impl View for DatabaseFailure {
    type V = DatabaseFailureModel;

    open spec fn view(&self) -> DatabaseFailureModel {
        DatabaseFailureModel {
            code: self.code@,
            schema: option_text(self.schema),
            table: option_text(self.table),
            detail: option_text(self.detail),
            message: self.message@,
        }
    }
}

impl View for DbFailure {
    type V = DbFailureModel;

    open spec fn view(&self) -> DbFailureModel {
        match self {
            DbFailure::Database(d) => DbFailureModel::Database(d@),
            DbFailure::RowNotFound => DbFailureModel::RowNotFound,
            DbFailure::Other(s) => DbFailureModel::Other(s@),
        }
    }
}

/// The errors of the reservation service.
#[derive(Debug)]
pub enum Error {
    DbError(DbFailure),
    DbError1(DbFailure),
    InvalidTime,
    ConflictReservation(ReservationConflictInfo),
    InvalidUserId(String),
    InvalidResourceId(String),
    Unknown,
    NotFound,
}

pub enum ErrorModel {
    DbError(DbFailureModel),
    DbError1(DbFailureModel),
    InvalidTime,
    ConflictReservation(ConflictInfoModel),
    InvalidUserId(Seq<char>),
    InvalidResourceId(Seq<char>),
    Unknown,
    NotFound,
}

impl View for Error {
    type V = ErrorModel;

    open spec fn view(&self) -> ErrorModel {
        match self {
            Error::DbError(e) => ErrorModel::DbError(e@),
            Error::DbError1(e) => ErrorModel::DbError1(e@),
            Error::InvalidTime => ErrorModel::InvalidTime,
            Error::ConflictReservation(i) => ErrorModel::ConflictReservation(i@),
            Error::InvalidUserId(s) => ErrorModel::InvalidUserId(s@),
            Error::InvalidResourceId(s) => ErrorModel::InvalidResourceId(s@),
            Error::Unknown => ErrorModel::Unknown,
            Error::NotFound => ErrorModel::NotFound,
        }
    }
}

/// The failure is the exclusion constraint of `rsvp.reservations`
/// (SQLSTATE `23P01`): two reservations of one resource overlap.
pub open spec fn is_reservation_conflict(d: DatabaseFailureModel) -> bool {
    &&& d.code == "23P01"@
    &&& d.schema == Some("rsvp"@)
    &&& d.table == Some("reservations"@)
}

/// The error that a database failure is reported as.
pub open spec fn spec_error_from(e: DbFailureModel) -> ErrorModel {
    match e {
        DbFailureModel::Database(d) => if is_reservation_conflict(d) {
            ErrorModel::ConflictReservation(spec_conflict_info(d.detail->0))
        } else {
            ErrorModel::DbError1(e)
        },
        DbFailureModel::RowNotFound => ErrorModel::NotFound,
        DbFailureModel::Other(_) => ErrorModel::DbError1(e),
    }
}

/// Whether `a` holds the text `b`.
fn text_is(a: &String, b: &str) -> (r: bool)
    ensures
        r == (a@ == b@),
{
    let b = b.to_owned();
    *a == b
}

/// Whether `a` holds some text and that text is `b`.
fn optional_text_is(a: &Option<String>, b: &str) -> (r: bool)
    ensures
        r == (option_text(*a) == Some(b@)),
{
    match a {
        Some(s) => text_is(s, b),
        None => false,
    }
}

impl Error {
    /// Reports a failed database call: a violation of the reservation
    /// exclusion constraint becomes `ConflictReservation` with its detail
    /// read into the two windows, a missing row becomes `NotFound`, and
    /// anything else is kept in `DbError1`.
    pub fn from(e: DbFailure) -> (r: Error)
        requires
            e matches DbFailure::Database(d) ==> (is_reservation_conflict(d@) ==> d.detail is Some),
        ensures
            r@ == spec_error_from(e@),
            e matches DbFailure::Database(d) ==> (!(d.code@ == "23P01"@ && option_text(d.schema)
                == Some("rsvp"@) && option_text(d.table) == Some("reservations"@)) ==> r@
                == ErrorModel::DbError1(e@)),
            e matches DbFailure::Database(d) ==> ((d.code@ == "23P01"@ && option_text(d.schema)
                == Some("rsvp"@) && option_text(d.table) == Some("reservations"@))
                ==> r@ == ErrorModel::ConflictReservation(spec_conflict_info(d.detail->0@))),
            e is RowNotFound ==> r@ == ErrorModel::NotFound,
            e is Other ==> r@ == ErrorModel::DbError1(e@),
    {
        match e {
            DbFailure::Database(d) => {
                if text_is(&d.code, "23P01") && optional_text_is(&d.schema, "rsvp")
                    && optional_text_is(&d.table, "reservations") {
                    let detail = d.detail.unwrap();
                    match ReservationConflictInfo::from_str(detail.as_str()) {
                        Ok(info) => Error::ConflictReservation(info),
                        // The error type of the parse is `Infallible`.
                        Err(_) => Error::Unknown,
                    }
                } else {
                    Error::DbError1(DbFailure::Database(d))
                }
            },
            DbFailure::RowNotFound => Error::NotFound,
            DbFailure::Other(s) => Error::DbError1(DbFailure::Other(s)),
        }
    }
}

/// How each database failure is reported. A violation of the exclusion
/// constraint of `rsvp.reservations` (SQLSTATE `23P01`) becomes
/// `ConflictReservation` with its detail read; a missing row becomes
/// `NotFound`; every other failure, of the database or of the driver, is kept
/// unchanged in `DbError1`, never dropped or replaced.
pub proof fn lemma_failures_reported(e: DbFailureModel)
    ensures
        e matches DbFailureModel::Database(d) ==> (!(d.code == "23P01"@ && d.schema == Some(
            "rsvp"@,
        ) && d.table == Some("reservations"@)) ==> spec_error_from(e) == ErrorModel::DbError1(e)),
        e matches DbFailureModel::Database(d) ==> ((d.code == "23P01"@ && d.schema == Some("rsvp"@)
            && d.table == Some("reservations"@)) ==> spec_error_from(e)
            == ErrorModel::ConflictReservation(spec_conflict_info(d.detail->0))),
        e is RowNotFound ==> spec_error_from(e) == ErrorModel::NotFound,
        e is Other ==> spec_error_from(e) == ErrorModel::DbError1(e),
{
}

} // verus!
