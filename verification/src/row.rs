//! A record as one row of the table `application`: dates are texts, the
//! description may be null, and the id is the number the store gave.

use vstd::prelude::*;
use vstd::string::*;
use crate::date::{date_text, law_parsed_of_text, Date};
use crate::record::{
    constructed, optional_text, InputError, JobApplication, JobApplicationView,
};

verus! {

/// Why an operation on stored records failed.
#[derive(Debug, Clone, Copy, PartialEq, Eq, Structural)]
pub enum StoreError {
    /// No stored record has the id that was asked for.
    NotFound,
    /// A stored record already has the id of the row to be added.
    Conflict,
    /// The id of a stored row is not positive.
    InvalidId,
    /// No id is left to give to a new record.
    Exhausted,
    /// A stored row holds a date that cannot be read.
    Malformed(InputError),
    /// The operation is reserved and does nothing yet.
    Unsupported,
}

/// One row of the table, column by column.
#[derive(Debug, Clone, PartialEq, Eq)]
pub struct StoredRow {
    pub id: i64,
    pub name: String,
    pub date: String,
    pub description: Option<String>,
    pub resume_sent: bool,
    pub coverletter_sent: bool,
    pub response_date: Option<String>,
    pub interview_date: Option<String>,
}

/// A row as a mathematical value.
pub ghost struct StoredRowView {
    pub id: int,
    pub name: Seq<char>,
    pub date: Seq<char>,
    pub description: Option<Seq<char>>,
    pub resume_sent: bool,
    pub coverletter_sent: bool,
    pub response_date: Option<Seq<char>>,
    pub interview_date: Option<Seq<char>>,
}

impl View for StoredRow {
    type V = StoredRowView;

    open spec fn view(&self) -> StoredRowView {
        StoredRowView {
            id: self.id as int,
            name: self.name@,
            date: self.date@,
            description: optional_text(self.description),
            resume_sent: self.resume_sent,
            coverletter_sent: self.coverletter_sent,
            response_date: optional_text(self.response_date),
            interview_date: optional_text(self.interview_date),
        }
    }
}

/// The text of an optional date as a column holds it: null for none.
pub open spec fn optional_date_column(d: Option<Date>) -> Option<Seq<char>> {
    match d {
        Some(d) => Some(date_text(d)),
        None => None,
    }
}

/// The row that holds the record `a`: every date in its ten-character
/// form, every other field as it is.
pub open spec fn stored_row(a: JobApplicationView) -> StoredRowView {
    StoredRowView {
        id: a.id,
        name: a.name,
        date: date_text(a.date),
        description: Some(a.description),
        resume_sent: a.resume_sent,
        coverletter_sent: a.coverletter_sent,
        response_date: optional_date_column(a.response_date),
        interview_date: optional_date_column(a.interview_date),
    }
}

/// The record that the row holds: what a user's input of the row's
/// columns makes, with the row's id. A row whose id is not positive, or
/// one of whose dates cannot be read, holds none.
pub open spec fn read_row(row: StoredRowView) -> Result<JobApplicationView, StoreError> {
    if row.id <= 0 {
        Err(StoreError::InvalidId)
    } else {
        match constructed(
            None,
            row.name,
            row.description,
            Some(row.date),
            row.resume_sent,
            row.coverletter_sent,
            row.response_date,
            row.interview_date,
        ) {
            Ok(a) => Ok(a.with_id(row.id)),
            Err(e) => Err(StoreError::Malformed(e)),
        }
    }
}

/// A result of an operation on stored records as a mathematical value.
pub open spec fn fetched_view(r: Result<JobApplication, StoreError>) -> Result<
    JobApplicationView,
    StoreError,
> {
    match r {
        Ok(a) => Ok(a@),
        Err(e) => Err(e),
    }
}

/// A copy of an optional text.
fn copy_optional_text(t: &Option<String>) -> (r: Option<String>)
    ensures
        r == *t,
{
    match t {
        Some(s) => Some(s.clone()),
        None => None,
    }
}

/// The text of an optional date as a column holds it.
fn optional_date_to_column(d: &Option<Date>) -> (r: Option<String>)
    requires
        d is Some ==> d->0.wf(),
    ensures
        optional_text(r) == optional_date_column(*d),
{
    match d {
        Some(d) => Some(d.render()),
        None => None,
    }
}

impl JobApplication {
    /// A second record with the same fields.
    pub fn duplicate(&self) -> (r: JobApplication)
        ensures
            r@ == self@,
    {
        JobApplication {
            id: self.id,
            name: self.name.clone(),
            date: self.date,
            description: self.description.clone(),
            resume_sent: self.resume_sent,
            coverletter_sent: self.coverletter_sent,
            response_date: self.response_date,
            interview_date: self.interview_date,
        }
    }

    /// Writes into the record the id that the store gave it. Only a
    /// positive number is an id: any other leaves the record as it was.
    pub fn assign_id(&mut self, id: i64) -> (r: Result<i64, StoreError>)
        ensures
            r == (if id > 0 {
                Ok::<i64, StoreError>(id)
            } else {
                Err::<i64, StoreError>(StoreError::InvalidId)
            }),
            final(self)@ == (if id > 0 {
                old(self)@.with_id(id as int)
            } else {
                old(self)@
            }),
    {
        if id > 0 {
            self.id = id;
            Ok(id)
        } else {
            Err(StoreError::InvalidId)
        }
    }

    /// The row that holds the record.
    pub fn to_row(&self) -> (row: StoredRow)
        requires
            self.wf(),
        ensures
            row@ == stored_row(self@),
    {
        StoredRow {
            id: self.id,
            name: self.name.clone(),
            date: self.date.render(),
            description: Some(self.description.clone()),
            resume_sent: self.resume_sent,
            coverletter_sent: self.coverletter_sent,
            response_date: optional_date_to_column(&self.response_date),
            interview_date: optional_date_to_column(&self.interview_date),
        }
    }

    /// The record that a row holds. A null description is the empty one.
    pub fn from_row(row: &StoredRow) -> (r: Result<JobApplication, StoreError>)
        ensures
            fetched_view(r) == read_row(row@),
            r is Ok ==> r->Ok_0.wf() && r->Ok_0.id > 0,
    {
        if row.id <= 0 {
            return Err(StoreError::InvalidId);
        }
        let made = JobApplication::new_on(
            "",
            row.name.clone(),
            copy_optional_text(&row.description),
            Some(row.date.clone()),
            row.resume_sent,
            row.coverletter_sent,
            copy_optional_text(&row.response_date),
            copy_optional_text(&row.interview_date),
        );
        match made {
            Ok(mut a) => {
                a.id = row.id;
                Ok(a)
            },
            Err(e) => Err(StoreError::Malformed(e)),
        }
    }
}

/// What is written is what is read: the row that holds a stored record
/// holds that record, equal in every field.
pub proof fn law_row_round_trip(a: JobApplicationView)
    requires
        a.wf(),
        a.id > 0,
    ensures
        read_row(stored_row(a)) == Ok::<JobApplicationView, StoreError>(a),
{
    law_parsed_of_text(a.date);
    if a.response_date is Some {
        law_parsed_of_text(a.response_date->0);
    }
    if a.interview_date is Some {
        law_parsed_of_text(a.interview_date->0);
    }
}

} // verus!
