//! The record of one job application: how it is made from what a user
//! gives, and the block of text that shows it.

use vstd::prelude::*;
use vstd::string::*;
use crate::date::{date_text, parsed_date, Date};
use crate::text::{int_text, push_int, yes_no_str, yes_no_text};

verus! {

/// Why no record was made: which of the dates could not be read.
#[derive(Debug, Clone, Copy, PartialEq, Eq, Structural)]
pub enum InputError {
    /// The application date is not the form of a calendar date.
    DateApplied,
    /// No application date was given, and the current date has no
    /// ten-character form.
    Today,
    /// The response date is not the form of a calendar date.
    ResponseDate,
    /// The interview date is not the form of a calendar date.
    InterviewDate,
}

/// One job application.
#[derive(Debug, Clone, PartialEq, Eq)]
pub struct JobApplication {
    /// 0 until the record is stored; then the number the store gave it.
    pub id: i64,
    pub name: String,
    /// The day the application was sent.
    pub date: Date,
    pub description: String,
    pub resume_sent: bool,
    pub coverletter_sent: bool,
    /// The day a response came, if one has.
    pub response_date: Option<Date>,
    /// The day of the interview, if one is set.
    pub interview_date: Option<Date>,
}

/// A record as a mathematical value.
pub ghost struct JobApplicationView {
    pub id: int,
    pub name: Seq<char>,
    pub date: Date,
    pub description: Seq<char>,
    pub resume_sent: bool,
    pub coverletter_sent: bool,
    pub response_date: Option<Date>,
    pub interview_date: Option<Date>,
}

impl View for JobApplication {
    type V = JobApplicationView;

    open spec fn view(&self) -> JobApplicationView {
        JobApplicationView {
            id: self.id as int,
            name: self.name@,
            date: self.date,
            description: self.description@,
            resume_sent: self.resume_sent,
            coverletter_sent: self.coverletter_sent,
            response_date: self.response_date,
            interview_date: self.interview_date,
        }
    }
}

impl JobApplicationView {
    /// Every date of the record is a day of the calendar, and the id is
    /// 0 or positive.
    pub open spec fn wf(self) -> bool {
        &&& self.id >= 0
        &&& self.date.wf()
        &&& self.response_date is Some ==> self.response_date->0.wf()
        &&& self.interview_date is Some ==> self.interview_date->0.wf()
    }

    /// The same record with another id.
    pub open spec fn with_id(self, id: int) -> JobApplicationView {
        JobApplicationView { id, ..self }
    }
}

/// The text of an optional text, if there is one.
pub open spec fn optional_text(t: Option<String>) -> Option<Seq<char>> {
    match t {
        Some(s) => Some(s@),
        None => None,
    }
}

/// An optional date read from an optional text: no text is no date, and
/// a text that is not the form of a date is the error `e`.
pub open spec fn optional_parsed(t: Option<Seq<char>>, e: InputError) -> Result<
    Option<Date>,
    InputError,
> {
    match t {
        None => Ok(None),
        Some(s) => match parsed_date(s) {
            Some(d) => Ok(Some(d)),
            None => Err(e),
        },
    }
}

/// The application date of a new record: the given one where one is
/// given, which must then be the form of a date, else today's.
pub open spec fn applied_date(today: Option<Date>, given: Option<Seq<char>>) -> Result<
    Date,
    InputError,
> {
    match given {
        Some(s) => match parsed_date(s) {
            Some(d) => Ok(d),
            None => Err(InputError::DateApplied),
        },
        None => match today {
            Some(d) => Ok(d),
            None => Err(InputError::Today),
        },
    }
}

/// The record that a user's input makes on the day `today`, or the first
/// of its dates that cannot be read, in the order application, response,
/// interview. The id is 0, an absent description is empty, and every
/// other field is as given.
pub open spec fn constructed(
    today: Option<Date>,
    name: Seq<char>,
    description: Option<Seq<char>>,
    date_applied: Option<Seq<char>>,
    resume_sent: bool,
    coverletter_sent: bool,
    response_date: Option<Seq<char>>,
    interview_date: Option<Seq<char>>,
) -> Result<JobApplicationView, InputError> {
    match applied_date(today, date_applied) {
        Err(e) => Err(e),
        Ok(date) => match optional_parsed(response_date, InputError::ResponseDate) {
            Err(e) => Err(e),
            Ok(response) => match optional_parsed(interview_date, InputError::InterviewDate) {
                Err(e) => Err(e),
                Ok(interview) => Ok(
                    JobApplicationView {
                        id: 0,
                        name,
                        date,
                        description: match description {
                            Some(d) => d,
                            None => Seq::empty(),
                        },
                        resume_sent,
                        coverletter_sent,
                        response_date: response,
                        interview_date: interview,
                    },
                ),
            },
        },
    }
}

/// A record made without an application date bears today's date: on
/// every input on which one is made, its application date is the day
/// it was made.
pub proof fn law_omitted_date_is_today(
    today: Date,
    name: Seq<char>,
    description: Option<Seq<char>>,
    resume_sent: bool,
    coverletter_sent: bool,
    response_date: Option<Seq<char>>,
    interview_date: Option<Seq<char>>,
)
    requires
        response_date is Some ==> parsed_date(response_date->0) is Some,
        interview_date is Some ==> parsed_date(interview_date->0) is Some,
    ensures
        constructed(
            Some(today),
            name,
            description,
            None,
            resume_sent,
            coverletter_sent,
            response_date,
            interview_date,
        ) is Ok,
        constructed(
            Some(today),
            name,
            description,
            None,
            resume_sent,
            coverletter_sent,
            response_date,
            interview_date,
        )->Ok_0.date == today,
{
}

/// A date that cannot be read makes no record: where one of the dates
/// given is not the form of a calendar date, the result is an error,
/// whatever the other fields are.
pub proof fn law_malformed_date_makes_no_record(
    today: Option<Date>,
    name: Seq<char>,
    description: Option<Seq<char>>,
    date_applied: Option<Seq<char>>,
    resume_sent: bool,
    coverletter_sent: bool,
    response_date: Option<Seq<char>>,
    interview_date: Option<Seq<char>>,
)
    requires
        (date_applied is Some && parsed_date(date_applied->0) is None) || (response_date is Some
            && parsed_date(response_date->0) is None) || (interview_date is Some && parsed_date(
            interview_date->0,
        ) is None),
    ensures
        constructed(
            today,
            name,
            description,
            date_applied,
            resume_sent,
            coverletter_sent,
            response_date,
            interview_date,
        ) is Err,
{
}

/// A result of construction as a mathematical value.
pub open spec fn outcome_view(r: Result<JobApplication, InputError>) -> Result<
    JobApplicationView,
    InputError,
> {
    match r {
        Ok(a) => Ok(a@),
        Err(e) => Err(e),
    }
}

/// The text of an optional date: its ten-character form, or "no".
pub open spec fn optional_date_text(d: Option<Date>) -> Seq<char> {
    match d {
        Some(d) => date_text(d),
        None => "no"@,
    }
}

/// The first line of a record's text, which only a stored record has.
pub open spec fn id_line(id: int) -> Seq<char> {
    if id != 0 {
        "ID: "@ + int_text(id) + "\n"@
    } else {
        Seq::empty()
    }
}

/// The last line of a record's text, which only a record with a
/// description has.
pub open spec fn description_line(description: Seq<char>) -> Seq<char> {
    if description.len() > 0 {
        "\nDescription: "@ + description
    } else {
        Seq::empty()
    }
}

/// The block of text that shows one record, line by line.
pub open spec fn record_text(a: JobApplicationView) -> Seq<char> {
    id_line(a.id) + "Name: "@ + a.name + "\nApplication Sent: "@ + date_text(a.date)
        + "\nResume Sent?: "@ + yes_no_text(a.resume_sent) + "\nCover Letter Sent?: "@
        + yes_no_text(a.coverletter_sent) + "\nResponse Received: "@ + optional_date_text(
        a.response_date,
    ) + "\nInterview Date: "@ + optional_date_text(a.interview_date) + description_line(
        a.description,
    )
}

/// Today's date in the local time zone, as `chrono` writes it: the
/// `Display` form of `Local::now().date_naive()`, reached through
/// `sqlx::types`. Nothing is claimed of the text: the caller reads it as
/// a date and handles a text that is none. The call is `chrono`'s own,
/// and `chrono` gives up where the system clock stands before 1970.
#[verifier::external_body]
fn local_today_text() -> (today: String) {
    sqlx::types::chrono::Local::now().date_naive().to_string()
}

/// Reads an optional date from an optional text.
fn parse_optional(t: &Option<String>, e: InputError) -> (r: Result<Option<Date>, InputError>)
    ensures
        r == optional_parsed(optional_text(*t), e),
        r is Ok && r->Ok_0 is Some ==> r->Ok_0->0.wf(),
{
    match t {
        None => Ok(None),
        Some(s) => match Date::parse(s.as_str()) {
            Some(d) => Ok(Some(d)),
            None => Err(e),
        },
    }
}

/// Appends the text of an optional date to `out`.
fn push_optional_date(out: &mut String, d: &Option<Date>)
    requires
        d is Some ==> d->0.wf(),
    ensures
        final(out)@ == old(out)@ + optional_date_text(*d),
{
    match d {
        Some(d) => {
            let s = d.render();
            out.append(s.as_str());
        },
        None => {
            out.append("no");
        },
    }
}

impl JobApplication {
    /// Every date of the record is a day of the calendar, and the id is
    /// 0 or positive.
    pub open spec fn wf(&self) -> bool {
        self@.wf()
    }

    /// Whether every date of the record is a day of the calendar, and
    /// the id is 0 or positive.
    pub fn is_valid(&self) -> (b: bool)
        ensures
            b == self.wf(),
    {
        let response = match &self.response_date {
            Some(d) => d.is_valid(),
            None => true,
        };
        let interview = match &self.interview_date {
            Some(d) => d.is_valid(),
            None => true,
        };
        self.id >= 0 && self.date.is_valid() && response && interview
    }

    /// Makes the record of a new application on a day whose date reads
    /// `today`. The application date is `date_applied` where it is
    /// given, else the date that `today` reads as; the description is
    /// empty where none is given. A date that is given and is not the
    /// form of a calendar date gives the error of that date and no
    /// record.
    pub fn new_on(
        today: &str,
        name: String,
        description: Option<String>,
        date_applied: Option<String>,
        resume_sent: bool,
        coverletter_sent: bool,
        response_date: Option<String>,
        interview_date: Option<String>,
    ) -> (r: Result<JobApplication, InputError>)
        ensures
            outcome_view(r) == constructed(
                parsed_date(today@),
                name@,
                optional_text(description),
                optional_text(date_applied),
                resume_sent,
                coverletter_sent,
                optional_text(response_date),
                optional_text(interview_date),
            ),
            r is Ok ==> r->Ok_0.wf(),
    {
        let date = match &date_applied {
            Some(s) => match Date::parse(s.as_str()) {
                Some(d) => d,
                None => { return Err(InputError::DateApplied); },
            },
            None => match Date::parse(today) {
                Some(d) => d,
                None => { return Err(InputError::Today); },
            },
        };
        let response = match parse_optional(&response_date, InputError::ResponseDate) {
            Ok(d) => d,
            Err(e) => { return Err(e); },
        };
        let interview = match parse_optional(&interview_date, InputError::InterviewDate) {
            Ok(d) => d,
            Err(e) => { return Err(e); },
        };
        let description = match description {
            Some(d) => d,
            None => String::new(),
        };
        Ok(
            JobApplication {
                id: 0,
                name,
                date,
                description,
                resume_sent,
                coverletter_sent,
                response_date: response,
                interview_date: interview,
            },
        )
    }

    /// Makes the record of a new application today. Where an application
    /// date is given the clock is not asked, and the result is what
    /// `new_on` gives on any day; where none is given, the result is what
    /// `new_on` gives for today's date as the local clock has it.
    pub fn new(
        name: String,
        description: Option<String>,
        date_applied: Option<String>,
        resume_sent: bool,
        coverletter_sent: bool,
        response_date: Option<String>,
        interview_date: Option<String>,
    ) -> (r: Result<JobApplication, InputError>)
        ensures
            exists|today: Option<Date>|
                outcome_view(r) == #[trigger] constructed(
                    today,
                    name@,
                    optional_text(description),
                    optional_text(date_applied),
                    resume_sent,
                    coverletter_sent,
                    optional_text(response_date),
                    optional_text(interview_date),
                ),
            date_applied is Some ==> outcome_view(r) == constructed(
                None,
                name@,
                optional_text(description),
                optional_text(date_applied),
                resume_sent,
                coverletter_sent,
                optional_text(response_date),
                optional_text(interview_date),
            ),
            r is Ok ==> r->Ok_0.wf(),
    {
        let today = if date_applied.is_none() {
            local_today_text()
        } else {
            String::new()
        };
        JobApplication::new_on(
            today.as_str(),
            name,
            description,
            date_applied,
            resume_sent,
            coverletter_sent,
            response_date,
            interview_date,
        )
    }

    /// The block of text that shows the record: the id where the record
    /// is stored, the name, the application date, whether resume and
    /// cover letter were sent, the response and interview dates or "no",
    /// and the description where there is one.
    pub fn render(&self) -> (s: String)
        requires
            self.wf(),
        ensures
            s@ == record_text(self@),
    {
        let mut s = String::new();
        if self.id != 0 {
            s.append("ID: ");
            push_int(&mut s, self.id);
            s.append("\n");
        }
        assert(s@ =~= id_line(self.id as int));
        s.append("Name: ");
        s.append(self.name.as_str());
        s.append("\nApplication Sent: ");
        let date = self.date.render();
        s.append(date.as_str());
        s.append("\nResume Sent?: ");
        s.append(yes_no_str(self.resume_sent));
        s.append("\nCover Letter Sent?: ");
        s.append(yes_no_str(self.coverletter_sent));
        s.append("\nResponse Received: ");
        push_optional_date(&mut s, &self.response_date);
        s.append("\nInterview Date: ");
        push_optional_date(&mut s, &self.interview_date);
        let ghost body = s@;
        if !self.description.as_str().is_empty() {
            s.append("\nDescription: ");
            s.append(self.description.as_str());
        }
        assert(s@ =~= body + description_line(self.description@));
        s
    }
}

} // verus!
