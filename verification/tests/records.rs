use jobjrnl::date::Date;
use jobjrnl::list::JobApplicationList;
use jobjrnl::record::{InputError, JobApplication};

const HEADER: &str = "ID   | Application Sent | Resume Sent? | Cover Letter Sent? | Response Received | Interview Date\n";
const RULE: &str = "-----|------------------|--------------|--------------------|-------------------|---------------\n";

fn text(s: &str) -> Option<String> {
    Some(s.to_string())
}

fn sample(id: i64) -> JobApplication {
    JobApplication {
        id,
        name: "Acme Corp".to_string(),
        date: Date { year: 2024, month: 3, day: 15 },
        description: "Backend engineer".to_string(),
        resume_sent: true,
        coverletter_sent: false,
        response_date: Some(Date { year: 2024, month: 4, day: 1 }),
        interview_date: None,
    }
}

#[test]
fn omitted_date_is_today() {
    let record =
        JobApplication::new_on("2024-03-15", "Acme Corp".to_string(), None, None, true, false, None, None)
            .unwrap();
    assert_eq!(record.date, Date { year: 2024, month: 3, day: 15 });
    assert_eq!(record.id, 0);
}

#[test]
fn given_date_wins_over_today() {
    let record = JobApplication::new_on(
        "2024-03-15",
        "Acme Corp".to_string(),
        text("Backend engineer"),
        text("2023-12-24"),
        false,
        true,
        text("2024-01-02"),
        text("2024-01-09"),
    )
    .unwrap();
    assert_eq!(
        record,
        JobApplication {
            id: 0,
            name: "Acme Corp".to_string(),
            date: Date { year: 2023, month: 12, day: 24 },
            description: "Backend engineer".to_string(),
            resume_sent: false,
            coverletter_sent: true,
            response_date: Some(Date { year: 2024, month: 1, day: 2 }),
            interview_date: Some(Date { year: 2024, month: 1, day: 9 }),
        }
    );
}

#[test]
fn new_asks_the_clock_only_without_a_date() {
    let before = sqlx::types::chrono::Local::now().date_naive().to_string();
    let record =
        JobApplication::new("Acme Corp".to_string(), None, None, true, false, None, None).unwrap();
    let after = sqlx::types::chrono::Local::now().date_naive().to_string();
    let shown = record.date.render();
    assert!(shown == before || shown == after);
    let dated = JobApplication::new(
        "Acme Corp".to_string(),
        None,
        text("2001-02-03"),
        true,
        false,
        None,
        None,
    )
    .unwrap();
    assert_eq!(dated.date, Date { year: 2001, month: 2, day: 3 });
}

#[test]
fn acme_corp_with_resume_only() {
    let record =
        JobApplication::new("Acme Corp".to_string(), None, None, true, false, None, None).unwrap();
    assert!(record.resume_sent);
    assert!(!record.coverletter_sent);
    assert_eq!(record.response_date, None);
    assert_eq!(record.interview_date, None);
    assert_eq!(record.description, "");
    let shown = record.render();
    let lines: Vec<&str> = shown.lines().collect();
    assert!(lines.contains(&"Resume Sent?: yes"));
    assert!(lines.contains(&"Cover Letter Sent?: no"));
    assert!(lines.contains(&"Response Received: no"));
    assert!(lines.contains(&"Interview Date: no"));
    assert_eq!(
        shown,
        format!(
            "Name: Acme Corp\nApplication Sent: {}\nResume Sent?: yes\nCover Letter Sent?: no\nResponse Received: no\nInterview Date: no",
            record.date.render()
        )
    );
}

#[test]
fn malformed_dates_make_no_record() {
    let make = |applied: Option<String>, response: Option<String>, interview: Option<String>| {
        JobApplication::new_on(
            "2024-03-15",
            "Acme Corp".to_string(),
            None,
            applied,
            true,
            true,
            response,
            interview,
        )
    };
    assert_eq!(make(text("yesterday"), None, None), Err(InputError::DateApplied));
    assert_eq!(make(text("2024-02-30"), None, None), Err(InputError::DateApplied));
    assert_eq!(make(None, text("15.03.2024"), None), Err(InputError::ResponseDate));
    assert_eq!(make(None, text(""), None), Err(InputError::ResponseDate));
    assert_eq!(make(None, None, text("2024-3-15")), Err(InputError::InterviewDate));
    assert_eq!(make(None, None, text("")), Err(InputError::InterviewDate));
    assert_eq!(make(text("x"), text("y"), text("z")), Err(InputError::DateApplied));
    assert_eq!(make(None, text("y"), text("z")), Err(InputError::ResponseDate));
    assert_eq!(
        JobApplication::new("Acme".to_string(), None, text("2024-13-01"), true, true, None, None),
        Err(InputError::DateApplied)
    );
}

#[test]
fn unreadable_today_makes_no_record_without_a_date() {
    let r = JobApplication::new_on("+10000-01-01", "Acme".to_string(), None, None, true, true, None, None);
    assert_eq!(r, Err(InputError::Today));
    let r = JobApplication::new_on(
        "+10000-01-01",
        "Acme".to_string(),
        None,
        text("2024-03-15"),
        true,
        true,
        None,
        None,
    );
    assert_eq!(r.unwrap().date, Date { year: 2024, month: 3, day: 15 });
}

#[test]
fn render_shows_every_field_of_a_stored_record() {
    let mut record = sample(12);
    record.interview_date = Some(Date { year: 2024, month: 4, day: 9 });
    assert_eq!(
        record.render(),
        "ID: 12\nName: Acme Corp\nApplication Sent: 2024-03-15\nResume Sent?: yes\nCover Letter Sent?: no\nResponse Received: 2024-04-01\nInterview Date: 2024-04-09\nDescription: Backend engineer"
    );
}

#[test]
fn render_leaves_out_id_and_description_where_there_is_none() {
    let mut record = sample(0);
    record.description = String::new();
    record.response_date = None;
    assert_eq!(
        record.render(),
        "Name: Acme Corp\nApplication Sent: 2024-03-15\nResume Sent?: yes\nCover Letter Sent?: no\nResponse Received: no\nInterview Date: no"
    );
}

#[test]
fn empty_table_is_header_rule_and_count() {
    let table = JobApplicationList(Vec::new()).render();
    assert_eq!(table, format!("{}{}Count: 0\n", HEADER, RULE));
    assert_eq!(table.lines().count(), 3);
}

#[test]
fn table_rows_are_left_aligned_columns_in_list_order() {
    let mut second = sample(1234567);
    second.resume_sent = false;
    second.coverletter_sent = true;
    second.response_date = None;
    second.interview_date = Some(Date { year: 2024, month: 5, day: 20 });
    let table = JobApplicationList(vec![sample(3), second, sample(1)]).render();
    let expected = format!(
        "{}{}{}{}{}Count: 3\n",
        HEADER,
        RULE,
        "3    | 2024-03-15       | true         | false              | 2024-04-01        | no            \n",
        "1234567 | 2024-03-15       | false        | true               | no                | 2024-05-20    \n",
        "3    | 2024-03-15       | true         | false              | 2024-04-01        | no            \n"
            .replacen('3', "1", 1),
    );
    assert_eq!(table, expected);
}

#[test]
fn table_row_agrees_with_std_formatting() {
    let record = sample(42);
    let table = JobApplicationList(vec![record.clone()]).render();
    let row = format!(
        "{:<4} | {:<16} | {:<12} | {:<18} | {:<17} | {:<14}\n",
        record.id,
        record.date.render(),
        record.resume_sent,
        record.coverletter_sent,
        "2024-04-01",
        "no"
    );
    assert_eq!(table, format!("{}{}{}Count: 1\n", HEADER, RULE, row));
}
