use jobjrnl::date::Date;
use jobjrnl::list::JobApplicationList;
use jobjrnl::record::{InputError, JobApplication};
use jobjrnl::row::{StoreError, StoredRow};
use jobjrnl::store::ApplicationStore;

fn record(name: &str, id: i64) -> JobApplication {
    JobApplication {
        id,
        name: name.to_string(),
        date: Date { year: 2024, month: 3, day: 15 },
        description: "notes".to_string(),
        resume_sent: true,
        coverletter_sent: false,
        response_date: None,
        interview_date: Some(Date { year: 2024, month: 4, day: 2 }),
    }
}

fn row(id: i64, date: &str) -> StoredRow {
    StoredRow {
        id,
        name: "Acme Corp".to_string(),
        date: date.to_string(),
        description: None,
        resume_sent: false,
        coverletter_sent: true,
        response_date: Some("2024-05-06".to_string()),
        interview_date: None,
    }
}

fn ids(records: &[JobApplication]) -> Vec<i64> {
    records.iter().map(|r| r.id).collect()
}

#[test]
fn get_after_create_gives_the_record_with_its_id() {
    let mut store = ApplicationStore::new();
    let mut first = record("Acme Corp", 0);
    let unsaved = first.clone();
    let id = store.create(&mut first).unwrap();
    assert_eq!(id, 1);
    assert_eq!(first.id, 1);
    let got = store.get(id).unwrap();
    assert_eq!(got, JobApplication { id, ..unsaved });
    assert_eq!(got, first);
}

#[test]
fn create_gives_ascending_ids_of_their_own() {
    let mut store = ApplicationStore::new();
    let mut a = record("A", 0);
    let mut b = record("B", 0);
    let mut c = record("C", 77);
    assert_eq!(store.create(&mut a), Ok(1));
    assert_eq!(store.create(&mut b), Ok(2));
    assert_eq!(store.create(&mut c), Ok(3));
    assert_eq!(c.id, 3);
    assert_eq!(store.len(), 3);
    assert_eq!(store.get(1).unwrap().name, "A");
    assert_eq!(store.get(2).unwrap().name, "B");
    assert_eq!(store.get(3).unwrap().name, "C");
    store.insert(record("D", 10)).unwrap();
    let mut e = record("E", 0);
    assert_eq!(store.create(&mut e), Ok(11));
}

#[test]
fn list_is_ascending_by_id_whatever_the_order_of_insertion() {
    let mut store = ApplicationStore::new();
    store.insert(record("third", 3)).unwrap();
    store.insert(record("first", 1)).unwrap();
    store.insert(record("second", 2)).unwrap();
    let listed = store.list();
    assert_eq!(ids(&listed), vec![1, 2, 3]);
    assert_eq!(listed[0].name, "first");
    assert_eq!(listed[1].name, "second");
    assert_eq!(listed[2].name, "third");
}

#[test]
fn list_of_an_empty_store_is_empty() {
    let store = ApplicationStore::new();
    let listed = store.list();
    assert!(listed.is_empty());
    assert_eq!(store.len(), 0);
    assert_eq!(
        JobApplicationList(listed).render(),
        "ID   | Application Sent | Resume Sent? | Cover Letter Sent? | Response Received | Interview Date\n\
         -----|------------------|--------------|--------------------|-------------------|---------------\n\
         Count: 0\n"
    );
}

#[test]
fn get_of_an_absent_id_is_not_found() {
    let mut store = ApplicationStore::new();
    for name in ["A", "B", "C"] {
        store.create(&mut record(name, 0)).unwrap();
    }
    assert_eq!(ids(&store.list()), vec![1, 2, 3]);
    assert_eq!(store.get(999), Err(StoreError::NotFound));
    assert_eq!(store.get(0), Err(StoreError::NotFound));
    assert_eq!(store.get(-1), Err(StoreError::NotFound));
    assert_eq!(ApplicationStore::new().get(1), Err(StoreError::NotFound));
}

#[test]
fn insert_refuses_a_taken_or_non_positive_id() {
    let mut store = ApplicationStore::new();
    store.insert(record("A", 5)).unwrap();
    assert_eq!(store.insert(record("B", 5)), Err(StoreError::Conflict));
    assert_eq!(store.insert(record("C", 0)), Err(StoreError::InvalidId));
    assert_eq!(store.insert(record("D", -3)), Err(StoreError::InvalidId));
    assert_eq!(store.len(), 1);
    assert_eq!(store.get(5).unwrap().name, "A");
}

#[test]
fn create_fails_when_no_id_is_left() {
    let mut store = ApplicationStore::new();
    store.insert(record("last", i64::MAX)).unwrap();
    let mut next = record("next", 0);
    assert_eq!(store.create(&mut next), Err(StoreError::Exhausted));
    assert_eq!(next, record("next", 0));
    assert_eq!(store.len(), 1);
}

#[test]
fn update_and_delete_are_reserved() {
    let mut store = ApplicationStore::new();
    let mut a = record("A", 0);
    store.create(&mut a).unwrap();
    assert_eq!(store.update(&a), Err(StoreError::Unsupported));
    assert_eq!(store.delete(1), Err(StoreError::Unsupported));
    assert_eq!(store.get(1).unwrap(), a);
    assert_eq!(store.len(), 1);
}

#[test]
fn assign_id_takes_positive_numbers_only() {
    let mut a = record("A", 0);
    assert_eq!(a.assign_id(7), Ok(7));
    assert_eq!(a, record("A", 7));
    assert_eq!(a.assign_id(0), Err(StoreError::InvalidId));
    assert_eq!(a.assign_id(-7), Err(StoreError::InvalidId));
    assert_eq!(a, record("A", 7));
}

#[test]
fn duplicate_is_equal() {
    let a = record("A", 4);
    assert_eq!(a.duplicate(), a);
}

#[test]
fn to_row_writes_dates_as_text() {
    let stored = record("Acme Corp", 9).to_row();
    assert_eq!(
        stored,
        StoredRow {
            id: 9,
            name: "Acme Corp".to_string(),
            date: "2024-03-15".to_string(),
            description: Some("notes".to_string()),
            resume_sent: true,
            coverletter_sent: false,
            response_date: None,
            interview_date: Some("2024-04-02".to_string()),
        }
    );
}

#[test]
fn from_row_reads_what_to_row_wrote() {
    let a = record("Acme Corp", 9);
    assert_eq!(JobApplication::from_row(&a.to_row()), Ok(a));
}

#[test]
fn from_row_reads_null_description_as_empty() {
    let a = JobApplication::from_row(&row(4, "2024-01-31")).unwrap();
    assert_eq!(
        a,
        JobApplication {
            id: 4,
            name: "Acme Corp".to_string(),
            date: Date { year: 2024, month: 1, day: 31 },
            description: String::new(),
            resume_sent: false,
            coverletter_sent: true,
            response_date: Some(Date { year: 2024, month: 5, day: 6 }),
            interview_date: None,
        }
    );
}

#[test]
fn from_row_refuses_bad_rows() {
    assert_eq!(JobApplication::from_row(&row(0, "2024-01-31")), Err(StoreError::InvalidId));
    assert_eq!(JobApplication::from_row(&row(-2, "2024-01-31")), Err(StoreError::InvalidId));
    assert_eq!(
        JobApplication::from_row(&row(1, "31.01.2024")),
        Err(StoreError::Malformed(InputError::DateApplied))
    );
    let mut bad = row(1, "2024-01-31");
    bad.response_date = Some("n/a".to_string());
    assert_eq!(
        JobApplication::from_row(&bad),
        Err(StoreError::Malformed(InputError::ResponseDate))
    );
    let mut bad = row(1, "2024-01-31");
    bad.interview_date = Some(String::new());
    assert_eq!(
        JobApplication::from_row(&bad),
        Err(StoreError::Malformed(InputError::InterviewDate))
    );
}

#[test]
fn from_rows_orders_the_rows_by_id() {
    let rows = vec![row(3, "2024-03-03"), row(1, "2024-01-01"), row(2, "2024-02-02")];
    let store = ApplicationStore::from_rows(&rows).unwrap();
    let listed = store.list();
    assert_eq!(ids(&listed), vec![1, 2, 3]);
    assert_eq!(listed[0].date, Date { year: 2024, month: 1, day: 1 });
    assert_eq!(listed[2].date, Date { year: 2024, month: 3, day: 3 });
    assert_eq!(store.get(2).unwrap().date.render(), "2024-02-02");
    assert_eq!(ApplicationStore::from_rows(&Vec::new()).unwrap().len(), 0);
}

#[test]
fn from_rows_fails_on_the_first_bad_row() {
    let rows = vec![row(1, "2024-01-01"), row(1, "2024-02-02"), row(0, "2024-03-03")];
    assert_eq!(ApplicationStore::from_rows(&rows).err(), Some(StoreError::Conflict));
    let rows = vec![row(1, "2024-01-01"), row(0, "2024-02-02"), row(1, "2024-03-03")];
    assert_eq!(ApplicationStore::from_rows(&rows).err(), Some(StoreError::InvalidId));
    let rows = vec![row(1, "someday"), row(0, "2024-02-02")];
    assert_eq!(
        ApplicationStore::from_rows(&rows).err(),
        Some(StoreError::Malformed(InputError::DateApplied))
    );
}
