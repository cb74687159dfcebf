//! A sequence of records shown as a table of fixed-width columns, with
//! the number of records on a last line.

use vstd::prelude::*;
use vstd::string::*;
use crate::date::{date_text, Date};
use crate::record::{optional_date_text, JobApplication, JobApplicationView};
use crate::text::{
    bool_str, bool_text, decimal_text, int_text, int_to_string, pad_right, push_decimal,
    push_padded,
};

verus! {

/// Records in the order in which they are to be shown.
#[derive(Debug, Clone, PartialEq, Eq)]
pub struct JobApplicationList(pub Vec<JobApplication>);

impl View for JobApplicationList {
    type V = Seq<JobApplicationView>;

    open spec fn view(&self) -> Seq<JobApplicationView> {
        Seq::new(self.0@.len(), |i: int| self.0@[i]@)
    }
}

/// The first line of the table: the names of the columns.
pub open spec fn table_header() -> Seq<char> {
    "ID   | Application Sent | Resume Sent? | Cover Letter Sent? | Response Received | Interview Date\n"@
}

/// The second line of the table: the rule under the names.
pub open spec fn table_rule() -> Seq<char> {
    "-----|------------------|--------------|--------------------|-------------------|---------------\n"@
}

/// The line of one record: id, application date, whether resume and
/// cover letter were sent, response and interview date or "no", each
/// left-aligned in its column.
pub open spec fn row_text(a: JobApplicationView) -> Seq<char> {
    cell_text(int_text(a.id), 4) + cell_text(date_text(a.date), 16) + cell_text(
        bool_text(a.resume_sent),
        12,
    ) + cell_text(bool_text(a.coverletter_sent), 18) + cell_text(
        optional_date_text(a.response_date),
        17,
    ) + pad_right(optional_date_text(a.interview_date), 14) + "\n"@
}

/// The lines of the records, in their order.
pub open spec fn rows_text(rows: Seq<JobApplicationView>) -> Seq<char>
    decreases rows.len(),
{
    if rows.len() == 0 {
        Seq::empty()
    } else {
        rows_text(rows.drop_last()) + row_text(rows.last())
    }
}

/// The last line of the table: the number of records.
pub open spec fn count_line(n: nat) -> Seq<char> {
    "Count: "@ + decimal_text(n) + "\n"@
}

/// The whole table.
pub open spec fn table_text(rows: Seq<JobApplicationView>) -> Seq<char> {
    table_header() + table_rule() + rows_text(rows) + count_line(rows.len())
}

/// One cell of a row and the bar after it.
pub open spec fn cell_text(s: Seq<char>, width: nat) -> Seq<char> {
    pad_right(s, width) + " | "@
}

/// Appends one cell and the bar after it to `out`, which holds the text
/// `before` and then the part `row` of a row.
fn push_cell(
    out: &mut String,
    s: &str,
    width: usize,
    Ghost(before): Ghost<Seq<char>>,
    Ghost(row): Ghost<Seq<char>>,
)
    requires
        old(out)@ == before + row,
    ensures
        final(out)@ == before + (row + cell_text(s@, width as nat)),
{
    push_padded(out, s, width);
    out.append(" | ");
    assert(out@ =~= before + (row + cell_text(s@, width as nat)));
}

/// The text of an optional date: its ten-character form, or "no".
fn optional_date_string(d: &Option<Date>) -> (s: String)
    requires
        d is Some ==> d->0.wf(),
    ensures
        s@ == optional_date_text(*d),
{
    match d {
        Some(d) => d.render(),
        None => String::from_str("no"),
    }
}

/// Appends the line of one record to `out`.
fn push_row(out: &mut String, a: &JobApplication)
    requires
        a.wf(),
    ensures
        final(out)@ == old(out)@ + row_text(a@),
{
    let ghost before = out@;
    assert(out@ =~= before + Seq::<char>::empty());
    let id = int_to_string(a.id);
    push_cell(out, id.as_str(), 4, Ghost(before), Ghost(Seq::empty()));
    let ghost row1 = Seq::<char>::empty() + cell_text(id@, 4);
    let date = a.date.render();
    push_cell(out, date.as_str(), 16, Ghost(before), Ghost(row1));
    let ghost row2 = row1 + cell_text(date@, 16);
    push_cell(out, bool_str(a.resume_sent), 12, Ghost(before), Ghost(row2));
    let ghost row3 = row2 + cell_text(bool_text(a.resume_sent), 12);
    push_cell(out, bool_str(a.coverletter_sent), 18, Ghost(before), Ghost(row3));
    let ghost row4 = row3 + cell_text(bool_text(a.coverletter_sent), 18);
    let response = optional_date_string(&a.response_date);
    push_cell(out, response.as_str(), 17, Ghost(before), Ghost(row4));
    let ghost row5 = row4 + cell_text(response@, 17);
    let interview = optional_date_string(&a.interview_date);
    push_padded(out, interview.as_str(), 14);
    out.append("\n");
    proof {
        assert(row1 =~= cell_text(id@, 4));
        assert(out@ =~= before + (row5 + pad_right(interview@, 14) + "\n"@));
    }
}

impl JobApplicationList {
    /// Every record of the list is well formed.
    pub open spec fn wf(&self) -> bool {
        forall|i: int| 0 <= i < self.0@.len() ==> (#[trigger] self.0@[i]).wf()
    }

    /// Whether every record of the list is well formed.
    pub fn is_valid(&self) -> (b: bool)
        ensures
            b == self.wf(),
    {
        let n = self.0.len();
        let mut i: usize = 0;
        while i < n
            invariant
                n == self.0@.len(),
                i <= n,
                forall|j: int| 0 <= j < i ==> (#[trigger] self.0@[j]).wf(),
            decreases n - i,
        {
            if !self.0[i].is_valid() {
                return false;
            }
            i = i + 1;
        }
        true
    }

    /// The table of the records: the line of column names, the rule, one
    /// line for each record in the order of the list, and the count.
    pub fn render(&self) -> (s: String)
        requires
            self.wf(),
        ensures
            s@ == table_text(self@),
    {
        let mut s = String::new();
        s.append(
            "ID   | Application Sent | Resume Sent? | Cover Letter Sent? | Response Received | Interview Date\n",
        );
        s.append(
            "-----|------------------|--------------|--------------------|-------------------|---------------\n",
        );
        let n = self.0.len();
        let mut i: usize = 0;
        assert(self@.take(0) =~= Seq::empty());
        assert(s@ =~= table_header() + table_rule() + rows_text(self@.take(0)));
        while i < n
            invariant
                self.wf(),
                n == self.0@.len(),
                i <= n,
                s@ == table_header() + table_rule() + rows_text(self@.take(i as int)),
            decreases n - i,
        {
            push_row(&mut s, &self.0[i]);
            proof {
                let next = self@.take(i + 1);
                assert(next.drop_last() =~= self@.take(i as int));
                assert(next.last() == self.0@[i as int]@);
                assert(s@ =~= table_header() + table_rule() + rows_text(next));
            }
            i = i + 1;
        }
        assert(self@.take(n as int) =~= self@);
        s.append("Count: ");
        push_decimal(&mut s, n as u64);
        s.append("\n");
        assert(s@ =~= table_text(self@));
        s
    }
}

/// The table of no records is the line of column names, the rule, and
/// a count of zero.
pub proof fn law_empty_table()
    ensures
        table_text(Seq::empty()) == table_header() + table_rule() + "Count: 0\n"@,
{
    reveal_strlit("Count: ");
    reveal_strlit("Count: 0\n");
    reveal_strlit("\n");
    reveal(crate::text::digit_char);
    assert(decimal_text(0) =~= seq!['0']);
    assert(count_line(0) =~= "Count: 0\n"@);
    assert(rows_text(Seq::empty()) =~= Seq::empty());
    assert(table_text(Seq::empty()) =~= table_header() + table_rule() + "Count: 0\n"@);
}

/// Adding a record at the end of a list adds its line after the lines of
/// the others: the rows of a table stand in the order of the list.
pub proof fn law_rows_in_order(rows: Seq<JobApplicationView>, a: JobApplicationView)
    ensures
        rows_text(rows.push(a)) == rows_text(rows) + row_text(a),
{
    assert(rows.push(a).drop_last() =~= rows);
}

} // verus!
