//! The table of stored records: every record under a positive id of its
//! own, in ascending order of the ids.

use vstd::prelude::*;
use crate::record::{JobApplication, JobApplicationView};
use crate::row::{read_row, StoreError, StoredRow, StoredRowView};

verus! {

/// Whether the ids grow strictly from each row to the next.
pub open spec fn ids_ascending(rows: Seq<JobApplicationView>) -> bool {
    forall|i: int, j: int| 0 <= i < j < rows.len() ==> rows[i].id < rows[j].id
}

/// Whether `rows` is a table: every row a well-formed record with a
/// positive id, the ids in strictly ascending order.
pub open spec fn table_wf(rows: Seq<JobApplicationView>) -> bool {
    &&& ids_ascending(rows)
    &&& forall|i: int| 0 <= i < rows.len() ==> (#[trigger] rows[i]).wf() && rows[i].id > 0
}

/// Whether a row of the table has the id.
pub open spec fn has_id(rows: Seq<JobApplicationView>, id: int) -> bool {
    exists|i: int| 0 <= i < rows.len() && (#[trigger] rows[i]).id == id
}

/// The record stored under the id, if there is one.
pub open spec fn found(rows: Seq<JobApplicationView>, id: int) -> Option<JobApplicationView> {
    if has_id(rows, id) {
        Some(rows[choose|i: int| 0 <= i < rows.len() && (#[trigger] rows[i]).id == id])
    } else {
        None
    }
}

/// The id that the next new record gets: one more than the greatest id
/// of the table, and 1 in an empty table.
pub open spec fn next_id(rows: Seq<JobApplicationView>) -> int {
    if rows.len() == 0 {
        1
    } else {
        rows.last().id + 1
    }
}

/// The number of rows with an id below `id`: the place of a row with
/// that id in the table.
pub open spec fn position(rows: Seq<JobApplicationView>, id: int) -> int
    decreases rows.len(),
{
    if rows.len() == 0 {
        0
    } else if rows.last().id < id {
        rows.len() as int
    } else {
        position(rows.drop_last(), id)
    }
}

/// The table after a row with an id of its own is added at its place,
/// or the reason why it cannot be added.
pub open spec fn inserted(rows: Seq<JobApplicationView>, a: JobApplicationView) -> Result<
    Seq<JobApplicationView>,
    StoreError,
> {
    if a.id <= 0 {
        Err(StoreError::InvalidId)
    } else if has_id(rows, a.id) {
        Err(StoreError::Conflict)
    } else {
        Ok(rows.insert(position(rows, a.id), a))
    }
}

/// The table that holds the given rows, added one after the other, or
/// the reason why the first row that cannot be added cannot.
pub open spec fn loaded(rows: Seq<StoredRowView>) -> Result<Seq<JobApplicationView>, StoreError>
    decreases rows.len(),
{
    if rows.len() == 0 {
        Ok(Seq::empty())
    } else {
        match loaded(rows.drop_last()) {
            Err(e) => Err(e),
            Ok(table) => match read_row(rows.last()) {
                Err(e) => Err(e),
                Ok(a) => inserted(table, a),
            },
        }
    }
}

/// In a table, the place of an id is the one index with smaller ids
/// before it and no smaller id from it on.
pub proof fn lemma_position(rows: Seq<JobApplicationView>, id: int, k: int)
    requires
        ids_ascending(rows),
        0 <= k <= rows.len(),
        forall|i: int| 0 <= i < k ==> (#[trigger] rows[i]).id < id,
        forall|i: int| k <= i < rows.len() ==> (#[trigger] rows[i]).id >= id,
    ensures
        position(rows, id) == k,
    decreases rows.len(),
{
    if rows.len() > 0 {
        if rows.last().id < id {
            if k < rows.len() {
                assert(rows[rows.len() - 1].id >= id);
            }
        } else {
            if k == rows.len() {
                assert(rows[rows.len() - 1].id < id);
            }
            let front = rows.drop_last();
            assert forall|i: int| 0 <= i < k implies (#[trigger] front[i]).id < id by {
                assert(front[i] == rows[i]);
            }
            assert forall|i: int| k <= i < front.len() implies (#[trigger] front[i]).id >= id by {
                assert(front[i] == rows[i]);
            }
            lemma_position(front, id, k);
        }
    }
}

/// In a table, the record stored under an id is the row that has it.
pub proof fn lemma_found_at(rows: Seq<JobApplicationView>, k: int)
    requires
        ids_ascending(rows),
        0 <= k < rows.len(),
    ensures
        found(rows, rows[k].id) == Some(rows[k]),
{
    let id = rows[k].id;
    assert(has_id(rows, id));
    let c = choose|i: int| 0 <= i < rows.len() && (#[trigger] rows[i]).id == id;
    if c < k {
        assert(rows[c].id < rows[k].id);
    }
    if k < c {
        assert(rows[k].id < rows[c].id);
    }
}

/// A row added at its place leaves a table a table, in which it is
/// found under its id, and every other id holds what it held.
pub proof fn law_insert_keeps_table(rows: Seq<JobApplicationView>, a: JobApplicationView)
    requires
        table_wf(rows),
        a.wf(),
        a.id > 0,
        !has_id(rows, a.id),
    ensures
        inserted(rows, a) is Ok,
        table_wf(inserted(rows, a)->Ok_0),
        found(inserted(rows, a)->Ok_0, a.id) == Some(a),
        forall|other: int|
            other != a.id ==> #[trigger] found(inserted(rows, a)->Ok_0, other) == found(
                rows,
                other,
            ),
{
    let k = choose_place(rows, a.id);
    let t = rows.insert(k, a);
    assert(t == inserted(rows, a)->Ok_0);
    assert forall|i: int| k <= i < rows.len() implies (#[trigger] rows[i]).id > a.id by {
        if rows[i].id == a.id {
            assert(has_id(rows, a.id));
        }
    }
    assert forall|i: int, j: int| 0 <= i < j < t.len() implies t[i].id < t[j].id by {
        if j < k {
            assert(t[i] == rows[i] && t[j] == rows[j]);
        } else if j == k {
            assert(t[i] == rows[i]);
        } else if i < k {
            assert(t[i] == rows[i] && t[j] == rows[j - 1]);
        } else if i == k {
            assert(t[j] == rows[j - 1]);
        } else {
            assert(t[i] == rows[i - 1] && t[j] == rows[j - 1]);
        }
    }
    assert forall|i: int| 0 <= i < t.len() implies (#[trigger] t[i]).wf() && t[i].id > 0 by {
        if i < k {
            assert(t[i] == rows[i]);
        } else if i > k {
            assert(t[i] == rows[i - 1]);
        }
    }
    assert(t[k] == a);
    lemma_found_at(t, k);
    assert forall|other: int| other != a.id implies #[trigger] found(t, other) == found(
        rows,
        other,
    ) by {
        if has_id(rows, other) {
            let i = choose|i: int| 0 <= i < rows.len() && (#[trigger] rows[i]).id == other;
            lemma_found_at(rows, i);
            let j = if i < k {
                i
            } else {
                i + 1
            };
            assert(t[j] == rows[i]);
            lemma_found_at(t, j);
        } else if has_id(t, other) {
            let j = choose|j: int| 0 <= j < t.len() && (#[trigger] t[j]).id == other;
            if j < k {
                assert(t[j] == rows[j]);
            } else {
                assert(t[j] == rows[j - 1]);
            }
            assert(has_id(rows, other));
        }
    }
}

/// The place of an id in a table, with what makes it the place.
proof fn choose_place(rows: Seq<JobApplicationView>, id: int) -> (k: int)
    requires
        ids_ascending(rows),
    ensures
        0 <= k <= rows.len(),
        k == position(rows, id),
        forall|i: int| 0 <= i < k ==> (#[trigger] rows[i]).id < id,
        forall|i: int| k <= i < rows.len() ==> (#[trigger] rows[i]).id >= id,
    decreases rows.len(),
{
    if rows.len() == 0 {
        0
    } else if rows.last().id < id {
        assert forall|i: int| 0 <= i < rows.len() implies (#[trigger] rows[i]).id < id by {
            if i < rows.len() - 1 {
                assert(rows[i].id < rows[rows.len() - 1].id);
            }
        }
        rows.len() as int
    } else {
        let front = rows.drop_last();
        assert forall|i: int, j: int| 0 <= i < j < front.len() implies front[i].id
            < front[j].id by {
            assert(front[i] == rows[i] && front[j] == rows[j]);
        }
        let k = choose_place(front, id);
        assert forall|i: int| 0 <= i < k implies (#[trigger] rows[i]).id < id by {
            assert(front[i] == rows[i]);
        }
        assert forall|i: int| k <= i < rows.len() implies (#[trigger] rows[i]).id >= id by {
            if i < front.len() {
                assert(front[i] == rows[i]);
            }
        }
        k
    }
}

/// What is created can be got: a new record, stored under the next id,
/// is then found under that id, equal in every field but the id, and
/// every other id holds what it held.
pub proof fn law_get_after_create(rows: Seq<JobApplicationView>, a: JobApplicationView)
    requires
        table_wf(rows),
        a.wf(),
    ensures
        next_id(rows) > 0,
        !has_id(rows, next_id(rows)),
        table_wf(rows.push(a.with_id(next_id(rows)))),
        inserted(rows, a.with_id(next_id(rows))) == Ok::<Seq<JobApplicationView>, StoreError>(
            rows.push(a.with_id(next_id(rows))),
        ),
        found(rows.push(a.with_id(next_id(rows))), next_id(rows)) == Some(
            a.with_id(next_id(rows)),
        ),
        forall|other: int|
            other != next_id(rows) ==> #[trigger] found(
                rows.push(a.with_id(next_id(rows))),
                other,
            ) == found(rows, other),
{
    let id = next_id(rows);
    let b = a.with_id(id);
    if rows.len() > 0 {
        assert(rows[rows.len() - 1].id > 0);
    }
    assert forall|i: int| 0 <= i < rows.len() implies (#[trigger] rows[i]).id < id by {
        if i < rows.len() - 1 {
            assert(rows[i].id < rows[rows.len() - 1].id);
        }
    }
    assert(!has_id(rows, id));
    lemma_position(rows, id, rows.len() as int);
    assert(rows.insert(rows.len() as int, b) =~= rows.push(b));
    law_insert_keeps_table(rows, b);
}

/// Without its last row, a table is a table that holds what it held
/// under every id but the last row's.
proof fn lemma_found_without_last(rows: Seq<JobApplicationView>, id: int)
    requires
        ids_ascending(rows),
        rows.len() > 0,
    ensures
        ids_ascending(rows.drop_last()),
        found(rows.drop_last(), id) == (if id == rows.last().id {
            None
        } else {
            found(rows, id)
        }),
{
    let front = rows.drop_last();
    assert forall|i: int, j: int| 0 <= i < j < front.len() implies front[i].id < front[j].id by {
        assert(front[i] == rows[i] && front[j] == rows[j]);
    }
    if has_id(front, id) {
        let i = choose|i: int| 0 <= i < front.len() && (#[trigger] front[i]).id == id;
        assert(front[i] == rows[i]);
        assert(rows[i].id < rows[rows.len() - 1].id);
        lemma_found_at(front, i);
        lemma_found_at(rows, i);
    } else if id != rows.last().id && has_id(rows, id) {
        let i = choose|i: int| 0 <= i < rows.len() && (#[trigger] rows[i]).id == id;
        assert(front[i] == rows[i]);
    }
}

/// What a table holds under each id says what the table is: two tables
/// that hold the same under every id are the same sequence of rows.
pub proof fn law_table_is_its_content(s: Seq<JobApplicationView>, t: Seq<JobApplicationView>)
    requires
        ids_ascending(s),
        ids_ascending(t),
        forall|id: int| #[trigger] found(s, id) == found(t, id),
    ensures
        s == t,
    decreases s.len(),
{
    if s.len() == 0 {
        if t.len() > 0 {
            lemma_found_at(t, 0);
            assert(found(s, t[0].id) == found(t, t[0].id));
        }
        assert(s =~= t);
    } else {
        if t.len() == 0 {
            lemma_found_at(s, 0);
            assert(found(s, s[0].id) == found(t, s[0].id));
        }
        let ls = s.last();
        let lt = t.last();
        lemma_found_at(s, s.len() - 1);
        lemma_found_at(t, t.len() - 1);
        assert(found(s, ls.id) == found(t, ls.id));
        assert(found(s, lt.id) == found(t, lt.id));
        let j = choose|j: int| 0 <= j < t.len() && (#[trigger] t[j]).id == ls.id;
        if j < t.len() - 1 {
            assert(t[j].id < t[t.len() - 1].id);
        }
        let i = choose|i: int| 0 <= i < s.len() && (#[trigger] s[i]).id == lt.id;
        if i < s.len() - 1 {
            assert(s[i].id < s[s.len() - 1].id);
        }
        assert(ls == lt);
        assert forall|id: int| #[trigger]
            found(s.drop_last(), id) == found(t.drop_last(), id) by {
            lemma_found_without_last(s, id);
            lemma_found_without_last(t, id);
            assert(found(s, id) == found(t, id));
        }
        lemma_found_without_last(s, 0);
        lemma_found_without_last(t, 0);
        law_table_is_its_content(s.drop_last(), t.drop_last());
        assert(s =~= s.drop_last().push(ls));
        assert(t =~= t.drop_last().push(lt));
    }
}

/// The order in which rows are added does not matter: two rows with ids
/// of their own, added one way round or the other, give the same table.
pub proof fn law_insert_order_is_irrelevant(
    rows: Seq<JobApplicationView>,
    a: JobApplicationView,
    b: JobApplicationView,
)
    requires
        table_wf(rows),
        a.wf(),
        b.wf(),
        a.id > 0,
        b.id > 0,
        a.id != b.id,
        !has_id(rows, a.id),
        !has_id(rows, b.id),
    ensures
        inserted(rows, a) is Ok,
        inserted(rows, b) is Ok,
        inserted(inserted(rows, a)->Ok_0, b) is Ok,
        inserted(inserted(rows, a)->Ok_0, b) == inserted(inserted(rows, b)->Ok_0, a),
{
    law_insert_keeps_table(rows, a);
    law_insert_keeps_table(rows, b);
    let with_a = inserted(rows, a)->Ok_0;
    let with_b = inserted(rows, b)->Ok_0;
    assert(found(with_a, b.id) == found(rows, b.id));
    assert(found(with_b, a.id) == found(rows, a.id));
    law_insert_keeps_table(with_a, b);
    law_insert_keeps_table(with_b, a);
    let ab = inserted(with_a, b)->Ok_0;
    let ba = inserted(with_b, a)->Ok_0;
    assert forall|id: int| #[trigger] found(ab, id) == found(ba, id) by {
        if id == a.id {
            assert(found(ab, id) == found(with_a, id));
        } else if id == b.id {
            assert(found(ba, id) == found(with_b, id));
        } else {
            assert(found(ab, id) == found(with_a, id));
            assert(found(with_a, id) == found(rows, id));
            assert(found(ba, id) == found(with_b, id));
            assert(found(with_b, id) == found(rows, id));
        }
    }
    law_table_is_its_content(ab, ba);
}

/// The table of stored records.
pub struct ApplicationStore {
    rows: Vec<JobApplication>,
}

impl View for ApplicationStore {
    type V = Seq<JobApplicationView>;

    closed spec fn view(&self) -> Seq<JobApplicationView> {
        Seq::new(self.rows@.len(), |i: int| self.rows@[i]@)
    }
}

/// The records of `v` as mathematical values.
pub open spec fn records_view(v: Seq<JobApplication>) -> Seq<JobApplicationView> {
    Seq::new(v.len(), |i: int| v[i]@)
}

impl ApplicationStore {
    /// Every row is a well-formed record with a positive id, and the ids
    /// are in strictly ascending order.
    pub open spec fn wf(&self) -> bool {
        table_wf(self@)
    }

    /// An empty table.
    pub fn new() -> (s: ApplicationStore)
        ensures
            s@ == Seq::<JobApplicationView>::empty(),
            s.wf(),
    {
        let s = ApplicationStore { rows: Vec::new() };
        assert(s@ =~= Seq::<JobApplicationView>::empty());
        s
    }

    /// The number of stored records.
    pub fn len(&self) -> (n: usize)
        ensures
            n == self@.len(),
    {
        self.rows.len()
    }

    /// Stores a new record under the next id, which is written into the
    /// record and returned. What id the record had before does not
    /// matter. Where no id is left, nothing is stored and the record is
    /// as it was.
    pub fn create(&mut self, record: &mut JobApplication) -> (r: Result<i64, StoreError>)
        requires
            old(self).wf(),
            old(record).wf(),
        ensures
            final(self).wf(),
            r == (if next_id(old(self)@) <= i64::MAX {
                Ok::<i64, StoreError>(next_id(old(self)@) as i64)
            } else {
                Err::<i64, StoreError>(StoreError::Exhausted)
            }),
            r is Ok ==> final(record)@ == old(record)@.with_id(next_id(old(self)@))
                && final(self)@ == old(self)@.push(final(record)@),
            r is Err ==> final(record)@ == old(record)@ && final(self)@ == old(self)@,
    {
        let n = self.rows.len();
        let id: i64 = if n == 0 {
            1
        } else {
            assert(self@[n - 1] == self.rows@[n - 1]@);
            let last = self.rows[n - 1].id;
            if last == i64::MAX {
                return Err(StoreError::Exhausted);
            }
            last + 1
        };
        proof {
            if n > 0 {
                assert(self@[n - 1].id > 0);
            }
            law_get_after_create(self@, record@);
        }
        record.id = id;
        self.rows.push(record.duplicate());
        assert(self@ =~= old(self)@.push(record@));
        Ok(id)
    }

    /// Adds a record that has an id already, at the place of that id.
    /// An id that is not positive, or that a stored record has, leaves
    /// the table as it was.
    pub fn insert(&mut self, record: JobApplication) -> (r: Result<(), StoreError>)
        requires
            old(self).wf(),
            record.wf(),
        ensures
            final(self).wf(),
            match inserted(old(self)@, record@) {
                Ok(table) => r is Ok && final(self)@ == table,
                Err(e) => r == Err::<(), StoreError>(e) && final(self)@ == old(self)@,
            },
    {
        if record.id <= 0 {
            return Err(StoreError::InvalidId);
        }
        let n = self.rows.len();
        let mut k: usize = 0;
        while k < n && self.rows[k].id < record.id
            invariant
                n == self.rows@.len(),
                k <= n,
                forall|i: int| 0 <= i < k ==> (#[trigger] self@[i]).id < record.id,
            decreases n - k,
        {
            assert(self@[k as int] == self.rows@[k as int]@);
            k = k + 1;
        }
        if k < n && self.rows[k].id == record.id {
            assert(self@[k as int] == self.rows@[k as int]@);
            assert(has_id(self@, record.id as int));
            return Err(StoreError::Conflict);
        }
        proof {
            if k < n {
                assert(self@[k as int] == self.rows@[k as int]@);
            }
            assert forall|i: int| k <= i < n implies (#[trigger] self@[i]).id > record.id by {
                if i > k {
                    assert(self@[k as int].id < self@[i].id);
                }
            }
            assert(!has_id(self@, record.id as int));
            lemma_position(self@, record.id as int, k as int);
            law_insert_keeps_table(self@, record@);
        }
        self.rows.insert(k, record);
        assert(self@ =~= old(self)@.insert(k as int, record@));
        Ok(())
    }

    /// The table that holds the given rows, whatever their order.
    pub fn from_rows(rows: &Vec<StoredRow>) -> (r: Result<ApplicationStore, StoreError>)
        ensures
            match loaded(Seq::new(rows@.len(), |i: int| rows@[i]@)) {
                Ok(table) => r is Ok && r->Ok_0@ == table && r->Ok_0.wf(),
                Err(e) => r is Err && r->Err_0 == e,
            },
    {
        let ghost all = Seq::new(rows@.len(), |i: int| rows@[i]@);
        let mut store = ApplicationStore::new();
        let n = rows.len();
        let mut i: usize = 0;
        assert(all.take(0) =~= Seq::<StoredRowView>::empty());
        while i < n
            invariant
                n == rows@.len(),
                i <= n,
                all == Seq::new(rows@.len(), |i: int| rows@[i]@),
                store.wf(),
                loaded(all.take(i as int)) == Ok::<Seq<JobApplicationView>, StoreError>(store@),
            decreases n - i,
        {
            proof {
                assert(all.take(i + 1).drop_last() =~= all.take(i as int));
                assert(all.take(i + 1).last() == rows@[i as int]@);
            }
            let record = match JobApplication::from_row(&rows[i]) {
                Ok(a) => a,
                Err(e) => {
                    proof {
                        lemma_loaded_error_stays(all, i + 1);
                    }
                    return Err(e);
                },
            };
            match store.insert(record) {
                Ok(()) => {},
                Err(e) => {
                    proof {
                        lemma_loaded_error_stays(all, i + 1);
                    }
                    return Err(e);
                },
            }
            i = i + 1;
        }
        assert(all.take(n as int) =~= all);
        Ok(store)
    }

    /// Every stored record, in ascending order of the ids.
    pub fn list(&self) -> (records: Vec<JobApplication>)
        requires
            self.wf(),
        ensures
            records_view(records@) == self@,
            ids_ascending(records_view(records@)),
    {
        let mut records: Vec<JobApplication> = Vec::new();
        let n = self.rows.len();
        let mut i: usize = 0;
        assert(records_view(records@) =~= self@.take(0));
        while i < n
            invariant
                n == self.rows@.len(),
                i <= n,
                records@.len() == i,
                records_view(records@) == self@.take(i as int),
            decreases n - i,
        {
            let ghost before = records@;
            records.push(self.rows[i].duplicate());
            assert(records_view(records@) =~= self@.take(i + 1)) by {
                assert forall|j: int| 0 <= j < i + 1 implies records_view(records@)[j]
                    == self@.take(i + 1)[j] by {
                    if j < i {
                        assert(records@[j] == before[j]);
                        assert(records_view(before)[j] == self@.take(i as int)[j]);
                    }
                }
            }
            i = i + 1;
        }
        assert(self@.take(n as int) =~= self@);
        records
    }

    /// The record stored under the id. An id that no stored record has
    /// gives `NotFound`, never a record.
    pub fn get(&self, id: i64) -> (r: Result<JobApplication, StoreError>)
        requires
            self.wf(),
        ensures
            match found(self@, id as int) {
                Some(a) => r is Ok && r->Ok_0@ == a,
                None => r == Err::<JobApplication, StoreError>(StoreError::NotFound),
            },
    {
        let n = self.rows.len();
        let mut k: usize = 0;
        while k < n
            invariant
                n == self.rows@.len(),
                k <= n,
                self.wf(),
                forall|i: int| 0 <= i < k ==> (#[trigger] self@[i]).id != id,
            decreases n - k,
        {
            assert(self@[k as int] == self.rows@[k as int]@);
            if self.rows[k].id == id {
                proof {
                    lemma_found_at(self@, k as int);
                }
                return Ok(self.rows[k].duplicate());
            }
            k = k + 1;
        }
        assert(!has_id(self@, id as int));
        Err(StoreError::NotFound)
    }

    /// Reserved: changes nothing and says so.
    pub fn update(&self, record: &JobApplication) -> (r: Result<(), StoreError>)
        ensures
            r == Err::<(), StoreError>(StoreError::Unsupported),
    {
        Err(StoreError::Unsupported)
    }

    /// Reserved: removes nothing and says so.
    pub fn delete(&self, id: i64) -> (r: Result<(), StoreError>)
        ensures
            r == Err::<(), StoreError>(StoreError::Unsupported),
    {
        Err(StoreError::Unsupported)
    }
}

/// Once a row cannot be added, the rows after it do not change the
/// reason.
proof fn lemma_loaded_error_stays(rows: Seq<StoredRowView>, n: int)
    requires
        0 <= n <= rows.len(),
        loaded(rows.take(n)) is Err,
    ensures
        loaded(rows) == loaded(rows.take(n)),
    decreases rows.len() - n,
{
    if n < rows.len() {
        assert(rows.take(n + 1).drop_last() =~= rows.take(n));
        lemma_loaded_error_stays(rows, n + 1);
    } else {
        assert(rows.take(n) =~= rows);
    }
}

} // verus!
