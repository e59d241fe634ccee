use vstd::prelude::*;

use crate::date::UtcInstant;
use crate::json::JsonValue;

verus! {

/// What the store reported when a write failed.
#[derive(Debug, Clone, Copy, PartialEq, Eq, Structural)]
pub enum StorageFailure {
    /// A plain insert met a record that already has its key.
    UniqueViolation,
    /// No identifier is left to assign.
    IdSpaceExhausted,
    /// The storage backend could not complete the write.
    Backend,
}

/// The writer's error.
#[derive(Debug)]
pub enum WantedlyProfileViewRawError {
    JsonStructure(String),
    InvalidDate { raw: String },
    Db(StorageFailure),
}

/// A stored profile-view record.
#[derive(Debug)]
pub struct WantedlyProfileViewRaw {
    pub id: i64,
    pub viewer_user_id: String,
    pub viewer_company_page_url: Option<String>,
    pub viewer_company_name_raw: Option<String>,
    pub viewed_at_raw: String,
    pub viewed_at: UtcInstant,
    pub raw_json: JsonValue,
    pub created_at: UtcInstant,
}

/// A profile-view record ready to be written.
#[derive(Debug)]
pub struct NewWantedlyProfileViewRaw {
    pub viewer_user_id: String,
    pub viewer_company_page_url: Option<String>,
    pub viewer_company_name_raw: Option<String>,
    pub viewed_at_raw: String,
    pub viewed_at: UtcInstant,
    pub raw_json: JsonValue,
}

/// The contents of a record: texts as characters, instants as seconds.
pub struct RecordView {
    pub viewer_user_id: Seq<char>,
    pub viewer_company_page_url: Option<Seq<char>>,
    pub viewer_company_name_raw: Option<Seq<char>>,
    pub viewed_at_raw: Seq<char>,
    pub viewed_at: int,
    pub raw_json: JsonValue,
}

/// A stored record: its identifier, contents and creation instant.
pub struct RowView {
    pub id: int,
    pub record: RecordView,
    pub created_at: int,
}

/// The characters of an optional text.
pub open spec fn text_view(t: Option<String>) -> Option<Seq<char>> {
    match t {
        Some(s) => Some(s@),
        None => None,
    }
}

impl View for NewWantedlyProfileViewRaw {
    type V = RecordView;

    open spec fn view(&self) -> RecordView {
        RecordView {
            viewer_user_id: self.viewer_user_id@,
            viewer_company_page_url: text_view(self.viewer_company_page_url),
            viewer_company_name_raw: text_view(self.viewer_company_name_raw),
            viewed_at_raw: self.viewed_at_raw@,
            viewed_at: self.viewed_at.unix_seconds as int,
            raw_json: self.raw_json,
        }
    }
}

impl View for WantedlyProfileViewRaw {
    type V = RowView;

    open spec fn view(&self) -> RowView {
        RowView {
            id: self.id as int,
            record: RecordView {
                viewer_user_id: self.viewer_user_id@,
                viewer_company_page_url: text_view(self.viewer_company_page_url),
                viewer_company_name_raw: text_view(self.viewer_company_name_raw),
                viewed_at_raw: self.viewed_at_raw@,
                viewed_at: self.viewed_at.unix_seconds as int,
                raw_json: self.raw_json,
            },
            created_at: self.created_at.unix_seconds as int,
        }
    }
}

/// The contents of a profile-view table: its records, and the identifier
/// that the next inserted record gets.
pub struct TableModel {
    pub rows: Seq<RowView>,
    pub next_id: int,
}

/// Whether two records have one key (viewer, view time).
pub open spec fn same_key(a: RecordView, b: RecordView) -> bool {
    a.viewer_user_id == b.viewer_user_id && a.viewed_at == b.viewed_at
}

/// At most one record per key; identifiers distinct, positive and below the
/// next one.
pub open spec fn table_wf(m: TableModel) -> bool {
    &&& 1 <= m.next_id <= i64::MAX
    &&& forall|i: int, j: int|
        0 <= i < j < m.rows.len() ==> !same_key(
            (#[trigger] m.rows[i]).record,
            (#[trigger] m.rows[j]).record,
        )
    &&& forall|i: int, j: int|
        0 <= i < j < m.rows.len() ==> (#[trigger] m.rows[i]).id != (#[trigger] m.rows[j]).id
    &&& forall|i: int| 0 <= i < m.rows.len() ==> 1 <= (#[trigger] m.rows[i]).id < m.next_id
}

/// Whether the table holds a record with the key of `rec`.
pub open spec fn has_key(m: TableModel, rec: RecordView) -> bool {
    exists|i: int| 0 <= i < m.rows.len() && same_key((#[trigger] m.rows[i]).record, rec)
}

/// The position of the record with the key of `rec`.
pub open spec fn key_index(m: TableModel, rec: RecordView) -> int {
    choose|i: int| 0 <= i < m.rows.len() && same_key((#[trigger] m.rows[i]).record, rec)
}

/// A stored record with its non-key fields replaced by those of `rec`.
pub open spec fn overwritten(row: RowView, rec: RecordView) -> RowView {
    RowView { record: RecordView { viewer_user_id: row.record.viewer_user_id, viewed_at: row.record.viewed_at, ..rec }, ..row }
}

/// Insert-or-update keyed on (viewer, view time): an existing record keeps
/// its identifier and takes the new non-key fields; otherwise the record is
/// inserted under the next identifier.
pub open spec fn upsert_spec(m: TableModel, rec: RecordView, now: int) -> (
    TableModel,
    Result<int, StorageFailure>,
) {
    if has_key(m, rec) {
        let i = key_index(m, rec);
        (
            TableModel { rows: m.rows.update(i, overwritten(m.rows[i], rec)), next_id: m.next_id },
            Ok(m.rows[i].id),
        )
    } else if m.next_id < i64::MAX {
        (
            TableModel {
                rows: m.rows.push(RowView { id: m.next_id, record: rec, created_at: now }),
                next_id: m.next_id + 1,
            },
            Ok(m.next_id),
        )
    } else {
        (m, Err(StorageFailure::IdSpaceExhausted))
    }
}

/// Plain insert: refused when the key is already stored.
pub open spec fn insert_spec(m: TableModel, rec: RecordView, now: int) -> (
    TableModel,
    Result<int, StorageFailure>,
) {
    if has_key(m, rec) {
        (m, Err(StorageFailure::UniqueViolation))
    } else {
        upsert_spec(m, rec, now)
    }
}

/// Whether a write's outcome is the one the model gives.
pub open spec fn write_outcome(
    r: Result<i64, WantedlyProfileViewRawError>,
    want: Result<int, StorageFailure>,
) -> bool {
    match (r, want) {
        (Ok(id), Ok(w)) => id == w,
        (Err(WantedlyProfileViewRawError::Db(f)), Err(w)) => f == w,
        _ => false,
    }
}

/// Facts of one successful upsert: the table stays well formed, the record
/// under the returned identifier has the written key and contents, records
/// of other keys are untouched, and the table grows by one exactly when the
/// key was new.
pub proof fn lemma_upsert_effect(m: TableModel, rec: RecordView, now: int)
    requires
        table_wf(m),
        upsert_spec(m, rec, now).1 is Ok,
    ensures
        ({
            let (m1, r) = upsert_spec(m, rec, now);
            &&& table_wf(m1)
            &&& m1.next_id <= m.next_id + 1
            &&& m1.rows.len() == if has_key(m, rec) {
                m.rows.len()
            } else {
                m.rows.len() + 1
            }
            &&& exists|i: int|
                0 <= i < m1.rows.len() && (#[trigger] m1.rows[i]).id == r->Ok_0 && same_key(
                    m1.rows[i].record,
                    rec,
                ) && m1.rows[i].record.raw_json == rec.raw_json && m1.rows[i].record.viewed_at_raw
                    == rec.viewed_at_raw && m1.rows[i].record.viewer_company_page_url
                    == rec.viewer_company_page_url && m1.rows[i].record.viewer_company_name_raw
                    == rec.viewer_company_name_raw
            &&& forall|j: int|
                0 <= j < m.rows.len() && !same_key(#[trigger] m.rows[j].record, rec) ==> m1.rows[j]
                    == m.rows[j]
        }),
{
    let (m1, r) = upsert_spec(m, rec, now);
    if has_key(m, rec) {
        let i = key_index(m, rec);
        assert(m1.rows[i].id == r->Ok_0);
        assert forall|a: int, b: int| 0 <= a < b < m1.rows.len() implies !same_key(
            (#[trigger] m1.rows[a]).record,
            (#[trigger] m1.rows[b]).record,
        ) by {
            assert(same_key(m1.rows[a].record, m1.rows[b].record) == same_key(
                m.rows[a].record,
                m.rows[b].record,
            ));
        }
        assert forall|a: int, b: int| 0 <= a < b < m1.rows.len() implies (
        #[trigger] m1.rows[a]).id != (#[trigger] m1.rows[b]).id by {
            assert(m1.rows[a].id == m.rows[a].id && m1.rows[b].id == m.rows[b].id);
        }
        assert forall|a: int| 0 <= a < m1.rows.len() implies 1 <= (#[trigger] m1.rows[a]).id
            < m1.next_id by {
            assert(m1.rows[a].id == m.rows[a].id);
        }
    } else {
        let i = m.rows.len() as int;
        assert(m1.rows[i].id == r->Ok_0);
        assert forall|a: int, b: int| 0 <= a < b < m1.rows.len() implies !same_key(
            (#[trigger] m1.rows[a]).record,
            (#[trigger] m1.rows[b]).record,
        ) by {
            if b == m.rows.len() {
                assert(!same_key(m.rows[a].record, rec));
            } else {
                assert(m1.rows[a] == m.rows[a] && m1.rows[b] == m.rows[b]);
            }
        }
        assert forall|a: int, b: int| 0 <= a < b < m1.rows.len() implies (
        #[trigger] m1.rows[a]).id != (#[trigger] m1.rows[b]).id by {
            if b == m.rows.len() {
                assert(m.rows[a].id < m.next_id);
            } else {
                assert(m1.rows[a] == m.rows[a] && m1.rows[b] == m.rows[b]);
            }
        }
        assert forall|a: int| 0 <= a < m1.rows.len() implies 1 <= (#[trigger] m1.rows[a]).id
            < m1.next_id by {
            if a < m.rows.len() {
                assert(m1.rows[a] == m.rows[a]);
            }
        }
    }
}

/// Within one well-formed table, the record with a given key is the one at
/// `key_index`.
pub proof fn lemma_key_index_unique(m: TableModel, rec: RecordView, i: int)
    requires
        table_wf(m),
        0 <= i < m.rows.len(),
        same_key(m.rows[i].record, rec),
    ensures
        has_key(m, rec),
        key_index(m, rec) == i,
{
    assert(has_key(m, rec));
    let j = key_index(m, rec);
    if j != i {
        if j < i {
            assert(!same_key(m.rows[j].record, m.rows[i].record));
        } else {
            assert(!same_key(m.rows[i].record, m.rows[j].record));
        }
    }
}

/// An in-memory profile-view table with the store's conflict rules.
pub struct ProfileViewTable {
    rows: Vec<WantedlyProfileViewRaw>,
    next_id: i64,
}

impl ProfileViewTable {
    pub closed spec fn model(&self) -> TableModel {
        TableModel {
            rows: self.rows@.map_values(|r: WantedlyProfileViewRaw| r@),
            next_id: self.next_id as int,
        }
    }

    pub open spec fn wf(&self) -> bool {
        table_wf(self.model())
    }

    /// An empty table.
    pub fn new() -> (t: Self)
        ensures
            t.wf(),
            t.model().rows.len() == 0,
            t.model().next_id == 1,
    {
        ProfileViewTable { rows: Vec::new(), next_id: 1 }
    }

    /// The number of stored records.
    pub fn len(&self) -> (n: usize)
        ensures
            n == self.model().rows.len(),
    {
        self.rows.len()
    }

    /// The record at position `i`.
    pub fn row(&self, i: usize) -> (r: &WantedlyProfileViewRaw)
        requires
            i < self.model().rows.len(),
        ensures
            r@ == self.model().rows[i as int],
    {
        &self.rows[i]
    }

    /// The position of the record with the key of `rec`, if there is one.
    fn find_key(&self, rec: &NewWantedlyProfileViewRaw) -> (r: Option<usize>)
        requires
            self.wf(),
        ensures
            match r {
                Some(i) => has_key(self.model(), rec@) && i == key_index(self.model(), rec@),
                None => !has_key(self.model(), rec@),
            },
    {
        let mut i: usize = 0;
        while i < self.rows.len()
            invariant
                0 <= i <= self.rows@.len(),
                self.wf(),
                forall|k: int| 0 <= k < i ==> !same_key((#[trigger] self.rows@[k])@.record, rec@),
            decreases self.rows.len() - i,
        {
            if self.rows[i].viewer_user_id == rec.viewer_user_id && self.rows[i].viewed_at.unix_seconds
                == rec.viewed_at.unix_seconds {
                proof {
                    lemma_key_index_unique(self.model(), rec@, i as int);
                }
                return Some(i);
            }
            proof {
                assert(self.model().rows[i as int] == self.rows@[i as int]@);
            }
            i = i + 1;
        }
        None
    }
}

/// Writes a record keyed on (viewer, view time): inserts it when the key is
/// new, otherwise overwrites the stored record's non-key fields. Returns the
/// record's identifier, the same for every write of one key.
pub fn upsert_profile_view_raw(
    table: &mut ProfileViewTable,
    new: NewWantedlyProfileViewRaw,
    now: UtcInstant,
) -> (r: Result<i64, WantedlyProfileViewRawError>)
    requires
        old(table).wf(),
    ensures
        final(table).wf(),
        final(table).model() == upsert_spec(old(table).model(), new@, now.unix_seconds as int).0,
        write_outcome(r, upsert_spec(old(table).model(), new@, now.unix_seconds as int).1),
{
    let ghost m0 = table.model();
    let ghost rv = new@;
    match table.find_key(&new) {
        Some(i) => {
            let id = table.rows[i].id;
            let viewer_user_id = table.rows[i].viewer_user_id.clone();
            let viewed_at = table.rows[i].viewed_at;
            let created_at = table.rows[i].created_at;
            assert(m0.rows[i as int] == table.rows@[i as int]@);
            let ghost want = overwritten(m0.rows[i as int], rv);
            let row = WantedlyProfileViewRaw {
                id,
                viewer_user_id,
                viewer_company_page_url: new.viewer_company_page_url,
                viewer_company_name_raw: new.viewer_company_name_raw,
                viewed_at_raw: new.viewed_at_raw,
                viewed_at,
                raw_json: new.raw_json,
                created_at,
            };
            assert(row@ == want);
            table.rows.set(i, row);
            proof {
                assert(table.model().rows =~= m0.rows.update(i as int, want));
                lemma_upsert_effect(m0, rv, now.unix_seconds as int);
            }
            Ok(id)
        },
        None => {
            if table.next_id == i64::MAX {
                return Err(WantedlyProfileViewRawError::Db(StorageFailure::IdSpaceExhausted));
            }
            let id = table.next_id;
            let ghost want = RowView { id: id as int, record: rv, created_at: now.unix_seconds as int };
            let row = WantedlyProfileViewRaw {
                id,
                viewer_user_id: new.viewer_user_id,
                viewer_company_page_url: new.viewer_company_page_url,
                viewer_company_name_raw: new.viewer_company_name_raw,
                viewed_at_raw: new.viewed_at_raw,
                viewed_at: new.viewed_at,
                raw_json: new.raw_json,
                created_at: now,
            };
            assert(row@ == want);
            table.rows.push(row);
            table.next_id = id + 1;
            proof {
                assert(table.model().rows =~= m0.rows.push(want));
                lemma_upsert_effect(m0, rv, now.unix_seconds as int);
            }
            Ok(id)
        },
    }
}

/// Writes a record that must be new: fails with a unique violation when
/// its key (viewer, view time) is already stored.
pub fn insert_profile_view_raw_strict(
    table: &mut ProfileViewTable,
    new: NewWantedlyProfileViewRaw,
    now: UtcInstant,
) -> (r: Result<i64, WantedlyProfileViewRawError>)
    requires
        old(table).wf(),
    ensures
        final(table).wf(),
        final(table).model() == insert_spec(old(table).model(), new@, now.unix_seconds as int).0,
        write_outcome(r, insert_spec(old(table).model(), new@, now.unix_seconds as int).1),
{
    match table.find_key(&new) {
        Some(_) => Err(WantedlyProfileViewRawError::Db(StorageFailure::UniqueViolation)),
        None => upsert_profile_view_raw(table, new, now),
    }
}

} // verus!
