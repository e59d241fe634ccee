use vstd::prelude::*;

use crate::converter::{
    convert_wantedly_json_node_to_storage, record_from_fields, WantedlyProfileViewConvertError,
};
use crate::date::UtcInstant;
use crate::dto::{decode_fields, NodeDecodeFailure, WantedlyProfileViewNode, WantedlyProfileViewNodeError};
use crate::json::{edges_spec, field_of, into_impressed_user_edges, node_key, JsonValue, WantedlyJsonError};
use crate::raw::{
    upsert_profile_view_raw, upsert_spec, NewWantedlyProfileViewRaw, ProfileViewTable, RecordView,
    StorageFailure, TableModel, WantedlyProfileViewRawError,
};

verus! {

/// Why an import stopped.
#[derive(Debug)]
pub enum WantedlyImportError {
    WantedlyJson(WantedlyJsonError),
    WantedlyProfileViewJsonNode(WantedlyProfileViewNodeError),
    WantedlyProfileViewConvert(WantedlyProfileViewConvertError),
    RawRecord(WantedlyProfileViewRawError),
    /// The edge at this position has no `node` field.
    MissingNode(usize),
}

/// The kinds of failure of an import, with what locates each.
pub enum ImportFailure {
    StructureMismatch,
    MissingNode(int),
    NodeDecode(NodeDecodeFailure),
    UnrecognizedDateToken(Seq<char>),
    Storage(StorageFailure),
}

impl WantedlyImportError {
    pub open spec fn failure(self) -> ImportFailure {
        match self {
            WantedlyImportError::WantedlyJson(_) => ImportFailure::StructureMismatch,
            WantedlyImportError::WantedlyProfileViewJsonNode(
                WantedlyProfileViewNodeError::Decode(f),
            ) => ImportFailure::NodeDecode(f),
            WantedlyImportError::WantedlyProfileViewConvert(
                WantedlyProfileViewConvertError::InvalidDate { raw },
            ) => ImportFailure::UnrecognizedDateToken(raw@),
            WantedlyImportError::RawRecord(WantedlyProfileViewRawError::Db(f)) => ImportFailure::Storage(f),
            WantedlyImportError::RawRecord(WantedlyProfileViewRawError::InvalidDate { raw }) => {
                ImportFailure::UnrecognizedDateToken(raw@)
            },
            WantedlyImportError::RawRecord(WantedlyProfileViewRawError::JsonStructure(_)) => {
                ImportFailure::StructureMismatch
            },
            WantedlyImportError::MissingNode(i) => ImportFailure::MissingNode(i as int),
        }
    }
}

/// The outcome of an exec call as a model outcome.
pub open spec fn outcome<T: Copy>(r: Result<T, WantedlyImportError>, f: spec_fn(T) -> int) -> Result<
    int,
    ImportFailure,
> {
    match r {
        Ok(v) => Ok(f(v)),
        Err(e) => Err(e.failure()),
    }
}

/// The record that a node payload maps to against an anchor: decoded, then
/// its date token resolved.
pub open spec fn node_record(node: JsonValue, anchor: int) -> Result<RecordView, ImportFailure> {
    match decode_fields(node) {
        Err(f) => Err(ImportFailure::NodeDecode(f)),
        Ok(fields) => match record_from_fields(fields, node, anchor) {
            Some(rec) => Ok(rec),
            None => Err(ImportFailure::UnrecognizedDateToken(fields.3@)),
        },
    }
}

/// The record of the edge at position `index`.
pub open spec fn edge_record(edge: JsonValue, index: int, anchor: int) -> Result<
    RecordView,
    ImportFailure,
> {
    match field_of(edge, node_key()) {
        None => Err(ImportFailure::MissingNode(index)),
        Some(node) => node_record(node, anchor),
    }
}

/// One write of a record as an import step.
pub open spec fn write_record(m: TableModel, rec: RecordView, now: int) -> (
    TableModel,
    Result<int, ImportFailure>,
) {
    let (m1, r) = upsert_spec(m, rec, now);
    match r {
        Ok(id) => (m1, Ok(id)),
        Err(f) => (m1, Err(ImportFailure::Storage(f))),
    }
}

/// Importing one node payload: the table after, and the record's identifier.
pub open spec fn import_node_spec(m: TableModel, node: JsonValue, anchor: int, now: int) -> (
    TableModel,
    Result<int, ImportFailure>,
) {
    match node_record(node, anchor) {
        Err(e) => (m, Err(e)),
        Ok(rec) => write_record(m, rec, now),
    }
}

/// Importing edges in order, stopping at the first failure; the edges
/// before it stay written. The count is of edges written.
pub open spec fn import_edges_spec(m: TableModel, edges: Seq<JsonValue>, anchor: int, now: int) -> (
    TableModel,
    Result<int, ImportFailure>,
)
    decreases edges.len(),
{
    if edges.len() == 0 {
        (m, Ok(0))
    } else {
        let (m1, r1) = import_edges_spec(m, edges.drop_last(), anchor, now);
        match r1 {
            Err(e) => (m1, Err(e)),
            Ok(count) => match edge_record(edges.last(), edges.len() - 1, anchor) {
                Err(e) => (m1, Err(e)),
                Ok(rec) => {
                    let (m2, r2) = write_record(m1, rec, now);
                    match r2 {
                        Ok(_) => (m2, Ok(count + 1)),
                        Err(e) => (m2, Err(e)),
                    }
                },
            },
        }
    }
}

/// Importing a document: its edge list, or a structure mismatch with no write.
pub open spec fn import_document_spec(m: TableModel, doc: JsonValue, anchor: int, now: int) -> (
    TableModel,
    Result<int, ImportFailure>,
) {
    match edges_spec(doc) {
        None => (m, Err(ImportFailure::StructureMismatch)),
        Some(edges) => import_edges_spec(m, edges, anchor, now),
    }
}

/// Maps one node payload to the record to write: decodes it, resolves its
/// date token against the snapshot instant and keeps the payload as it came.
pub fn prepare_profile_view(json_node: JsonValue, snapshot_at: UtcInstant) -> (r: Result<
    NewWantedlyProfileViewRaw,
    WantedlyImportError,
>)
    ensures
        match r {
            Ok(rec) => node_record(json_node, snapshot_at.unix_seconds as int) == Ok::<
                RecordView,
                ImportFailure,
            >(rec@),
            Err(e) => node_record(json_node, snapshot_at.unix_seconds as int) == Err::<
                RecordView,
                ImportFailure,
            >(e.failure()),
        },
{
    let dto = match WantedlyProfileViewNode::from_value(&json_node) {
        Ok(n) => n,
        Err(e) => return Err(WantedlyImportError::WantedlyProfileViewJsonNode(e)),
    };
    match convert_wantedly_json_node_to_storage(&dto, json_node, snapshot_at) {
        Ok(rec) => Ok(rec),
        Err(e) => Err(WantedlyImportError::WantedlyProfileViewConvert(e)),
    }
}

/// Maps the edge at position `index` to the record to write; an edge without
/// `node` fails with `MissingNode(index)`.
pub fn prepare_edge(edge: JsonValue, index: usize, snapshot_at: UtcInstant) -> (r: Result<
    NewWantedlyProfileViewRaw,
    WantedlyImportError,
>)
    ensures
        match r {
            Ok(rec) => edge_record(edge, index as int, snapshot_at.unix_seconds as int) == Ok::<
                RecordView,
                ImportFailure,
            >(rec@),
            Err(e) => edge_record(edge, index as int, snapshot_at.unix_seconds as int) == Err::<
                RecordView,
                ImportFailure,
            >(e.failure()),
        },
{
    proof {
        reveal_strlit("node");
    }
    assert("node"@ =~= node_key());
    match edge.into_field("node") {
        None => Err(WantedlyImportError::MissingNode(index)),
        Some(node) => prepare_profile_view(node, snapshot_at),
    }
}

/// Imports one node payload into the table: decode, map, then upsert.
/// Returns the stored record's identifier.
pub fn import_one_profile_view(
    table: &mut ProfileViewTable,
    json_node: JsonValue,
    snapshot_at: UtcInstant,
    now: UtcInstant,
) -> (r: Result<i64, WantedlyImportError>)
    requires
        old(table).wf(),
    ensures
        final(table).wf(),
        (final(table).model(), outcome(r, |id: i64| id as int)) == import_node_spec(
            old(table).model(),
            json_node,
            snapshot_at.unix_seconds as int,
            now.unix_seconds as int,
        ),
{
    let rec = prepare_profile_view(json_node, snapshot_at)?;
    match upsert_profile_view_raw(table, rec, now) {
        Ok(id) => Ok(id),
        Err(e) => Err(WantedlyImportError::RawRecord(e)),
    }
}

/// Imports every edge of a document into the table, in order. Stops at the
/// first failure and returns it; the edges before it stay written. On
/// success returns the number of edges written.
pub fn import_wantedly_profile_views(
    table: &mut ProfileViewTable,
    json: JsonValue,
    snapshot_at: UtcInstant,
    now: UtcInstant,
) -> (r: Result<usize, WantedlyImportError>)
    requires
        old(table).wf(),
    ensures
        final(table).wf(),
        (final(table).model(), outcome(r, |n: usize| n as int)) == import_document_spec(
            old(table).model(),
            json,
            snapshot_at.unix_seconds as int,
            now.unix_seconds as int,
        ),
{
    let ghost m0 = table.model();
    let ghost anchor = snapshot_at.unix_seconds as int;
    let ghost at = now.unix_seconds as int;
    let mut edges = match into_impressed_user_edges(json) {
        Ok(items) => items,
        Err(e) => return Err(WantedlyImportError::WantedlyJson(e)),
    };
    let ghost all = edges@;
    let n = edges.len();
    let mut count: usize = 0;
    assert(all.subrange(0, 0) =~= Seq::<JsonValue>::empty());
    assert(all.subrange(0, n as int) =~= all);
    while count < n
        invariant
            n == all.len(),
            anchor == snapshot_at.unix_seconds as int,
            at == now.unix_seconds as int,
            m0 == old(table).model(),
            edges_spec(json) == Some(all),
            0 <= count <= n,
            edges@ == all.subrange(count as int, n as int),
            table.wf(),
            (table.model(), Ok::<int, ImportFailure>(count as int)) == import_edges_spec(
                m0,
                all.subrange(0, count as int),
                anchor,
                at,
            ),
        decreases n - count,
    {
        let edge = edges.remove(0);
        let ghost prefix = all.subrange(0, count + 1);
        assert(prefix.drop_last() =~= all.subrange(0, count as int));
        assert(edge == all[count as int]);
        assert(edges@ =~= all.subrange(count + 1, n as int));
        assert(prefix.last() == all[count as int]);
        assert(prefix.len() - 1 == count);
        let ghost e0 = edge;
        let rec = match prepare_edge(edge, count, snapshot_at) {
            Ok(rec) => rec,
            Err(e) => {
                assert(import_edges_spec(m0, prefix, anchor, at) == (
                    table.model(),
                    Err::<int, ImportFailure>(e.failure()),
                ));
                proof {
                    lemma_failure_persists(m0, all, count as int + 1, anchor, at);
                }
                return Err(e);
            },
        };
        match upsert_profile_view_raw(table, rec, now) {
            Ok(_) => {},
            Err(e) => {
                assert(import_edges_spec(m0, prefix, anchor, at).1 is Err);
                proof {
                    lemma_failure_persists(m0, all, count as int + 1, anchor, at);
                }
                return Err(WantedlyImportError::RawRecord(e));
            },
        }
        count = count + 1;
    }
    Ok(count)
}

/// Once a prefix of the edges fails, every longer prefix fails the same way
/// with the same table.
pub proof fn lemma_failure_persists(m: TableModel, edges: Seq<JsonValue>, k: int, anchor: int, now: int)
    requires
        0 <= k <= edges.len(),
        import_edges_spec(m, edges.subrange(0, k), anchor, now).1 is Err,
    ensures
        import_edges_spec(m, edges, anchor, now) == import_edges_spec(
            m,
            edges.subrange(0, k),
            anchor,
            now,
        ),
    decreases edges.len() - k,
{
    if k < edges.len() {
        let longer = edges.subrange(0, k + 1);
        assert(longer.drop_last() =~= edges.subrange(0, k));
        lemma_failure_persists(m, edges, k + 1, anchor, now);
    } else {
        assert(edges.subrange(0, k) =~= edges);
    }
}

} // verus!
