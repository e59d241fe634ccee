use vstd::prelude::*;

use crate::dto::{
    as_i64_spec, company_page_url_key, decode_fields, meta_spec, short_description_key,
    user_id_key,
};
use crate::import::{
    edge_record, import_document_spec, import_edges_spec, import_node_spec, lemma_failure_persists,
    node_record, write_record, ImportFailure,
};
use crate::json::{edges_spec, field_of, node_key, JsonValue};
use crate::raw::{
    lemma_key_index_unique, lemma_upsert_effect, same_key, table_wf, upsert_spec, RecordView,
    TableModel,
};

verus! {

/// Edges that all map to records are all written, while identifiers last:
/// the import of `k` such edges reports `k`.
proof fn lemma_valid_prefix_written(
    m: TableModel,
    edges: Seq<JsonValue>,
    k: int,
    anchor: int,
    now: int,
)
    requires
        0 <= k <= edges.len(),
        m.next_id + k <= i64::MAX,
        forall|i: int| 0 <= i < edges.len() ==> (#[trigger] edge_record(edges[i], i, anchor)) is Ok,
    ensures
        import_edges_spec(m, edges.subrange(0, k), anchor, now).1 == Ok::<int, ImportFailure>(k),
        import_edges_spec(m, edges.subrange(0, k), anchor, now).0.next_id <= m.next_id + k,
    decreases k,
{
    if k > 0 {
        let prefix = edges.subrange(0, k);
        assert(prefix.drop_last() =~= edges.subrange(0, k - 1));
        lemma_valid_prefix_written(m, edges, k - 1, anchor, now);
        assert(prefix.last() == edges[k - 1]);
        assert(edge_record(edges[k - 1], k - 1, anchor) is Ok);
    } else {
        assert(edges.subrange(0, 0) =~= Seq::<JsonValue>::empty());
    }
}

/// A document whose `K` edges each hold a valid node imports in full and
/// reports exactly `K`, given that the table has `K` identifiers left.
pub proof fn lemma_well_formed_document_imports_all(
    m: TableModel,
    doc: JsonValue,
    anchor: int,
    now: int,
)
    requires
        edges_spec(doc) is Some,
        forall|i: int|
            0 <= i < edges_spec(doc)->Some_0.len() ==> (#[trigger] edge_record(
                edges_spec(doc)->Some_0[i],
                i,
                anchor,
            )) is Ok,
        m.next_id + edges_spec(doc)->Some_0.len() <= i64::MAX,
    ensures
        import_document_spec(m, doc, anchor, now).1 == Ok::<int, ImportFailure>(
            edges_spec(doc)->Some_0.len() as int,
        ),
{
    let edges = edges_spec(doc)->Some_0;
    lemma_valid_prefix_written(m, edges, edges.len() as int, anchor, now);
    assert(edges.subrange(0, edges.len() as int) =~= edges);
}

/// A document without the edge list fails with a structure mismatch, and
/// nothing is written.
pub proof fn lemma_missing_edges_writes_nothing(m: TableModel, doc: JsonValue, anchor: int, now: int)
    requires
        edges_spec(doc) is None,
    ensures
        import_document_spec(m, doc, anchor, now) == (m, Err::<int, ImportFailure>(
            ImportFailure::StructureMismatch,
        )),
{
}

/// An edge without `node` at position `k`, after `k` valid edges, fails the
/// batch with `MissingNode(k)`; the table then holds exactly the writes of
/// the `k` edges before it.
pub proof fn lemma_missing_node_keeps_earlier_writes(
    m: TableModel,
    doc: JsonValue,
    k: int,
    anchor: int,
    now: int,
)
    requires
        edges_spec(doc) is Some,
        0 <= k < edges_spec(doc)->Some_0.len(),
        field_of(edges_spec(doc)->Some_0[k], node_key()) is None,
        forall|i: int|
            0 <= i < k ==> (#[trigger] edge_record(edges_spec(doc)->Some_0[i], i, anchor)) is Ok,
        m.next_id + k <= i64::MAX,
    ensures
        ({
            let before = import_edges_spec(m, edges_spec(doc)->Some_0.subrange(0, k), anchor, now);
            &&& before.1 == Ok::<int, ImportFailure>(k)
            &&& import_document_spec(m, doc, anchor, now) == (before.0, Err::<int, ImportFailure>(
                ImportFailure::MissingNode(k),
            ))
        }),
{
    let edges = edges_spec(doc)->Some_0;
    let head = edges.subrange(0, k);
    assert forall|i: int| 0 <= i < head.len() implies (#[trigger] edge_record(
        head[i],
        i,
        anchor,
    )) is Ok by {
        assert(head[i] == edges[i]);
    }
    lemma_valid_prefix_written(m, head, k, anchor, now);
    assert(head.subrange(0, k) =~= head);
    let longer = edges.subrange(0, k + 1);
    assert(longer.drop_last() =~= head);
    assert(longer.last() == edges[k]);
    lemma_failure_persists(m, edges, k + 1, anchor, now);
}

/// Importing the same node twice against one anchor gives the same
/// identifier both times and leaves one record for its key, with the
/// node's contents.
pub proof fn lemma_reimport_is_idempotent(
    m: TableModel,
    node: JsonValue,
    anchor: int,
    now1: int,
    now2: int,
)
    requires
        table_wf(m),
        import_node_spec(m, node, anchor, now1).1 is Ok,
    ensures
        ({
            let (m1, r1) = import_node_spec(m, node, anchor, now1);
            let (m2, r2) = import_node_spec(m1, node, anchor, now2);
            let rec = node_record(node, anchor)->Ok_0;
            &&& r2 == r1
            &&& m2.rows.len() == m1.rows.len()
            &&& table_wf(m2)
            &&& exists|i: int|
                0 <= i < m2.rows.len() && (#[trigger] m2.rows[i]).id == r1->Ok_0
                    && m2.rows[i].record == rec
            &&& forall|i: int, j: int|
                0 <= i < m2.rows.len() && 0 <= j < m2.rows.len() && same_key(
                    (#[trigger] m2.rows[i]).record,
                    rec,
                ) && same_key((#[trigger] m2.rows[j]).record, rec) ==> i == j
        }),
{
    let rec = node_record(node, anchor)->Ok_0;
    let (m1, r1) = import_node_spec(m, node, anchor, now1);
    assert(write_record(m, rec, now1) == (m1, r1));
    lemma_upsert_effect(m, rec, now1);
    let i = choose|i: int|
        0 <= i < m1.rows.len() && (#[trigger] m1.rows[i]).id == r1->Ok_0 && same_key(
            m1.rows[i].record,
            rec,
        ) && m1.rows[i].record.raw_json == rec.raw_json && m1.rows[i].record.viewed_at_raw
            == rec.viewed_at_raw && m1.rows[i].record.viewer_company_page_url
            == rec.viewer_company_page_url && m1.rows[i].record.viewer_company_name_raw
            == rec.viewer_company_name_raw;
    lemma_key_index_unique(m1, rec, i);
    let (m2, r2) = import_node_spec(m1, node, anchor, now2);
    assert(m2.rows[i].record == rec);
    assert(m2.rows[i].id == r1->Ok_0);
    lemma_upsert_effect(m1, rec, now2);
    assert forall|a: int, b: int|
        0 <= a < m2.rows.len() && 0 <= b < m2.rows.len() && same_key(
            (#[trigger] m2.rows[a]).record,
            rec,
        ) && same_key((#[trigger] m2.rows[b]).record, rec) implies a == b by {
        if a < b {
            assert(!same_key(m2.rows[a].record, m2.rows[b].record));
        } else if b < a {
            assert(!same_key(m2.rows[b].record, m2.rows[a].record));
        }
    }
}

/// Two nodes with one viewer whose tokens resolve to different instants are
/// stored as two records with different identifiers.
pub proof fn lemma_distinct_times_are_distinct_records(
    m: TableModel,
    first: JsonValue,
    second: JsonValue,
    anchor: int,
    now1: int,
    now2: int,
)
    requires
        table_wf(m),
        m.next_id + 2 <= i64::MAX,
        node_record(first, anchor) is Ok,
        node_record(second, anchor) is Ok,
        node_record(first, anchor)->Ok_0.viewer_user_id == node_record(
            second,
            anchor,
        )->Ok_0.viewer_user_id,
        node_record(first, anchor)->Ok_0.viewed_at != node_record(second, anchor)->Ok_0.viewed_at,
    ensures
        ({
            let (m1, r1) = import_node_spec(m, first, anchor, now1);
            let (m2, r2) = import_node_spec(m1, second, anchor, now2);
            &&& r1 is Ok && r2 is Ok
            &&& r1->Ok_0 != r2->Ok_0
            &&& exists|i: int, j: int|
                0 <= i < m2.rows.len() && 0 <= j < m2.rows.len() && i != j && (#[trigger] m2.rows[i]).id
                    == r1->Ok_0 && (#[trigger] m2.rows[j]).id == r2->Ok_0
        }),
{
    let a = node_record(first, anchor)->Ok_0;
    let b = node_record(second, anchor)->Ok_0;
    let (m1, r1) = import_node_spec(m, first, anchor, now1);
    lemma_upsert_effect(m, a, now1);
    let i = choose|i: int|
        0 <= i < m1.rows.len() && (#[trigger] m1.rows[i]).id == r1->Ok_0 && same_key(
            m1.rows[i].record,
            a,
        ) && m1.rows[i].record.raw_json == a.raw_json && m1.rows[i].record.viewed_at_raw
            == a.viewed_at_raw && m1.rows[i].record.viewer_company_page_url
            == a.viewer_company_page_url && m1.rows[i].record.viewer_company_name_raw
            == a.viewer_company_name_raw;
    assert(upsert_spec(m1, b, now2).1 is Ok);
    let (m2, r2) = import_node_spec(m1, second, anchor, now2);
    lemma_upsert_effect(m1, b, now2);
    let j = choose|j: int|
        0 <= j < m2.rows.len() && (#[trigger] m2.rows[j]).id == r2->Ok_0 && same_key(
            m2.rows[j].record,
            b,
        ) && m2.rows[j].record.raw_json == b.raw_json && m2.rows[j].record.viewed_at_raw
            == b.viewed_at_raw && m2.rows[j].record.viewer_company_page_url
            == b.viewer_company_page_url && m2.rows[j].record.viewer_company_name_raw
            == b.viewer_company_name_raw;
    assert(!same_key(m1.rows[i].record, b));
    assert(m2.rows[i] == m1.rows[i]);
    assert(i != j);
    if i < j {
        assert(m2.rows[i].id != m2.rows[j].id);
    } else {
        assert(m2.rows[j].id != m2.rows[i].id);
    }
}

/// The raw payload stored by an import decodes to the same fields as the
/// node that was imported.
pub proof fn lemma_stored_payload_round_trips(m: TableModel, node: JsonValue, anchor: int, now: int)
    requires
        table_wf(m),
        import_node_spec(m, node, anchor, now).1 is Ok,
    ensures
        decode_fields(node) is Ok,
        ({
            let (m1, r) = import_node_spec(m, node, anchor, now);
            exists|i: int|
                0 <= i < m1.rows.len() && (#[trigger] m1.rows[i]).id == r->Ok_0 && decode_fields(
                    m1.rows[i].record.raw_json,
                ) == decode_fields(node)
        }),
{
    let rec = node_record(node, anchor)->Ok_0;
    lemma_upsert_effect(m, rec, now);
}

/// A node whose short description and company page URL are absent or null
/// decodes, with both fields absent.
pub proof fn lemma_absent_optional_fields_decode(v: JsonValue)
    requires
        v is Object,
        field_of(v, user_id_key()) is Some,
        as_i64_spec(field_of(v, user_id_key())->Some_0) is Some,
        meta_spec(v) is Ok,
        field_of(v, short_description_key()) is None || field_of(v, short_description_key())
            == Some(JsonValue::Null),
        field_of(v, company_page_url_key()) is None || field_of(v, company_page_url_key()) == Some(
            JsonValue::Null,
        ),
    ensures
        decode_fields(v) is Ok,
        decode_fields(v)->Ok_0.0 == as_i64_spec(field_of(v, user_id_key())->Some_0)->Some_0,
        decode_fields(v)->Ok_0.1 is None,
        decode_fields(v)->Ok_0.2 is None,
        decode_fields(v)->Ok_0.3 == meta_spec(v)->Ok_0,
{
}

} // verus!
