use wantedly_ingest::converter::{convert_wantedly_json_node_to_storage, WantedlyProfileViewConvertError};
use wantedly_ingest::date::{classify_date_token, parse_viewed_at, RelativeDate, UtcInstant};
use wantedly_ingest::dto::{
    NodeDecodeFailure, NodeField, WantedlyProfileViewNode, WantedlyProfileViewNodeError,
};
use wantedly_ingest::import::{
    import_one_profile_view, import_wantedly_profile_views, prepare_edge, prepare_profile_view,
    WantedlyImportError,
};
use wantedly_ingest::json::{
    extract_impressed_user_edges, into_impressed_user_edges, JsonNumber, JsonValue,
    WantedlyJsonError,
};
use wantedly_ingest::raw::{
    insert_profile_view_raw_strict, upsert_profile_view_raw, ProfileViewTable, StorageFailure,
    WantedlyProfileViewRawError,
};

// 2025-11-23T08:00:00Z
const ANCHOR: i64 = 1763884800;
// 2025-11-23T00:00:00Z
const ANCHOR_MIDNIGHT: i64 = 1763856000;
// 2025-11-22T00:00:00Z
const DAY_BEFORE_MIDNIGHT: i64 = 1763769600;
// 2025-11-20T00:00:00Z
const THREE_DAYS_BEFORE_MIDNIGHT: i64 = 1763596800;

fn anchor() -> UtcInstant {
    UtcInstant { unix_seconds: ANCHOR }
}

fn now() -> UtcInstant {
    UtcInstant { unix_seconds: ANCHOR + 3600 }
}

fn obj(members: Vec<(&str, JsonValue)>) -> JsonValue {
    JsonValue::Object(members.into_iter().map(|(k, v)| (k.to_string(), v)).collect())
}

fn text(s: &str) -> JsonValue {
    JsonValue::Str(s.to_string())
}

fn num(n: u64) -> JsonValue {
    JsonValue::Number(JsonNumber::PosInt(n))
}

fn node(user_id: u64, token: &str) -> JsonValue {
    obj(vec![
        ("userId", num(user_id)),
        ("shortDescription", text("Engineer at Example")),
        ("companyPageUrl", text("https://example.com/companies/example")),
        ("profileImpressionMeta", obj(vec![("impressedDateTime", text(token))])),
    ])
}

fn edge(node: JsonValue) -> JsonValue {
    obj(vec![("node", node)])
}

fn document(edges: Vec<JsonValue>) -> JsonValue {
    obj(vec![(
        "data",
        obj(vec![(
            "profileImpressionPage",
            obj(vec![("impressedUsers", obj(vec![("edges", JsonValue::Array(edges))]))]),
        )]),
    )])
}

fn id_node(id: u64) -> JsonValue {
    obj(vec![("id", num(id))])
}

#[test]
fn test_extract_impressed_user_edges_ok() {
    let sample = document(vec![edge(id_node(1)), edge(id_node(2))]);

    let result = extract_impressed_user_edges(&sample);

    assert!(result.is_ok());
    let edges = result.unwrap();
    assert_eq!(edges.len(), 2);
}

#[test]
fn test_extract_impressed_user_edges_invalid_structure() {
    let bad = obj(vec![("data", obj(vec![]))]);

    let result = extract_impressed_user_edges(&bad);
    assert!(matches!(result, Err(WantedlyJsonError::InvalidStructure)));
}

#[test]
fn extract_rejects_edges_that_are_not_a_list() {
    let bad = obj(vec![(
        "data",
        obj(vec![(
            "profileImpressionPage",
            obj(vec![("impressedUsers", obj(vec![("edges", text("none"))]))]),
        )]),
    )]);
    assert!(matches!(
        extract_impressed_user_edges(&bad),
        Err(WantedlyJsonError::InvalidStructure)
    ));
    assert!(matches!(
        into_impressed_user_edges(bad),
        Err(WantedlyJsonError::InvalidStructure)
    ));
}

#[test]
fn into_edges_keeps_order() {
    let doc = document(vec![edge(id_node(7)), edge(id_node(8))]);
    let edges = into_impressed_user_edges(doc).unwrap();
    assert_eq!(edges.len(), 2);
    match edges[1].get("node").and_then(|n| n.get("id")) {
        Some(JsonValue::Number(JsonNumber::PosInt(8))) => {}
        other => panic!("unexpected second edge: {:?}", other),
    }
}

#[test]
fn today_resolves_to_anchor_midnight() {
    let r = parse_viewed_at("今日", anchor()).unwrap();
    assert_eq!(r.unix_seconds, ANCHOR_MIDNIGHT);
}

#[test]
fn days_ago_resolves_back_from_anchor_day() {
    let r = parse_viewed_at("3日前", anchor()).unwrap();
    assert_eq!(r.unix_seconds, THREE_DAYS_BEFORE_MIDNIGHT);
    let r = parse_viewed_at("0日前", anchor()).unwrap();
    assert_eq!(r.unix_seconds, ANCHOR_MIDNIGHT);
}

#[test]
fn same_day_anchors_resolve_alike() {
    let early = UtcInstant { unix_seconds: ANCHOR_MIDNIGHT };
    let late = UtcInstant { unix_seconds: ANCHOR_MIDNIGHT + 86399 };
    assert_eq!(parse_viewed_at("今日", early), parse_viewed_at("今日", late));
    assert_eq!(parse_viewed_at("1日前", late).unwrap().unix_seconds, DAY_BEFORE_MIDNIGHT);
}

#[test]
fn anchor_before_epoch_takes_the_earlier_day() {
    let r = parse_viewed_at("今日", UtcInstant { unix_seconds: -1 }).unwrap();
    assert_eq!(r.unix_seconds, -86400);
}

#[test]
fn unrecognized_tokens_do_not_resolve() {
    for token in ["先週", "", "日前", "a日前", "-3日前", "+3日前", "3日前x", "3 日前", "昨日"] {
        assert_eq!(parse_viewed_at(token, anchor()), None, "token {:?}", token);
    }
    assert_eq!(parse_viewed_at("99999999999999999999日前", anchor()), None);
    assert_eq!(classify_date_token("先週"), RelativeDate::Unrecognized);
    assert_eq!(classify_date_token("12日前"), RelativeDate::DaysAgo(12));
    assert_eq!(classify_date_token("今日"), RelativeDate::Today);
}

#[test]
fn unrecognized_token_error_carries_the_token() {
    match prepare_profile_view(node(1, "先週"), anchor()) {
        Err(WantedlyImportError::WantedlyProfileViewConvert(
            WantedlyProfileViewConvertError::InvalidDate { raw },
        )) => assert_eq!(raw, "先週"),
        other => panic!("expected InvalidDate, got: {:?}", other),
    }
}

#[test]
fn decode_reads_all_fields() {
    let n = WantedlyProfileViewNode::from_value(&node(42, "今日")).unwrap();
    assert_eq!(n.user_id, 42);
    assert_eq!(n.short_description.as_deref(), Some("Engineer at Example"));
    assert_eq!(
        n.company_page_url.as_deref(),
        Some("https://example.com/companies/example")
    );
    assert_eq!(n.profile_impression_meta.impressed_date_time, "今日");
}

#[test]
fn decode_accepts_absent_or_null_optional_fields() {
    let absent = obj(vec![
        ("userId", num(5)),
        ("profileImpressionMeta", obj(vec![("impressedDateTime", text("今日"))])),
    ]);
    let n = WantedlyProfileViewNode::from_value(&absent).unwrap();
    assert_eq!(n.user_id, 5);
    assert!(n.short_description.is_none());
    assert!(n.company_page_url.is_none());

    let null = obj(vec![
        ("userId", num(6)),
        ("shortDescription", JsonValue::Null),
        ("companyPageUrl", JsonValue::Null),
        ("profileImpressionMeta", obj(vec![("impressedDateTime", text("2日前"))])),
    ]);
    let n = WantedlyProfileViewNode::from_value(&null).unwrap();
    assert!(n.short_description.is_none());
    assert!(n.company_page_url.is_none());
}

fn decode_error(v: JsonValue) -> NodeDecodeFailure {
    match WantedlyProfileViewNode::from_value(&v) {
        Err(WantedlyProfileViewNodeError::Decode(f)) => f,
        Ok(n) => panic!("expected a decode error, got: {:?}", n),
    }
}

#[test]
fn decode_errors_name_the_field() {
    let meta = || obj(vec![("impressedDateTime", text("今日"))]);
    assert_eq!(decode_error(text("x")), NodeDecodeFailure::NotAnObject);
    assert_eq!(
        decode_error(obj(vec![("profileImpressionMeta", meta())])),
        NodeDecodeFailure::MissingField(NodeField::UserId)
    );
    assert_eq!(
        decode_error(obj(vec![("userId", text("1")), ("profileImpressionMeta", meta())])),
        NodeDecodeFailure::InvalidType(NodeField::UserId)
    );
    assert_eq!(
        decode_error(obj(vec![
            ("userId", JsonValue::Number(JsonNumber::PosInt(u64::MAX))),
            ("profileImpressionMeta", meta()),
        ])),
        NodeDecodeFailure::InvalidType(NodeField::UserId)
    );
    assert_eq!(
        decode_error(obj(vec![
            ("userId", JsonValue::Number(JsonNumber::Decimal("1.5".to_string()))),
            ("profileImpressionMeta", meta()),
        ])),
        NodeDecodeFailure::InvalidType(NodeField::UserId)
    );
    assert_eq!(
        decode_error(obj(vec![
            ("userId", num(1)),
            ("shortDescription", num(3)),
            ("profileImpressionMeta", meta()),
        ])),
        NodeDecodeFailure::InvalidType(NodeField::ShortDescription)
    );
    assert_eq!(
        decode_error(obj(vec![
            ("userId", num(1)),
            ("companyPageUrl", JsonValue::Bool(true)),
            ("profileImpressionMeta", meta()),
        ])),
        NodeDecodeFailure::InvalidType(NodeField::CompanyPageUrl)
    );
    assert_eq!(
        decode_error(obj(vec![("userId", num(1))])),
        NodeDecodeFailure::MissingField(NodeField::ProfileImpressionMeta)
    );
    assert_eq!(
        decode_error(obj(vec![("userId", num(1)), ("profileImpressionMeta", text("今日"))])),
        NodeDecodeFailure::InvalidType(NodeField::ProfileImpressionMeta)
    );
    assert_eq!(
        decode_error(obj(vec![("userId", num(1)), ("profileImpressionMeta", obj(vec![]))])),
        NodeDecodeFailure::MissingField(NodeField::ImpressedDateTime)
    );
    assert_eq!(
        decode_error(obj(vec![
            ("userId", num(1)),
            ("profileImpressionMeta", obj(vec![("impressedDateTime", num(0))])),
        ])),
        NodeDecodeFailure::InvalidType(NodeField::ImpressedDateTime)
    );
}

#[test]
fn negative_user_id_decodes() {
    let v = obj(vec![
        ("userId", JsonValue::Number(JsonNumber::NegInt(-7))),
        ("profileImpressionMeta", obj(vec![("impressedDateTime", text("今日"))])),
    ]);
    let n = WantedlyProfileViewNode::from_value(&v).unwrap();
    assert_eq!(n.user_id, -7);
    let rec = convert_wantedly_json_node_to_storage(&n, v, anchor()).unwrap();
    assert_eq!(rec.viewer_user_id, "-7");
}

#[test]
fn convert_builds_the_record() {
    let v = node(12345, "3日前");
    let n = WantedlyProfileViewNode::from_value(&v).unwrap();
    let rec = convert_wantedly_json_node_to_storage(&n, v, anchor()).unwrap();
    assert_eq!(rec.viewer_user_id, "12345");
    assert_eq!(
        rec.viewer_company_page_url.as_deref(),
        Some("https://example.com/companies/example")
    );
    assert_eq!(rec.viewer_company_name_raw.as_deref(), Some("Engineer at Example"));
    assert_eq!(rec.viewed_at_raw, "3日前");
    assert_eq!(rec.viewed_at.unix_seconds, THREE_DAYS_BEFORE_MIDNIGHT);
    let again = WantedlyProfileViewNode::from_value(&rec.raw_json).unwrap();
    assert_eq!(again.user_id, 12345);
}

#[test]
fn well_formed_document_imports_every_edge() {
    let mut table = ProfileViewTable::new();
    let doc = document(vec![edge(node(1, "今日")), edge(node(2, "1日前")), edge(node(3, "3日前"))]);
    let r = import_wantedly_profile_views(&mut table, doc, anchor(), now());
    assert!(matches!(r, Ok(3)));
    assert_eq!(table.len(), 3);
    assert_eq!(table.row(2).viewer_user_id, "3");
    assert_eq!(table.row(2).created_at, now());
}

#[test]
fn empty_edge_list_imports_nothing() {
    let mut table = ProfileViewTable::new();
    let r = import_wantedly_profile_views(&mut table, document(vec![]), anchor(), now());
    assert!(matches!(r, Ok(0)));
    assert_eq!(table.len(), 0);
}

#[test]
fn missing_edges_path_writes_nothing() {
    let mut table = ProfileViewTable::new();
    let doc = obj(vec![("data", obj(vec![("profileImpressionPage", obj(vec![]))]))]);
    let r = import_wantedly_profile_views(&mut table, doc, anchor(), now());
    assert!(matches!(
        r,
        Err(WantedlyImportError::WantedlyJson(WantedlyJsonError::InvalidStructure))
    ));
    assert_eq!(table.len(), 0);
}

#[test]
fn missing_node_keeps_earlier_writes() {
    let mut table = ProfileViewTable::new();
    let doc = document(vec![
        edge(node(1, "今日")),
        edge(node(2, "今日")),
        obj(vec![("cursor", text("abc"))]),
        edge(node(4, "今日")),
    ]);
    let r = import_wantedly_profile_views(&mut table, doc, anchor(), now());
    assert!(matches!(r, Err(WantedlyImportError::MissingNode(2))));
    assert_eq!(table.len(), 2);
    assert_eq!(table.row(1).viewer_user_id, "2");
}

#[test]
fn bad_date_stops_the_batch() {
    let mut table = ProfileViewTable::new();
    let doc = document(vec![edge(node(1, "今日")), edge(node(2, "先週")), edge(node(3, "今日"))]);
    let r = import_wantedly_profile_views(&mut table, doc, anchor(), now());
    match r {
        Err(WantedlyImportError::WantedlyProfileViewConvert(
            WantedlyProfileViewConvertError::InvalidDate { raw },
        )) => assert_eq!(raw, "先週"),
        other => panic!("expected InvalidDate, got: {:?}", other),
    }
    assert_eq!(table.len(), 1);
}

#[test]
fn bad_node_stops_the_batch() {
    let mut table = ProfileViewTable::new();
    let doc = document(vec![edge(obj(vec![("userId", num(1))]))]);
    let r = import_wantedly_profile_views(&mut table, doc, anchor(), now());
    assert!(matches!(
        r,
        Err(WantedlyImportError::WantedlyProfileViewJsonNode(
            WantedlyProfileViewNodeError::Decode(NodeDecodeFailure::MissingField(
                NodeField::ProfileImpressionMeta
            ))
        ))
    ));
    assert_eq!(table.len(), 0);
}

#[test]
fn prepare_edge_reports_missing_node_position() {
    let r = prepare_edge(obj(vec![]), 5, anchor());
    assert!(matches!(r, Err(WantedlyImportError::MissingNode(5))));
}

#[test]
fn reimport_keeps_one_record_and_its_id() {
    let mut table = ProfileViewTable::new();
    let first = import_one_profile_view(&mut table, node(9, "今日"), anchor(), now()).unwrap();
    let later = UtcInstant { unix_seconds: ANCHOR + 7200 };
    let second = import_one_profile_view(&mut table, node(9, "今日"), later, later).unwrap();
    assert_eq!(first, second);
    assert_eq!(table.len(), 1);
    assert_eq!(table.row(0).created_at, now());
}

#[test]
fn reimport_overwrites_mutable_fields() {
    let mut table = ProfileViewTable::new();
    let first = import_one_profile_view(&mut table, node(9, "今日"), anchor(), now()).unwrap();
    let changed = obj(vec![
        ("userId", num(9)),
        ("shortDescription", text("Manager at Other")),
        ("profileImpressionMeta", obj(vec![("impressedDateTime", text("0日前"))])),
    ]);
    let second = import_one_profile_view(&mut table, changed, anchor(), now()).unwrap();
    assert_eq!(first, second);
    assert_eq!(table.len(), 1);
    let row = table.row(0);
    assert_eq!(row.viewer_company_name_raw.as_deref(), Some("Manager at Other"));
    assert!(row.viewer_company_page_url.is_none());
    assert_eq!(row.viewed_at_raw, "0日前");
    assert_eq!(row.viewed_at.unix_seconds, ANCHOR_MIDNIGHT);
}

#[test]
fn different_times_make_distinct_records() {
    let mut table = ProfileViewTable::new();
    let a = import_one_profile_view(&mut table, node(9, "今日"), anchor(), now()).unwrap();
    let b = import_one_profile_view(&mut table, node(9, "1日前"), anchor(), now()).unwrap();
    assert_ne!(a, b);
    assert_eq!(table.len(), 2);
    assert_eq!(table.row(0).viewed_at.unix_seconds, ANCHOR_MIDNIGHT);
    assert_eq!(table.row(1).viewed_at.unix_seconds, DAY_BEFORE_MIDNIGHT);
}

#[test]
fn stored_payload_decodes_to_the_same_node() {
    let mut table = ProfileViewTable::new();
    let v = node(77, "2日前");
    let first_decode = WantedlyProfileViewNode::from_value(&v).unwrap();
    import_one_profile_view(&mut table, v, anchor(), now()).unwrap();
    let again = WantedlyProfileViewNode::from_value(&table.row(0).raw_json).unwrap();
    assert_eq!(again.user_id, first_decode.user_id);
    assert_eq!(again.short_description, first_decode.short_description);
    assert_eq!(again.company_page_url, first_decode.company_page_url);
    assert_eq!(
        again.profile_impression_meta.impressed_date_time,
        first_decode.profile_impression_meta.impressed_date_time
    );
}

#[test]
fn strict_insert_refuses_a_stored_key() {
    let mut table = ProfileViewTable::new();
    let rec = prepare_profile_view(node(1, "今日"), anchor()).unwrap();
    let id = insert_profile_view_raw_strict(&mut table, rec, now()).unwrap();
    assert_eq!(id, 1);
    let rec = prepare_profile_view(node(1, "今日"), anchor()).unwrap();
    let r = insert_profile_view_raw_strict(&mut table, rec, now());
    assert!(matches!(
        r,
        Err(WantedlyProfileViewRawError::Db(StorageFailure::UniqueViolation))
    ));
    let rec = prepare_profile_view(node(1, "今日"), anchor()).unwrap();
    assert_eq!(upsert_profile_view_raw(&mut table, rec, now()).unwrap(), 1);
    let rec = prepare_profile_view(node(2, "今日"), anchor()).unwrap();
    assert_eq!(upsert_profile_view_raw(&mut table, rec, now()).unwrap(), 2);
    assert_eq!(table.len(), 2);
}
