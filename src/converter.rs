use vstd::prelude::*;

use crate::date::{parse_viewed_at, resolve_spec, UtcInstant};
use crate::dto::WantedlyProfileViewNode;
use crate::json::JsonValue;
use crate::raw::{text_view, NewWantedlyProfileViewRaw, RecordView};

verus! {

/// The mapper's error: the node's date token names no day.
#[derive(Debug)]
pub enum WantedlyProfileViewConvertError {
    InvalidDate { raw: String },
}

/// The digit characters, by value.
pub open spec fn digit_chars() -> Seq<char> {
    seq!['0', '1', '2', '3', '4', '5', '6', '7', '8', '9']
}

/// The decimal digits of a natural number, without leading zeros.
pub open spec fn digits_of(n: nat) -> Seq<char>
    decreases n,
{
    if n < 10 {
        seq![digit_chars()[n as int]]
    } else {
        digits_of(n / 10).push(digit_chars()[(n % 10) as int])
    }
}

/// The decimal text of an integer, with a leading minus sign when negative.
pub open spec fn decimal_text(n: int) -> Seq<char> {
    if n < 0 {
        seq!['-'] + digits_of((-n) as nat)
    } else {
        digits_of(n as nat)
    }
}

/// Relies on `ToString` for `i64` (its `Display`): the decimal digits of the
/// value, led by `-` when it is negative.
#[verifier::external_body]
fn i64_to_text(n: i64) -> (r: String)
    ensures
        r@ == decimal_text(n as int),
{
    n.to_string()
}

/// A copy of an optional text.
pub fn copy_text(t: &Option<String>) -> (r: Option<String>)
    ensures
        r == *t,
{
    match t {
        Some(s) => Some(s.clone()),
        None => None,
    }
}

/// The record that decoded fields map to against an anchor: the date token
/// resolved to midnight UTC of its day, the viewer id as decimal text, the
/// short description as the company-name hint. `None` when the token names
/// no day.
pub open spec fn record_from_fields(
    fields: (i64, Option<String>, Option<String>, String),
    raw_json: JsonValue,
    anchor: int,
) -> Option<RecordView> {
    match resolve_spec(fields.3@, anchor) {
        Some(t) => Some(
            RecordView {
                viewer_user_id: decimal_text(fields.0 as int),
                viewer_company_page_url: text_view(fields.2),
                viewer_company_name_raw: text_view(fields.1),
                viewed_at_raw: fields.3@,
                viewed_at: t,
                raw_json,
            },
        ),
        None => None,
    }
}

/// What the mapper makes of a decoded node, its raw payload and an anchor:
/// the record on success, the unresolved token otherwise.
pub open spec fn converted(
    node: WantedlyProfileViewNode,
    raw_json: JsonValue,
    anchor: UtcInstant,
    r: Result<NewWantedlyProfileViewRaw, WantedlyProfileViewConvertError>,
) -> bool {
    let want = record_from_fields(node.fields(), raw_json, anchor.unix_seconds as int);
    match r {
        Ok(rec) => want == Some(rec@),
        Err(WantedlyProfileViewConvertError::InvalidDate { raw }) => {
            &&& want.is_none()
            &&& raw == node.profile_impression_meta.impressed_date_time
        },
    }
}

/// Builds the persistable record of a decoded node: its date token resolved
/// against the snapshot instant, its raw payload kept as it came.
pub fn convert_wantedly_json_node_to_storage(
    json_node_dto: &WantedlyProfileViewNode,
    raw_json: JsonValue,
    snapshot_at: UtcInstant,
) -> (r: Result<NewWantedlyProfileViewRaw, WantedlyProfileViewConvertError>)
    ensures
        converted(*json_node_dto, raw_json, snapshot_at, r),
{
    let viewer_user_id = i64_to_text(json_node_dto.user_id);
    let viewer_company_page_url = copy_text(&json_node_dto.company_page_url);
    let viewer_company_name_raw = copy_text(&json_node_dto.short_description);
    let viewed_at_raw = json_node_dto.profile_impression_meta.impressed_date_time.clone();
    match parse_viewed_at(viewed_at_raw.as_str(), snapshot_at) {
        None => Err(WantedlyProfileViewConvertError::InvalidDate { raw: viewed_at_raw }),
        Some(viewed_at) => Ok(
            NewWantedlyProfileViewRaw {
                viewer_user_id,
                viewer_company_page_url,
                viewer_company_name_raw,
                viewed_at_raw,
                viewed_at,
                raw_json,
            },
        ),
    }
}

} // verus!
