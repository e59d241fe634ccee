use vstd::prelude::*;

use crate::json::{field_of, JsonNumber, JsonValue};

verus! {

/// The impression metadata of a node.
#[derive(Debug)]
pub struct ProfileImpressionMeta {
    pub impressed_date_time: String,
}

/// The typed projection of one edge's `node` payload.
#[derive(Debug)]
pub struct WantedlyProfileViewNode {
    pub user_id: i64,
    pub short_description: Option<String>,
    pub company_page_url: Option<String>,
    pub profile_impression_meta: ProfileImpressionMeta,
}

/// The node fields that decoding reads.
#[derive(Debug, Clone, Copy, PartialEq, Eq, Structural)]
pub enum NodeField {
    UserId,
    ShortDescription,
    CompanyPageUrl,
    ProfileImpressionMeta,
    ImpressedDateTime,
}

/// Why a node did not decode.
#[derive(Debug, Clone, Copy, PartialEq, Eq, Structural)]
pub enum NodeDecodeFailure {
    NotAnObject,
    MissingField(NodeField),
    InvalidType(NodeField),
}

/// The decoder's error: the structural or type mismatch it met.
#[derive(Debug, Clone, Copy, PartialEq, Eq, Structural)]
pub enum WantedlyProfileViewNodeError {
    Decode(NodeDecodeFailure),
}

pub open spec fn user_id_key() -> Seq<char> {
    "userId"@
}

pub open spec fn short_description_key() -> Seq<char> {
    "shortDescription"@
}

pub open spec fn company_page_url_key() -> Seq<char> {
    "companyPageUrl"@
}

pub open spec fn meta_key() -> Seq<char> {
    "profileImpressionMeta"@
}

pub open spec fn impressed_date_time_key() -> Seq<char> {
    "impressedDateTime"@
}

/// A JSON integer as an `i64`, where it is one and fits.
pub open spec fn as_i64_spec(v: JsonValue) -> Option<i64> {
    match v {
        JsonValue::Number(JsonNumber::PosInt(u)) => if u <= i64::MAX as u64 {
            Some(u as i64)
        } else {
            None
        },
        JsonValue::Number(JsonNumber::NegInt(i)) => Some(i),
        _ => None,
    }
}

/// An optional text field: absent or null is `None`, a string is itself.
pub open spec fn optional_text_spec(v: JsonValue, key: Seq<char>, field: NodeField) -> Result<
    Option<String>,
    NodeDecodeFailure,
> {
    match field_of(v, key) {
        None => Ok(None),
        Some(JsonValue::Null) => Ok(None),
        Some(JsonValue::Str(s)) => Ok(Some(s)),
        Some(_) => Err(NodeDecodeFailure::InvalidType(field)),
    }
}

/// The date token under the impression metadata.
pub open spec fn meta_spec(v: JsonValue) -> Result<String, NodeDecodeFailure> {
    match field_of(v, meta_key()) {
        None => Err(NodeDecodeFailure::MissingField(NodeField::ProfileImpressionMeta)),
        Some(JsonValue::Object(members)) => match field_of(
            JsonValue::Object(members),
            impressed_date_time_key(),
        ) {
            None => Err(NodeDecodeFailure::MissingField(NodeField::ImpressedDateTime)),
            Some(JsonValue::Str(s)) => Ok(s),
            Some(_) => Err(NodeDecodeFailure::InvalidType(NodeField::ImpressedDateTime)),
        },
        Some(_) => Err(NodeDecodeFailure::InvalidType(NodeField::ProfileImpressionMeta)),
    }
}

/// The node fields that a payload decodes to, field by field; the first
/// field that fails decides the error.
pub open spec fn decode_fields(v: JsonValue) -> Result<
    (i64, Option<String>, Option<String>, String),
    NodeDecodeFailure,
> {
    if !(v is Object) {
        Err(NodeDecodeFailure::NotAnObject)
    } else {
        match field_of(v, user_id_key()) {
            None => Err(NodeDecodeFailure::MissingField(NodeField::UserId)),
            Some(id) => match as_i64_spec(id) {
                None => Err(NodeDecodeFailure::InvalidType(NodeField::UserId)),
                Some(user_id) => match optional_text_spec(
                    v,
                    short_description_key(),
                    NodeField::ShortDescription,
                ) {
                    Err(e) => Err(e),
                    Ok(short) => match optional_text_spec(
                        v,
                        company_page_url_key(),
                        NodeField::CompanyPageUrl,
                    ) {
                        Err(e) => Err(e),
                        Ok(url) => match meta_spec(v) {
                            Err(e) => Err(e),
                            Ok(token) => Ok((user_id, short, url, token)),
                        },
                    },
                },
            },
        }
    }
}

impl WantedlyProfileViewNode {
    /// The node's fields: viewer id, short description, company page URL and
    /// date token.
    pub open spec fn fields(self) -> (i64, Option<String>, Option<String>, String) {
        (
            self.user_id,
            self.short_description,
            self.company_page_url,
            self.profile_impression_meta.impressed_date_time,
        )
    }

    /// Decodes one edge's `node` payload. Decoding is all or nothing: a node
    /// comes back only when every required field is present and well typed.
    pub fn from_value(value: &JsonValue) -> (r: Result<Self, WantedlyProfileViewNodeError>)
        ensures
            match (r, decode_fields(*value)) {
                (Ok(node), Ok(fields)) => node.fields() == fields,
                (Err(WantedlyProfileViewNodeError::Decode(e)), Err(f)) => e == f,
                _ => false,
            },
    {
        match value {
            JsonValue::Object(_) => {},
            _ => return Err(WantedlyProfileViewNodeError::Decode(NodeDecodeFailure::NotAnObject)),
        }
        let user_id = match value.get("userId") {
            None => return Err(
                WantedlyProfileViewNodeError::Decode(
                    NodeDecodeFailure::MissingField(NodeField::UserId),
                ),
            ),
            Some(id) => match as_i64(id) {
                None => return Err(
                    WantedlyProfileViewNodeError::Decode(
                        NodeDecodeFailure::InvalidType(NodeField::UserId),
                    ),
                ),
                Some(n) => n,
            },
        };
        let short_description = match optional_text(
            value,
            "shortDescription",
            NodeField::ShortDescription,
        ) {
            Ok(s) => s,
            Err(e) => return Err(WantedlyProfileViewNodeError::Decode(e)),
        };
        let company_page_url = match optional_text(
            value,
            "companyPageUrl",
            NodeField::CompanyPageUrl,
        ) {
            Ok(s) => s,
            Err(e) => return Err(WantedlyProfileViewNodeError::Decode(e)),
        };
        let impressed_date_time = match value.get("profileImpressionMeta") {
            None => return Err(
                WantedlyProfileViewNodeError::Decode(
                    NodeDecodeFailure::MissingField(NodeField::ProfileImpressionMeta),
                ),
            ),
            Some(meta) => match meta {
                JsonValue::Object(_) => match meta.get("impressedDateTime") {
                    None => return Err(
                        WantedlyProfileViewNodeError::Decode(
                            NodeDecodeFailure::MissingField(NodeField::ImpressedDateTime),
                        ),
                    ),
                    Some(JsonValue::Str(s)) => s.clone(),
                    Some(_) => return Err(
                        WantedlyProfileViewNodeError::Decode(
                            NodeDecodeFailure::InvalidType(NodeField::ImpressedDateTime),
                        ),
                    ),
                },
                _ => return Err(
                    WantedlyProfileViewNodeError::Decode(
                        NodeDecodeFailure::InvalidType(NodeField::ProfileImpressionMeta),
                    ),
                ),
            },
        };
        Ok(
            WantedlyProfileViewNode {
                user_id,
                short_description,
                company_page_url,
                profile_impression_meta: ProfileImpressionMeta { impressed_date_time },
            },
        )
    }
}

/// Reads a JSON integer as an `i64`.
fn as_i64(v: &JsonValue) -> (r: Option<i64>)
    ensures
        r == as_i64_spec(*v),
{
    match v {
        JsonValue::Number(JsonNumber::PosInt(u)) => if *u <= i64::MAX as u64 {
            Some(*u as i64)
        } else {
            None
        },
        JsonValue::Number(JsonNumber::NegInt(i)) => Some(*i),
        _ => None,
    }
}

/// Reads an optional text field of an object.
fn optional_text(v: &JsonValue, key: &str, field: NodeField) -> (r: Result<
    Option<String>,
    NodeDecodeFailure,
>)
    ensures
        r == optional_text_spec(*v, key@, field),
{
    match v.get(key) {
        None => Ok(None),
        Some(JsonValue::Null) => Ok(None),
        Some(JsonValue::Str(s)) => Ok(Some(s.clone())),
        Some(_) => Err(NodeDecodeFailure::InvalidType(field)),
    }
}

} // verus!
