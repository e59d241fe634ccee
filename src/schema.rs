use vstd::prelude::*;

use crate::date::UtcInstant;

verus! {

/// A company known by its page URL.
#[derive(Debug)]
pub struct WantedlyCompany {
    pub id: i64,
    pub company_page_url: String,
    pub company_slug: String,
    pub created_at: UtcInstant,
}

/// Where a company attribute came from.
#[derive(Debug, Clone, Copy, PartialEq, Eq, Structural)]
pub enum CompanyAttributeSource {
    Ai,
}

/// A profile viewer, with the company it was last seen with.
#[derive(Debug)]
pub struct WantedlyViewer {
    pub id: i64,
    pub source_user_id: String,
    pub company_id: Option<i64>,
    pub created_at: UtcInstant,
}

/// One impression: a viewer seen at an instant, with the company at view
/// time and the raw record it came from.
#[derive(Debug)]
pub struct WantedlyImpression {
    pub id: i64,
    pub viewer_id: i64,
    pub company_id_at_view: i64,
    pub impressed_at: UtcInstant,
    pub raw_profile_view_id: i64,
    pub created_at: UtcInstant,
}

} // verus!
