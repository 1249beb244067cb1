use vstd::prelude::*;

verus! {

/// Body of a request to shorten a URL: the target URL and an optional owner
/// identity.
pub struct UrlExistsRequest {
    pub url: String,
    pub discord_id: Option<String>,
}

/// A persisted URL record: the unique short code (the primary key), the
/// original URL it resolves to, the optional owner identity, and the
/// logical timestamp the store assigned at insertion.
pub struct UrlDbSchema {
    pub discord_id: Option<String>,
    pub short_code: String,
    pub original_url: String,
    pub created_at: u64,
}

impl Clone for UrlDbSchema {
    fn clone(&self) -> (r: Self)
        ensures
            r == *self,
    {
        UrlDbSchema {
            discord_id: match &self.discord_id {
                Some(id) => Some(id.clone()),
                None => None,
            },
            short_code: self.short_code.clone(),
            original_url: self.original_url.clone(),
            created_at: self.created_at,
        }
    }
}

/// The mathematical value of a [`UrlDbSchema`]: the same fields over
/// sequences of characters.
pub struct RecordView {
    pub discord_id: Option<Seq<char>>,
    pub short_code: Seq<char>,
    pub original_url: Seq<char>,
    pub created_at: u64,
}

impl View for UrlDbSchema {
    type V = RecordView;

    open spec fn view(&self) -> RecordView {
        RecordView {
            discord_id: self.discord_id.deep_view(),
            short_code: self.short_code@,
            original_url: self.original_url@,
            created_at: self.created_at,
        }
    }
}

impl DeepView for UrlDbSchema {
    type V = RecordView;

    open spec fn deep_view(&self) -> RecordView {
        self.view()
    }
}

/// A record is valid when its URL is non-empty and its owner identity, if
/// present, is non-empty: an anonymous record carries no identity rather
/// than an empty one.
pub open spec fn valid_record(r: RecordView) -> bool {
    &&& r.original_url.len() > 0
    &&& r.discord_id matches Some(id) ==> id.len() > 0
}

/// The response to a successful shortening request: the assigned code.
pub struct ShortCode {
    pub code: String,
}

/// A human-readable outcome: a success message or an error, never both.
pub struct Message {
    pub message: Option<String>,
    pub error: Option<String>,
}

} // verus!
