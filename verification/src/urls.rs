//! The shortened-URL resource: records and request bodies with their shape
//! checks. Persistence of these records is plumbing outside this library.
use vstd::prelude::*;
use crate::Validate;

pub mod validators;

verus! {

/// A shortened-URL record.
pub struct Url {
    pub id: u128,
    pub creator: u128,
    pub title: String,
    pub description: Option<String>,
    pub long_url: String,
    pub short_url: String,
    pub times_visited: i32,
    pub created_at: u64,
    pub updated_at: u64,
}

/// Body for creating a shortened URL.
pub struct CreateBody {
    pub title: String,
    pub description: Option<String>,
    pub long_url: String,
}

impl Validate for CreateBody {
    open spec fn valid(&self) -> bool {
        &&& validators::valid_title(self.title@)
        &&& validators::valid_long_url(self.long_url@)
        &&& (self.description matches Some(d) ==> validators::valid_description(d@))
    }

    fn validate(&self) -> (r: bool) {
        validators::is_valid_title(self.title.as_str()) && validators::is_valid_long_url(
            self.long_url.as_str(),
        ) && match &self.description {
            Some(d) => validators::is_valid_description(d.as_str()),
            None => true,
        }
    }
}

/// Body for patching a shortened URL; absent fields always pass.
pub struct PatchBody {
    pub title: Option<String>,
    pub description: Option<String>,
}

impl Validate for PatchBody {
    open spec fn valid(&self) -> bool {
        &&& (self.title matches Some(t) ==> validators::valid_title(t@))
        &&& (self.description matches Some(d) ==> validators::valid_description(d@))
    }

    fn validate(&self) -> (r: bool) {
        (match &self.title {
            Some(t) => validators::is_valid_title(t.as_str()),
            None => true,
        }) && (match &self.description {
            Some(d) => validators::is_valid_description(d.as_str()),
            None => true,
        })
    }
}

} // verus!
