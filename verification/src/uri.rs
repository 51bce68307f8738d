//! Structured addresses of topics, subscribers and message endpoints.

use std::str::FromStr;
use vstd::prelude::*;

verus! {

/// The resource id that static topics are mapped onto by
/// [`TopicNormalization::notification`].
pub const NOTIFICATION_RESOURCE_ID: u32 = 0x8001;

/// As the authority of a filter: any authority.
pub const WILDCARD_AUTHORITY: &'static str = "*";

/// As the entity id of a filter: any entity.
pub const WILDCARD_ENTITY_ID: u32 = 0xFFFF_FFFF;

/// As the entity version of a filter: any version.
pub const WILDCARD_ENTITY_VERSION: u32 = 0xFF;

/// As the resource id of a filter: any resource.
pub const WILDCARD_RESOURCE_ID: u32 = 0xFFFF;

/// Mathematical value of a [`Uri`]: the full field tuple, by which two
/// addresses are compared.
pub struct UriView {
    pub authority_name: Seq<char>,
    pub ue_id: u32,
    pub ue_version_major: u32,
    pub resource_id: u32,
}

/// An address: authority name, entity id, entity major version, resource id.
#[derive(Debug, Hash)]
pub struct Uri {
    pub authority_name: String,
    pub ue_id: u32,
    pub ue_version_major: u32,
    pub resource_id: u32,
}

impl View for Uri {
    type V = UriView;

    open spec fn view(&self) -> UriView {
        UriView {
            authority_name: self.authority_name@,
            ue_id: self.ue_id,
            ue_version_major: self.ue_version_major,
            resource_id: self.resource_id,
        }
    }
}

impl Clone for Uri {
    fn clone(&self) -> (r: Self)
        ensures
            r == *self,
    {
        Uri {
            authority_name: self.authority_name.clone(),
            ue_id: self.ue_id,
            ue_version_major: self.ue_version_major,
            resource_id: self.resource_id,
        }
    }
}

impl PartialEq for Uri {
    fn eq(&self, other: &Self) -> (r: bool) {
        self.authority_name == other.authority_name && self.ue_id == other.ue_id
            && self.ue_version_major == other.ue_version_major && self.resource_id
            == other.resource_id
    }
}

impl Eq for Uri {

}

impl vstd::std_specs::cmp::PartialEqSpecImpl for Uri {
    open spec fn obeys_eq_spec() -> bool {
        true
    }

    open spec fn eq_spec(&self, other: &Self) -> bool {
        self@ == other@
    }
}

/// What `up_rust::UUri::from_str` makes of a text: the parsed address, or
/// `None` where the text is rejected.
pub uninterp spec fn uri_from_str(text: Seq<char>) -> Option<UriView>;

/// Calls `up_rust::UUri::from_str` and copies the four address fields of its
/// result. The contract only gives the outcome its name, [`uri_from_str`]:
/// the parser reads nothing but its argument, so equal texts give equal
/// outcomes.
#[verifier::external_body]
fn parse_uri(text: &str) -> (r: Option<Uri>)
    ensures
        r.is_some() == uri_from_str(text@).is_some(),
        r.is_some() ==> r.unwrap()@ == uri_from_str(text@).unwrap(),
{
    up_rust::UUri::from_str(text).ok().map(
        |u| Uri {
            authority_name: u.authority_name,
            ue_id: u.ue_id,
            ue_version_major: u.ue_version_major,
            resource_id: u.resource_id,
        },
    )
}

impl Uri {
    /// Parses the textual form of an address, such as `//authority/1236/1/8001`.
    pub fn parse(text: &str) -> (r: Option<Uri>)
        ensures
            r.is_some() == uri_from_str(text@).is_some(),
            r.is_some() ==> r.unwrap()@ == uri_from_str(text@).unwrap(),
    {
        parse_uri(text)
    }

    /// The filter for every address under the authority `authority`.
    pub open spec fn spec_any_under(authority: Seq<char>) -> UriView {
        UriView {
            authority_name: authority,
            ue_id: WILDCARD_ENTITY_ID,
            ue_version_major: WILDCARD_ENTITY_VERSION,
            resource_id: WILDCARD_RESOURCE_ID,
        }
    }

    pub fn any_under(authority: &str) -> (r: Uri)
        ensures
            r@ == Uri::spec_any_under(authority@),
    {
        Uri {
            authority_name: authority.to_owned(),
            ue_id: WILDCARD_ENTITY_ID,
            ue_version_major: WILDCARD_ENTITY_VERSION,
            resource_id: WILDCARD_RESOURCE_ID,
        }
    }

    /// The filter for every address.
    pub fn any() -> (r: Uri)
        ensures
            r@ == Uri::spec_any_under(WILDCARD_AUTHORITY@),
    {
        Uri::any_under(WILDCARD_AUTHORITY)
    }

    /// Whether `self` and `other` are the same address.
    pub fn same(&self, other: &Uri) -> (r: bool)
        ensures
            r == (self@ == other@),
    {
        *self == *other
    }
}

/// What is done to a topic address read from a static subscription document
/// before it is used as a key.
///
/// Static documents may name topics under resource ids that the publishing
/// side does not use on the wire. `ResourceId` maps every static topic onto
/// one well-known resource id, so that the topic of an arriving message and
/// the key read from the document agree; `Keep` leaves topics as written.
#[derive(Clone, Copy, Debug, PartialEq, Eq, Structural)]
pub enum TopicNormalization {
    Keep,
    ResourceId(u32),
}

impl TopicNormalization {
    /// The rule that maps every static topic onto
    /// [`NOTIFICATION_RESOURCE_ID`].
    pub fn notification() -> (r: TopicNormalization)
        ensures
            r == TopicNormalization::ResourceId(NOTIFICATION_RESOURCE_ID),
    {
        TopicNormalization::ResourceId(NOTIFICATION_RESOURCE_ID)
    }

    /// The topic that `topic` stands for under this rule.
    pub open spec fn apply(self, topic: UriView) -> UriView {
        match self {
            TopicNormalization::Keep => topic,
            TopicNormalization::ResourceId(id) => UriView { resource_id: id, ..topic },
        }
    }

    pub fn normalize(&self, topic: Uri) -> (r: Uri)
        ensures
            r@ == self.apply(topic@),
    {
        match self {
            TopicNormalization::Keep => topic,
            TopicNormalization::ResourceId(id) => Uri {
                authority_name: topic.authority_name,
                ue_id: topic.ue_id,
                ue_version_major: topic.ue_version_major,
                resource_id: *id,
            },
        }
    }
}

} // verus!
