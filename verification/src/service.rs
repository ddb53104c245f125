//! The cloud services whose resources the workspace can reference.

use vstd::prelude::*;
use crate::text::str_eq;

verus! {

/// A cloud service a resource descriptor can point into.
#[derive(Clone, Copy, Debug, PartialEq, Eq, Hash, Structural)]
pub enum Service {
    Lambda,
    S3,
}

impl Service {
    /// The tag under which the service appears in a workspace document
    /// and in the interface.
    pub open spec fn tag_view(self) -> Seq<char> {
        match self {
            Service::Lambda => "Lambda"@,
            Service::S3 => "S3"@,
        }
    }

    /// The service parsed from a tag; anything but the two known tags is
    /// rejected.
    pub open spec fn spec_from_tag(tag: Seq<char>) -> Option<Service> {
        if tag == "Lambda"@ {
            Some(Service::Lambda)
        } else if tag == "S3"@ {
            Some(Service::S3)
        } else {
            None
        }
    }

    /// Renders the service name.
    pub fn name(&self) -> (r: String)
        ensures
            r@ == self.tag_view(),
    {
        match self {
            Service::Lambda => "Lambda".to_owned(),
            Service::S3 => "S3".to_owned(),
        }
    }

    /// Parses a service tag.
    pub fn from_tag(tag: &str) -> (r: Option<Service>)
        ensures
            r == Service::spec_from_tag(tag@),
    {
        if str_eq(tag, "Lambda") {
            Some(Service::Lambda)
        } else if str_eq(tag, "S3") {
            Some(Service::S3)
        } else {
            None
        }
    }

    /// The two tags name different services, so parsing a rendered tag
    /// gives the service back.
    pub proof fn lemma_tag_round_trip(s: Service)
        ensures
            Service::spec_from_tag(s.tag_view()) == Some(s),
    {
        reveal_strlit("Lambda");
        reveal_strlit("S3");
        match s {
            Service::Lambda => {
            }
            Service::S3 => {
                assert("S3"@.len() == 2);
                assert("Lambda"@.len() == 6);
                assert("S3"@ != "Lambda"@);
            }
        }
    }
}

} // verus!
