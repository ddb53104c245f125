//! Descriptors that identify one cloud resource by profile, region,
//! service and identifier.

use vstd::prelude::*;
use vstd::std_specs::cmp::PartialEqSpec;
use crate::service::Service;

verus! {

/// The mathematical value of a descriptor: the four coordinates that
/// identify a resource.
#[verifier::ext_equal]
pub ghost struct ResourceDescriptorView {
    pub profile: Seq<char>,
    pub region: Seq<char>,
    pub service: Service,
    pub id: Seq<char>,
}

/// Identifies one cloud resource: a credential profile, a region code,
/// the service, and the service-specific identifier. The identifier is
/// meaningful only relative to the other three coordinates.
#[derive(Debug, Hash)]
pub struct ResourceDescriptor {
    pub profile: String,
    pub region: String,
    pub service: Service,
    pub id: String,
}

impl View for ResourceDescriptor {
    type V = ResourceDescriptorView;

    open spec fn view(&self) -> ResourceDescriptorView {
        ResourceDescriptorView {
            profile: self.profile@,
            region: self.region@,
            service: self.service,
            id: self.id@,
        }
    }
}

impl DeepView for ResourceDescriptor {
    type V = ResourceDescriptorView;

    open spec fn deep_view(&self) -> ResourceDescriptorView {
        self.view()
    }
}

impl Clone for ResourceDescriptor {
    fn clone(&self) -> (r: Self)
        ensures
            r == *self,
    {
        ResourceDescriptor {
            profile: self.profile.clone(),
            region: self.region.clone(),
            service: self.service,
            id: self.id.clone(),
        }
    }
}

impl PartialEq for ResourceDescriptor {
    fn eq(&self, other: &Self) -> (r: bool) {
        self.profile == other.profile && self.region == other.region
            && self.service == other.service && self.id == other.id
    }
}

impl Eq for ResourceDescriptor {

}

impl vstd::std_specs::cmp::PartialEqSpecImpl for ResourceDescriptor {
    open spec fn obeys_eq_spec() -> bool {
        true
    }

    open spec fn eq_spec(&self, other: &Self) -> bool {
        self@ == other@
    }
}

impl ResourceDescriptor {
    /// The name under which the resource is shown: for both services the
    /// service-specific identifier itself.
    pub fn get_display_name(&self) -> (r: String)
        ensures
            r@ == self@.id,
    {
        match self.service {
            Service::Lambda => self.id.clone(),
            Service::S3 => self.id.clone(),
        }
    }
}

/// Two descriptors are equal exactly when all four coordinates agree, so
/// equality breaks as soon as any one coordinate differs.
pub proof fn lemma_descriptor_identity(a: ResourceDescriptor, b: ResourceDescriptor)
    ensures
        a.eq_spec(&b) <==> (a@.profile == b@.profile && a@.region == b@.region
            && a@.service == b@.service && a@.id == b@.id),
{
}

} // verus!
