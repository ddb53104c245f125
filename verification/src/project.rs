//! User-named groupings of resource descriptors.

use vstd::prelude::*;
use crate::resource_descriptor::{ResourceDescriptor, ResourceDescriptorView};
use crate::service::Service;

verus! {

/// The mathematical value of a project.
#[verifier::ext_equal]
pub ghost struct ProjectView {
    pub id: Seq<char>,
    pub name: Seq<char>,
    pub resources: Seq<ResourceDescriptorView>,
}

/// A named grouping of resource descriptors. The identifier is assigned
/// once at creation and is never meant to change; the name carries no
/// uniqueness constraint.
#[derive(Debug, Hash)]
pub struct Project {
    pub id: String,
    pub name: String,
    pub resources: Vec<ResourceDescriptor>,
}

impl View for Project {
    type V = ProjectView;

    open spec fn view(&self) -> ProjectView {
        ProjectView {
            id: self.id@,
            name: self.name@,
            resources: self.resources.deep_view(),
        }
    }
}

impl DeepView for Project {
    type V = ProjectView;

    open spec fn deep_view(&self) -> ProjectView {
        self.view()
    }
}

impl Clone for Project {
    fn clone(&self) -> (r: Self)
        ensures
            r@ == self@,
    {
        Project {
            id: self.id.clone(),
            name: self.name.clone(),
            resources: clone_resources(&self.resources),
        }
    }
}

impl PartialEq for Project {
    fn eq(&self, other: &Self) -> (r: bool) {
        self.id == other.id && self.name == other.name
            && resources_eq(&self.resources, &other.resources)
    }
}

impl Eq for Project {

}

impl vstd::std_specs::cmp::PartialEqSpecImpl for Project {
    open spec fn obeys_eq_spec() -> bool {
        true
    }

    open spec fn eq_spec(&self, other: &Self) -> bool {
        self@ == other@
    }
}

fn clone_resources(v: &Vec<ResourceDescriptor>) -> (r: Vec<ResourceDescriptor>)
    ensures
        r.deep_view() == v.deep_view(),
{
    let mut r: Vec<ResourceDescriptor> = Vec::new();
    let mut i: usize = 0;
    while i < v.len()
        invariant
            i <= v.len(),
            r@.len() == i,
            forall|j: int| 0 <= j < i ==> #[trigger] r@[j]@ == v@[j]@,
        decreases v.len() - i,
    {
        r.push(v[i].clone());
        i = i + 1;
    }
    proof {
        assert forall|j: int| 0 <= j < v@.len() implies r.deep_view()[j] == v.deep_view()[j] by {
            assert(r@[j]@ == v@[j]@);
        }
        assert(r.deep_view() =~= v.deep_view());
    }
    r
}

fn resources_eq(a: &Vec<ResourceDescriptor>, b: &Vec<ResourceDescriptor>) -> (r: bool)
    ensures
        r == (a.deep_view() == b.deep_view()),
{
    if a.len() != b.len() {
        proof {
            assert(a.deep_view().len() == a@.len());
            assert(b.deep_view().len() == b@.len());
        }
        return false;
    }
    let mut i: usize = 0;
    while i < a.len()
        invariant
            i <= a.len(),
            a.len() == b.len(),
            a.deep_view().len() == a@.len(),
            b.deep_view().len() == b@.len(),
            forall|j: int| 0 <= j < i ==> a.deep_view()[j] == b.deep_view()[j],
        decreases a.len() - i,
    {
        if !(a[i] == b[i]) {
            proof {
                assert(a.deep_view()[i as int] == a@[i as int]@);
                assert(b.deep_view()[i as int] == b@[i as int]@);
                assert(a.deep_view() != b.deep_view());
            }
            return false;
        }
        i = i + 1;
    }
    proof {
        assert(a.deep_view() =~= b.deep_view());
    }
    true
}

/// The distinct services of a run of descriptors, each service listed
/// once, in order of first occurrence.
pub open spec fn distinct_services(resources: Seq<ResourceDescriptorView>) -> Seq<Service>
    decreases resources.len(),
{
    if resources.len() == 0 {
        Seq::empty()
    } else {
        let rest = distinct_services(resources.drop_last());
        if rest.contains(resources.last().service) {
            rest
        } else {
            rest.push(resources.last().service)
        }
    }
}

/// A service stands in `distinct_services` exactly when some descriptor
/// carries it, and no service is listed twice.
pub proof fn lemma_distinct_services(resources: Seq<ResourceDescriptorView>)
    ensures
        forall|s: Service| #[trigger] distinct_services(resources).contains(s)
            <==> (exists|i: int| 0 <= i < resources.len() && #[trigger] resources[i].service == s),
        forall|i: int, j: int| 0 <= i < j < distinct_services(resources).len()
            ==> distinct_services(resources)[i] != distinct_services(resources)[j],
    decreases resources.len(),
{
    if resources.len() == 0 {
    } else {
        let prefix = resources.drop_last();
        lemma_distinct_services(prefix);
        let rest = distinct_services(prefix);
        let last = resources.last().service;
        assert forall|s: Service| #[trigger] distinct_services(resources).contains(s)
            implies (exists|i: int| 0 <= i < resources.len() && #[trigger] resources[i].service == s) by {
            if s == last {
                assert(resources[resources.len() - 1].service == s);
            } else {
                assert(rest.contains(s)) by {
                    if !rest.contains(last) {
                        assert(distinct_services(resources) == rest.push(last));
                        let k = choose|k: int| 0 <= k < rest.push(last).len()
                            && rest.push(last)[k] == s;
                        assert(k < rest.len());
                        assert(rest[k] == s);
                    }
                }
                let i = choose|i: int| 0 <= i < prefix.len() && #[trigger] prefix[i].service == s;
                assert(resources[i].service == s);
            }
        }
        assert forall|s: Service| (exists|i: int| 0 <= i < resources.len()
            && #[trigger] resources[i].service == s)
            implies #[trigger] distinct_services(resources).contains(s) by {
            let i = choose|i: int| 0 <= i < resources.len() && #[trigger] resources[i].service == s;
            if i < resources.len() - 1 {
                assert(prefix[i].service == s);
                assert(rest.contains(s));
                if !rest.contains(last) {
                    let k = choose|k: int| 0 <= k < rest.len() && rest[k] == s;
                    assert(rest.push(last)[k] == s);
                }
            } else {
                assert(s == last);
                if rest.contains(last) {
                } else {
                    assert(rest.push(last)[rest.len() as int] == s);
                }
            }
        }
    }
}

/// Relies on ulid::Ulid::new and Ulid::to_string: a fresh identifier drawn
/// from the clock and randomness, rendered in its canonical 26-character
/// base32 text form.
#[verifier::external_body]
fn generate_project_id() -> (r: String)
    ensures
        r@.len() == 26,
{
    ulid::Ulid::new().to_string()
}

impl Project {
    /// Creates a project with a freshly generated identifier, the given
    /// name, and no resources.
    pub fn new(name: &str) -> (r: Self)
        ensures
            r@.id.len() == 26,
            r@.name == name@,
            r@.resources.len() == 0,
    {
        Project { id: generate_project_id(), name: name.to_owned(), resources: Vec::new() }
    }

    /// The distinct services across the project's resources, in order of
    /// first occurrence.
    pub fn get_services(&self) -> (r: Vec<Service>)
        ensures
            r@ == distinct_services(self@.resources),
    {
        let mut result: Vec<Service> = Vec::new();
        let mut i: usize = 0;
        while i < self.resources.len()
            invariant
                i <= self.resources.len(),
                self@.resources.len() == self.resources@.len(),
                result@ == distinct_services(self@.resources.take(i as int)),
            decreases self.resources.len() - i,
        {
            let s = self.resources[i].service;
            proof {
                let prefix = self@.resources.take(i as int + 1);
                assert(prefix.drop_last() =~= self@.resources.take(i as int));
                assert(prefix.last() == self@.resources[i as int]);
                assert(self@.resources[i as int].service == s);
            }
            if !contains_service(&result, s) {
                result.push(s);
            }
            i = i + 1;
        }
        proof {
            assert(self@.resources.take(self.resources@.len() as int) =~= self@.resources);
        }
        result
    }
}

fn contains_service(v: &Vec<Service>, s: Service) -> (r: bool)
    ensures
        r == v@.contains(s),
{
    let mut i: usize = 0;
    while i < v.len()
        invariant
            i <= v.len(),
            forall|j: int| 0 <= j < i ==> v@[j] != s,
        decreases v.len() - i,
    {
        if v[i] == s {
            return true;
        }
        i = i + 1;
    }
    false
}

} // verus!
