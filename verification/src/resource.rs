//! Live resources and the decision logic of the resolver.
//!
//! The calls that actually reach the cloud APIs stay with the surrounding
//! application; it hands the plain outcome of each call — a configuration
//! that was or was not found, the items of a listing — to the functions
//! here, which take every decision the resolver makes: matching the
//! descriptor against the resolver invoked, turning a missing answer into
//! the right error, picking a bucket out of a listing, and handing
//! listings over in sorted order.

use vstd::prelude::*;
use crate::error::ResolutionError;
use crate::resource_descriptor::ResourceDescriptor;
use crate::service::Service;
use crate::text::{lemma_name_le_total, lemma_name_le_trans, name_le, name_le_exec};

verus! {

/// The mathematical value of a Lambda function's details.
#[verifier::ext_equal]
pub ghost struct LambdaFunctionInfoView {
    pub name: Option<Seq<char>>,
}

/// The details of one Lambda function, reduced to the plain values the
/// model reads; the surrounding application keeps whatever else the cloud
/// answer carried.
#[derive(Debug)]
pub struct LambdaFunctionInfo {
    pub name: Option<String>,
}

/// The mathematical value of a bucket's details.
#[verifier::ext_equal]
pub ghost struct BucketInfoView {
    pub name: Option<Seq<char>>,
}

/// The details of one S3 bucket, reduced in the same way.
#[derive(Debug)]
pub struct BucketInfo {
    pub name: Option<String>,
}

impl View for LambdaFunctionInfo {
    type V = LambdaFunctionInfoView;

    open spec fn view(&self) -> LambdaFunctionInfoView {
        LambdaFunctionInfoView { name: self.name.deep_view() }
    }
}

impl DeepView for LambdaFunctionInfo {
    type V = LambdaFunctionInfoView;

    open spec fn deep_view(&self) -> LambdaFunctionInfoView {
        self.view()
    }
}

impl Clone for LambdaFunctionInfo {
    fn clone(&self) -> (r: Self)
        ensures
            r@ == self@,
    {
        LambdaFunctionInfo {
            name: match &self.name {
                Some(n) => Some(n.clone()),
                None => None,
            },
        }
    }
}

impl View for BucketInfo {
    type V = BucketInfoView;

    open spec fn view(&self) -> BucketInfoView {
        BucketInfoView { name: self.name.deep_view() }
    }
}

impl DeepView for BucketInfo {
    type V = BucketInfoView;

    open spec fn deep_view(&self) -> BucketInfoView {
        self.view()
    }
}

impl Clone for BucketInfo {
    fn clone(&self) -> (r: Self)
        ensures
            r@ == self@,
    {
        BucketInfo {
            name: match &self.name {
                Some(n) => Some(n.clone()),
                None => None,
            },
        }
    }
}

/// The mathematical value of a resolved resource.
#[verifier::ext_equal]
pub ghost enum ResourceView {
    LambdaFunction(LambdaFunctionInfoView),
    S3Bucket(BucketInfoView),
}

impl ResourceView {
    /// The name a resolved resource is shown under: its own name when the
    /// cloud answer carried one, a fixed placeholder otherwise.
    pub open spec fn display_view(self) -> Seq<char> {
        match self {
            ResourceView::LambdaFunction(f) => match f.name {
                Some(n) => n,
                None => "Unnamed"@,
            },
            ResourceView::S3Bucket(b) => match b.name {
                Some(n) => n,
                None => "Unnamed"@,
            },
        }
    }
}

/// A resolved resource: the detail payload of one variant per service.
#[derive(Debug)]
pub enum Resource {
    LambdaFunction(Box<LambdaFunctionInfo>),
    S3Bucket(BucketInfo),
}

impl View for Resource {
    type V = ResourceView;

    open spec fn view(&self) -> ResourceView {
        match self {
            Resource::LambdaFunction(f) => ResourceView::LambdaFunction(f@),
            Resource::S3Bucket(b) => ResourceView::S3Bucket(b@),
        }
    }
}

impl DeepView for Resource {
    type V = ResourceView;

    open spec fn deep_view(&self) -> ResourceView {
        self.view()
    }
}

impl Resource {
    /// The name the resource is shown under.
    pub fn get_display_name(&self) -> (r: String)
        ensures
            r@ == self@.display_view(),
    {
        match self {
            Resource::LambdaFunction(f) => match &f.name {
                Some(n) => n.clone(),
                None => "Unnamed".to_owned(),
            },
            Resource::S3Bucket(b) => match &b.name {
                Some(n) => n.clone(),
                None => "Unnamed".to_owned(),
            },
        }
    }
}

/// Whether a run of function details is in listing order.
pub open spec fn functions_sorted(s: Seq<LambdaFunctionInfoView>) -> bool {
    forall|i: int, j: int| 0 <= i < j < s.len() ==> #[trigger] name_le(s[i].name, s[j].name)
}

/// Whether a run of bucket details is in listing order.
pub open spec fn buckets_sorted(s: Seq<BucketInfoView>) -> bool {
    forall|i: int, j: int| 0 <= i < j < s.len() ==> #[trigger] name_le(s[i].name, s[j].name)
}

/// Places one function where it belongs in an ordered run.
fn insert_function_sorted(v: Vec<LambdaFunctionInfo>, x: LambdaFunctionInfo) -> (r: Vec<
    LambdaFunctionInfo,
>)
    requires
        functions_sorted(v.deep_view()),
    ensures
        functions_sorted(r.deep_view()),
        r.deep_view().to_multiset() == v.deep_view().to_multiset().insert(x@),
        r@.len() == v@.len() + 1,
{
    let mut idx: usize = 0;
    while idx < v.len() && name_le_exec(&v[idx].name, &x.name)
        invariant
            idx <= v.len(),
            forall|j: int| 0 <= j < idx ==> #[trigger] name_le(v.deep_view()[j].name, x@.name),
        decreases v.len() - idx,
    {
        idx = idx + 1;
    }
    let ghost old_view = v.deep_view();
    let mut out = v;
    out.insert(idx, x);
    proof {
        assert(out.deep_view() =~= old_view.insert(idx as int, x@));
        vstd::seq_lib::to_multiset_insert(old_view, idx as int, x@);
        let dv = out.deep_view();
        assert forall|i: int, j: int| 0 <= i < j < dv.len() implies #[trigger] name_le(
            dv[i].name,
            dv[j].name,
        ) by {
            if i < idx && j == idx {
            } else if i == idx && j > idx {
                lemma_name_le_total(old_view[idx as int].name, x@.name);
                if (idx as int) < j - 1 {
                    assert(name_le(old_view[idx as int].name, old_view[j - 1].name));
                    lemma_name_le_trans(x@.name, old_view[idx as int].name, old_view[j - 1].name);
                }
            } else if i < idx && j > idx {
                assert(name_le(old_view[i].name, old_view[j - 1].name));
            } else if i > idx && j > idx {
                assert(name_le(old_view[i - 1].name, old_view[j - 1].name));
            } else {
                assert(i < idx && j < idx);
                assert(name_le(old_view[i].name, old_view[j].name));
            }
        }
    }
    out
}

/// Orders a run of function details by name; details without a name come
/// first. The result holds the same details, counted with multiplicity.
fn sort_functions(functions: Vec<LambdaFunctionInfo>) -> (r: Vec<LambdaFunctionInfo>)
    ensures
        functions_sorted(r.deep_view()),
        r.deep_view().to_multiset() == functions.deep_view().to_multiset(),
        r@.len() == functions@.len(),
{
    let mut out: Vec<LambdaFunctionInfo> = Vec::new();
    let mut i: usize = 0;
    proof {
        assert(out.deep_view() =~= Seq::<LambdaFunctionInfoView>::empty());
        assert(functions.deep_view().take(0) =~= Seq::<LambdaFunctionInfoView>::empty());
    }
    while i < functions.len()
        invariant
            i <= functions.len(),
            functions_sorted(out.deep_view()),
            out.deep_view().to_multiset() == functions.deep_view().take(i as int).to_multiset(),
            out@.len() == i,
        decreases functions.len() - i,
    {
        out = insert_function_sorted(out, functions[i].clone());
        proof {
            let full = functions.deep_view();
            assert(full.take(i as int + 1) =~= full.take(i as int).push(full[i as int]));
            vstd::seq_lib::to_multiset_build(full.take(i as int), full[i as int]);
        }
        i = i + 1;
    }
    proof {
        assert(functions.deep_view().take(functions@.len() as int) =~= functions.deep_view());
    }
    out
}

/// Places one bucket where it belongs in an ordered run.
fn insert_bucket_sorted(v: Vec<BucketInfo>, x: BucketInfo) -> (r: Vec<BucketInfo>)
    requires
        buckets_sorted(v.deep_view()),
    ensures
        buckets_sorted(r.deep_view()),
        r.deep_view().to_multiset() == v.deep_view().to_multiset().insert(x@),
        r@.len() == v@.len() + 1,
{
    let mut idx: usize = 0;
    while idx < v.len() && name_le_exec(&v[idx].name, &x.name)
        invariant
            idx <= v.len(),
            forall|j: int| 0 <= j < idx ==> #[trigger] name_le(v.deep_view()[j].name, x@.name),
        decreases v.len() - idx,
    {
        idx = idx + 1;
    }
    let ghost old_view = v.deep_view();
    let mut out = v;
    out.insert(idx, x);
    proof {
        assert(out.deep_view() =~= old_view.insert(idx as int, x@));
        vstd::seq_lib::to_multiset_insert(old_view, idx as int, x@);
        let dv = out.deep_view();
        assert forall|i: int, j: int| 0 <= i < j < dv.len() implies #[trigger] name_le(
            dv[i].name,
            dv[j].name,
        ) by {
            if i < idx && j == idx {
            } else if i == idx && j > idx {
                lemma_name_le_total(old_view[idx as int].name, x@.name);
                if (idx as int) < j - 1 {
                    assert(name_le(old_view[idx as int].name, old_view[j - 1].name));
                    lemma_name_le_trans(x@.name, old_view[idx as int].name, old_view[j - 1].name);
                }
            } else if i < idx && j > idx {
                assert(name_le(old_view[i].name, old_view[j - 1].name));
            } else if i > idx && j > idx {
                assert(name_le(old_view[i - 1].name, old_view[j - 1].name));
            } else {
                assert(i < idx && j < idx);
                assert(name_le(old_view[i].name, old_view[j].name));
            }
        }
    }
    out
}

/// Orders a run of bucket details by name, as for functions.
fn sort_buckets(buckets: Vec<BucketInfo>) -> (r: Vec<BucketInfo>)
    ensures
        buckets_sorted(r.deep_view()),
        r.deep_view().to_multiset() == buckets.deep_view().to_multiset(),
        r@.len() == buckets@.len(),
{
    let mut out: Vec<BucketInfo> = Vec::new();
    let mut i: usize = 0;
    proof {
        assert(out.deep_view() =~= Seq::<BucketInfoView>::empty());
        assert(buckets.deep_view().take(0) =~= Seq::<BucketInfoView>::empty());
    }
    while i < buckets.len()
        invariant
            i <= buckets.len(),
            buckets_sorted(out.deep_view()),
            out.deep_view().to_multiset() == buckets.deep_view().take(i as int).to_multiset(),
            out@.len() == i,
        decreases buckets.len() - i,
    {
        out = insert_bucket_sorted(out, buckets[i].clone());
        proof {
            let full = buckets.deep_view();
            assert(full.take(i as int + 1) =~= full.take(i as int).push(full[i as int]));
            vstd::seq_lib::to_multiset_build(full.take(i as int), full[i as int]);
        }
        i = i + 1;
    }
    proof {
        assert(buckets.deep_view().take(buckets@.len() as int) =~= buckets.deep_view());
    }
    out
}

/// The first bucket of a listing that carries the wanted name, if any.
pub open spec fn spec_find_bucket(buckets: Seq<BucketInfoView>, id: Seq<char>) -> Option<
    BucketInfoView,
>
    decreases buckets.len(),
{
    if buckets.len() == 0 {
        None
    } else if buckets[0].name == Some(id) {
        Some(buckets[0])
    } else {
        spec_find_bucket(buckets.skip(1), id)
    }
}

/// The resolver component for Lambda functions: it owns the decisions
/// around the cloud calls that look functions up and list them.
#[derive(Debug)]
pub struct LambdaFunctionDetails {
}

impl LambdaFunctionDetails {
    pub fn new() -> (r: Self) {
        LambdaFunctionDetails {  }
    }

    /// The decision after a function lookup. A descriptor for any other
    /// service never matches this resolver; a lookup that came back
    /// without a configuration means the function does not exist; a
    /// configuration becomes the resolved resource.
    pub fn resource_from_configuration(
        descriptor: &ResourceDescriptor,
        configuration: Option<LambdaFunctionInfo>,
    ) -> (r: Result<Resource, ResolutionError>)
        ensures
            descriptor@.service != Service::Lambda ==> (r matches Err(e) && e
                == ResolutionError::InvalidDescriptor),
            descriptor@.service == Service::Lambda ==> match configuration {
                Some(f) => r matches Ok(res) && res@ == ResourceView::LambdaFunction(f@),
                None => r matches Err(e) && e == ResolutionError::NotFound,
            },
    {
        match descriptor.service {
            Service::Lambda => match configuration {
                Some(f) => Ok(Resource::LambdaFunction(Box::new(f))),
                None => Err(ResolutionError::NotFound),
            },
            _ => Err(ResolutionError::InvalidDescriptor),
        }
    }

    /// Hands a listing of functions over in listing order: the same
    /// details, counted with multiplicity, each as a resolved resource,
    /// sorted by name with unnamed details first.
    pub fn collate_listing(functions: Vec<LambdaFunctionInfo>) -> (r: Vec<Resource>)
        ensures
            r@.len() == functions@.len(),
            forall|i: int| 0 <= i < r@.len() ==> #[trigger] r.deep_view()[i] is LambdaFunction,
            r.deep_view().map_values(|x: ResourceView| x->LambdaFunction_0).to_multiset()
                == functions.deep_view().to_multiset(),
            functions_sorted(
                r.deep_view().map_values(|x: ResourceView| x->LambdaFunction_0),
            ),
    {
        let sorted = sort_functions(functions);
        let mut out: Vec<Resource> = Vec::new();
        let mut i: usize = 0;
        while i < sorted.len()
            invariant
                i <= sorted.len(),
                out@.len() == i,
                forall|j: int| 0 <= j < i ==> #[trigger] out@[j]@
                    == ResourceView::LambdaFunction(sorted.deep_view()[j]),
            decreases sorted.len() - i,
        {
            let item = sorted[i].clone();
            let ghost gitem = item@;
            let res = Resource::LambdaFunction(Box::new(item));
            proof {
                assert(gitem == sorted.deep_view()[i as int]);
                assert(res@ == ResourceView::LambdaFunction(gitem));
            }
            let ghost prev = out@;
            out.push(res);
            proof {
                assert forall|j: int| 0 <= j < i + 1 implies #[trigger] out@[j]@
                    == ResourceView::LambdaFunction(sorted.deep_view()[j]) by {
                    if j < i as int {
                        assert(out@[j] == prev[j]);
                    }
                }
            }
            i = i + 1;
        }
        proof {
            assert forall|j: int| 0 <= j < out@.len() implies out.deep_view()[j]
                == ResourceView::LambdaFunction(sorted.deep_view()[j]) by {
                assert(out@[j]@ == ResourceView::LambdaFunction(sorted.deep_view()[j]));
            }
            assert(out.deep_view().map_values(|x: ResourceView| x->LambdaFunction_0)
                =~= sorted.deep_view());
        }
        out
    }
}

/// The resolver component for S3 buckets: it owns the decisions around
/// the cloud calls that list buckets and pick one out of the listing.
#[derive(Debug)]
pub struct S3BucketDetails {
}

impl S3BucketDetails {
    pub fn new() -> (r: Self) {
        S3BucketDetails {  }
    }

    /// The decision after a bucket listing, for resolving one descriptor.
    /// A descriptor for any other service never matches this resolver;
    /// otherwise the first bucket of the listing whose name matches the
    /// descriptor's identifier is the resolved resource, and a listing
    /// without a match means the bucket does not exist.
    pub fn resource_from_listing(
        descriptor: &ResourceDescriptor,
        buckets: &Vec<BucketInfo>,
    ) -> (r: Result<Resource, ResolutionError>)
        ensures
            descriptor@.service != Service::S3 ==> (r matches Err(e) && e
                == ResolutionError::InvalidDescriptor),
            descriptor@.service == Service::S3 ==> match spec_find_bucket(
                buckets.deep_view(),
                descriptor@.id,
            ) {
                Some(b) => r matches Ok(res) && res@ == ResourceView::S3Bucket(b),
                None => r matches Err(e) && e == ResolutionError::NotFound,
            },
    {
        match descriptor.service {
            Service::Lambda => {
                return Err(ResolutionError::InvalidDescriptor);
            }
            Service::S3 => {
            }
        }
        let ghost full = buckets.deep_view();
        let mut i: usize = 0;
        proof {
            assert(full.skip(0) =~= full);
        }
        while i < buckets.len()
            invariant
                descriptor.service == Service::S3,
                i <= buckets.len(),
                full == buckets.deep_view(),
                spec_find_bucket(full, descriptor@.id) == spec_find_bucket(
                    full.skip(i as int),
                    descriptor@.id,
                ),
            decreases buckets.len() - i,
        {
            let matches_id = match &buckets[i].name {
                Some(n) => crate::text::str_eq(n.as_str(), descriptor.id.as_str()),
                None => false,
            };
            proof {
                assert(full.skip(i as int)[0] == full[i as int]);
            }
            if matches_id {
                proof {
                    assert(full[i as int].name == Some(descriptor@.id));
                    assert(spec_find_bucket(full.skip(i as int), descriptor@.id) == Some(
                        full[i as int],
                    ));
                }
                let found = buckets[i].clone();
                proof {
                    assert(found@ == full[i as int]);
                }
                return Ok(Resource::S3Bucket(found));
            }
            proof {
                assert(full.skip(i as int).skip(1) =~= full.skip(i as int + 1));
            }
            i = i + 1;
        }
        proof {
            assert(full.skip(i as int).len() == 0);
        }
        Err(ResolutionError::NotFound)
    }

    /// Hands a listing of buckets over in listing order, as for
    /// functions.
    pub fn collate_listing(buckets: Vec<BucketInfo>) -> (r: Vec<Resource>)
        ensures
            r@.len() == buckets@.len(),
            forall|i: int| 0 <= i < r@.len() ==> #[trigger] r.deep_view()[i] is S3Bucket,
            r.deep_view().map_values(|x: ResourceView| x->S3Bucket_0).to_multiset()
                == buckets.deep_view().to_multiset(),
            buckets_sorted(r.deep_view().map_values(|x: ResourceView| x->S3Bucket_0)),
    {
        let sorted = sort_buckets(buckets);
        let mut out: Vec<Resource> = Vec::new();
        let mut i: usize = 0;
        while i < sorted.len()
            invariant
                i <= sorted.len(),
                out@.len() == i,
                forall|j: int| 0 <= j < i ==> #[trigger] out@[j]@ == ResourceView::S3Bucket(
                    sorted.deep_view()[j],
                ),
            decreases sorted.len() - i,
        {
            let item = sorted[i].clone();
            let ghost gitem = item@;
            let res = Resource::S3Bucket(item);
            proof {
                assert(gitem == sorted.deep_view()[i as int]);
                assert(res@ == ResourceView::S3Bucket(gitem));
            }
            let ghost prev = out@;
            out.push(res);
            proof {
                assert forall|j: int| 0 <= j < i + 1 implies #[trigger] out@[j]@
                    == ResourceView::S3Bucket(sorted.deep_view()[j]) by {
                    if j < i as int {
                        assert(out@[j] == prev[j]);
                    }
                }
            }
            i = i + 1;
        }
        proof {
            assert forall|j: int| 0 <= j < out@.len() implies out.deep_view()[j]
                == ResourceView::S3Bucket(sorted.deep_view()[j]) by {
                assert(out@[j]@ == ResourceView::S3Bucket(sorted.deep_view()[j]));
            }
            assert(out.deep_view().map_values(|x: ResourceView| x->S3Bucket_0)
                =~= sorted.deep_view());
        }
        out
    }
}

} // verus!
