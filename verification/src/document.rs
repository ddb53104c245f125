//! The plain document shape that a workspace is persisted as, and the
//! codec between it and the model types.
//!
//! The document mirrors the on-disk schema key for key, but every field is
//! an unchecked plain value; in particular the service is still its text
//! tag. The surrounding application moves this shape to and from the
//! structured text format on disk; the codec here is what decides whether
//! a document matches the schema, and it rejects any unknown service tag.

use vstd::prelude::*;
use crate::appearance::{Appearance, AppearanceView};
use crate::error::Error;
use crate::project::{Project, ProjectView};
use crate::resource_descriptor::{ResourceDescriptor, ResourceDescriptorView};
use crate::service::Service;

verus! {

/// The mathematical value of a stored resource entry.
#[verifier::ext_equal]
pub ghost struct RawResourceView {
    pub profile: Seq<char>,
    pub region: Seq<char>,
    pub service: Seq<char>,
    pub id: Seq<char>,
}

/// The mathematical value of a stored project entry.
#[verifier::ext_equal]
pub ghost struct RawProjectView {
    pub id: Seq<char>,
    pub name: Seq<char>,
    pub resources: Seq<RawResourceView>,
}

/// The mathematical value of a stored appearance entry.
#[verifier::ext_equal]
pub ghost struct RawAppearanceView {
    pub selected_project: Option<RawProjectView>,
    pub selected_service: Option<Seq<char>>,
    pub selected_resource: Option<RawResourceView>,
}

/// The mathematical value of a stored workspace document.
#[verifier::ext_equal]
pub ghost struct RawWorkspaceView {
    pub projects: Seq<RawProjectView>,
    pub appearance: RawAppearanceView,
}

/// A resource entry as it stands in the document: four plain strings.
#[derive(Debug)]
pub struct RawResource {
    pub profile: String,
    pub region: String,
    pub service: String,
    pub id: String,
}

/// A project entry as it stands in the document.
#[derive(Debug)]
pub struct RawProject {
    pub id: String,
    pub name: String,
    pub resources: Vec<RawResource>,
}

/// An appearance entry as it stands in the document; absent fields are
/// simply absent, never an error.
#[derive(Debug)]
pub struct RawAppearance {
    pub selected_project: Option<RawProject>,
    pub selected_service: Option<String>,
    pub selected_resource: Option<RawResource>,
}

/// A whole workspace document: the projects and the appearance. The
/// workspace's own file path is load context, not document content, so it
/// has no place here.
#[derive(Debug)]
pub struct RawWorkspace {
    pub projects: Vec<RawProject>,
    pub appearance: RawAppearance,
}

impl View for RawResource {
    type V = RawResourceView;

    open spec fn view(&self) -> RawResourceView {
        RawResourceView {
            profile: self.profile@,
            region: self.region@,
            service: self.service@,
            id: self.id@,
        }
    }
}

impl DeepView for RawResource {
    type V = RawResourceView;

    open spec fn deep_view(&self) -> RawResourceView {
        self.view()
    }
}

impl View for RawProject {
    type V = RawProjectView;

    open spec fn view(&self) -> RawProjectView {
        RawProjectView {
            id: self.id@,
            name: self.name@,
            resources: self.resources.deep_view(),
        }
    }
}

impl DeepView for RawProject {
    type V = RawProjectView;

    open spec fn deep_view(&self) -> RawProjectView {
        self.view()
    }
}

impl View for RawAppearance {
    type V = RawAppearanceView;

    open spec fn view(&self) -> RawAppearanceView {
        RawAppearanceView {
            selected_project: self.selected_project.deep_view(),
            selected_service: self.selected_service.deep_view(),
            selected_resource: self.selected_resource.deep_view(),
        }
    }
}

impl View for RawWorkspace {
    type V = RawWorkspaceView;

    open spec fn view(&self) -> RawWorkspaceView {
        RawWorkspaceView { projects: self.projects.deep_view(), appearance: self.appearance@ }
    }
}

// ---------------------------------------------------------------------
// The codec at the level of mathematical values.
// ---------------------------------------------------------------------

/// How a descriptor is stored: the service becomes its text tag.
pub open spec fn spec_encode_resource(r: ResourceDescriptorView) -> RawResourceView {
    RawResourceView {
        profile: r.profile,
        region: r.region,
        service: r.service.tag_view(),
        id: r.id,
    }
}

/// How a stored resource entry is read back; an unknown service tag
/// rejects the entry.
pub open spec fn spec_decode_resource(r: RawResourceView) -> Option<ResourceDescriptorView> {
    match Service::spec_from_tag(r.service) {
        Some(s) => Some(
            ResourceDescriptorView { profile: r.profile, region: r.region, service: s, id: r.id },
        ),
        None => None,
    }
}

/// How a project is stored.
pub open spec fn spec_encode_project(p: ProjectView) -> RawProjectView {
    RawProjectView {
        id: p.id,
        name: p.name,
        resources: p.resources.map_values(|r: ResourceDescriptorView| spec_encode_resource(r)),
    }
}

/// Whether every resource entry of a run can be read back.
pub open spec fn spec_resources_decodable(rs: Seq<RawResourceView>) -> bool {
    forall|i: int| 0 <= i < rs.len() ==> #[trigger] spec_decode_resource(rs[i]) is Some
}

/// How a stored project entry is read back; one bad resource entry
/// rejects the whole project.
pub open spec fn spec_decode_project(p: RawProjectView) -> Option<ProjectView> {
    if spec_resources_decodable(p.resources) {
        Some(
            ProjectView {
                id: p.id,
                name: p.name,
                resources: p.resources.map_values(
                    |r: RawResourceView| spec_decode_resource(r)->Some_0,
                ),
            },
        )
    } else {
        None
    }
}

/// How an appearance is stored: each selection is stored when present and
/// omitted when absent.
pub open spec fn spec_encode_appearance(a: AppearanceView) -> RawAppearanceView {
    RawAppearanceView {
        selected_project: match a.selected_project {
            Some(p) => Some(spec_encode_project(p)),
            None => None,
        },
        selected_service: a.selected_service,
        selected_resource: match a.selected_resource {
            Some(r) => Some(spec_encode_resource(r)),
            None => None,
        },
    }
}

/// Reads back an optional stored project: absence is fine, a present but
/// malformed entry rejects the document.
pub open spec fn spec_decode_opt_project(p: Option<RawProjectView>) -> Option<
    Option<ProjectView>,
> {
    match p {
        None => Some(None),
        Some(rp) => match spec_decode_project(rp) {
            Some(pv) => Some(Some(pv)),
            None => None,
        },
    }
}

/// Reads back an optional stored resource entry, in the same way.
pub open spec fn spec_decode_opt_resource(r: Option<RawResourceView>) -> Option<
    Option<ResourceDescriptorView>,
> {
    match r {
        None => Some(None),
        Some(rr) => match spec_decode_resource(rr) {
            Some(rv) => Some(Some(rv)),
            None => None,
        },
    }
}

/// How a stored appearance entry is read back.
pub open spec fn spec_decode_appearance(a: RawAppearanceView) -> Option<AppearanceView> {
    match (spec_decode_opt_project(a.selected_project), spec_decode_opt_resource(
        a.selected_resource,
    )) {
        (Some(p), Some(r)) => Some(
            AppearanceView {
                selected_project: p,
                selected_service: a.selected_service,
                selected_resource: r,
            },
        ),
        _ => None,
    }
}

/// Whether every project entry of a run can be read back.
pub open spec fn spec_projects_decodable(ps: Seq<RawProjectView>) -> bool {
    forall|i: int| 0 <= i < ps.len() ==> #[trigger] spec_decode_project(ps[i]) is Some
}

/// How a whole workspace is stored.
pub open spec fn spec_encode_workspace(
    projects: Seq<ProjectView>,
    appearance: AppearanceView,
) -> RawWorkspaceView {
    RawWorkspaceView {
        projects: projects.map_values(|p: ProjectView| spec_encode_project(p)),
        appearance: spec_encode_appearance(appearance),
    }
}

/// How a whole stored document is read back: the projects in their stored
/// order and the appearance, or nothing if any entry is malformed.
pub open spec fn spec_decode_workspace(w: RawWorkspaceView) -> Option<
    (Seq<ProjectView>, AppearanceView),
> {
    if spec_projects_decodable(w.projects) {
        match spec_decode_appearance(w.appearance) {
            Some(a) => Some(
                (w.projects.map_values(|p: RawProjectView| spec_decode_project(p)->Some_0), a),
            ),
            None => None,
        }
    } else {
        None
    }
}

// ---------------------------------------------------------------------
// Round trips: what was stored is read back unchanged.
// ---------------------------------------------------------------------

/// A stored descriptor is read back as itself.
pub proof fn lemma_resource_round_trip(r: ResourceDescriptorView)
    ensures
        spec_decode_resource(spec_encode_resource(r)) == Some(r),
{
    Service::lemma_tag_round_trip(r.service);
}

/// A stored project is read back as itself.
pub proof fn lemma_project_round_trip(p: ProjectView)
    ensures
        spec_decode_project(spec_encode_project(p)) == Some(p),
{
    let enc = spec_encode_project(p);
    assert forall|i: int| 0 <= i < enc.resources.len() implies #[trigger] spec_decode_resource(
        enc.resources[i],
    ) is Some by {
        lemma_resource_round_trip(p.resources[i]);
    }
    let dec = spec_decode_project(enc)->Some_0;
    assert forall|i: int| 0 <= i < dec.resources.len() implies dec.resources[i]
        == p.resources[i] by {
        lemma_resource_round_trip(p.resources[i]);
    }
    assert(dec.resources =~= p.resources);
    assert(dec =~= p);
}

/// A stored appearance is read back as itself.
pub proof fn lemma_appearance_round_trip(a: AppearanceView)
    ensures
        spec_decode_appearance(spec_encode_appearance(a)) == Some(a),
{
    match a.selected_project {
        Some(p) => {
            lemma_project_round_trip(p);
        }
        None => {
        }
    }
    match a.selected_resource {
        Some(r) => {
            lemma_resource_round_trip(r);
        }
        None => {
        }
    }
    assert(spec_decode_appearance(spec_encode_appearance(a))->Some_0 =~= a);
}

/// A stored workspace is read back with the same projects in the same
/// order and the same appearance.
pub proof fn lemma_workspace_round_trip(projects: Seq<ProjectView>, appearance: AppearanceView)
    ensures
        spec_decode_workspace(spec_encode_workspace(projects, appearance)) == Some(
            (projects, appearance),
        ),
{
    let enc = spec_encode_workspace(projects, appearance);
    assert forall|i: int| 0 <= i < enc.projects.len() implies #[trigger] spec_decode_project(
        enc.projects[i],
    ) is Some by {
        lemma_project_round_trip(projects[i]);
    }
    lemma_appearance_round_trip(appearance);
    let dec = spec_decode_workspace(enc)->Some_0;
    assert forall|i: int| 0 <= i < dec.0.len() implies dec.0[i] == projects[i] by {
        lemma_project_round_trip(projects[i]);
    }
    assert(dec.0 =~= projects);
}

/// An appended project survives the save that follows the append: the
/// document stored for the grown project list reads back with the
/// appended project among its projects.
pub proof fn lemma_added_project_durable(
    projects: Seq<ProjectView>,
    appearance: AppearanceView,
    p: ProjectView,
)
    ensures
        spec_decode_workspace(spec_encode_workspace(projects.push(p), appearance)) matches Some(pa)
            && pa.0.contains(p),
{
    lemma_workspace_round_trip(projects.push(p), appearance);
    assert(projects.push(p)[projects.len() as int] == p);
}

// ---------------------------------------------------------------------
// The codec on the executable types.
// ---------------------------------------------------------------------

/// Stores one descriptor as a document entry.
pub fn encode_resource(r: &ResourceDescriptor) -> (out: RawResource)
    ensures
        out@ == spec_encode_resource(r@),
{
    RawResource {
        profile: r.profile.clone(),
        region: r.region.clone(),
        service: r.service.name(),
        id: r.id.clone(),
    }
}

/// Reads one stored resource entry back; an unknown service tag fails
/// the read.
pub fn decode_resource(raw: &RawResource) -> (out: Result<ResourceDescriptor, Error>)
    ensures
        spec_decode_resource(raw@) is Some ==> (out matches Ok(d) && d@ == spec_decode_resource(
            raw@,
        )->Some_0),
        spec_decode_resource(raw@) is None ==> (out matches Err(e) && e
            == Error::DeserializationError),
{
    match Service::from_tag(raw.service.as_str()) {
        Some(s) => Ok(
            ResourceDescriptor {
                profile: raw.profile.clone(),
                region: raw.region.clone(),
                service: s,
                id: raw.id.clone(),
            },
        ),
        None => Err(Error::DeserializationError),
    }
}

/// Stores one project as a document entry.
pub fn encode_project(p: &Project) -> (out: RawProject)
    ensures
        out@ == spec_encode_project(p@),
{
    let mut resources: Vec<RawResource> = Vec::new();
    let mut i: usize = 0;
    while i < p.resources.len()
        invariant
            i <= p.resources.len(),
            resources@.len() == i,
            forall|j: int| 0 <= j < i ==> #[trigger] resources@[j]@ == spec_encode_resource(
                p.resources.deep_view()[j],
            ),
        decreases p.resources.len() - i,
    {
        resources.push(encode_resource(&p.resources[i]));
        i = i + 1;
    }
    proof {
        assert(resources.deep_view() =~= p@.resources.map_values(
            |r: ResourceDescriptorView| spec_encode_resource(r),
        ));
    }
    let out = RawProject { id: p.id.clone(), name: p.name.clone(), resources };
    proof {
        assert(out@ =~= spec_encode_project(p@));
    }
    out
}

/// Reads one stored project entry back; one bad resource entry fails the
/// whole read.
pub fn decode_project(raw: &RawProject) -> (out: Result<Project, Error>)
    ensures
        spec_decode_project(raw@) is Some ==> (out matches Ok(p) && p@ == spec_decode_project(
            raw@,
        )->Some_0),
        spec_decode_project(raw@) is None ==> (out matches Err(e) && e
            == Error::DeserializationError),
{
    let mut resources: Vec<ResourceDescriptor> = Vec::new();
    let mut i: usize = 0;
    while i < raw.resources.len()
        invariant
            i <= raw.resources.len(),
            resources@.len() == i,
            forall|j: int| 0 <= j < i ==> #[trigger] spec_decode_resource(
                raw.resources.deep_view()[j],
            ) is Some,
            forall|j: int| 0 <= j < i ==> #[trigger] resources@[j]@ == spec_decode_resource(
                raw.resources.deep_view()[j],
            )->Some_0,
        decreases raw.resources.len() - i,
    {
        match decode_resource(&raw.resources[i]) {
            Ok(d) => {
                resources.push(d);
            }
            Err(e) => {
                proof {
                    assert(spec_decode_resource(raw@.resources[i as int]) is None);
                    assert(!spec_resources_decodable(raw@.resources));
                }
                return Err(e);
            }
        }
        i = i + 1;
    }
    let out = Project { id: raw.id.clone(), name: raw.name.clone(), resources };
    proof {
        assert(spec_resources_decodable(raw@.resources));
        assert(out@.resources =~= raw@.resources.map_values(
            |r: RawResourceView| spec_decode_resource(r)->Some_0,
        ));
        assert(out@ =~= spec_decode_project(raw@)->Some_0);
    }
    Ok(out)
}

/// Stores the appearance as a document entry; absent selections are
/// omitted.
pub fn encode_appearance(a: &Appearance) -> (out: RawAppearance)
    ensures
        out@ == spec_encode_appearance(a@),
{
    let out = RawAppearance {
        selected_project: match &a.selected_project {
            Some(p) => Some(encode_project(p)),
            None => None,
        },
        selected_service: match &a.selected_service {
            Some(s) => Some(s.clone()),
            None => None,
        },
        selected_resource: match &a.selected_resource {
            Some(r) => Some(encode_resource(r)),
            None => None,
        },
    };
    proof {
        assert(out@ =~= spec_encode_appearance(a@));
    }
    out
}

/// Reads the stored appearance entry back; a present but malformed
/// selection fails the read, an absent one stays absent.
pub fn decode_appearance(raw: &RawAppearance) -> (out: Result<Appearance, Error>)
    ensures
        spec_decode_appearance(raw@) is Some ==> (out matches Ok(a) && a@
            == spec_decode_appearance(raw@)->Some_0),
        spec_decode_appearance(raw@) is None ==> (out matches Err(e) && e
            == Error::DeserializationError),
{
    let selected_project = match &raw.selected_project {
        Some(rp) => match decode_project(rp) {
            Ok(p) => Some(p),
            Err(e) => {
                return Err(e);
            }
        },
        None => None,
    };
    let selected_service = match &raw.selected_service {
        Some(s) => Some(s.clone()),
        None => None,
    };
    let selected_resource = match &raw.selected_resource {
        Some(rr) => match decode_resource(rr) {
            Ok(r) => Some(r),
            Err(e) => {
                return Err(e);
            }
        },
        None => None,
    };
    let out = Appearance { selected_project, selected_service, selected_resource };
    proof {
        assert(out@ =~= spec_decode_appearance(raw@)->Some_0);
    }
    Ok(out)
}

/// Stores a whole workspace: the projects in order, then the appearance.
pub fn encode_document(projects: &Vec<Project>, appearance: &Appearance) -> (out: RawWorkspace)
    ensures
        out@ == spec_encode_workspace(projects.deep_view(), appearance@),
{
    let mut raw_projects: Vec<RawProject> = Vec::new();
    let mut i: usize = 0;
    while i < projects.len()
        invariant
            i <= projects.len(),
            raw_projects@.len() == i,
            forall|j: int| 0 <= j < i ==> #[trigger] raw_projects@[j]@ == spec_encode_project(
                projects.deep_view()[j],
            ),
        decreases projects.len() - i,
    {
        raw_projects.push(encode_project(&projects[i]));
        i = i + 1;
    }
    proof {
        assert(raw_projects.deep_view() =~= projects.deep_view().map_values(
            |p: ProjectView| spec_encode_project(p),
        ));
    }
    let out = RawWorkspace { projects: raw_projects, appearance: encode_appearance(appearance) };
    proof {
        assert(out@ =~= spec_encode_workspace(projects.deep_view(), appearance@));
    }
    out
}

/// Reads a whole stored document back into projects and appearance; any
/// malformed entry fails the read.
pub fn decode_document(raw: &RawWorkspace) -> (out: Result<(Vec<Project>, Appearance), Error>)
    ensures
        spec_decode_workspace(raw@) is Some ==> (out matches Ok(pa) && pa.0.deep_view()
            == spec_decode_workspace(raw@)->Some_0.0 && pa.1@ == spec_decode_workspace(
            raw@,
        )->Some_0.1),
        spec_decode_workspace(raw@) is None ==> (out matches Err(e) && e
            == Error::DeserializationError),
{
    let mut projects: Vec<Project> = Vec::new();
    let mut i: usize = 0;
    while i < raw.projects.len()
        invariant
            i <= raw.projects.len(),
            projects@.len() == i,
            forall|j: int| 0 <= j < i ==> #[trigger] spec_decode_project(
                raw.projects.deep_view()[j],
            ) is Some,
            forall|j: int| 0 <= j < i ==> #[trigger] projects@[j]@ == spec_decode_project(
                raw.projects.deep_view()[j],
            )->Some_0,
        decreases raw.projects.len() - i,
    {
        match decode_project(&raw.projects[i]) {
            Ok(p) => {
                projects.push(p);
            }
            Err(e) => {
                proof {
                    assert(spec_decode_project(raw@.projects[i as int]) is None);
                    assert(!spec_projects_decodable(raw@.projects));
                }
                return Err(e);
            }
        }
        i = i + 1;
    }
    proof {
        assert(spec_projects_decodable(raw@.projects));
    }
    let appearance = match decode_appearance(&raw.appearance) {
        Ok(a) => a,
        Err(e) => {
            return Err(e);
        }
    };
    proof {
        assert(projects.deep_view() =~= raw@.projects.map_values(
            |p: RawProjectView| spec_decode_project(p)->Some_0,
        ));
    }
    Ok((projects, appearance))
}

} // verus!
