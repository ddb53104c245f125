//! The last interface selection, persisted so the application can restore
//! the view it was closed in.

use vstd::prelude::*;
use crate::project::{Project, ProjectView};
use crate::resource_descriptor::{ResourceDescriptor, ResourceDescriptorView};

verus! {

/// The mathematical value of an appearance.
#[verifier::ext_equal]
pub ghost struct AppearanceView {
    pub selected_project: Option<ProjectView>,
    pub selected_service: Option<Seq<char>>,
    pub selected_resource: Option<ResourceDescriptorView>,
}

impl AppearanceView {
    /// The appearance with nothing selected.
    pub open spec fn empty() -> AppearanceView {
        AppearanceView { selected_project: None, selected_service: None, selected_resource: None }
    }
}

/// The selection state of the interface: the project, service name and
/// resource last picked, each optional. The three fields are not checked
/// against each other — the selected resource need not belong to the
/// selected project; the selected project is a snapshot by value, so it can
/// go stale if the project it copies is later edited.
#[derive(Debug)]
pub struct Appearance {
    pub selected_project: Option<Project>,
    pub selected_service: Option<String>,
    pub selected_resource: Option<ResourceDescriptor>,
}

impl View for Appearance {
    type V = AppearanceView;

    open spec fn view(&self) -> AppearanceView {
        AppearanceView {
            selected_project: self.selected_project.deep_view(),
            selected_service: self.selected_service.deep_view(),
            selected_resource: self.selected_resource.deep_view(),
        }
    }
}

impl Clone for Appearance {
    fn clone(&self) -> (r: Self)
        ensures
            r@ == self@,
    {
        Appearance {
            selected_project: match &self.selected_project {
                Some(p) => Some(p.clone()),
                None => None,
            },
            selected_service: match &self.selected_service {
                Some(s) => Some(s.clone()),
                None => None,
            },
            selected_resource: match &self.selected_resource {
                Some(r) => Some(r.clone()),
                None => None,
            },
        }
    }
}

impl Default for Appearance {
    /// The appearance with nothing selected.
    fn default() -> (r: Self)
        ensures
            r@ == AppearanceView::empty(),
    {
        Appearance { selected_project: None, selected_service: None, selected_resource: None }
    }
}

} // verus!
