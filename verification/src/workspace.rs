//! The root persisted state: projects, appearance, and the file they are
//! saved to.
//!
//! Reading and writing the file itself, and moving the plain document to
//! and from the structured text format, stay with the surrounding
//! application: `load` takes the document a file held, and the mutating
//! operations hand back a [`SaveRequest`] that says what to write where.
//! The in-memory change stands whether or not that write then succeeds;
//! the caller decides how to surface a failed write.

use vstd::prelude::*;
use crate::appearance::{Appearance, AppearanceView};
use crate::document::{
    decode_document, encode_document, spec_decode_workspace, spec_encode_workspace, RawWorkspace,
};
use crate::error::Error;
use crate::project::{Project, ProjectView};
use crate::resource_descriptor::ResourceDescriptor;

verus! {

/// The mathematical value of a workspace.
#[verifier::ext_equal]
pub ghost struct WorkspaceView {
    pub path: Option<Seq<char>>,
    pub projects: Seq<ProjectView>,
    pub appearance: AppearanceView,
}

/// A pending write: the file to write and the document to store in it.
#[derive(Debug)]
pub struct SaveRequest {
    pub path: String,
    pub document: RawWorkspace,
}

/// The file that saves target when the workspace was never loaded from a
/// file: a fixed name in the working directory.
pub open spec fn spec_default_save_path() -> Seq<char> {
    "workspace.yaml"@
}

/// The file a save targets: the recorded path when one was loaded, the
/// default name otherwise.
pub open spec fn spec_save_path(path: Option<Seq<char>>) -> Seq<char> {
    match path {
        Some(p) => p,
        None => spec_default_save_path(),
    }
}

/// The root persisted state: an optional backing file path, the projects
/// in order, and the last interface selection. The path is load context;
/// it is recorded when a file is loaded and kept for every later save, and
/// it is never part of the stored document.
#[derive(Debug)]
pub struct Workspace {
    pub path: Option<String>,
    pub projects: Vec<Project>,
    pub appearance: Appearance,
}

impl View for Workspace {
    type V = WorkspaceView;

    open spec fn view(&self) -> WorkspaceView {
        WorkspaceView {
            path: self.path.deep_view(),
            projects: self.projects.deep_view(),
            appearance: self.appearance@,
        }
    }
}

impl Default for Workspace {
    /// The fresh workspace: no path, no projects, nothing selected.
    fn default() -> (r: Self)
        ensures
            r@ == (WorkspaceView {
                path: None,
                projects: Seq::empty(),
                appearance: AppearanceView::empty(),
            }),
    {
        let r = Workspace {
            path: None,
            projects: Vec::new(),
            appearance: Appearance::default(),
        };
        proof {
            assert(r@.projects =~= Seq::<ProjectView>::empty());
        }
        r
    }
}

impl Workspace {
    /// Builds the workspace a launch starts from. With no source, the
    /// fresh empty workspace. With a source — the path a file was read
    /// from and the document it held — the decoded workspace, which
    /// records that path so that later saves target the same file; a
    /// document that does not match the schema is rejected whole.
    pub fn load(source: Option<(String, RawWorkspace)>) -> (r: Result<Workspace, Error>)
        ensures
            source is None ==> (r matches Ok(w) && w@ == (WorkspaceView {
                path: None,
                projects: Seq::empty(),
                appearance: AppearanceView::empty(),
            })),
            source matches Some(src) ==> match spec_decode_workspace(src.1@) {
                Some(pa) => r matches Ok(w) && w@ == (WorkspaceView {
                    path: Some(src.0@),
                    projects: pa.0,
                    appearance: pa.1,
                }),
                None => r matches Err(e) && e == Error::DeserializationError,
            },
    {
        match source {
            None => Ok(Workspace::default()),
            Some((path, document)) => {
                match decode_document(&document) {
                    Ok((projects, appearance)) => {
                        let w = Workspace { path: Some(path), projects, appearance };
                        proof {
                            assert(w@ =~= (WorkspaceView {
                                path: Some(w.path->Some_0@),
                                projects: spec_decode_workspace(document@)->Some_0.0,
                                appearance: spec_decode_workspace(document@)->Some_0.1,
                            }));
                        }
                        Ok(w)
                    }
                    Err(e) => Err(e),
                }
            }
        }
    }

    /// What a save writes: the full current document — projects and
    /// appearance, never the path — to the recorded file, or to the
    /// default file when none was ever recorded.
    pub fn save(&self) -> (r: SaveRequest)
        ensures
            r.path@ == spec_save_path(self@.path),
            r.document@ == spec_encode_workspace(self@.projects, self@.appearance),
    {
        let path = match &self.path {
            Some(p) => p.clone(),
            None => "workspace.yaml".to_owned(),
        };
        SaveRequest { path, document: encode_document(&self.projects, &self.appearance) }
    }

    /// Appends the project — no ordering, no deduplication — and hands
    /// back the save that makes the addition durable. The append stands
    /// even if the caller's write then fails.
    pub fn add_project(&mut self, project: Project) -> (r: SaveRequest)
        ensures
            final(self)@ == (WorkspaceView {
                projects: old(self)@.projects.push(project@),
                ..old(self)@
            }),
            r.path@ == spec_save_path(old(self)@.path),
            r.document@ == spec_encode_workspace(final(self)@.projects, final(self)@.appearance),
    {
        self.projects.push(project);
        proof {
            assert(self@.projects =~= old(self)@.projects.push(project@));
            assert(final(self)@ =~= (WorkspaceView {
                projects: old(self)@.projects.push(project@),
                ..old(self)@
            }));
        }
        self.save()
    }

    /// Overwrites the selected resource in the appearance and hands back
    /// the save that makes the change durable, with the same caveat as
    /// [`Workspace::add_project`].
    pub fn set_selected_resource(&mut self, resource: Option<ResourceDescriptor>) -> (r:
        SaveRequest)
        ensures
            final(self)@ == (WorkspaceView {
                appearance: AppearanceView {
                    selected_resource: resource.deep_view(),
                    ..old(self)@.appearance
                },
                ..old(self)@
            }),
            r.path@ == spec_save_path(old(self)@.path),
            r.document@ == spec_encode_workspace(final(self)@.projects, final(self)@.appearance),
    {
        self.appearance.selected_resource = resource;
        proof {
            assert(final(self)@ =~= (WorkspaceView {
                appearance: AppearanceView {
                    selected_resource: resource.deep_view(),
                    ..old(self)@.appearance
                },
                ..old(self)@
            }));
        }
        self.save()
    }
}

} // verus!
