//! Identity of the layout panes of the browsing view, kept as plain data.

use vstd::prelude::*;

verus! {

/// Which pane of the browsing view a widget belongs to.
#[derive(Clone, Copy, Debug, PartialEq, Eq, Structural)]
pub enum PaneId {
    ServiceSelector,
    ResourceSelector,
    ResourceDetails,
}

impl PaneId {
    /// The title under which the pane is shown.
    pub fn title(&self) -> (r: &'static str)
        ensures
            self is ServiceSelector ==> r@ == "Service Selector"@,
            self is ResourceSelector ==> r@ == "Resource Selector"@,
            self is ResourceDetails ==> r@ == "Resource Details"@,
    {
        match self {
            PaneId::ServiceSelector => "Service Selector",
            PaneId::ResourceSelector => "Resource Selector",
            PaneId::ResourceDetails => "Resource Details",
        }
    }
}

/// One pane of the browsing view.
#[derive(Clone, Copy, Debug)]
pub struct Pane {
    pub id: PaneId,
}

impl Pane {
    pub fn new(id: PaneId) -> (r: Self)
        ensures
            r.id == id,
    {
        Pane { id }
    }
}

} // verus!
