use vstd::prelude::*;

verus! {

/// A window of the compositor, as read in one snapshot.
pub struct Window {
    /// Unique among the windows of the snapshot.
    pub id: u64,
    pub title: Option<String>,
    pub app_id: Option<String>,
    pub pid: Option<i32>,
    pub workspace_id: Option<u64>,
    pub is_focused: bool,
}

/// A workspace of the compositor, as read in one snapshot.
pub struct Workspace {
    /// Unique among the workspaces of the snapshot.
    pub id: u64,
    pub is_focused: bool,
    /// The designated parking workspace for hidden windows.
    pub is_hidden: bool,
}

} // verus!
