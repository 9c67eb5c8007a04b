use crate::config::Application;
use crate::locate::{
    find_focused_window, find_workspace, first_workspace, focused_window,
    get_matched_window_and_workspace, is_locate_error, locate, Located, WorkspaceQuery,
};
use crate::window::{Window, Workspace};
use vstd::prelude::*;
use vstd::string::*;

verus! {

/// Why an action on an application's window could not be carried out.
pub enum ActionError {
    /// More than one window is left by the rules: their ids.
    Ambiguous { window_ids: Vec<u64> },
    /// No window is left by the rules.
    NoMatch,
    /// The matched window is on no workspace.
    NoWindowWorkspace { window_id: u64 },
    /// The matched window's workspace is not in the snapshot.
    WorkspaceNotFound { workspace_id: u64 },
    NoFocusedWorkspace,
    NoHiddenWorkspace,
    /// Hiding was asked of a window that does not have the focus (or of any
    /// window while none has it).
    NotFocused,
    /// Hiding was asked of a window already on the hidden workspace.
    AlreadyHidden,
    /// Activation was asked of a window outside the focused workspace.
    NotInFocusedWorkspace,
}

/// A state-changing request to the compositor.
#[derive(Clone, Copy, Debug, PartialEq, Eq, Structural)]
pub enum Action {
    MoveWindowToWorkspace { window_id: u64, workspace_id: u64, focus: bool },
    FocusWindow { id: u64 },
}

/// What `toggle` comes to: launching the application, or issuing requests
/// in order.
pub enum Plan {
    Launch,
    Issue(Vec<Action>),
}

/// Bringing a window forward: onto the focused workspace (with focus) when it
/// is elsewhere, then focusing it.
pub open spec fn bring_forward(window_id: u64, window_ws: u64, focused_ws: u64) -> Seq<Action> {
    if window_ws != focused_ws {
        seq![
            Action::MoveWindowToWorkspace { window_id, workspace_id: focused_ws, focus: true },
            Action::FocusWindow { id: window_id },
        ]
    } else {
        seq![Action::FocusWindow { id: window_id }]
    }
}

/// Parking a window on the hidden workspace, without following it.
pub open spec fn park(window_id: u64, hidden_ws: u64) -> Seq<Action> {
    seq![Action::MoveWindowToWorkspace { window_id, workspace_id: hidden_ws, focus: false }]
}

/// The first focused window.
pub fn get_focused_window(windows: &Vec<Window>) -> (r: Option<&Window>)
    ensures
        match focused_window(windows@) {
            Some(i) => r is Some && *r->Some_0 == windows@[i],
            None => r is None,
        },
{
    match find_focused_window(windows) {
        Some(i) => Some(&windows[i]),
        None => None,
    }
}

/// The first focused workspace.
pub fn get_focused_workspace(workspaces: &Vec<Workspace>) -> (r: Result<&Workspace, ActionError>)
    ensures
        match first_workspace(workspaces@, WorkspaceQuery::Focused) {
            Some(i) => r is Ok && *r->Ok_0 == workspaces@[i],
            None => r is Err && r->Err_0 == ActionError::NoFocusedWorkspace,
        },
{
    match find_workspace(workspaces, WorkspaceQuery::Focused) {
        Some(i) => Ok(&workspaces[i]),
        None => Err(ActionError::NoFocusedWorkspace),
    }
}

/// The first workspace marked hidden.
pub fn get_hidden_workspace(workspaces: &Vec<Workspace>) -> (r: Result<&Workspace, ActionError>)
    ensures
        match first_workspace(workspaces@, WorkspaceQuery::Hidden) {
            Some(i) => r is Ok && *r->Ok_0 == workspaces@[i],
            None => r is Err && r->Err_0 == ActionError::NoHiddenWorkspace,
        },
{
    match find_workspace(workspaces, WorkspaceQuery::Hidden) {
        Some(i) => Ok(&workspaces[i]),
        None => Err(ActionError::NoHiddenWorkspace),
    }
}

fn bring_forward_actions(window_id: u64, window_ws: u64, focused_ws: u64) -> (r: Vec<Action>)
    ensures
        r@ == bring_forward(window_id, window_ws, focused_ws),
{
    let mut actions: Vec<Action> = Vec::new();
    if window_ws != focused_ws {
        actions.push(
            Action::MoveWindowToWorkspace { window_id, workspace_id: focused_ws, focus: true },
        );
    }
    actions.push(Action::FocusWindow { id: window_id });
    assert(actions@ =~= bring_forward(window_id, window_ws, focused_ws));
    actions
}

fn park_actions(window_id: u64, hidden_ws: u64) -> (r: Vec<Action>)
    ensures
        r@ == park(window_id, hidden_ws),
{
    let mut actions: Vec<Action> = Vec::new();
    actions.push(Action::MoveWindowToWorkspace { window_id, workspace_id: hidden_ws, focus: false });
    assert(actions@ =~= park(window_id, hidden_ws));
    actions
}

/// Whether the window at `wi` is the first focused window.
pub open spec fn is_focused_match(ws: Seq<Window>, wi: int) -> bool {
    focused_window(ws) is Some && ws[focused_window(ws)->0].id == ws[wi].id
}

/// The requests that bring the application's window forward: onto the
/// focused workspace if it is elsewhere, then focused.
pub fn show(windows: &Vec<Window>, workspaces: &Vec<Workspace>, application: &Application) -> (r:
    Result<Vec<Action>, ActionError>)
    ensures
        match locate(windows@, workspaces@, application.matches@, application.excludes@) {
            Located::Found(wi, si) => match first_workspace(workspaces@, WorkspaceQuery::Focused) {
                Some(fi) => r is Ok && r->Ok_0@ == bring_forward(
                    windows@[wi].id,
                    workspaces@[si].id,
                    workspaces@[fi].id,
                ),
                None => r is Err && r->Err_0 == ActionError::NoFocusedWorkspace,
            },
            l => r is Err && is_locate_error(r->Err_0, l),
        },
{
    let (window, window_ws) = match get_matched_window_and_workspace(
        windows,
        workspaces,
        &application.matches,
        &application.excludes,
    ) {
        Ok(Some(found)) => found,
        Ok(None) => return Err(ActionError::NoMatch),
        Err(e) => return Err(e),
    };
    let focused_ws = get_focused_workspace(workspaces)?;
    Ok(bring_forward_actions(window.id, window_ws.id, focused_ws.id))
}

/// The request that parks the application's window on the hidden workspace;
/// only the focused window can be hidden, and not one already hidden.
pub fn hide_window(windows: &Vec<Window>, workspaces: &Vec<Workspace>, application: &Application) -> (r:
    Result<Vec<Action>, ActionError>)
    ensures
        match locate(windows@, workspaces@, application.matches@, application.excludes@) {
            Located::Found(wi, si) => if !is_focused_match(windows@, wi) {
                r is Err && r->Err_0 == ActionError::NotFocused
            } else {
                    match first_workspace(workspaces@, WorkspaceQuery::Hidden) {
                        None => r is Err && r->Err_0 == ActionError::NoHiddenWorkspace,
                        Some(hi) => if workspaces@[hi].id == workspaces@[si].id {
                            r is Err && r->Err_0 == ActionError::AlreadyHidden
                        } else {
                            r is Ok && r->Ok_0@ == park(windows@[wi].id, workspaces@[hi].id)
                        },
                    }
            },
            l => r is Err && is_locate_error(r->Err_0, l),
        },
{
    let (window, window_ws) = match get_matched_window_and_workspace(
        windows,
        workspaces,
        &application.matches,
        &application.excludes,
    ) {
        Ok(Some(found)) => found,
        Ok(None) => return Err(ActionError::NoMatch),
        Err(e) => return Err(e),
    };
    let focused = match get_focused_window(windows) {
        Some(w) => w,
        None => return Err(ActionError::NotFocused),
    };
    if focused.id != window.id {
        return Err(ActionError::NotFocused);
    }
    let hidden_ws = get_hidden_workspace(workspaces)?;
    if hidden_ws.id == window_ws.id {
        return Err(ActionError::AlreadyHidden);
    }
    Ok(park_actions(window.id, hidden_ws.id))
}

/// The request that focuses the application's window, which must already be
/// on the focused workspace.
pub fn activate(windows: &Vec<Window>, workspaces: &Vec<Workspace>, application: &Application) -> (r:
    Result<Vec<Action>, ActionError>)
    ensures
        match locate(windows@, workspaces@, application.matches@, application.excludes@) {
            Located::Found(wi, si) => match first_workspace(workspaces@, WorkspaceQuery::Focused) {
                None => r is Err && r->Err_0 == ActionError::NoFocusedWorkspace,
                Some(fi) => if workspaces@[fi].id != workspaces@[si].id {
                    r is Err && r->Err_0 == ActionError::NotInFocusedWorkspace
                } else {
                    r is Ok && r->Ok_0@ == seq![Action::FocusWindow { id: windows@[wi].id }]
                },
            },
            l => r is Err && is_locate_error(r->Err_0, l),
        },
{
    let (window, window_ws) = match get_matched_window_and_workspace(
        windows,
        workspaces,
        &application.matches,
        &application.excludes,
    ) {
        Ok(Some(found)) => found,
        Ok(None) => return Err(ActionError::NoMatch),
        Err(e) => return Err(e),
    };
    let focused_ws = get_focused_workspace(workspaces)?;
    if focused_ws.id != window_ws.id {
        return Err(ActionError::NotInFocusedWorkspace);
    }
    let mut actions: Vec<Action> = Vec::new();
    actions.push(Action::FocusWindow { id: window.id });
    assert(actions@ =~= seq![Action::FocusWindow { id: window.id }]);
    Ok(actions)
}

/// Launches the application when none of its windows is found; parks its
/// window when that window has the focus; else brings it forward.
pub fn toggle(windows: &Vec<Window>, workspaces: &Vec<Workspace>, application: &Application) -> (r:
    Result<Plan, ActionError>)
    ensures
        match locate(windows@, workspaces@, application.matches@, application.excludes@) {
            Located::NoMatch => r is Ok && r->Ok_0 is Launch,
            Located::Found(wi, si) => if is_focused_match(windows@, wi) {
                match first_workspace(workspaces@, WorkspaceQuery::Hidden) {
                    None => r is Err && r->Err_0 == ActionError::NoHiddenWorkspace,
                    Some(hi) => r is Ok && r->Ok_0 is Issue && r->Ok_0->Issue_0@ == park(
                        windows@[wi].id,
                        workspaces@[hi].id,
                    ),
                }
            } else {
                match first_workspace(workspaces@, WorkspaceQuery::Focused) {
                    None => r is Err && r->Err_0 == ActionError::NoFocusedWorkspace,
                    Some(fi) => r is Ok && r->Ok_0 is Issue && r->Ok_0->Issue_0@ == bring_forward(
                        windows@[wi].id,
                        workspaces@[si].id,
                        workspaces@[fi].id,
                    ),
                }
            },
            l => r is Err && is_locate_error(r->Err_0, l),
        },
{
    let (window, window_ws) = match get_matched_window_and_workspace(
        windows,
        workspaces,
        &application.matches,
        &application.excludes,
    ) {
        Ok(Some(found)) => found,
        Ok(None) => return Ok(Plan::Launch),
        Err(e) => return Err(e),
    };
    if let Some(focused) = get_focused_window(windows) {
        if focused.id == window.id {
            let hidden_ws = get_hidden_workspace(workspaces)?;
            return Ok(Plan::Issue(park_actions(window.id, hidden_ws.id)));
        }
    }
    let focused_ws = get_focused_workspace(workspaces)?;
    Ok(Plan::Issue(bring_forward_actions(window.id, window_ws.id, focused_ws.id)))
}

/// A process to start: the program and its arguments.
pub struct LaunchCommand {
    pub program: String,
    pub args: Vec<String>,
}

/// Why an application's launch command could not be resolved.
pub enum LaunchError {
    /// The argument-vector command has no program.
    EmptySpawnCommand,
    /// The application has neither launch command (its name).
    NoSpawnCommand { name: String },
    /// The application has both launch commands (its name).
    BothSpawnCommands { name: String },
}

/// Whether `application` has exactly one launch command, and a program in
/// its argument vector when that is the one.
pub open spec fn launch_spec_valid(application: Application) -> bool {
    match (application.spawn, application.spawn_sh) {
        (Some(argv), None) => argv.len() > 0,
        (None, Some(_)) => true,
        _ => false,
    }
}

/// Checks that `application` has exactly one launch command, with a program
/// when it is an argument vector; the error is the one `resolve_launch`
/// would give.
pub fn check_launch_spec(application: &Application) -> (r: Result<(), LaunchError>)
    ensures
        r is Ok <==> launch_spec_valid(*application),
        r is Err ==> launch_resolved(*application, None, Err(r->Err_0)),
{
    match (&application.spawn, &application.spawn_sh) {
        (Some(_), Some(_)) => Err(LaunchError::BothSpawnCommands { name: application.name.clone() }),
        (None, None) => Err(LaunchError::NoSpawnCommand { name: application.name.clone() }),
        (Some(argv), None) => if argv.len() == 0 {
            Err(LaunchError::EmptySpawnCommand)
        } else {
            Ok(())
        },
        (None, Some(_)) => Ok(()),
    }
}

/// `path` with a leading `~` component replaced by `home`, when there is one.
pub open spec fn home_expanded(path: Seq<char>, home: Option<String>) -> Seq<char> {
    match home {
        Some(h) => if path == seq!['~'] {
            h@
        } else if path.len() >= 2 && path[0] == '~' && path[1] == '/' {
            h@ + path.subrange(1, path.len() as int)
        } else {
            path
        },
        None => path,
    }
}

/// Whether `path` starts with the component `~`.
pub open spec fn starts_at_home(path: Seq<char>) -> bool {
    path.len() >= 1 && path[0] == '~' && (path.len() == 1 || path[1] == '/')
}

fn starts_with_home(path: &str) -> (r: bool)
    ensures
        r == starts_at_home(path@),
{
    let n = path.unicode_len();
    n >= 1 && path.get_char(0) == '~' && (n == 1 || path.get_char(1) == '/')
}

/// Replaces a leading `~` component of `path` by `home`, when `home` is known.
pub fn expand_home(path: &str, home: &Option<String>) -> (r: String)
    ensures
        r@ == home_expanded(path@, *home),
{
    let n = path.unicode_len();
    if n >= 1 && path.get_char(0) == '~' && (n == 1 || path.get_char(1) == '/') {
        match home {
            Some(h) => {
                let mut out = h.clone();
                out.append(path.substring_char(1, n));
                if n == 1 {
                    assert(path@ =~= seq!['~']);
                    assert(out@ =~= h@);
                } else {
                    assert(path@ != seq!['~']);
                }
                out
            },
            None => String::from_str(path),
        }
    } else {
        String::from_str(path)
    }
}

/// What resolving `application`'s launch command with `home` gives: the
/// argument vector (its program with `~` expanded) when it alone is present,
/// `sh -c` with the shell string when it alone is, an error otherwise.
pub open spec fn launch_resolved(
    application: Application,
    home: Option<String>,
    r: Result<LaunchCommand, LaunchError>,
) -> bool {
    match (application.spawn, application.spawn_sh) {
        (Some(_), Some(_)) => r is Err && (r->Err_0 matches LaunchError::BothSpawnCommands {
            name,
        } && name@ == application.name@),
        (None, None) => r is Err && (r->Err_0 matches LaunchError::NoSpawnCommand { name }
            && name@ == application.name@),
        (Some(argv), None) => if argv.len() == 0 {
            r is Err && r->Err_0 is EmptySpawnCommand
        } else {
            &&& r is Ok
            &&& r->Ok_0.program@ == home_expanded(argv@[0]@, home)
            &&& r->Ok_0.args.len() + 1 == argv.len()
            &&& forall|i: int|
                0 <= i < r->Ok_0.args.len() ==> r->Ok_0.args@[i]@ == argv@[i + 1]@
        },
        (None, Some(sh)) => {
            &&& r is Ok
            &&& r->Ok_0.program@ == seq!['s', 'h']
            &&& r->Ok_0.args.len() == 2
            &&& r->Ok_0.args@[0]@ == seq!['-', 'c']
            &&& r->Ok_0.args@[1]@ == sh@
        },
    }
}

/// The launch command of an application, given the user's home directory.
pub fn resolve_launch(application: &Application, home: &Option<String>) -> (r: Result<
    LaunchCommand,
    LaunchError,
>)
    ensures
        launch_resolved(*application, *home, r),
{
    match (&application.spawn, &application.spawn_sh) {
        (Some(_), Some(_)) => Err(LaunchError::BothSpawnCommands { name: application.name.clone() }),
        (None, None) => Err(LaunchError::NoSpawnCommand { name: application.name.clone() }),
        (Some(argv), None) => {
            if argv.len() == 0 {
                return Err(LaunchError::EmptySpawnCommand);
            }
            let program = expand_home(argv[0].as_str(), home);
            let mut args: Vec<String> = Vec::new();
            let mut i: usize = 1;
            while i < argv.len()
                invariant
                    1 <= i <= argv.len(),
                    args.len() + 1 == i,
                    forall|k: int| 0 <= k < args.len() ==> args@[k]@ == argv@[k + 1]@,
                decreases argv.len() - i,
            {
                args.push(argv[i].clone());
                i = i + 1;
            }
            Ok(LaunchCommand { program, args })
        },
        (None, Some(sh)) => {
            let mut args: Vec<String> = Vec::new();
            let flag = String::from_str("-c");
            let program = String::from_str("sh");
            proof {
                reveal_strlit("-c");
                reveal_strlit("sh");
                assert(flag@ =~= seq!['-', 'c']);
                assert(program@ =~= seq!['s', 'h']);
            }
            args.push(flag);
            args.push(sh.clone());
            Ok(LaunchCommand { program, args })
        },
    }
}

/// Relies on directories::UserDirs::new and UserDirs::home_dir: the invoking
/// user's home directory when it can be determined (and is valid UTF-8). It
/// depends on the environment, so nothing is stated of it.
#[verifier::external_body]
fn user_home_dir() -> (r: Option<String>) {
    directories::UserDirs::new().and_then(|d| d.home_dir().to_str().map(String::from))
}

/// The command that launches `application`: as `resolve_launch` gives it for
/// some home directory, the one the environment reports when the program
/// starts with `~`.
pub fn launch(application: &Application) -> (r: Result<LaunchCommand, LaunchError>)
    ensures
        exists|home: Option<String>| #[trigger] launch_resolved(*application, home, r),
{
    let needs_home = match &application.spawn {
        Some(argv) => argv.len() > 0 && starts_with_home(argv[0].as_str()),
        None => false,
    };
    let home = if needs_home {
        user_home_dir()
    } else {
        None
    };
    let r = resolve_launch(application, &home);
    assert(launch_resolved(*application, home, r));
    r
}

} // verus!
