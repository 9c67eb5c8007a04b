use niri_app_hotkey::action::{
    activate, check_launch_spec, expand_home, hide_window, resolve_launch, show, toggle, Action, ActionError,
    LaunchError, Plan,
};
use niri_app_hotkey::cli::{config_path_in, Cli, Command};
use niri_app_hotkey::config::{Application, Config, ConfigError, MatchRule, Regex};
use niri_app_hotkey::locate::get_matched_window_and_workspace;
use niri_app_hotkey::matcher::{is_window_match_rule, match_list, match_windows_with_rules};
use niri_app_hotkey::window::{Window, Workspace};

fn window(id: u64, app_id: Option<&str>, title: Option<&str>, pid: Option<i32>, ws: Option<u64>, focused: bool) -> Window {
    Window {
        id,
        title: title.map(String::from),
        app_id: app_id.map(String::from),
        pid,
        workspace_id: ws,
        is_focused: focused,
    }
}

fn workspace(id: u64, focused: bool, hidden: bool) -> Workspace {
    Workspace { id, is_focused: focused, is_hidden: hidden }
}

fn rule(app_id: Option<&str>, title: Option<&str>, index: Option<usize>) -> MatchRule {
    MatchRule {
        app_id: app_id.map(|p| Regex::from_str(p).ok().unwrap()),
        title: title.map(|p| Regex::from_str(p).ok().unwrap()),
        index,
    }
}

fn app(matches: Vec<MatchRule>, excludes: Vec<MatchRule>) -> Application {
    Application {
        name: "term".to_string(),
        spawn: Some(vec!["foot".to_string()]),
        spawn_sh: None,
        matches,
        excludes,
    }
}

fn workspaces() -> Vec<Workspace> {
    vec![workspace(1, true, false), workspace(2, false, false), workspace(9, false, true)]
}

#[test]
fn resolver_orders_by_pid() {
    let windows = vec![
        window(1, Some("term"), None, Some(10), Some(1), false),
        window(2, Some("term"), None, Some(5), Some(2), false),
    ];
    let wss = workspaces();
    assert_eq!(
        match_windows_with_rules(&windows, &vec![rule(Some("term"), None, None)]),
        vec![(None, vec![2, 1])]
    );
    assert_eq!(
        match_windows_with_rules(&windows, &vec![rule(Some("term"), None, Some(0))]),
        vec![(Some(0), vec![2, 1])]
    );
    let r = get_matched_window_and_workspace(&windows, &wss, &vec![rule(Some("term"), None, Some(0))], &vec![]);
    match r {
        Ok(Some((w, _))) => assert_eq!(w.id, 2),
        _ => panic!("expected the lower pid"),
    }
    let r = get_matched_window_and_workspace(&windows, &wss, &vec![rule(Some("term"), None, Some(2))], &vec![]);
    assert!(matches!(r, Ok(None)));
}

#[test]
fn index_selection_is_stable() {
    let windows = vec![
        window(1, Some("term"), None, Some(7), Some(1), false),
        window(2, Some("term"), None, None, Some(1), false),
        window(3, Some("term"), None, Some(7), Some(1), false),
        window(4, Some("term"), None, Some(3), Some(1), false),
    ];
    let r = rule(Some("term"), None, None);
    let first = match_list(&windows, &r);
    let second = match_list(&windows, &r);
    assert_eq!(first, vec![2, 4, 1, 3]);
    assert_eq!(first, second);
    let wss = workspaces();
    let includes = vec![rule(Some("term"), None, Some(2))];
    let a = get_matched_window_and_workspace(&windows, &wss, &includes, &vec![]).ok().unwrap().unwrap().0.id;
    let b = get_matched_window_and_workspace(&windows, &wss, &includes, &vec![]).ok().unwrap().unwrap().0.id;
    assert_eq!(a, 1);
    assert_eq!(a, b);
}

#[test]
fn rule_without_patterns_selects_every_window() {
    let windows = vec![
        window(1, None, None, None, None, false),
        window(2, Some("a"), Some("b"), Some(3), Some(1), true),
    ];
    assert_eq!(match_list(&windows, &rule(None, None, None)), vec![1, 2]);
    let wss = workspaces();
    let r = get_matched_window_and_workspace(&windows, &wss, &vec![rule(None, None, None)], &vec![]);
    assert!(matches!(r, Err(ActionError::Ambiguous { .. })));
    let r = get_matched_window_and_workspace(&windows, &wss, &vec![rule(None, None, Some(1))], &vec![]);
    assert_eq!(r.ok().unwrap().unwrap().0.id, 2);
}

#[test]
fn missing_field_never_matches() {
    let w = window(1, None, Some("shell"), Some(1), Some(1), false);
    assert!(!is_window_match_rule(&w, &rule(Some(".*"), None, None)));
    assert!(!is_window_match_rule(&window(2, Some("x"), None, None, None, false), &rule(None, Some(""), None)));
}

#[test]
fn patterns_search_substrings() {
    let w = window(1, Some("org.foot.term"), Some("my shell"), None, None, false);
    assert!(is_window_match_rule(&w, &rule(Some("foot"), Some("shell"), None)));
    assert!(!is_window_match_rule(&w, &rule(Some("^foot"), None, None)));
    assert!(!is_window_match_rule(&w, &rule(Some("foot"), Some("zsh"), None)));
}

#[test]
fn invalid_pattern_is_refused() {
    assert!(Regex::from_str("(").is_err());
    assert_eq!(Regex::from_str("a+b").ok().unwrap().as_str(), "a+b");
}

#[test]
fn rules_are_resolved_per_rule() {
    let windows = vec![
        window(1, Some("a"), None, Some(2), Some(1), false),
        window(2, Some("b"), None, Some(1), Some(1), false),
    ];
    let rules = vec![rule(Some("a"), None, None), rule(None, None, Some(0))];
    assert_eq!(match_windows_with_rules(&windows, &rules), vec![(None, vec![1]), (Some(0), vec![2, 1])]);
}

#[test]
fn indexed_exclude_leaves_one_candidate() {
    let windows = vec![
        window(1, Some("term"), None, Some(5), Some(1), false),
        window(2, Some("term"), None, Some(10), Some(2), false),
    ];
    let wss = workspaces();
    let found = get_matched_window_and_workspace(
        &windows,
        &wss,
        &vec![rule(Some("term"), None, None)],
        &vec![rule(Some("term"), None, Some(0))],
    );
    match found {
        Ok(Some((w, ws))) => {
            assert_eq!(w.id, 2);
            assert_eq!(ws.id, 2);
        }
        _ => panic!("expected a single match"),
    }
}

#[test]
fn include_rules_form_a_union() {
    let windows = vec![
        window(1, Some("a"), None, Some(5), Some(1), false),
        window(2, Some("b"), None, Some(10), Some(2), false),
    ];
    let wss = workspaces();
    let r = get_matched_window_and_workspace(
        &windows,
        &wss,
        &vec![rule(Some("a"), None, None), rule(Some("b"), None, None)],
        &vec![],
    );
    match r {
        Err(ActionError::Ambiguous { window_ids }) => assert_eq!(window_ids, vec![1, 2]),
        _ => panic!("expected an ambiguity"),
    }
}

#[test]
fn exclude_wins_over_include() {
    let windows = vec![window(1, Some("a"), Some("x"), Some(5), Some(1), false)];
    let wss = workspaces();
    let r = get_matched_window_and_workspace(
        &windows,
        &wss,
        &vec![rule(Some("a"), None, None)],
        &vec![rule(None, Some("x"), None)],
    );
    assert!(matches!(r, Ok(None)));
}

#[test]
fn matched_window_without_workspace() {
    let windows = vec![window(4, Some("a"), None, None, None, false)];
    let wss = workspaces();
    let r = get_matched_window_and_workspace(&windows, &wss, &vec![rule(Some("a"), None, None)], &vec![]);
    assert!(matches!(r, Err(ActionError::NoWindowWorkspace { window_id: 4 })));
}

#[test]
fn matched_window_workspace_missing() {
    let windows = vec![window(4, Some("a"), None, None, Some(77), false)];
    let wss = workspaces();
    let r = get_matched_window_and_workspace(&windows, &wss, &vec![rule(Some("a"), None, None)], &vec![]);
    assert!(matches!(r, Err(ActionError::WorkspaceNotFound { workspace_id: 77 })));
}

#[test]
fn show_moves_then_focuses() {
    let windows = vec![window(3, Some("term"), None, Some(1), Some(9), false)];
    let a = app(vec![rule(Some("term"), None, None)], vec![]);
    let actions = show(&windows, &workspaces(), &a).ok().unwrap();
    assert_eq!(
        actions,
        vec![
            Action::MoveWindowToWorkspace { window_id: 3, workspace_id: 1, focus: true },
            Action::FocusWindow { id: 3 },
        ]
    );
}

#[test]
fn show_twice_only_focuses() {
    let windows = vec![window(3, Some("term"), None, Some(1), Some(1), true)];
    let a = app(vec![rule(Some("term"), None, None)], vec![]);
    let actions = show(&windows, &workspaces(), &a).ok().unwrap();
    assert_eq!(actions, vec![Action::FocusWindow { id: 3 }]);
}

#[test]
fn show_without_match_fails() {
    let windows = vec![window(3, Some("other"), None, Some(1), Some(1), true)];
    let a = app(vec![rule(Some("term"), None, None)], vec![]);
    assert!(matches!(show(&windows, &workspaces(), &a), Err(ActionError::NoMatch)));
}

#[test]
fn show_without_focused_workspace() {
    let windows = vec![window(3, Some("term"), None, Some(1), Some(2), false)];
    let wss = vec![workspace(2, false, false)];
    let a = app(vec![rule(Some("term"), None, None)], vec![]);
    assert!(matches!(show(&windows, &wss, &a), Err(ActionError::NoFocusedWorkspace)));
}

#[test]
fn hide_requires_focus() {
    let windows = vec![
        window(3, Some("term"), None, Some(1), Some(1), false),
        window(4, Some("web"), None, Some(2), Some(1), true),
    ];
    let a = app(vec![rule(Some("term"), None, None)], vec![]);
    assert!(matches!(hide_window(&windows, &workspaces(), &a), Err(ActionError::NotFocused)));
}

#[test]
fn hide_without_focused_window() {
    let windows = vec![window(3, Some("term"), None, Some(1), Some(1), false)];
    let a = app(vec![rule(Some("term"), None, None)], vec![]);
    assert!(matches!(hide_window(&windows, &workspaces(), &a), Err(ActionError::NotFocused)));
}

#[test]
fn hide_parks_focused_window() {
    let windows = vec![window(3, Some("term"), None, Some(1), Some(1), true)];
    let a = app(vec![rule(Some("term"), None, None)], vec![]);
    let actions = hide_window(&windows, &workspaces(), &a).ok().unwrap();
    assert_eq!(actions, vec![Action::MoveWindowToWorkspace { window_id: 3, workspace_id: 9, focus: false }]);
}

#[test]
fn hide_already_hidden() {
    let windows = vec![window(3, Some("term"), None, Some(1), Some(9), true)];
    let a = app(vec![rule(Some("term"), None, None)], vec![]);
    assert!(matches!(hide_window(&windows, &workspaces(), &a), Err(ActionError::AlreadyHidden)));
}

#[test]
fn hide_without_hidden_workspace() {
    let windows = vec![window(3, Some("term"), None, Some(1), Some(1), true)];
    let wss = vec![workspace(1, true, false)];
    let a = app(vec![rule(Some("term"), None, None)], vec![]);
    assert!(matches!(hide_window(&windows, &wss, &a), Err(ActionError::NoHiddenWorkspace)));
}

#[test]
fn activate_focuses_on_current_workspace() {
    let windows = vec![window(3, Some("term"), None, Some(1), Some(1), false)];
    let a = app(vec![rule(Some("term"), None, None)], vec![]);
    assert_eq!(activate(&windows, &workspaces(), &a).ok().unwrap(), vec![Action::FocusWindow { id: 3 }]);
}

#[test]
fn activate_elsewhere_fails() {
    let windows = vec![window(3, Some("term"), None, Some(1), Some(2), false)];
    let a = app(vec![rule(Some("term"), None, None)], vec![]);
    assert!(matches!(activate(&windows, &workspaces(), &a), Err(ActionError::NotInFocusedWorkspace)));
}

#[test]
fn toggle_without_match_launches() {
    let windows = vec![window(3, Some("web"), None, Some(1), Some(1), true)];
    let a = app(vec![rule(Some("term"), None, None)], vec![]);
    assert!(matches!(toggle(&windows, &workspaces(), &a), Ok(Plan::Launch)));
}

#[test]
fn toggle_focused_hides() {
    let windows = vec![window(3, Some("term"), None, Some(1), Some(1), true)];
    let a = app(vec![rule(Some("term"), None, None)], vec![]);
    match toggle(&windows, &workspaces(), &a) {
        Ok(Plan::Issue(actions)) => assert_eq!(
            actions,
            vec![Action::MoveWindowToWorkspace { window_id: 3, workspace_id: 9, focus: false }]
        ),
        _ => panic!("expected requests"),
    }
}

#[test]
fn toggle_unfocused_brings_forward() {
    let windows = vec![
        window(3, Some("term"), None, Some(1), Some(9), false),
        window(4, Some("web"), None, Some(2), Some(1), true),
    ];
    let a = app(vec![rule(Some("term"), None, None)], vec![]);
    match toggle(&windows, &workspaces(), &a) {
        Ok(Plan::Issue(actions)) => assert_eq!(
            actions,
            vec![
                Action::MoveWindowToWorkspace { window_id: 3, workspace_id: 1, focus: true },
                Action::FocusWindow { id: 3 },
            ]
        ),
        _ => panic!("expected requests"),
    }
}

#[test]
fn toggle_ambiguous_fails() {
    let windows = vec![
        window(3, Some("term"), None, Some(1), Some(1), false),
        window(5, Some("term"), None, Some(2), Some(1), false),
    ];
    let a = app(vec![rule(Some("term"), None, None)], vec![]);
    assert!(matches!(toggle(&windows, &workspaces(), &a), Err(ActionError::Ambiguous { .. })));
}

#[test]
fn launch_argument_vector_expands_home() {
    let mut a = app(vec![], vec![]);
    a.spawn = Some(vec!["~/bin/foot".to_string(), "-e".to_string(), "htop".to_string()]);
    let cmd = resolve_launch(&a, &Some("/home/u".to_string())).ok().unwrap();
    assert_eq!(cmd.program, "/home/u/bin/foot");
    assert_eq!(cmd.args, vec!["-e".to_string(), "htop".to_string()]);
}

#[test]
fn launch_shell_string() {
    let mut a = app(vec![], vec![]);
    a.spawn = None;
    a.spawn_sh = Some("foot -e htop".to_string());
    let cmd = resolve_launch(&a, &None).ok().unwrap();
    assert_eq!(cmd.program, "sh");
    assert_eq!(cmd.args, vec!["-c".to_string(), "foot -e htop".to_string()]);
}

#[test]
fn launch_errors() {
    let mut a = app(vec![], vec![]);
    a.spawn = Some(vec![]);
    assert!(matches!(resolve_launch(&a, &None), Err(LaunchError::EmptySpawnCommand)));
    a.spawn = None;
    assert!(matches!(resolve_launch(&a, &None), Err(LaunchError::NoSpawnCommand { .. })));
    a.spawn = Some(vec!["foot".to_string()]);
    a.spawn_sh = Some("foot".to_string());
    match resolve_launch(&a, &None) {
        Err(LaunchError::BothSpawnCommands { name }) => assert_eq!(name, "term"),
        _ => panic!("expected a duplicate launch command"),
    }
}

#[test]
fn home_expansion() {
    let home = Some("/home/u".to_string());
    assert_eq!(expand_home("~", &home), "/home/u");
    assert_eq!(expand_home("~/x", &home), "/home/u/x");
    assert_eq!(expand_home("~x", &home), "~x");
    assert_eq!(expand_home("/usr/bin/~", &home), "/usr/bin/~");
    assert_eq!(expand_home("~/x", &None), "~/x");
}

#[test]
fn find_application_by_name() {
    let mut other = app(vec![], vec![]);
    other.name = "web".to_string();
    let config = Config { applications: vec![app(vec![], vec![]), other] };
    assert_eq!(config.find_application("web").ok().unwrap().name, "web");
    match config.find_application("mail") {
        Err(ConfigError::ApplicationNotFound { name }) => assert_eq!(name, "mail"),
        _ => panic!("expected a missing application"),
    }
}

#[test]
fn config_path_and_cli() {
    assert_eq!(config_path_in("/home/u/.config/niri"), "/home/u/.config/niri/niri-app-hotkey.kdl");
    let cli = Cli::new(Command::Validate, Some("/tmp/c.kdl".to_string())).ok().unwrap();
    assert_eq!(cli.config_path, "/tmp/c.kdl");
    assert!(matches!(cli.command, Command::Validate));
}

#[test]
fn launch_spec_is_checked() {
    let mut a = app(vec![], vec![]);
    assert!(check_launch_spec(&a).is_ok());
    a.spawn_sh = Some("foot".to_string());
    assert!(matches!(check_launch_spec(&a), Err(LaunchError::BothSpawnCommands { .. })));
    a.spawn = None;
    assert!(check_launch_spec(&a).is_ok());
    a.spawn_sh = None;
    assert!(matches!(check_launch_spec(&a), Err(LaunchError::NoSpawnCommand { .. })));
    a.spawn = Some(vec![]);
    assert!(matches!(check_launch_spec(&a), Err(LaunchError::EmptySpawnCommand)));
}
