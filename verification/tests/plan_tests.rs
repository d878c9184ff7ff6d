use sessionizer::{
    finish_commands, has_session_cmd, last_pane, list_panes_cmd, needs_existence_query,
    pane_id_query_cmd, server_query_cmd, setup_commands, split_followup_cmds, split_window_cmd,
    ssh_command, target_window, wants_split, LaunchKind, SplitConfig,
};

fn sv(parts: &[&str]) -> Vec<String> {
    parts.iter().map(|p| p.to_string()).collect()
}

fn remote(split: Option<SplitConfig>) -> LaunchKind {
    LaunchKind::Remote {
        session_name: "db".to_string(),
        host: "user@db1".to_string(),
        command: "tail -f log".to_string(),
        split,
    }
}

#[test]
fn ssh_command_wraps_for_host() {
    assert_eq!(
        ssh_command("user@db1", "tail -f log"),
        "ssh -t user@db1 \"tail -f log;\""
    );
}

#[test]
fn target_window_joins_name_and_window() {
    assert_eq!(target_window("db", "main"), "db:main");
    assert_eq!(target_window("notes", "0"), "notes:0");
}

#[test]
fn query_commands_are_fixed() {
    assert_eq!(server_query_cmd(), sv(&["pgrep", "tmux"]));
    assert_eq!(has_session_cmd("db"), sv(&["tmux", "has-session", "-t", "db"]));
    assert_eq!(
        pane_id_query_cmd(),
        sv(&["tmux", "display-message", "-p", "#{pane_id}"])
    );
    assert_eq!(
        list_panes_cmd("db"),
        sv(&["tmux", "list-panes", "-t", "db:main", "-F", "#{pane_id}"])
    );
}

#[test]
fn existence_query_only_with_multiplexer_around() {
    assert!(!needs_existence_query(false, false));
    assert!(needs_existence_query(true, false));
    assert!(needs_existence_query(false, true));
    assert!(needs_existence_query(true, true));
}

#[test]
fn fresh_remote_launch_creates_submits_attaches() {
    // no client, no server: one creation, one wrapped submission, one attach
    let kind = remote(None);
    let setup = setup_commands(&kind, false, false, false);
    assert_eq!(setup, vec![
        sv(&["tmux", "new-session", "-s", "db", "-d", "-n", "main"]),
        sv(&[
            "tmux",
            "send-keys",
            "-t",
            "db:main",
            "ssh -t user@db1 \"tail -f log;\"",
            "C-m",
        ]),
    ]);
    assert!(!wants_split(&kind, false, false, false));
    assert_eq!(
        finish_commands(&kind, false, false),
        vec![sv(&["tmux", "attach", "-t", "db"])]
    );
}

#[test]
fn existing_session_only_attaches_or_switches() {
    // the session already runs: no creation, no submission, no split
    let kind = remote(Some(SplitConfig {
        split_type: "vs".to_string(),
        command: "htop".to_string(),
    }));
    assert_eq!(setup_commands(&kind, false, true, true), Vec::<Vec<String>>::new());
    assert!(!wants_split(&kind, false, true, true));
    assert_eq!(
        finish_commands(&kind, false, true),
        vec![sv(&["tmux", "attach", "-t", "db"])]
    );
    assert_eq!(setup_commands(&kind, true, true, true), Vec::<Vec<String>>::new());
    assert!(!wants_split(&kind, true, true, true));
    assert_eq!(
        finish_commands(&kind, true, true),
        vec![sv(&["tmux", "switch-client", "-t", "db"])]
    );
}

#[test]
fn absent_session_is_created_detached() {
    let kind = LaunchKind::LocalDir {
        session_name: "proj_v2".to_string(),
        directory: "/home/u/proj.v2".to_string(),
    };
    assert_eq!(setup_commands(&kind, true, true, false), vec![sv(&[
        "tmux",
        "new-session",
        "-ds",
        "proj_v2",
        "-c",
        "/home/u/proj.v2",
    ])]);
    assert_eq!(
        finish_commands(&kind, true, true),
        vec![sv(&["tmux", "switch-client", "-t", "proj_v2"])]
    );
}

#[test]
fn fresh_local_dir_attaches_through_creation() {
    let kind = LaunchKind::LocalDir {
        session_name: "work".to_string(),
        directory: "/home/u/work".to_string(),
    };
    assert_eq!(setup_commands(&kind, false, false, false), vec![sv(&[
        "tmux",
        "new-session",
        "-s",
        "work",
        "-c",
        "/home/u/work",
    ])]);
    // creation was foreground and blocking: nothing left to do
    assert_eq!(finish_commands(&kind, false, false), Vec::<Vec<String>>::new());
}

#[test]
fn local_config_session_submits_its_command() {
    let kind = LaunchKind::LocalConfig {
        session_name: "notes".to_string(),
        command: "nvim .".to_string(),
    };
    assert_eq!(setup_commands(&kind, false, true, false), vec![
        sv(&["tmux", "new-session", "-ds", "notes"]),
        sv(&["tmux", "send-keys", "-t", "notes:0", "nvim .", "C-m"]),
    ]);
    assert!(!wants_split(&kind, false, true, false));
}

#[test]
fn split_wanted_only_when_configured_and_newly_created() {
    let with_split = remote(Some(SplitConfig {
        split_type: "hs".to_string(),
        command: "htop".to_string(),
    }));
    assert!(wants_split(&with_split, false, false, true));
    assert!(wants_split(&with_split, true, true, false));
    assert!(!wants_split(&with_split, true, true, true));
    assert!(!wants_split(&remote(None), false, false, false));
}

#[test]
fn split_window_orientation_flags() {
    let vs = SplitConfig { split_type: "vs".to_string(), command: "x".to_string() };
    let hs = SplitConfig { split_type: "hs".to_string(), command: "x".to_string() };
    let other = SplitConfig { split_type: "diag".to_string(), command: "x".to_string() };
    assert_eq!(
        split_window_cmd("db", &vs),
        sv(&["tmux", "split-window", "-h", "-p", "20", "-t", "db:main"])
    );
    assert_eq!(
        split_window_cmd("db", &hs),
        sv(&["tmux", "split-window", "-v", "-p", "20", "-t", "db:main"])
    );
    assert_eq!(
        split_window_cmd("db", &other),
        sv(&["tmux", "split-window", "-h", "-p", "20", "-t", "db:main"])
    );
}

#[test]
fn split_followup_submits_then_refocuses() {
    assert_eq!(split_followup_cmds("user@db1", "htop", "%2", "%1"), vec![
        sv(&[
            "tmux",
            "send-keys",
            "-t",
            "%2",
            "ssh -t user@db1 \"htop;\"",
            "C-m",
        ]),
        sv(&["tmux", "select-pane", "-t", "%1"]),
    ]);
}

#[test]
fn last_pane_takes_last_listed() {
    let panes = vec!["%0".to_string(), "%1".to_string(), "%4".to_string()];
    assert_eq!(last_pane(&panes), Some("%4".to_string()));
    assert_eq!(last_pane(&Vec::new()), None);
}
