//! The multiplexer session launcher as a planner. Every decision of the
//! launch — which control commands to issue, in which order, with which
//! argument strings — is computed and verified here; the caller merely runs
//! each planned command and feeds query results back.
//!
//! A planned command is its argument vector, program name first.

use vstd::prelude::*;
use vstd::string::*;
use crate::config::SplitConfig;
use crate::dispatch::LaunchKind;
use crate::strutil::concat_str;

verus! {

/// The command submitted to a pane for a remote session: the configured
/// command wrapped in a secure-remote-shell invocation of the host.
pub open spec fn spec_ssh_command(host: Seq<char>, command: Seq<char>) -> Seq<char> {
    "ssh -t "@ + host + " \""@ + command + ";\""@
}

pub fn ssh_command(host: &str, command: &str) -> (r: String)
    ensures
        r@ == spec_ssh_command(host@, command@),
{
    let a = concat_str("ssh -t ", host);
    let b = a.concat(" \"");
    let c = b.concat(command);
    c.concat(";\"")
}

/// A target of the form `session:window`.
pub open spec fn spec_target_window(name: Seq<char>, window: Seq<char>) -> Seq<char> {
    name + ":"@ + window
}

pub fn target_window(name: &str, window: &str) -> (r: String)
    ensures
        r@ == spec_target_window(name@, window@),
{
    let a = concat_str(name, ":");
    a.concat(window)
}

/// Queries whether any multiplexer server process runs at all.
pub open spec fn spec_server_query_cmd() -> Seq<Seq<char>> {
    seq!["pgrep"@, "tmux"@]
}

/// Queries whether the named session exists.
pub open spec fn spec_has_session_cmd(name: Seq<char>) -> Seq<Seq<char>> {
    seq!["tmux"@, "has-session"@, "-t"@, name]
}

pub open spec fn spec_attach_cmd(name: Seq<char>) -> Seq<Seq<char>> {
    seq!["tmux"@, "attach"@, "-t"@, name]
}

pub open spec fn spec_switch_cmd(name: Seq<char>) -> Seq<Seq<char>> {
    seq!["tmux"@, "switch-client"@, "-t"@, name]
}

pub open spec fn spec_new_fg_dir_cmd(name: Seq<char>, dir: Seq<char>) -> Seq<Seq<char>> {
    seq!["tmux"@, "new-session"@, "-s"@, name, "-c"@, dir]
}

pub open spec fn spec_new_detached_dir_cmd(name: Seq<char>, dir: Seq<char>) -> Seq<Seq<char>> {
    seq!["tmux"@, "new-session"@, "-ds"@, name, "-c"@, dir]
}

pub open spec fn spec_new_fg_cmd(name: Seq<char>) -> Seq<Seq<char>> {
    seq!["tmux"@, "new-session"@, "-s"@, name]
}

pub open spec fn spec_new_detached_cmd(name: Seq<char>) -> Seq<Seq<char>> {
    seq!["tmux"@, "new-session"@, "-ds"@, name]
}

pub open spec fn spec_new_detached_main_fresh_cmd(name: Seq<char>) -> Seq<Seq<char>> {
    seq!["tmux"@, "new-session"@, "-s"@, name, "-d"@, "-n"@, "main"@]
}

pub open spec fn spec_new_detached_main_cmd(name: Seq<char>) -> Seq<Seq<char>> {
    seq!["tmux"@, "new-session"@, "-ds"@, name, "-n"@, "main"@]
}

/// Submits `keys` to `target` as if typed, confirmed with the
/// newline-equivalent keystroke.
pub open spec fn spec_send_keys_cmd(target: Seq<char>, keys: Seq<char>) -> Seq<Seq<char>> {
    seq!["tmux"@, "send-keys"@, "-t"@, target, keys, "C-m"@]
}

fn push_s(v: &mut Vec<String>, s: &str)
    ensures
        final(v).deep_view() == old(v).deep_view().push(s@),
{
    v.push(s.to_owned());
    proof {
        assert(v.deep_view() =~= old(v).deep_view().push(s@));
    }
}

pub fn server_query_cmd() -> (c: Vec<String>)
    ensures
        c.deep_view() == spec_server_query_cmd(),
{
    let mut c: Vec<String> = Vec::new();
    push_s(&mut c, "pgrep");
    push_s(&mut c, "tmux");
    proof {
        assert(c.deep_view() =~= spec_server_query_cmd());
    }
    c
}

pub fn has_session_cmd(name: &str) -> (c: Vec<String>)
    ensures
        c.deep_view() == spec_has_session_cmd(name@),
{
    let mut c: Vec<String> = Vec::new();
    push_s(&mut c, "tmux");
    push_s(&mut c, "has-session");
    push_s(&mut c, "-t");
    push_s(&mut c, name);
    proof {
        assert(c.deep_view() =~= spec_has_session_cmd(name@));
    }
    c
}

fn attach_cmd(name: &str) -> (c: Vec<String>)
    ensures
        c.deep_view() == spec_attach_cmd(name@),
{
    let mut c: Vec<String> = Vec::new();
    push_s(&mut c, "tmux");
    push_s(&mut c, "attach");
    push_s(&mut c, "-t");
    push_s(&mut c, name);
    proof {
        assert(c.deep_view() =~= spec_attach_cmd(name@));
    }
    c
}

fn switch_cmd(name: &str) -> (c: Vec<String>)
    ensures
        c.deep_view() == spec_switch_cmd(name@),
{
    let mut c: Vec<String> = Vec::new();
    push_s(&mut c, "tmux");
    push_s(&mut c, "switch-client");
    push_s(&mut c, "-t");
    push_s(&mut c, name);
    proof {
        assert(c.deep_view() =~= spec_switch_cmd(name@));
    }
    c
}

fn new_session_cmd(name: &str, fresh: bool, dir: Option<&str>, main_window: bool) -> (c: Vec<
    String,
>)
    ensures
        c.deep_view() == match dir {
            Some(d) => if fresh {
                spec_new_fg_dir_cmd(name@, d@)
            } else {
                spec_new_detached_dir_cmd(name@, d@)
            },
            None => if main_window {
                if fresh {
                    spec_new_detached_main_fresh_cmd(name@)
                } else {
                    spec_new_detached_main_cmd(name@)
                }
            } else {
                if fresh {
                    spec_new_fg_cmd(name@)
                } else {
                    spec_new_detached_cmd(name@)
                }
            },
        },
{
    let mut c: Vec<String> = Vec::new();
    push_s(&mut c, "tmux");
    push_s(&mut c, "new-session");
    if fresh {
        push_s(&mut c, "-s");
    } else {
        push_s(&mut c, "-ds");
    }
    push_s(&mut c, name);
    match dir {
        Some(d) => {
            push_s(&mut c, "-c");
            push_s(&mut c, d);
            proof {
                if fresh {
                    assert(c.deep_view() =~= spec_new_fg_dir_cmd(name@, d@));
                } else {
                    assert(c.deep_view() =~= spec_new_detached_dir_cmd(name@, d@));
                }
            }
        },
        None => {
            if main_window {
                if fresh {
                    push_s(&mut c, "-d");
                }
                push_s(&mut c, "-n");
                push_s(&mut c, "main");
                proof {
                    if fresh {
                        assert(c.deep_view() =~= spec_new_detached_main_fresh_cmd(name@));
                    } else {
                        assert(c.deep_view() =~= spec_new_detached_main_cmd(name@));
                    }
                }
            } else {
                proof {
                    if fresh {
                        assert(c.deep_view() =~= spec_new_fg_cmd(name@));
                    } else {
                        assert(c.deep_view() =~= spec_new_detached_cmd(name@));
                    }
                }
            }
        },
    }
    c
}

fn send_keys_cmd(target: &str, keys: &str) -> (c: Vec<String>)
    ensures
        c.deep_view() == spec_send_keys_cmd(target@, keys@),
{
    let mut c: Vec<String> = Vec::new();
    push_s(&mut c, "tmux");
    push_s(&mut c, "send-keys");
    push_s(&mut c, "-t");
    push_s(&mut c, target);
    push_s(&mut c, keys);
    push_s(&mut c, "C-m");
    proof {
        assert(c.deep_view() =~= spec_send_keys_cmd(target@, keys@));
    }
    c
}

/// The session name a launch binds to.
pub open spec fn spec_kind_name(kind: LaunchKind) -> Seq<char> {
    match kind {
        LaunchKind::LocalDir { session_name, .. } => session_name@,
        LaunchKind::LocalConfig { session_name, .. } => session_name@,
        LaunchKind::Remote { session_name, .. } => session_name@,
    }
}

/// Whether the launch must first ask the multiplexer if the session exists:
/// only when a client or a server is already around; otherwise the session
/// is created outright.
pub fn needs_existence_query(in_tmux: bool, tmux_running: bool) -> (b: bool)
    ensures
        b == (in_tmux || tmux_running),
{
    in_tmux || tmux_running
}

/// The creation and key-submission commands of a launch, before any split
/// pane and before the closing attach or switch. With neither a client nor
/// a server around (`fresh`), the session is created outright — in the
/// foreground for a directory session, detached then attached for the
/// others; with one around, creation happens detached and only if the
/// session does not exist yet; an existing session gets no command here.
pub open spec fn spec_setup_commands(
    kind: LaunchKind,
    in_tmux: bool,
    tmux_running: bool,
    session_exists: bool,
) -> Seq<Seq<Seq<char>>> {
    let fresh = !in_tmux && !tmux_running;
    match kind {
        LaunchKind::LocalDir { session_name, directory } => {
            if fresh {
                seq![spec_new_fg_dir_cmd(session_name@, directory@)]
            } else if !session_exists {
                seq![spec_new_detached_dir_cmd(session_name@, directory@)]
            } else {
                Seq::empty()
            }
        },
        LaunchKind::LocalConfig { session_name, command } => {
            if fresh {
                seq![
                    spec_new_fg_cmd(session_name@),
                    spec_send_keys_cmd(spec_target_window(session_name@, "0"@), command@),
                ]
            } else if !session_exists {
                seq![
                    spec_new_detached_cmd(session_name@),
                    spec_send_keys_cmd(spec_target_window(session_name@, "0"@), command@),
                ]
            } else {
                Seq::empty()
            }
        },
        LaunchKind::Remote { session_name, host, command, .. } => {
            if fresh {
                seq![
                    spec_new_detached_main_fresh_cmd(session_name@),
                    spec_send_keys_cmd(
                        spec_target_window(session_name@, "main"@),
                        spec_ssh_command(host@, command@),
                    ),
                ]
            } else if !session_exists {
                seq![
                    spec_new_detached_main_cmd(session_name@),
                    spec_send_keys_cmd(
                        spec_target_window(session_name@, "main"@),
                        spec_ssh_command(host@, command@),
                    ),
                ]
            } else {
                Seq::empty()
            }
        },
    }
}

pub fn setup_commands(
    kind: &LaunchKind,
    in_tmux: bool,
    tmux_running: bool,
    session_exists: bool,
) -> (cmds: Vec<Vec<String>>)
    ensures
        cmds.deep_view() == spec_setup_commands(*kind, in_tmux, tmux_running, session_exists),
{
    let fresh = !in_tmux && !tmux_running;
    let mut cmds: Vec<Vec<String>> = Vec::new();
    match kind {
        LaunchKind::LocalDir { session_name, directory } => {
            if fresh {
                cmds.push(new_session_cmd(session_name.as_str(), true, Some(directory.as_str()), false));
            } else if !session_exists {
                cmds.push(new_session_cmd(session_name.as_str(), false, Some(directory.as_str()), false));
            }
        },
        LaunchKind::LocalConfig { session_name, command } => {
            if fresh || !session_exists {
                cmds.push(new_session_cmd(session_name.as_str(), fresh, None, false));
                let target = target_window(session_name.as_str(), "0");
                cmds.push(send_keys_cmd(target.as_str(), command.as_str()));
            }
        },
        LaunchKind::Remote { session_name, host, command, .. } => {
            if fresh || !session_exists {
                cmds.push(new_session_cmd(session_name.as_str(), fresh, None, true));
                let target = target_window(session_name.as_str(), "main");
                let wrapped = ssh_command(host.as_str(), command.as_str());
                cmds.push(send_keys_cmd(target.as_str(), wrapped.as_str()));
            }
        },
    }
    proof {
        assert(cmds.deep_view() =~= spec_setup_commands(
            *kind,
            in_tmux,
            tmux_running,
            session_exists,
        ));
    }
    cmds
}

/// Whether this launch creates a secondary split pane: only a remote session
/// that configures one, and only when the session was newly created in this
/// launch.
pub open spec fn spec_wants_split(
    kind: LaunchKind,
    in_tmux: bool,
    tmux_running: bool,
    session_exists: bool,
) -> bool {
    match kind {
        LaunchKind::Remote { split, .. } => split is Some && ((!in_tmux && !tmux_running)
            || !session_exists),
        _ => false,
    }
}

pub fn wants_split(
    kind: &LaunchKind,
    in_tmux: bool,
    tmux_running: bool,
    session_exists: bool,
) -> (b: bool)
    ensures
        b == spec_wants_split(*kind, in_tmux, tmux_running, session_exists),
{
    match kind {
        LaunchKind::Remote { split, .. } => split.is_some() && ((!in_tmux && !tmux_running)
            || !session_exists),
        _ => false,
    }
}

/// The closing command of a launch: none for a directory session created in
/// the foreground (creation already attached); otherwise a switch when the
/// caller is already inside the multiplexer (attaching again would nest
/// clients), an attach when it is not.
pub open spec fn spec_finish_commands(
    kind: LaunchKind,
    in_tmux: bool,
    tmux_running: bool,
) -> Seq<Seq<Seq<char>>> {
    let fresh = !in_tmux && !tmux_running;
    if kind matches LaunchKind::LocalDir { .. } && fresh {
        Seq::empty()
    } else if in_tmux {
        seq![spec_switch_cmd(spec_kind_name(kind))]
    } else {
        seq![spec_attach_cmd(spec_kind_name(kind))]
    }
}

pub fn finish_commands(kind: &LaunchKind, in_tmux: bool, tmux_running: bool) -> (cmds: Vec<
    Vec<String>,
>)
    ensures
        cmds.deep_view() == spec_finish_commands(*kind, in_tmux, tmux_running),
{
    let fresh = !in_tmux && !tmux_running;
    let mut cmds: Vec<Vec<String>> = Vec::new();
    let is_local_dir = match kind {
        LaunchKind::LocalDir { .. } => true,
        _ => false,
    };
    let name: &String = match kind {
        LaunchKind::LocalDir { session_name, .. } => session_name,
        LaunchKind::LocalConfig { session_name, .. } => session_name,
        LaunchKind::Remote { session_name, .. } => session_name,
    };
    if is_local_dir && fresh {
    } else if in_tmux {
        cmds.push(switch_cmd(name.as_str()));
    } else {
        cmds.push(attach_cmd(name.as_str()));
    }
    proof {
        assert(cmds.deep_view() =~= spec_finish_commands(*kind, in_tmux, tmux_running));
    }
    cmds
}

/// Asks the multiplexer for the identifier of the currently focused pane —
/// the main pane the split returns focus to.
pub open spec fn spec_pane_id_query_cmd() -> Seq<Seq<char>> {
    seq!["tmux"@, "display-message"@, "-p"@, "#{pane_id}"@]
}

pub fn pane_id_query_cmd() -> (c: Vec<String>)
    ensures
        c.deep_view() == spec_pane_id_query_cmd(),
{
    let mut c: Vec<String> = Vec::new();
    push_s(&mut c, "tmux");
    push_s(&mut c, "display-message");
    push_s(&mut c, "-p");
    push_s(&mut c, "#{pane_id}");
    proof {
        assert(c.deep_view() =~= spec_pane_id_query_cmd());
    }
    c
}

/// The orientation flag for a split: side-by-side for `vs`, stacked for
/// `hs`, side-by-side for anything else.
pub open spec fn spec_split_flag(split_type: Seq<char>) -> Seq<char> {
    if split_type == "vs"@ {
        "-h"@
    } else if split_type == "hs"@ {
        "-v"@
    } else {
        "-h"@
    }
}

/// Creates the split pane, sized to a fifth of the window, in the session's
/// primary window.
pub open spec fn spec_split_window_cmd(name: Seq<char>, split_type: Seq<char>) -> Seq<Seq<char>> {
    seq![
        "tmux"@,
        "split-window"@,
        spec_split_flag(split_type),
        "-p"@,
        "20"@,
        "-t"@,
        spec_target_window(name, "main"@),
    ]
}

pub fn split_window_cmd(name: &str, split: &SplitConfig) -> (c: Vec<String>)
    ensures
        c.deep_view() == spec_split_window_cmd(name@, split.split_type@),
{
    let mut c: Vec<String> = Vec::new();
    push_s(&mut c, "tmux");
    push_s(&mut c, "split-window");
    if crate::strutil::str_eq(split.split_type.as_str(), "vs") {
        push_s(&mut c, "-h");
    } else if crate::strutil::str_eq(split.split_type.as_str(), "hs") {
        push_s(&mut c, "-v");
    } else {
        push_s(&mut c, "-h");
    }
    push_s(&mut c, "-p");
    push_s(&mut c, "20");
    push_s(&mut c, "-t");
    let target = target_window(name, "main");
    push_s(&mut c, target.as_str());
    proof {
        assert(c.deep_view() =~= spec_split_window_cmd(name@, split.split_type@));
    }
    c
}

/// Lists the pane identifiers of the session's primary window, one per line.
pub open spec fn spec_list_panes_cmd(name: Seq<char>) -> Seq<Seq<char>> {
    seq![
        "tmux"@,
        "list-panes"@,
        "-t"@,
        spec_target_window(name, "main"@),
        "-F"@,
        "#{pane_id}"@,
    ]
}

pub fn list_panes_cmd(name: &str) -> (c: Vec<String>)
    ensures
        c.deep_view() == spec_list_panes_cmd(name@),
{
    let mut c: Vec<String> = Vec::new();
    push_s(&mut c, "tmux");
    push_s(&mut c, "list-panes");
    push_s(&mut c, "-t");
    let target = target_window(name, "main");
    push_s(&mut c, target.as_str());
    push_s(&mut c, "-F");
    push_s(&mut c, "#{pane_id}");
    proof {
        assert(c.deep_view() =~= spec_list_panes_cmd(name@));
    }
    c
}

/// The just-created pane, taken as the last pane listed — a positional
/// heuristic: the split is assumed to be the newest, hence last, pane.
pub fn last_pane(panes: &Vec<String>) -> (r: Option<String>)
    ensures
        match r {
            Some(p) => panes@.len() > 0 && p@ == panes.deep_view().last(),
            None => panes@.len() == 0,
        },
{
    if panes.len() == 0 {
        None
    } else {
        Some(panes[panes.len() - 1].clone())
    }
}

/// After the split exists: submit the split's command to the new pane,
/// wrapped for the host like the primary command, then return focus to the
/// recorded main pane.
pub open spec fn spec_split_followup_cmds(
    host: Seq<char>,
    split_command: Seq<char>,
    new_pane: Seq<char>,
    main_pane: Seq<char>,
) -> Seq<Seq<Seq<char>>> {
    seq![
        spec_send_keys_cmd(new_pane, spec_ssh_command(host, split_command)),
        seq!["tmux"@, "select-pane"@, "-t"@, main_pane],
    ]
}

pub fn split_followup_cmds(host: &str, split_command: &str, new_pane: &str, main_pane: &str) -> (
    cmds: Vec<Vec<String>>)
    ensures
        cmds.deep_view() == spec_split_followup_cmds(host@, split_command@, new_pane@, main_pane@),
{
    let mut cmds: Vec<Vec<String>> = Vec::new();
    let wrapped = ssh_command(host, split_command);
    cmds.push(send_keys_cmd(new_pane, wrapped.as_str()));
    let mut sel: Vec<String> = Vec::new();
    push_s(&mut sel, "tmux");
    push_s(&mut sel, "select-pane");
    push_s(&mut sel, "-t");
    push_s(&mut sel, main_pane);
    proof {
        assert(sel.deep_view() =~= seq!["tmux"@, "select-pane"@, "-t"@, main_pane@]);
    }
    cmds.push(sel);
    proof {
        assert(cmds.deep_view() =~= spec_split_followup_cmds(
            host@,
            split_command@,
            new_pane@,
            main_pane@,
        ));
    }
    cmds
}

/// Law: launching a session that already exists, with a multiplexer client
/// or server around, issues no creation, no key submission and no split —
/// only the single attach (outside the multiplexer) or switch (inside).
pub proof fn lemma_existing_session_launch(kind: LaunchKind, in_tmux: bool, tmux_running: bool)
    requires
        in_tmux || tmux_running,
    ensures
        spec_setup_commands(kind, in_tmux, tmux_running, true) == Seq::<Seq<Seq<char>>>::empty(),
        !spec_wants_split(kind, in_tmux, tmux_running, true),
        spec_finish_commands(kind, in_tmux, tmux_running) == seq![
            if in_tmux {
                spec_switch_cmd(spec_kind_name(kind))
            } else {
                spec_attach_cmd(spec_kind_name(kind))
            },
        ],
{
}

/// Law: launching a remote session when no server runs and the caller is
/// outside the multiplexer plans exactly one session creation, then one key
/// submission whose payload wraps the configured command for the host in
/// the secure remote shell, then the blocking attach; a split pane follows
/// exactly when one is configured.
pub proof fn lemma_fresh_remote_launch(kind: LaunchKind, session_exists: bool)
    requires
        kind matches LaunchKind::Remote { .. },
    ensures
        spec_setup_commands(kind, false, false, session_exists) == seq![
            spec_new_detached_main_fresh_cmd(spec_kind_name(kind)),
            spec_send_keys_cmd(
                spec_target_window(spec_kind_name(kind), "main"@),
                spec_ssh_command(kind->Remote_host@, kind->Remote_command@),
            ),
        ],
        spec_finish_commands(kind, false, false) == seq![spec_attach_cmd(spec_kind_name(kind))],
        spec_wants_split(kind, false, false, session_exists) == (kind->Remote_split is Some),
{
}

} // verus!
