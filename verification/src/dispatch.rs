//! The session dispatcher: classifies a selection — empty, an existing
//! directory, or a configured session name — and produces either the launch
//! to perform or the error to report.

use vstd::prelude::*;
use vstd::string::*;
use crate::config::{clone_split_opt, Config, Session, SplitConfig};
use crate::paths::{session_name_for_dir, spec_session_name_for_dir};
use crate::strutil::str_eq;

verus! {

/// What kind of session to launch, with everything the launcher needs.
pub enum LaunchKind {
    /// A multiplexer session rooted in a local directory.
    LocalDir { session_name: String, directory: String },
    /// A configured session running a local command.
    LocalConfig { session_name: String, command: String },
    /// A configured session running a command on a remote host.
    Remote { session_name: String, host: String, command: String, split: Option<SplitConfig> },
}

/// What to do for a selection: nothing, or launch a session.
pub enum Action {
    Nothing,
    Launch(LaunchKind),
}

/// Why a selection cannot be dispatched.
pub enum DispatchError {
    /// The selection is neither a directory nor a configured session name.
    UnknownSession,
    /// A remote session has no host configured.
    MissingHost { session: String },
    /// The session's protocol is neither local nor remote.
    UnsupportedProtocol { session: String, protocol: String },
}

/// What dispatch returns once the selection was found among the configured
/// sessions: by protocol, the launch or the error that belongs to the
/// session record.
pub open spec fn spec_dispatch_found(r: Result<Action, DispatchError>, s: Session) -> bool {
    if s.protocol@ == "local"@ {
        r matches Ok(Action::Launch(LaunchKind::LocalConfig { session_name, command }))
            && session_name == s.name && command == s.command
    } else if s.protocol@ == "remote"@ {
        match s.host {
            Some(h) => r matches Ok(
                Action::Launch(LaunchKind::Remote { session_name, host, command, split }),
            ) && session_name == s.name && host == h && command == s.command && split == s.split,
            None => r matches Err(DispatchError::MissingHost { session }) && session == s.name,
        }
    } else {
        r matches Err(DispatchError::UnsupportedProtocol { session, protocol }) && session == s.name
            && protocol == s.protocol
    }
}

/// Classifies the selection and routes it: an empty selection does nothing;
/// an existing directory launches a session named after its final path
/// component (periods replaced by underscores); otherwise the selection is
/// looked up by name among the configured sessions. `selection_is_dir` says
/// whether the selection names an existing filesystem directory.
pub fn dispatch(selection: &str, selection_is_dir: bool, config: &Config) -> (r: Result<
    Action,
    DispatchError,
>)
    ensures
        selection@.len() == 0 ==> r == Ok::<Action, DispatchError>(Action::Nothing),
        selection@.len() > 0 && selection_is_dir ==> (r matches Ok(
            Action::Launch(LaunchKind::LocalDir { session_name, directory }),
        ) && session_name@ == spec_session_name_for_dir(selection@) && directory@ == selection@),
        selection@.len() > 0 && !selection_is_dir && crate::config::spec_no_session(
            config.sessions@,
            selection@,
        ) ==> r == Err::<Action, DispatchError>(DispatchError::UnknownSession),
        forall|i: int|
            selection@.len() > 0 && !selection_is_dir && #[trigger] crate::config::spec_first_session(
                config.sessions@,
                selection@,
                i,
            ) ==> spec_dispatch_found(r, config.sessions@[i]),
{
    if selection.is_empty() {
        return Ok(Action::Nothing);
    }
    if selection_is_dir {
        let name = session_name_for_dir(selection);
        return Ok(
            Action::Launch(
                LaunchKind::LocalDir { session_name: name, directory: selection.to_owned() },
            ),
        );
    }
    match crate::config::find_session(&config.sessions, selection) {
        None => Err(DispatchError::UnknownSession),
        Some(i) => {
            proof {
                assert forall|i2: int|
                    crate::config::spec_first_session(config.sessions@, selection@, i2) implies i2
                    == i as int by {
                    if i2 < i as int {
                        assert(config.sessions@[i2].name@ != selection@);
                    } else if (i as int) < i2 {
                        assert(config.sessions@[i as int].name@ != selection@);
                    }
                }
            }
            let s = &config.sessions[i];
            if str_eq(s.protocol.as_str(), "local") {
                Ok(
                    Action::Launch(
                        LaunchKind::LocalConfig {
                            session_name: s.name.clone(),
                            command: s.command.clone(),
                        },
                    ),
                )
            } else if str_eq(s.protocol.as_str(), "remote") {
                match &s.host {
                    Some(h) => Ok(
                        Action::Launch(
                            LaunchKind::Remote {
                                session_name: s.name.clone(),
                                host: h.clone(),
                                command: s.command.clone(),
                                split: clone_split_opt(&s.split),
                            },
                        ),
                    ),
                    None => Err(DispatchError::MissingHost { session: s.name.clone() }),
                }
            } else {
                Err(
                    DispatchError::UnsupportedProtocol {
                        session: s.name.clone(),
                        protocol: s.protocol.clone(),
                    },
                )
            }
        },
    }
}

} // verus!
