//! The resolved environment of the program.

use crate::paths::{join_path, joined};
use crate::socket::{json_text_at, no_socket_message, socket_override, status_socket, SocketError};
use crate::text::texts;
use crate::util::{
    config_candidates, distinct_paths, home_dir, home_path, named_candidates, opt_text,
};
use vstd::prelude::*;

verus! {

/// The resolved environment. Config is searched across candidate directories,
/// so that shell and plugin-action invocations agree; state is always at one
/// path, so that both share one id map and one pidfile.
#[derive(Debug, Clone)]
pub struct Env {
    pub config_search: Vec<String>,
    pub state_dir: String,
    pub local_socket: String,
}

/// Where the state is kept.
pub open spec fn state_home(home: Seq<char>) -> Seq<char> {
    joined(joined(joined(home, ".local"@), "state"@), "herdr-mirror"@)
}

pub fn default_state_dir(home: &str) -> (dir: String)
    ensures
        dir@ == state_home(home@),
{
    let local = join_path(home, ".local");
    let state = join_path(local.as_str(), "state");
    join_path(state.as_str(), "herdr-mirror")
}

/// Does a variable name a socket?
pub open spec fn names_socket(var: Option<String>) -> bool {
    var is Some && var->0@.len() > 0
}

impl Env {
    /// The environment, given the variables that name the home directory, the
    /// plugin directory and the socket, and the status report of the server,
    /// which is read only where no variable names the socket.
    pub fn resolve(
        home_var: Option<String>,
        plugin_dir: Option<String>,
        socket: Option<String>,
        status: &[u8],
    ) -> (r: Result<Env, SocketError>)
        ensures
            match r {
                Ok(env) => {
                    &&& texts(env.config_search@) == distinct_paths(
                        named_candidates(opt_text(plugin_dir), home_path(home_var)),
                    )
                    &&& env.state_dir@ == state_home(home_path(home_var))
                    &&& if names_socket(socket) {
                        Some(env.local_socket) == socket
                    } else {
                        json_text_at(status@, "/server/socket"@) == Ok::<_, ()>(
                            Some(env.local_socket@),
                        ) && env.local_socket@.len() > 0
                    }
                },
                Err(e) => !names_socket(socket) && match json_text_at(
                    status@,
                    "/server/socket"@,
                ) {
                    Ok(found) => (found is None || found->0.len() == 0) && (e matches SocketError::NoSocket(
                        why,
                    ) && why.message@ == no_socket_message()),
                    Err(_) => e is BadStatus,
                },
            },
    {
        let home = home_dir(home_var);
        let local_socket = match socket_override(socket) {
            Some(s) => s,
            None => match status_socket(status) {
                Ok(s) => s,
                Err(e) => return Err(e),
            },
        };
        Ok(
            Env {
                config_search: config_candidates(plugin_dir, home.as_str()),
                state_dir: default_state_dir(home.as_str()),
                local_socket,
            },
        )
    }
}

} // verus!
