//! Where the local herdr server listens.

use crate::util::{err, opt_text, MirrorError};
use vstd::prelude::*;

verus! {

/// The error type of `serde_json`, carried through unread.
#[verifier::external_type_specification]
#[verifier::external_body]
pub struct ExJsonError(serde_json::Error);

/// What a JSON text holds at a JSON pointer: an error for what is no JSON text,
/// and a string if there is one at that place.
pub uninterp spec fn json_text_at(bytes: Seq<u8>, pointer: Seq<char>) -> Result<
    Option<Seq<char>>,
    (),
>;

/// The text of a lookup.
pub open spec fn lookup_text<E>(found: Result<Option<String>, E>) -> Result<
    Option<Seq<char>>,
    (),
> {
    match found {
        Ok(s) => Ok(opt_text(s)),
        Err(_) => Err(()),
    }
}

/// `serde_json::from_slice` on a `Value`, then `Value::pointer` and
/// `Value::as_str`. The result is a function of the bytes and the pointer; what
/// it is for given ones is not stated.
#[verifier::external_body]
fn json_str_at(bytes: &[u8], pointer: &str) -> (found: Result<Option<String>, serde_json::Error>)
    ensures
        lookup_text(found) == json_text_at(bytes@, pointer@),
{
    let value: serde_json::Value = serde_json::from_slice(bytes)?;
    Ok(value.pointer(pointer).and_then(|v| v.as_str()).map(String::from))
}

/// Why the local socket is not known.
pub enum SocketError {
    /// the status report is no JSON text
    BadStatus(serde_json::Error),
    /// the status report names no socket
    NoSocket(MirrorError),
}

/// The socket that a variable names: one that is set and not empty.
pub fn socket_override(var: Option<String>) -> (socket: Option<String>)
    ensures
        socket == if var is Some && var->0@.len() > 0 {
            var
        } else {
            None
        },
{
    match var {
        Some(s) => if s.as_str().is_empty() {
            None
        } else {
            Some(s)
        },
        None => None,
    }
}

/// The message when no socket is named anywhere.
pub open spec fn no_socket_message() -> Seq<char> {
    "cannot resolve local herdr socket (HERDR_SOCKET_PATH unset, herdr status gave none)"@
}

/// The socket that a status report names, given what it holds at its place.
pub fn named_socket(found: Option<String>) -> (socket: Result<String, MirrorError>)
    ensures
        match socket {
            Ok(s) => found == Some(s) && s@.len() > 0,
            Err(e) => (found is None || found->0@.len() == 0) && e.message@
                == no_socket_message(),
        },
{
    match socket_override(found) {
        Some(s) => Ok(s),
        None => Err(
            err(
                "cannot resolve local herdr socket (HERDR_SOCKET_PATH unset, herdr status gave none)",
            ),
        ),
    }
}

/// The socket that the status report of the server names.
pub fn status_socket(stdout: &[u8]) -> (socket: Result<String, SocketError>)
    ensures
        match json_text_at(stdout@, "/server/socket"@) {
            Ok(found) => match socket {
                Ok(s) => found == Some(s@) && s@.len() > 0,
                Err(SocketError::NoSocket(e)) => (found is None || found->0.len() == 0)
                    && e.message@ == no_socket_message(),
                Err(SocketError::BadStatus(_)) => false,
            },
            Err(_) => socket matches Err(SocketError::BadStatus(_)),
        },
{
    match json_str_at(stdout, "/server/socket") {
        Ok(found) => match named_socket(found) {
            Ok(s) => Ok(s),
            Err(e) => Err(SocketError::NoSocket(e)),
        },
        Err(e) => Err(SocketError::BadStatus(e)),
    }
}

} // verus!
