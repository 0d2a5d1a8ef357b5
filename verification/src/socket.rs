//! Preparing the admin Unix socket path before binding it.
use vstd::prelude::*;
use vstd::string::StringExecFns;

verus! {

/// File-mode mask in force while the admin socket is bound, so that it is
/// created with mode 0600 (octal 177).
pub const SOCKET_UMASK: u32 = 127;

/// Seconds that in-flight admin connections may take to finish once
/// shutdown is requested, before they are abandoned.
pub const SHUTDOWN_DRAIN_SECS: u64 = 5;

/// What to do with the socket path before binding.
#[derive(Debug, Clone, Copy, PartialEq, Eq, Structural)]
pub enum StalePathAction {
    /// Nothing is there: bind.
    Bind,
    /// A socket left by an unclean shutdown: remove it, then bind.
    RemoveThenBind,
    /// Something that is not a socket: refuse, so no file is lost.
    Refuse,
}

/// The action for a socket path, from whether it exists and whether what
/// is there (not following symlinks) is a Unix socket.
pub fn stale_path_action(exists: bool, is_socket: bool) -> (r: StalePathAction)
    ensures
        !exists ==> r == StalePathAction::Bind,
        exists && is_socket ==> r == StalePathAction::RemoveThenBind,
        exists && !is_socket ==> r == StalePathAction::Refuse,
{
    if !exists {
        StalePathAction::Bind
    } else if is_socket {
        StalePathAction::RemoveThenBind
    } else {
        StalePathAction::Refuse
    }
}

/// The error message when the socket path holds something else.
pub fn not_a_socket_message(path: &str) -> (r: String)
    ensures
        r@ == path@ + " exists but is not a Unix socket — refusing to overwrite"@,
{
    let mut s = String::from_str(path);
    s.append(" exists but is not a Unix socket — refusing to overwrite");
    s
}

/// Removing the socket at shutdown warns on any failure but a missing
/// file.
pub fn cleanup_failure_warns(not_found: bool) -> (r: bool)
    ensures
        r == !not_found,
{
    !not_found
}

} // verus!
