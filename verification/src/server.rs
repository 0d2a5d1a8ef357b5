//! Decisions of the headless server binary: where it listens, the
//! bootstrap password rule, which profile a backup takes, and the texts it
//! writes.
use vstd::prelude::*;
use vstd::string::StringExecFns;
use crate::calendar::{decimal, push_decimal};
use crate::setup::SetupMode;
use crate::slug::utf8_len;
use crate::text::{chars_of, string_from_range, trim, trim_bounds};

verus! {

/// The profile the `backup` command backs up: production when asked for,
/// else the active profile.
pub fn backup_profile(production: bool, active: SetupMode) -> (r: SetupMode)
    ensures
        r == (if production {
            SetupMode::Production
        } else {
            active
        }),
{
    if production {
        SetupMode::Production
    } else {
        active
    }
}

/// Shortest admin password the bootstrap command accepts, in bytes.
pub const MIN_PASSWORD_LEN: usize = 8;

/// A command that stops before doing its work: what it prints to stderr
/// and the status it exits with.
#[derive(Debug, Clone, PartialEq, Eq)]
pub struct CommandRefusal {
    pub message: String,
    pub exit_code: u8,
}

/// The bootstrap password: the password file's contents trimmed, accepted
/// only when that is at least 8 bytes long; a shorter one stops the
/// `bootstrap` command with `Password must be at least 8 characters` and
/// exit status 1, before anything is created.
pub fn bootstrap_password(file_contents: &str) -> (r: Result<String, CommandRefusal>)
    ensures
        utf8_len(trim(file_contents@)) >= MIN_PASSWORD_LEN ==> (r matches Ok(p) && p@ == trim(
            file_contents@,
        )),
        utf8_len(trim(file_contents@)) < MIN_PASSWORD_LEN ==> (r matches Err(e) && e.message@
            == "Password must be at least 8 characters"@ && e.exit_code == 1),
{
    let v = chars_of(file_contents);
    assert(v@.subrange(0, v@.len() as int) =~= v@);
    let (a, b) = trim_bounds(&v, 0, v.len());
    let p = string_from_range(&v, a, b);
    if p.as_str().as_bytes().len() < MIN_PASSWORD_LEN {
        Err(
            CommandRefusal {
                message: String::from_str("Password must be at least 8 characters"),
                exit_code: 1,
            },
        )
    } else {
        Ok(p)
    }
}

/// Listening mode of the headless server.
#[derive(Debug, Clone, Copy, PartialEq, Eq, Structural)]
pub enum ServeMode {
    /// All interfaces: reachable from the LAN.
    Lan,
    /// Localhost only.
    Loopback,
}

/// The address the data plane binds for a listening mode.
pub fn serve_host(mode: ServeMode) -> (r: &'static str)
    ensures
        mode == ServeMode::Lan ==> r@ == "0.0.0.0"@,
        mode == ServeMode::Loopback ==> r@ == "127.0.0.1"@,
{
    match mode {
        ServeMode::Lan => "0.0.0.0",
        ServeMode::Loopback => "127.0.0.1",
    }
}


/// Data-plane port when none is given.
pub const DEFAULT_PORT: u16 = 6565;

/// The server announces itself over mDNS only when it listens on the LAN.
pub fn announces_mdns(mode: ServeMode) -> (r: bool)
    ensures
        r == (mode == ServeMode::Lan),
{
    match mode {
        ServeMode::Lan => true,
        ServeMode::Loopback => false,
    }
}

/// What the server prints when another process holds the data-directory
/// lock, naming that process's port when the lock file records one.
pub open spec fn lock_conflict_text(existing_port: Option<u16>) -> Seq<char> {
    "Another mokumo process is running"@ + match existing_port {
        Some(p) => " (port "@ + decimal(p as nat) + ")"@,
        None => Seq::empty(),
    } + "."@
}

/// The lock-conflict message.
pub fn lock_conflict_message(existing_port: Option<u16>) -> (r: String)
    ensures
        r@ == lock_conflict_text(existing_port),
{
    let mut s = String::from_str("Another mokumo process is running");
    let ghost s1 = s@;
    if let Some(p) = existing_port {
        s.append(" (port ");
        push_decimal(&mut s, p as u64);
        s.append(")");
    }
    assert(s@ =~= s1 + match existing_port {
        Some(p) => " (port "@ + decimal(p as nat) + ")"@,
        None => Seq::empty(),
    });
    s.append(".");
    assert(s@ =~= lock_conflict_text(existing_port));
    s
}

/// Each recovery code on a line of its own.
pub open spec fn code_lines(codes: Seq<Seq<char>>) -> Seq<char>
    decreases codes.len(),
{
    if codes.len() == 0 {
        Seq::empty()
    } else {
        code_lines(codes.drop_last()) + codes.last() + seq!['\n']
    }
}

/// The recovery-codes file: the codes joined by newlines, with a final
/// newline (a lone newline when there are none).
pub open spec fn recovery_codes_text(codes: Seq<Seq<char>>) -> Seq<char> {
    if codes.len() == 0 {
        seq!['\n']
    } else {
        code_lines(codes)
    }
}

/// The contents written to the recovery-codes file.
pub fn recovery_codes_file_text(codes: &Vec<String>) -> (r: String)
    ensures
        r@ == recovery_codes_text(codes@.map_values(|c: String| c@)),
{
    let ghost views = codes@.map_values(|c: String| c@);
    let mut s = String::new();
    if codes.len() == 0 {
        s.push('\n');
        return s;
    }
    let mut i: usize = 0;
    while i < codes.len()
        invariant
            i <= codes.len(),
            views == codes@.map_values(|c: String| c@),
            s@ == code_lines(views.take(i as int)),
        decreases codes.len() - i,
    {
        s.append(codes[i].as_str());
        s.push('\n');
        proof {
            assert(views.take(i + 1).drop_last() =~= views.take(i as int));
        }
        i += 1;
    }
    assert(views.take(codes.len() as int) =~= views);
    s
}

/// URL that opens a database file read-only.
pub fn readonly_db_url(path: &str) -> (r: String)
    ensures
        r@ == "sqlite:"@ + path@ + "?mode=ro"@,
{
    let mut s = String::from_str("sqlite:");
    s.append(path);
    s.append("?mode=ro");
    s
}

/// Body of the admin socket's liveness endpoint.
pub const HEALTH_BODY: &'static str = "ok";

/// `Content-Disposition` of the diagnostics bundle download.
pub fn attachment_disposition(filename: &str) -> (r: String)
    ensures
        r@ == "attachment; filename=\""@ + filename@ + "\""@,
{
    let mut s = String::from_str("attachment; filename=\"");
    s.append(filename);
    s.append("\"");
    s
}

} // verus!
