//! Human-readable rendering of the diagnostics report, as the `diagnose`
//! commands print it: the daemon's summary (fetched over the admin socket)
//! and the shorter summary built from direct database access.
use vstd::prelude::*;
use vstd::string::StringExecFns;
use crate::calendar::{decimal, push_decimal};
use crate::setup::SetupMode;

verus! {

/// Application identity.
pub struct AppInfo {
    pub name: String,
    pub version: String,
    pub build_commit: Option<String>,
}

/// Runtime state of the server.
pub struct RuntimeInfo {
    pub uptime_seconds: u64,
    pub active_profile: SetupMode,
    pub setup_complete: bool,
    pub is_first_launch: bool,
    pub mdns_active: bool,
    pub lan_url: Option<String>,
}

/// Health of one profile database.
pub struct ProfileDbInfo {
    pub schema_version: u64,
    pub file_size_bytes: Option<u64>,
    pub wal_mode: bool,
    pub wal_size_bytes: u64,
    pub vacuum_needed: bool,
}

/// Operating system.
pub struct OsInfo {
    pub family: String,
    pub arch: String,
}

/// Host resources.
pub struct SystemInfo {
    pub hostname: Option<String>,
    pub used_memory_bytes: u64,
    pub total_memory_bytes: u64,
    pub disk_total_bytes: Option<u64>,
    pub disk_free_bytes: Option<u64>,
    pub disk_warning: bool,
}

/// The diagnostics report.
pub struct DiagnosticsReport {
    pub app: AppInfo,
    pub runtime: RuntimeInfo,
    pub production_db: ProfileDbInfo,
    pub demo_db: ProfileDbInfo,
    pub os: OsInfo,
    pub system: SystemInfo,
}

/// Bytes in a mebibyte, the unit of the memory and disk lines.
pub const MIB: u64 = 1048576;

/// Bytes in a kibibyte, the unit of the file and WAL sizes.
pub const KIB: u64 = 1024;

/// `text` as one output line.
pub open spec fn line(text: Seq<char>) -> Seq<char> {
    text.push('\n')
}

/// `text` when `cond` holds, else nothing.
pub open spec fn when(cond: bool, text: Seq<char>) -> Seq<char> {
    if cond {
        text
    } else {
        Seq::empty()
    }
}

/// The `Debug` name of a profile.
pub open spec fn profile_debug_name(m: SetupMode) -> Seq<char> {
    match m {
        SetupMode::Demo => "Demo"@,
        SetupMode::Production => "Production"@,
    }
}

/// `true` or `false`.
pub open spec fn bool_text(b: bool) -> Seq<char> {
    if b {
        "true"@
    } else {
        "false"@
    }
}

/// The title line: `<name> v<version> (<commit>)`.
pub open spec fn title_text(app: AppInfo) -> Seq<char> {
    line(
        app.name@ + " v"@ + app.version@ + " ("@ + match app.build_commit {
            Some(c) => c@,
            None => "unknown commit"@,
        } + ")"@,
    )
}

/// `Enabled`/`disabled` state of the write-ahead log.
pub open spec fn wal_state(db: ProfileDbInfo) -> Seq<char> {
    if db.wal_mode {
        "enabled"@
    } else {
        "disabled"@
    }
}

/// The pending WAL size in KB, or `clean` when nothing is pending.
pub open spec fn wal_pending(db: ProfileDbInfo) -> Seq<char> {
    if db.wal_size_bytes > 0 {
        decimal((db.wal_size_bytes / KIB) as nat) + " KB pending"@
    } else {
        "clean"@
    }
}

/// The `schema` line of a profile database.
pub open spec fn schema_line(db: ProfileDbInfo) -> Seq<char> {
    line("  schema:        v"@ + decimal(db.schema_version as nat))
}

/// The `size` line of a profile database, when its file size is known.
pub open spec fn size_text(db: ProfileDbInfo) -> Seq<char> {
    match db.file_size_bytes {
        Some(size) => line("  size:          "@ + decimal((size / KIB) as nat) + " KB"@),
        None => Seq::empty(),
    }
}

/// The `WAL` line of a profile database; `detailed` adds the pending size.
pub open spec fn wal_line(db: ProfileDbInfo, detailed: bool) -> Seq<char> {
    line("  WAL:           "@ + wal_state(db) + when(detailed, " ("@ + wal_pending(db) + ")"@))
}

/// The `vacuum` line, when the database needs one.
pub open spec fn vacuum_text(db: ProfileDbInfo) -> Seq<char> {
    when(db.vacuum_needed, line("  vacuum:        needed"@))
}

/// The block of one profile database; `detailed` adds the pending WAL
/// size to the WAL line.
pub open spec fn profile_db_text(db: ProfileDbInfo, detailed: bool) -> Seq<char> {
    schema_line(db) + size_text(db) + wal_line(db, detailed) + vacuum_text(db) + line(
        Seq::empty(),
    )
}

/// The `uptime` line, in the detailed variant.
pub open spec fn uptime_text(rt: RuntimeInfo, detailed: bool) -> Seq<char> {
    when(detailed, line("  uptime:        "@ + decimal(rt.uptime_seconds as nat) + "s"@))
}

/// The `profile` line.
pub open spec fn profile_line(rt: RuntimeInfo) -> Seq<char> {
    line("  profile:       "@ + profile_debug_name(rt.active_profile))
}

/// The `setup` line.
pub open spec fn setup_line(rt: RuntimeInfo) -> Seq<char> {
    line(
        "  setup:         "@ + if rt.setup_complete {
            "complete"@
        } else {
            "pending"@
        },
    )
}

/// The `first launch` line.
pub open spec fn first_launch_line(rt: RuntimeInfo) -> Seq<char> {
    line("  first launch:  "@ + bool_text(rt.is_first_launch))
}

/// The `mDNS` line.
pub open spec fn mdns_line(rt: RuntimeInfo) -> Seq<char> {
    line(
        "  mDNS:          "@ + if rt.mdns_active {
            "active"@
        } else {
            "inactive"@
        },
    )
}

/// The `LAN URL` line, when there is one.
pub open spec fn lan_url_text(rt: RuntimeInfo) -> Seq<char> {
    match rt.lan_url {
        Some(u) => line("  LAN URL:       "@ + u@),
        None => Seq::empty(),
    }
}

/// The runtime block; `detailed` adds uptime, first launch, mDNS and LAN
/// URL.
pub open spec fn runtime_text(rt: RuntimeInfo, detailed: bool) -> Seq<char> {
    line("Runtime"@) + uptime_text(rt, detailed) + profile_line(rt) + setup_line(rt) + when(
        detailed,
        first_launch_line(rt) + mdns_line(rt) + lan_url_text(rt),
    ) + line(Seq::empty())
}

/// The `hostname` line, when the host name is known.
pub open spec fn hostname_text(sys: SystemInfo) -> Seq<char> {
    match sys.hostname {
        Some(h) => line("  hostname:      "@ + h@),
        None => Seq::empty(),
    }
}

/// The `OS` line.
pub open spec fn os_line(os: OsInfo) -> Seq<char> {
    line("  OS:            "@ + os.family@ + " ("@ + os.arch@ + ")"@)
}

/// The `memory` line, in whole MB.
pub open spec fn memory_line(sys: SystemInfo) -> Seq<char> {
    line(
        "  memory:        "@ + decimal((sys.used_memory_bytes / MIB) as nat) + " / "@ + decimal(
            (sys.total_memory_bytes / MIB) as nat,
        ) + " MB"@,
    )
}

/// The `disk` line, when both sizes are known; `low_marker` follows the
/// free space when the disk is low.
pub open spec fn disk_text(sys: SystemInfo, low_marker: Seq<char>) -> Seq<char> {
    match (sys.disk_total_bytes, sys.disk_free_bytes) {
        (Some(total), Some(free)) => line(
            "  disk:          "@ + decimal((free / MIB) as nat) + " / "@ + decimal(
                (total / MIB) as nat,
            ) + " MB free"@ + when(sys.disk_warning, low_marker),
        ),
        _ => Seq::empty(),
    }
}

/// The system block.
pub open spec fn system_text(os: OsInfo, sys: SystemInfo, low_marker: Seq<char>) -> Seq<char> {
    line("System"@) + hostname_text(sys) + os_line(os) + memory_line(sys) + disk_text(
        sys,
        low_marker,
    )
}

/// The marker after a low free disk space: ` ⚠ LOW` in the daemon's
/// summary, ` LOW` in the local one.
pub open spec fn low_disk_marker(detailed: bool) -> Seq<char> {
    if detailed {
        " ⚠ LOW"@
    } else {
        " LOW"@
    }
}

/// The whole summary; `detailed` selects the daemon's variant.
pub open spec fn report_text(r: DiagnosticsReport, detailed: bool) -> Seq<char> {
    title_text(r.app) + line(Seq::empty()) + runtime_text(r.runtime, detailed) + line(
        "Database (production)"@,
    ) + profile_db_text(r.production_db, detailed) + line("Database (demo)"@) + profile_db_text(
        r.demo_db,
        detailed,
    ) + system_text(r.os, r.system, low_disk_marker(detailed))
}

proof fn lemma_extend(s0: Seq<char>, acc: Seq<char>, p: Seq<char>)
    ensures
        (s0 + acc) + p == s0 + (acc + p),
{
    assert((s0 + acc) + p =~= s0 + (acc + p));
}

fn push_line(s: &mut String, text: &str)
    ensures
        final(s)@ == old(s)@ + line(text@),
{
    s.append(text);
    s.push('\n');
    assert(s@ =~= old(s)@ + line(text@));
}

fn push_empty_line(s: &mut String)
    ensures
        final(s)@ == old(s)@ + line(Seq::empty()),
{
    s.push('\n');
    assert(s@ =~= old(s)@ + line(Seq::empty()));
}

fn push_title(s: &mut String, app: &AppInfo)
    ensures
        final(s)@ == old(s)@ + title_text(*app),
{
    s.append(app.name.as_str());
    s.append(" v");
    s.append(app.version.as_str());
    s.append(" (");
    match &app.build_commit {
        Some(c) => s.append(c.as_str()),
        None => s.append("unknown commit"),
    }
    s.append(")");
    s.push('\n');
    assert(s@ =~= old(s)@ + title_text(*app));
}

fn push_schema_line(s: &mut String, db: &ProfileDbInfo)
    ensures
        final(s)@ == old(s)@ + schema_line(*db),
{
    s.append("  schema:        v");
    push_decimal(s, db.schema_version);
    s.push('\n');
    assert(s@ =~= old(s)@ + schema_line(*db));
}

fn push_size_text(s: &mut String, db: &ProfileDbInfo)
    ensures
        final(s)@ == old(s)@ + size_text(*db),
{
    if let Some(size) = db.file_size_bytes {
        s.append("  size:          ");
        push_decimal(s, size / KIB);
        s.append(" KB");
        s.push('\n');
    }
    assert(s@ =~= old(s)@ + size_text(*db));
}

fn push_wal_line(s: &mut String, db: &ProfileDbInfo, detailed: bool)
    ensures
        final(s)@ == old(s)@ + wal_line(*db, detailed),
{
    s.append("  WAL:           ");
    if db.wal_mode {
        s.append("enabled");
    } else {
        s.append("disabled");
    }
    let ghost s1 = s@;
    assert(s1 =~= old(s)@ + "  WAL:           "@ + wal_state(*db));
    if detailed {
        s.append(" (");
        let ghost s2 = s@;
        if db.wal_size_bytes > 0 {
            push_decimal(s, db.wal_size_bytes / KIB);
            s.append(" KB pending");
        } else {
            s.append("clean");
        }
        assert(s@ =~= s2 + wal_pending(*db));
        s.append(")");
    }
    assert(s@ =~= s1 + when(detailed, " ("@ + wal_pending(*db) + ")"@));
    s.push('\n');
    assert(s@ =~= old(s)@ + wal_line(*db, detailed));
}

fn push_vacuum_text(s: &mut String, db: &ProfileDbInfo)
    ensures
        final(s)@ == old(s)@ + vacuum_text(*db),
{
    if db.vacuum_needed {
        push_line(s, "  vacuum:        needed");
    }
    assert(s@ =~= old(s)@ + vacuum_text(*db));
}

fn push_profile_db(s: &mut String, db: &ProfileDbInfo, detailed: bool)
    ensures
        final(s)@ == old(s)@ + profile_db_text(*db, detailed),
{
    let ghost s0 = s@;
    push_schema_line(s, db);
    push_size_text(s, db);
    proof {
        lemma_extend(s0, schema_line(*db), size_text(*db));
    }
    let ghost acc = schema_line(*db) + size_text(*db);
    push_wal_line(s, db, detailed);
    proof {
        lemma_extend(s0, acc, wal_line(*db, detailed));
    }
    let ghost acc = acc + wal_line(*db, detailed);
    push_vacuum_text(s, db);
    proof {
        lemma_extend(s0, acc, vacuum_text(*db));
    }
    let ghost acc = acc + vacuum_text(*db);
    push_empty_line(s);
    proof {
        lemma_extend(s0, acc, line(Seq::empty()));
    }
}

fn push_uptime_text(s: &mut String, rt: &RuntimeInfo, detailed: bool)
    ensures
        final(s)@ == old(s)@ + uptime_text(*rt, detailed),
{
    if detailed {
        s.append("  uptime:        ");
        push_decimal(s, rt.uptime_seconds);
        s.append("s");
        s.push('\n');
    }
    assert(s@ =~= old(s)@ + uptime_text(*rt, detailed));
}

fn push_profile_line(s: &mut String, rt: &RuntimeInfo)
    ensures
        final(s)@ == old(s)@ + profile_line(*rt),
{
    s.append("  profile:       ");
    match rt.active_profile {
        SetupMode::Demo => s.append("Demo"),
        SetupMode::Production => s.append("Production"),
    }
    s.push('\n');
    assert(s@ =~= old(s)@ + profile_line(*rt));
}

fn push_setup_line(s: &mut String, rt: &RuntimeInfo)
    ensures
        final(s)@ == old(s)@ + setup_line(*rt),
{
    s.append("  setup:         ");
    if rt.setup_complete {
        s.append("complete");
    } else {
        s.append("pending");
    }
    s.push('\n');
    assert(s@ =~= old(s)@ + setup_line(*rt));
}

fn push_daemon_runtime_lines(s: &mut String, rt: &RuntimeInfo)
    ensures
        final(s)@ == old(s)@ + (first_launch_line(*rt) + mdns_line(*rt) + lan_url_text(*rt)),
{
    s.append("  first launch:  ");
    if rt.is_first_launch {
        s.append("true");
    } else {
        s.append("false");
    }
    s.push('\n');
    let ghost s1 = s@;
    assert(s1 =~= old(s)@ + first_launch_line(*rt));
    s.append("  mDNS:          ");
    if rt.mdns_active {
        s.append("active");
    } else {
        s.append("inactive");
    }
    s.push('\n');
    let ghost s2 = s@;
    assert(s2 =~= s1 + mdns_line(*rt));
    if let Some(u) = &rt.lan_url {
        s.append("  LAN URL:       ");
        s.append(u.as_str());
        s.push('\n');
    }
    assert(s@ =~= s2 + lan_url_text(*rt));
    assert(s@ =~= old(s)@ + (first_launch_line(*rt) + mdns_line(*rt) + lan_url_text(*rt)));
}

fn push_runtime(s: &mut String, rt: &RuntimeInfo, detailed: bool)
    ensures
        final(s)@ == old(s)@ + runtime_text(*rt, detailed),
{
    let ghost s0 = s@;
    push_line(s, "Runtime");
    push_uptime_text(s, rt, detailed);
    proof {
        lemma_extend(s0, line("Runtime"@), uptime_text(*rt, detailed));
    }
    let ghost acc = line("Runtime"@) + uptime_text(*rt, detailed);
    push_profile_line(s, rt);
    proof {
        lemma_extend(s0, acc, profile_line(*rt));
    }
    let ghost acc = acc + profile_line(*rt);
    push_setup_line(s, rt);
    proof {
        lemma_extend(s0, acc, setup_line(*rt));
    }
    let ghost acc = acc + setup_line(*rt);
    let ghost extra = when(detailed, first_launch_line(*rt) + mdns_line(*rt) + lan_url_text(*rt));
    if detailed {
        push_daemon_runtime_lines(s, rt);
    }
    assert(s@ =~= (s0 + acc) + extra);
    proof {
        lemma_extend(s0, acc, extra);
    }
    let ghost acc = acc + extra;
    push_empty_line(s);
    proof {
        lemma_extend(s0, acc, line(Seq::empty()));
    }
}

fn push_hostname_text(s: &mut String, sys: &SystemInfo)
    ensures
        final(s)@ == old(s)@ + hostname_text(*sys),
{
    if let Some(h) = &sys.hostname {
        s.append("  hostname:      ");
        s.append(h.as_str());
        s.push('\n');
    }
    assert(s@ =~= old(s)@ + hostname_text(*sys));
}

fn push_os_line(s: &mut String, os: &OsInfo)
    ensures
        final(s)@ == old(s)@ + os_line(*os),
{
    s.append("  OS:            ");
    s.append(os.family.as_str());
    s.append(" (");
    s.append(os.arch.as_str());
    s.append(")");
    s.push('\n');
    assert(s@ =~= old(s)@ + os_line(*os));
}

fn push_memory_line(s: &mut String, sys: &SystemInfo)
    ensures
        final(s)@ == old(s)@ + memory_line(*sys),
{
    s.append("  memory:        ");
    push_decimal(s, sys.used_memory_bytes / MIB);
    s.append(" / ");
    push_decimal(s, sys.total_memory_bytes / MIB);
    s.append(" MB");
    s.push('\n');
    assert(s@ =~= old(s)@ + memory_line(*sys));
}

fn push_disk_text(s: &mut String, sys: &SystemInfo, low_marker: &str)
    ensures
        final(s)@ == old(s)@ + disk_text(*sys, low_marker@),
{
    match (sys.disk_total_bytes, sys.disk_free_bytes) {
        (Some(total), Some(free)) => {
            s.append("  disk:          ");
            push_decimal(s, free / MIB);
            s.append(" / ");
            push_decimal(s, total / MIB);
            s.append(" MB free");
            if sys.disk_warning {
                s.append(low_marker);
            }
            s.push('\n');
        },
        _ => {},
    }
    assert(s@ =~= old(s)@ + disk_text(*sys, low_marker@));
}

fn push_system(s: &mut String, os: &OsInfo, sys: &SystemInfo, low_marker: &str)
    ensures
        final(s)@ == old(s)@ + system_text(*os, *sys, low_marker@),
{
    let ghost s0 = s@;
    push_line(s, "System");
    push_hostname_text(s, sys);
    proof {
        lemma_extend(s0, line("System"@), hostname_text(*sys));
    }
    let ghost acc = line("System"@) + hostname_text(*sys);
    push_os_line(s, os);
    proof {
        lemma_extend(s0, acc, os_line(*os));
    }
    let ghost acc = acc + os_line(*os);
    push_memory_line(s, sys);
    proof {
        lemma_extend(s0, acc, memory_line(*sys));
    }
    let ghost acc = acc + memory_line(*sys);
    push_disk_text(s, sys, low_marker);
    proof {
        lemma_extend(s0, acc, disk_text(*sys, low_marker@));
    }
}

fn push_report(s: &mut String, r: &DiagnosticsReport, detailed: bool)
    ensures
        final(s)@ == old(s)@ + report_text(*r, detailed),
{
    let ghost s0 = s@;
    push_title(s, &r.app);
    push_empty_line(s);
    proof {
        lemma_extend(s0, title_text(r.app), line(Seq::empty()));
    }
    let ghost acc = title_text(r.app) + line(Seq::empty());
    push_runtime(s, &r.runtime, detailed);
    proof {
        lemma_extend(s0, acc, runtime_text(r.runtime, detailed));
    }
    let ghost acc = acc + runtime_text(r.runtime, detailed);
    push_line(s, "Database (production)");
    proof {
        lemma_extend(s0, acc, line("Database (production)"@));
    }
    let ghost acc = acc + line("Database (production)"@);
    push_profile_db(s, &r.production_db, detailed);
    proof {
        lemma_extend(s0, acc, profile_db_text(r.production_db, detailed));
    }
    let ghost acc = acc + profile_db_text(r.production_db, detailed);
    push_line(s, "Database (demo)");
    proof {
        lemma_extend(s0, acc, line("Database (demo)"@));
    }
    let ghost acc = acc + line("Database (demo)"@);
    push_profile_db(s, &r.demo_db, detailed);
    proof {
        lemma_extend(s0, acc, profile_db_text(r.demo_db, detailed));
    }
    let ghost acc = acc + profile_db_text(r.demo_db, detailed);
    let marker = if detailed {
        " ⚠ LOW"
    } else {
        " LOW"
    };
    assert(marker@ == low_disk_marker(detailed));
    push_system(s, &r.os, &r.system, marker);
    proof {
        lemma_extend(s0, acc, system_text(r.os, r.system, low_disk_marker(detailed)));
    }
}

/// The summary `diagnose` prints for a report fetched from the running
/// daemon: with uptime, first-launch, mDNS and LAN-URL lines, the pending
/// WAL size of each database, and ` ⚠ LOW` after a low free disk space.
pub fn daemon_diagnostics_text(r: &DiagnosticsReport) -> (t: String)
    ensures
        t@ == report_text(*r, true),
{
    let mut s = String::new();
    push_report(&mut s, r, true);
    assert(s@ =~= report_text(*r, true));
    s
}

/// The shorter summary `diagnose` prints when it reads the databases
/// directly: without the daemon-only runtime lines and WAL sizes, and with
/// ` LOW` after a low free disk space.
pub fn local_diagnostics_text(r: &DiagnosticsReport) -> (t: String)
    ensures
        t@ == report_text(*r, false),
{
    let mut s = String::new();
    push_report(&mut s, r, false);
    assert(s@ =~= report_text(*r, false));
    s
}

/// Whether `t` ends with `suffix`.
pub open spec fn ends_with(t: Seq<char>, suffix: Seq<char>) -> bool {
    suffix.len() <= t.len() && t.subrange(t.len() - suffix.len(), t.len() as int) == suffix
}

proof fn lemma_ends_with_concat(a: Seq<char>, b: Seq<char>, suffix: Seq<char>)
    requires
        ends_with(b, suffix),
    ensures
        ends_with(a + b, suffix),
{
    let t = a + b;
    assert forall|i: int| 0 <= i < suffix.len() implies #[trigger] t.subrange(
        t.len() - suffix.len(),
        t.len() as int,
    )[i] == suffix[i] by {
        assert(t[t.len() - suffix.len() + i] == b[b.len() - suffix.len() + i]);
        assert(b.subrange(b.len() - suffix.len(), b.len() as int)[i] == suffix[i]);
    }
    assert(t.subrange(t.len() - suffix.len(), t.len() as int) =~= suffix);
}

/// The low-space marker shows exactly when the disk is flagged low. With
/// both disk sizes known, the summary ends with its disk line: on a disk
/// not flagged low it ends in ` MB free` and the newline, nothing between;
/// on a flagged one in ` MB free`, the marker (` ⚠ LOW` for the daemon's
/// summary, ` LOW` for the local one) and the newline.
pub proof fn lemma_low_disk_marker_only_when_flagged(r: DiagnosticsReport, detailed: bool)
    requires
        r.system.disk_total_bytes is Some,
        r.system.disk_free_bytes is Some,
    ensures
        !r.system.disk_warning ==> ends_with(report_text(r, detailed), " MB free"@.push('\n')),
        r.system.disk_warning && detailed ==> ends_with(
            report_text(r, detailed),
            (" MB free"@ + " ⚠ LOW"@).push('\n'),
        ),
        r.system.disk_warning && !detailed ==> ends_with(
            report_text(r, detailed),
            (" MB free"@ + " LOW"@).push('\n'),
        ),
{
    let sys = r.system;
    let total = sys.disk_total_bytes->0;
    let free = sys.disk_free_bytes->0;
    let marker = low_disk_marker(detailed);
    let z = "  disk:          "@ + decimal((free / MIB) as nat) + " / "@ + decimal((total / MIB) as nat);
    let tail = (" MB free"@ + when(sys.disk_warning, marker)).push('\n');
    assert(disk_text(sys, marker) =~= z + tail);
    assert(ends_with(tail, tail)) by {
        assert(tail.subrange(0, tail.len() as int) =~= tail);
    }
    lemma_ends_with_concat(z, tail, tail);
    let sys_head = line("System"@) + hostname_text(sys) + os_line(r.os) + memory_line(sys);
    lemma_ends_with_concat(sys_head, disk_text(sys, marker), tail);
    let head = title_text(r.app) + line(Seq::empty()) + runtime_text(r.runtime, detailed) + line(
        "Database (production)"@,
    ) + profile_db_text(r.production_db, detailed) + line("Database (demo)"@) + profile_db_text(
        r.demo_db,
        detailed,
    );
    lemma_ends_with_concat(head, system_text(r.os, sys, marker), tail);
    if !sys.disk_warning {
        assert(tail =~= " MB free"@.push('\n'));
    } else if detailed {
        assert(tail =~= (" MB free"@ + " ⚠ LOW"@).push('\n'));
    } else {
        assert(tail =~= (" MB free"@ + " LOW"@).push('\n'));
    }
}

/// With both disk sizes known, the daemon's and the local summary have the
/// same disk line exactly when the disk is not flagged low (their markers
/// differ).
pub proof fn lemma_disk_line_marker_by_variant(r: DiagnosticsReport)
    requires
        r.system.disk_total_bytes is Some,
        r.system.disk_free_bytes is Some,
    ensures
        disk_text(r.system, low_disk_marker(true)) == disk_text(r.system, low_disk_marker(false))
            <==> !r.system.disk_warning,
{
    let sys = r.system;
    let total = sys.disk_total_bytes->0;
    let free = sys.disk_free_bytes->0;
    let z = "  disk:          "@ + decimal((free / MIB) as nat) + " / "@ + decimal((total / MIB) as nat)
        + " MB free"@;
    if sys.disk_warning {
        reveal_strlit(" LOW");
        reveal_strlit(" ⚠ LOW");
        let a = disk_text(sys, low_disk_marker(true));
        let b = disk_text(sys, low_disk_marker(false));
        assert(a =~= (z + " ⚠ LOW"@).push('\n'));
        assert(b =~= (z + " LOW"@).push('\n'));
        assert(a.len() != b.len());
    }
}

} // verus!
