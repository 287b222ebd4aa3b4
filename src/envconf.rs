//! The environment variables the hook needs, the text of each POSIX
//! channel that carries them, and how a channel's text or a set of values
//! is judged.
use vstd::prelude::*;
use crate::text::{chars_of, occurs_at, occurs_at_exec};

verus! {

/// The profiler identifier the runtime looks for.
pub const PROFILER_GUID: &'static str = "{D1A6F5A0-1234-4567-89AB-CDEF01234567}";

pub open spec fn guid() -> Seq<char> {
    PROFILER_GUID@
}

/// `body` followed by a line break.
pub open spec fn line(body: Seq<char>) -> Seq<char> {
    body.push('\n')
}

/// The lines of `ls`, each followed by a line break.
pub open spec fn terminated(ls: Seq<Seq<char>>) -> Seq<char>
    decreases ls.len(),
{
    if ls.len() == 0 {
        Seq::empty()
    } else {
        terminated(ls.drop_last()) + line(ls.last())
    }
}

/// The shell lines that export every variable, for a profiler at `path`.
pub open spec fn export_lines(path: Seq<char>) -> Seq<Seq<char>> {
    seq![
        "# .NET 10+ (DOTNET_ prefix)"@,
        "export DOTNET_EnableDiagnostics=1"@,
        "export DOTNET_ENABLE_PROFILING=1"@,
        "export DOTNET_PROFILER='"@ + guid() + "'"@,
        "export DOTNET_PROFILER_PATH='"@ + path + "'"@,
        "export DOTNET_ReadyToRun=0"@,
        "# Legacy (.NET 8/9)"@,
        "export CORECLR_ENABLE_PROFILING=1"@,
        "export CORECLR_PROFILER='"@ + guid() + "'"@,
        "export CORECLR_PROFILER_PATH='"@ + path + "'"@,
    ]
}

/// The comment that opens the block appended to a login profile.
pub open spec fn block_marker() -> Seq<char> {
    "# Uprooted CLR profiler"@
}

/// The lines of the block appended to a login profile.
pub open spec fn block_lines(path: Seq<char>) -> Seq<Seq<char>> {
    seq!["# Uprooted CLR profiler (remove these lines to disable)"@] + export_lines(path)
}

pub open spec fn profile_block_spec(path: Seq<char>) -> Seq<char> {
    terminated(block_lines(path))
}

pub open spec fn wrapper_text_spec(path: Seq<char>, target: Seq<char>) -> Seq<char> {
    "#!/bin/bash\n# Uprooted launcher - sets CLR profiler env vars for Root only\n"@
        + terminated(export_lines(path)) + "exec '"@ + target + "' \"$@\"\n"@
}

pub open spec fn session_script_spec(path: Seq<char>) -> Seq<char> {
    "#!/bin/sh\n# Uprooted CLR profiler -- remove this file or run the uninstaller to disable\n"@
        + terminated(export_lines(path))
}

pub open spec fn session_env_spec(path: Seq<char>) -> Seq<char> {
    "# Uprooted CLR profiler -- remove this file or run the uninstaller to disable\n# .NET 10+ (DOTNET_ prefix)\nDOTNET_EnableDiagnostics=1\nDOTNET_ENABLE_PROFILING=1\nDOTNET_PROFILER="@
        + guid() + "\nDOTNET_PROFILER_PATH="@ + path
        + "\nDOTNET_ReadyToRun=0\n# Legacy (.NET 8/9)\nCORECLR_ENABLE_PROFILING=1\nCORECLR_PROFILER="@
        + guid() + "\nCORECLR_PROFILER_PATH="@ + path + "\n"@
}

pub open spec fn desktop_entry_spec(wrapper: Seq<char>) -> Seq<char> {
    "[Desktop Entry]\nName=Root (Uprooted)\nComment=Root Communications with Uprooted mods\nExec="@
        + wrapper + "\nType=Application\nCategories=Network;Chat;\nTerminal=false\n"@
}

fn push_line(r: &mut String, body: &str)
    ensures
        final(r)@ == old(r)@ + line(body@),
{
    r.append(body);
    r.append("\n");
    proof {
        reveal_strlit("\n");
    }
    assert(final(r)@ =~= old(r)@ + line(body@));
}

/// Appends the export lines for a profiler at `path`.
fn push_exports(r: &mut String, path: &str)
    ensures
        final(r)@ == old(r)@ + terminated(export_lines(path@)),
{
    let ghost start = r@;
    push_line(r, "# .NET 10+ (DOTNET_ prefix)");
    push_line(r, "export DOTNET_EnableDiagnostics=1");
    push_line(r, "export DOTNET_ENABLE_PROFILING=1");
    r.append("export DOTNET_PROFILER='");
    r.append(PROFILER_GUID);
    push_line(r, "'");
    r.append("export DOTNET_PROFILER_PATH='");
    r.append(path);
    push_line(r, "'");
    push_line(r, "export DOTNET_ReadyToRun=0");
    push_line(r, "# Legacy (.NET 8/9)");
    push_line(r, "export CORECLR_ENABLE_PROFILING=1");
    r.append("export CORECLR_PROFILER='");
    r.append(PROFILER_GUID);
    push_line(r, "'");
    r.append("export CORECLR_PROFILER_PATH='");
    r.append(path);
    push_line(r, "'");
    proof {
        let ls = export_lines(path@);
        reveal_with_fuel(terminated, 11);
        assert(ls.drop_last().drop_last().drop_last().drop_last().drop_last().drop_last().drop_last().drop_last().drop_last().drop_last() =~= Seq::<Seq<char>>::empty());
        assert(final(r)@ =~= start + terminated(ls));
    }
}

/// The block appended to a login profile, for a profiler at `path`.
pub fn profile_block(path: &str) -> (r: String)
    ensures
        r@ == profile_block_spec(path@),
{
    let mut r = String::new();
    push_line(&mut r, "# Uprooted CLR profiler (remove these lines to disable)");
    push_exports(&mut r, path);
    proof {
        let ls = block_lines(path@);
        reveal_with_fuel(terminated, 12);
        assert(ls.drop_last().drop_last().drop_last().drop_last().drop_last().drop_last().drop_last().drop_last().drop_last().drop_last() =~= seq!["# Uprooted CLR profiler (remove these lines to disable)"@]);
        assert(export_lines(path@).drop_last().drop_last().drop_last().drop_last().drop_last().drop_last().drop_last().drop_last().drop_last().drop_last() =~= Seq::<Seq<char>>::empty());
        assert(r@ =~= terminated(ls));
    }
    r
}

/// The launcher wrapper script: exports every variable, then runs the target.
pub fn wrapper_text(path: &str, target: &str) -> (r: String)
    ensures
        r@ == wrapper_text_spec(path@, target@),
{
    let mut r = String::from_str(
        "#!/bin/bash\n# Uprooted launcher - sets CLR profiler env vars for Root only\n",
    );
    push_exports(&mut r, path);
    r.append("exec '");
    r.append(target);
    r.append("' \"$@\"\n");
    assert(r@ =~= wrapper_text_spec(path@, target@));
    r
}

/// The script a desktop session sources at startup.
pub fn session_script_text(path: &str) -> (r: String)
    ensures
        r@ == session_script_spec(path@),
{
    let mut r = String::from_str(
        "#!/bin/sh\n# Uprooted CLR profiler -- remove this file or run the uninstaller to disable\n",
    );
    push_exports(&mut r, path);
    r
}

/// The session manager's environment file (plain `NAME=value` lines).
pub fn session_env_text(path: &str) -> (r: String)
    ensures
        r@ == session_env_spec(path@),
{
    let mut r = String::from_str(
        "# Uprooted CLR profiler -- remove this file or run the uninstaller to disable\n# .NET 10+ (DOTNET_ prefix)\nDOTNET_EnableDiagnostics=1\nDOTNET_ENABLE_PROFILING=1\nDOTNET_PROFILER=",
    );
    r.append(PROFILER_GUID);
    r.append("\nDOTNET_PROFILER_PATH=");
    r.append(path);
    r.append(
        "\nDOTNET_ReadyToRun=0\n# Legacy (.NET 8/9)\nCORECLR_ENABLE_PROFILING=1\nCORECLR_PROFILER=",
    );
    r.append(PROFILER_GUID);
    r.append("\nCORECLR_PROFILER_PATH=");
    r.append(path);
    r.append("\n");
    assert(r@ =~= session_env_spec(path@));
    r
}

/// The desktop-menu entry that launches the target through `wrapper`.
pub fn desktop_entry_text(wrapper: &str) -> (r: String)
    ensures
        r@ == desktop_entry_spec(wrapper@),
{
    let mut r = String::from_str(
        "[Desktop Entry]\nName=Root (Uprooted)\nComment=Root Communications with Uprooted mods\nExec=",
    );
    r.append(wrapper);
    r.append("\nType=Application\nCategories=Network;Chat;\nTerminal=false\n");
    assert(r@ =~= desktop_entry_spec(wrapper@));
    r
}

/// What a configuration says of the four variables.
#[derive(Clone, Copy, Debug, PartialEq, Eq, Structural)]
pub struct EnvFlags {
    pub enable_profiling: bool,
    pub profiler_guid: bool,
    pub profiler_path: bool,
    pub ready_to_run: bool,
}

/// The three variables that decide whether the hook is configured; the
/// codegen-mode flag is advisory.
pub open spec fn flags_ok(f: EnvFlags) -> bool {
    f.enable_profiling && f.profiler_guid && f.profiler_path
}

/// Position `i` of `t` can begin an assignment: it starts the text, a
/// line, or follows a blank (as after `export`).
pub open spec fn starts_value(t: Seq<char>, i: int) -> bool {
    i == 0 || t[i - 1] == '\n' || t[i - 1] == ' ' || t[i - 1] == '\t'
}

/// Position `j` of `t` ends a line.
pub open spec fn ends_line(t: Seq<char>, j: int) -> bool {
    j == t.len() || t[j] == '\n' || t[j] == '\r'
}

/// `p` occurs at `i`, where an assignment can begin and, if `closed`, where
/// a line ends right after it.
pub open spec fn delimited_at(t: Seq<char>, p: Seq<char>, i: int, closed: bool) -> bool {
    occurs_at(t, p, i) && starts_value(t, i) && (closed ==> ends_line(t, i + p.len()))
}

pub open spec fn delimited(t: Seq<char>, p: Seq<char>, closed: bool) -> bool {
    exists|i: int| #[trigger] delimited_at(t, p, i, closed)
}

/// `t` assigns exactly `v` to `name`: bare (`name=v` ending its line) or
/// single-quoted (`name='v'`).
pub open spec fn assigns(t: Seq<char>, name: Seq<char>, v: Seq<char>) -> bool {
    delimited(t, name + "="@ + v, true) || delimited(t, name + "='"@ + v + "'"@, false)
}

/// What a channel's text says of each variable, the profiler module being
/// deployed at `path`: an assignment of exactly the expected value, under
/// either prefix.
pub open spec fn text_flags(t: Seq<char>, path: Seq<char>) -> EnvFlags {
    EnvFlags {
        enable_profiling: assigns(t, "DOTNET_ENABLE_PROFILING"@, "1"@) || assigns(
            t,
            "CORECLR_ENABLE_PROFILING"@,
            "1"@,
        ),
        profiler_guid: assigns(t, "DOTNET_PROFILER"@, guid()) || assigns(
            t,
            "CORECLR_PROFILER"@,
            guid(),
        ),
        profiler_path: assigns(t, "DOTNET_PROFILER_PATH"@, path) || assigns(
            t,
            "CORECLR_PROFILER_PATH"@,
            path,
        ),
        ready_to_run: assigns(t, "DOTNET_ReadyToRun"@, "0"@),
    }
}

fn delimited_exec(t: &Vec<char>, p: &Vec<char>, closed: bool) -> (r: bool)
    ensures
        r == delimited(t@, p@, closed),
{
    let n = t.len();
    let mut i: usize = 0;
    loop
        invariant
            n == t@.len(),
            i <= n,
            forall|k: int| 0 <= k < i ==> !delimited_at(t@, p@, k, closed),
        decreases n - i,
    {
        if occurs_at_exec(t, p, i) {
            let start = i == 0 || t[i - 1] == '\n' || t[i - 1] == ' ' || t[i - 1] == '\t';
            let end = i + p.len();
            let close = !closed || end == n || t[end] == '\n' || t[end] == '\r';
            if start && close {
                assert(delimited_at(t@, p@, i as int, closed));
                return true;
            }
        }
        if i == n {
            assert forall|k: int| !delimited_at(t@, p@, k, closed) by {
                if 0 <= k <= i {
                } else {
                }
            }
            return false;
        }
        i += 1;
    }
}

fn assigns_exec(t: &Vec<char>, name: &str, v: &str) -> (r: bool)
    ensures
        r == assigns(t@, name@, v@),
{
    let mut bare = String::from_str(name);
    bare.append("=");
    bare.append(v);
    let mut quoted = String::from_str(name);
    quoted.append("='");
    quoted.append(v);
    quoted.append("'");
    let b = chars_of(bare.as_str());
    let q = chars_of(quoted.as_str());
    delimited_exec(t, &b, true) || delimited_exec(t, &q, false)
}

/// Judges a channel's text, the profiler module being deployed at `path`.
pub fn check_env_text(t: &str, path: &str) -> (r: EnvFlags)
    ensures
        r == text_flags(t@, path@),
{
    let v = chars_of(t);
    let enable_profiling = assigns_exec(&v, "DOTNET_ENABLE_PROFILING", "1") || assigns_exec(
        &v,
        "CORECLR_ENABLE_PROFILING",
        "1",
    );
    let profiler_guid = assigns_exec(&v, "DOTNET_PROFILER", PROFILER_GUID) || assigns_exec(
        &v,
        "CORECLR_PROFILER",
        PROFILER_GUID,
    );
    let profiler_path = assigns_exec(&v, "DOTNET_PROFILER_PATH", path) || assigns_exec(
        &v,
        "CORECLR_PROFILER_PATH",
        path,
    );
    let ready_to_run = assigns_exec(&v, "DOTNET_ReadyToRun", "0");
    EnvFlags { enable_profiling, profiler_guid, profiler_path, ready_to_run }
}

/// The values of the variables as one environment holds them (a registry
/// key, or a process environment); `None` where a variable is unset.
pub struct EnvValues {
    pub enable_profiling: Option<String>,
    pub legacy_enable_profiling: Option<String>,
    pub profiler: Option<String>,
    pub legacy_profiler: Option<String>,
    pub profiler_path: Option<String>,
    pub legacy_profiler_path: Option<String>,
    pub ready_to_run: Option<String>,
}

/// An environment's values seen as character sequences.
pub struct EnvValuesView {
    pub enable_profiling: Option<Seq<char>>,
    pub legacy_enable_profiling: Option<Seq<char>>,
    pub profiler: Option<Seq<char>>,
    pub legacy_profiler: Option<Seq<char>>,
    pub profiler_path: Option<Seq<char>>,
    pub legacy_profiler_path: Option<Seq<char>>,
    pub ready_to_run: Option<Seq<char>>,
}

pub open spec fn opt_view(o: Option<String>) -> Option<Seq<char>> {
    match o {
        Some(s) => Some(s@),
        None => None,
    }
}

impl View for EnvValues {
    type V = EnvValuesView;

    open spec fn view(&self) -> EnvValuesView {
        EnvValuesView {
            enable_profiling: opt_view(self.enable_profiling),
            legacy_enable_profiling: opt_view(self.legacy_enable_profiling),
            profiler: opt_view(self.profiler),
            legacy_profiler: opt_view(self.legacy_profiler),
            profiler_path: opt_view(self.profiler_path),
            legacy_profiler_path: opt_view(self.legacy_profiler_path),
            ready_to_run: opt_view(self.ready_to_run),
        }
    }
}

/// The primary variable's value, or the legacy one where the primary is unset.
pub open spec fn first_set(primary: Option<Seq<char>>, legacy: Option<Seq<char>>) -> Option<
    Seq<char>,
> {
    match primary {
        Some(v) => Some(v),
        None => legacy,
    }
}

pub open spec fn set_to(v: Option<Seq<char>>, expected: Seq<char>) -> bool {
    v == Some(expected)
}

/// What an environment's values say of each variable, the profiler module
/// being deployed at `path`: the primary variable, or the legacy one where
/// the primary is unset, holds exactly the expected value.
pub open spec fn value_flags(v: EnvValuesView, path: Seq<char>) -> EnvFlags {
    EnvFlags {
        enable_profiling: set_to(first_set(v.enable_profiling, v.legacy_enable_profiling), "1"@),
        profiler_guid: set_to(first_set(v.profiler, v.legacy_profiler), guid()),
        profiler_path: set_to(first_set(v.profiler_path, v.legacy_profiler_path), path),
        ready_to_run: set_to(v.ready_to_run, "0"@),
    }
}

fn first_set_exec<'a>(primary: &'a Option<String>, legacy: &'a Option<String>) -> (r: Option<
    &'a String,
>)
    ensures
        first_set(opt_view(*primary), opt_view(*legacy)) == match r {
            Some(s) => Some(s@),
            None => None::<Seq<char>>,
        },
{
    match primary {
        Some(v) => Some(v),
        None => match legacy {
            Some(v) => Some(v),
            None => None,
        },
    }
}

fn is_value(v: Option<&String>, expected: &str) -> (r: bool)
    ensures
        r == match v {
            Some(s) => s@ == expected@,
            None => false,
        },
{
    match v {
        Some(s) => {
            let e = String::from_str(expected);
            *s == e
        },
        None => false,
    }
}

/// Judges the values an environment holds, the profiler module being
/// deployed at `path`; every value must match exactly.
pub fn check_env_values(v: &EnvValues, path: &str) -> (r: EnvFlags)
    ensures
        r == value_flags(v@, path@),
{
    let enable_profiling = is_value(
        first_set_exec(&v.enable_profiling, &v.legacy_enable_profiling),
        "1",
    );
    let profiler_guid = is_value(first_set_exec(&v.profiler, &v.legacy_profiler), PROFILER_GUID);
    let profiler_path = is_value(first_set_exec(&v.profiler_path, &v.legacy_profiler_path), path);
    let ready_to_run = match &v.ready_to_run {
        Some(x) => is_value(Some(x), "0"),
        None => false,
    };
    EnvFlags { enable_profiling, profiler_guid, profiler_path, ready_to_run }
}

} // verus!
