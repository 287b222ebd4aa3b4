//! Status reconciliation: what is actually deployed and configured.
use vstd::prelude::*;
use crate::envconf::{check_env_text, flags_ok, text_flags, EnvFlags};
use crate::layout::Platform;

verus! {

/// A point-in-time snapshot of the hook's files and configuration.
#[derive(Clone, Copy, Debug, PartialEq, Eq, Structural)]
pub struct HookStatus {
    pub profiler_dll: bool,
    pub hook_dll: bool,
    pub hook_deps: bool,
    pub preload_js: bool,
    pub theme_css: bool,
    pub env_enable_profiling: bool,
    pub env_profiler_guid: bool,
    pub env_profiler_path: bool,
    pub env_ready_to_run: bool,
    /// Every required file is deployed.
    pub files_ok: bool,
    /// The three deciding variables are configured.
    pub env_ok: bool,
    /// The variables are in effect for newly started processes of this session.
    pub env_vars_active: bool,
}

/// The status of a platform whose required payloads are present as
/// `files` (profiler, hook, manifest, preload script, stylesheet), whose
/// channels say `configured`, and whose own process environment says
/// `process`. On Windows a registry change reaches every new process, so
/// there `active` mirrors the configuration.
pub open spec fn status_spec(
    platform: Platform,
    files: Seq<bool>,
    configured: EnvFlags,
    process: EnvFlags,
) -> HookStatus {
    HookStatus {
        profiler_dll: files[0],
        hook_dll: files[1],
        hook_deps: files[2],
        preload_js: files[3],
        theme_css: files[4],
        env_enable_profiling: configured.enable_profiling,
        env_profiler_guid: configured.profiler_guid,
        env_profiler_path: configured.profiler_path,
        env_ready_to_run: configured.ready_to_run,
        files_ok: files[0] && files[1] && files[2] && files[3] && files[4],
        env_ok: flags_ok(configured),
        env_vars_active: if platform == Platform::Windows {
            flags_ok(configured)
        } else {
            flags_ok(process)
        },
    }
}

/// Aggregates presence and configuration into a status.
pub fn check_hook_status(
    platform: Platform,
    files: [bool; 5],
    configured: EnvFlags,
    process: EnvFlags,
) -> (r: HookStatus)
    ensures
        r == status_spec(platform, files@, configured, process),
{
    let files_ok = files[0] && files[1] && files[2] && files[3] && files[4];
    let env_ok = configured.enable_profiling && configured.profiler_guid
        && configured.profiler_path;
    let active = if platform == Platform::Windows {
        env_ok
    } else {
        process.enable_profiling && process.profiler_guid && process.profiler_path
    };
    HookStatus {
        profiler_dll: files[0],
        hook_dll: files[1],
        hook_deps: files[2],
        preload_js: files[3],
        theme_css: files[4],
        env_enable_profiling: configured.enable_profiling,
        env_profiler_guid: configured.profiler_guid,
        env_profiler_path: configured.profiler_path,
        env_ready_to_run: configured.ready_to_run,
        files_ok,
        env_ok,
        env_vars_active: active,
    }
}

/// The first channel text that could be read, or nothing.
pub open spec fn first_text(ts: Seq<Option<Seq<char>>>) -> Seq<char>
    decreases ts.len(),
{
    if ts.len() == 0 {
        Seq::empty()
    } else {
        match ts[0] {
            Some(t) => t,
            None => first_text(ts.drop_first()),
        }
    }
}

pub open spec fn texts_view(ts: Seq<Option<String>>) -> Seq<Option<Seq<char>>> {
    ts.map_values(|o: Option<String>| crate::envconf::opt_view(o))
}

/// Judges the POSIX channels read in priority order (`None` where one
/// could not be read), the profiler module being deployed at `path`: the
/// first readable one decides.
pub fn channel_flags(texts: &Vec<Option<String>>, path: &str) -> (r: EnvFlags)
    ensures
        r == text_flags(first_text(texts_view(texts@)), path@),
{
    let mut i: usize = 0;
    while i < texts.len()
        invariant
            i <= texts@.len(),
            forall|k: int| 0 <= k < i ==> texts@[k] is None,
        decreases texts@.len() - i,
    {
        if let Some(t) = &texts[i] {
            proof {
                let ts = texts_view(texts@);
                assert forall|k: int| 0 <= k < i implies ts[k] is None by {
                    assert(texts@[k] is None);
                }
                lemma_first_text_skip(ts, i as int);
            }
            return check_env_text(t.as_str(), path);
        }
        i += 1;
    }
    proof {
        let ts = texts_view(texts@);
        assert forall|k: int| 0 <= k < i implies ts[k] is None by {
            assert(texts@[k] is None);
        }
        lemma_first_text_skip(ts, i as int);
        assert(ts.subrange(i as int, ts.len() as int) =~= Seq::<Option<Seq<char>>>::empty());
        reveal_strlit("");
        assert(""@ =~= Seq::<char>::empty());
    }
    check_env_text("", path)
}

proof fn lemma_first_text_skip(ts: Seq<Option<Seq<char>>>, i: int)
    requires
        0 <= i <= ts.len(),
        forall|k: int| 0 <= k < i ==> ts[k] is None,
    ensures
        first_text(ts) == first_text(ts.subrange(i, ts.len() as int)),
    decreases i,
{
    if i > 0 {
        assert(ts.drop_first().subrange(i - 1, ts.drop_first().len() as int) =~= ts.subrange(
            i,
            ts.len() as int,
        ));
        lemma_first_text_skip(ts.drop_first(), i - 1);
    } else {
        assert(ts.subrange(0, ts.len() as int) =~= ts);
    }
}

/// Whether any of the target's assets carries the patch marker (`patched`
/// holds the collaborator's judgement of each asset).
pub fn check_is_installed(patched: &Vec<bool>) -> (r: bool)
    ensures
        r == exists|i: int| 0 <= i < patched@.len() && patched@[i],
{
    let mut i: usize = 0;
    while i < patched.len()
        invariant
            i <= patched@.len(),
            forall|k: int| 0 <= k < i ==> !patched@[k],
        decreases patched@.len() - i,
    {
        if patched[i] {
            return true;
        }
        i += 1;
    }
    false
}

/// What detection found: the target, its profile, its assets and the hook.
pub struct DetectionResult {
    pub root_found: bool,
    pub root_path: String,
    pub profile_dir: String,
    pub html_files: Vec<String>,
    pub is_installed: bool,
    pub hook_status: HookStatus,
}

/// Assembles a detection result; `patched` holds the collaborator's
/// judgement of each of `html_files`.
pub fn detect(
    root_path: String,
    root_found: bool,
    profile_dir: String,
    html_files: Vec<String>,
    patched: &Vec<bool>,
    hook_status: HookStatus,
) -> (r: DetectionResult)
    ensures
        r.root_path@ == root_path@,
        r.root_found == root_found,
        r.profile_dir@ == profile_dir@,
        r.html_files@ == html_files@,
        r.is_installed == exists|i: int| 0 <= i < patched@.len() && patched@[i],
        r.hook_status == hook_status,
{
    let is_installed = check_is_installed(patched);
    DetectionResult { root_found, root_path, profile_dir, html_files, is_installed, hook_status }
}

/// An operation's closing check: files deployed, variables configured and
/// assets patched.
pub fn verification_passed(d: &DetectionResult) -> (r: bool)
    ensures
        r == (d.hook_status.files_ok && d.hook_status.env_ok && d.is_installed),
{
    d.hook_status.files_ok && d.hook_status.env_ok && d.is_installed
}

/// The overall verdict of a diagnosis: the files were deployed in this run,
/// and the final detection finds files, variables and patched assets.
pub fn diagnose_verdict(deploy_ok: bool, last: &DetectionResult) -> (r: bool)
    ensures
        r == (deploy_ok && last.hook_status.files_ok && last.hook_status.env_ok
            && last.is_installed),
{
    deploy_ok && verification_passed(last)
}

} // verus!
