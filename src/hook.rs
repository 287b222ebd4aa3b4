//! Deployment plans. Each operation of the deployment manager computes the
//! ordered list of effects that carries it out; the caller performs them in
//! order and stops at the first failure of a required one. `apply` says what
//! a list of effects does to a modelled world when every effect succeeds.
use vstd::prelude::*;
use crate::envconf::{
    desktop_entry_spec, desktop_entry_text, guid, session_env_spec, session_env_text,
    session_script_spec, session_script_text, wrapper_text, wrapper_text_spec, PROFILER_GUID,
};
use crate::layout::{
    all_payloads, get_profile_dir, get_uprooted_dir, install_dir_spec, join_path, join_spec,
    payload_list, payload_path, payload_path_spec, profile_dir_spec, separator, Layout, Payload,
    Platform,
};
use crate::pipeline::StepKind;
use crate::profile::{append_spec, clean_profile, needs_cleaning, profile_append, stripped};

verus! {

/// One unit of outside work.
pub enum Effect {
    /// Create a directory and its parents.
    CreateDir { path: String, required: bool },
    /// Write a payload file, replacing what was there.
    WritePayload { path: String, payload: Payload },
    /// Write a text file, replacing what was there.
    WriteText { path: String, text: String, required: bool },
    /// Append to a text file, creating it if absent.
    AppendText { path: String, text: String, required: bool },
    /// Mark a file executable; never fails the operation.
    MakeExecutable { path: String },
    /// Delete a file; a missing file is not an error.
    RemoveFile { path: String, required: bool },
    /// Delete a directory and everything under it; a missing one is not an error.
    RemoveTree { path: String },
    /// Set a per-user environment value in the registry.
    SetValue { name: String, value: String },
    /// Delete a per-user environment value; a missing value is not an error.
    DeleteValue { name: String },
    /// Tell running processes that the environment changed.
    Broadcast,
}

/// An effect with its strings seen as character sequences.
pub enum EffectView {
    CreateDir(Seq<char>, bool),
    WritePayload(Seq<char>, Payload),
    WriteText(Seq<char>, Seq<char>, bool),
    AppendText(Seq<char>, Seq<char>, bool),
    MakeExecutable(Seq<char>),
    RemoveFile(Seq<char>, bool),
    RemoveTree(Seq<char>),
    SetValue(Seq<char>, Seq<char>),
    DeleteValue(Seq<char>),
    Broadcast,
}

impl View for Effect {
    type V = EffectView;

    open spec fn view(&self) -> EffectView {
        match self {
            Effect::CreateDir { path, required } => EffectView::CreateDir(path@, *required),
            Effect::WritePayload { path, payload } => EffectView::WritePayload(path@, *payload),
            Effect::WriteText { path, text, required } => EffectView::WriteText(
                path@,
                text@,
                *required,
            ),
            Effect::AppendText { path, text, required } => EffectView::AppendText(
                path@,
                text@,
                *required,
            ),
            Effect::MakeExecutable { path } => EffectView::MakeExecutable(path@),
            Effect::RemoveFile { path, required } => EffectView::RemoveFile(path@, *required),
            Effect::RemoveTree { path } => EffectView::RemoveTree(path@),
            Effect::SetValue { name, value } => EffectView::SetValue(name@, value@),
            Effect::DeleteValue { name } => EffectView::DeleteValue(name@),
            Effect::Broadcast => EffectView::Broadcast,
        }
    }
}

pub open spec fn views(v: Seq<Effect>) -> Seq<EffectView> {
    v.map_values(|e: Effect| e@)
}

pub broadcast proof fn lemma_views_push(v: Seq<Effect>, e: Effect)
    ensures
        #[trigger] views(v.push(e)) == views(v).push(e@),
{
    assert(views(v.push(e)) =~= views(v).push(e@));
}

/// What a modelled file holds.
pub enum Entry {
    Payload(Payload),
    Text(Seq<char>),
}

/// The part of the machine the operations touch: files by path, and the
/// per-user environment values of the registry.
pub struct World {
    pub files: Map<Seq<char>, Entry>,
    pub registry: Map<Seq<char>, Seq<char>>,
}

/// `k` lies below the directory `d`.
pub open spec fn under(k: Seq<char>, d: Seq<char>, sep: char) -> bool {
    &&& d.len() > 0
    &&& k.len() > d.len()
    &&& k.subrange(0, d.len() as int) == d
    &&& (d.last() == sep || k[d.len() as int] == sep)
}

/// The text a file holds, where it holds text.
pub open spec fn text_of(w: World, path: Seq<char>) -> Option<Seq<char>> {
    if w.files.contains_key(path) {
        match w.files[path] {
            Entry::Text(t) => Some(t),
            Entry::Payload(_) => None,
        }
    } else {
        None
    }
}

pub open spec fn apply_one(w: World, e: EffectView, sep: char) -> World {
    match e {
        EffectView::WritePayload(p, x) => World { files: w.files.insert(p, Entry::Payload(x)), ..w },
        EffectView::WriteText(p, t, _) => World { files: w.files.insert(p, Entry::Text(t)), ..w },
        EffectView::AppendText(p, t, _) => World {
            files: w.files.insert(
                p,
                Entry::Text(
                    match text_of(w, p) {
                        Some(o) => o + t,
                        None => t,
                    },
                ),
            ),
            ..w
        },
        EffectView::RemoveFile(p, _) => World { files: w.files.remove(p), ..w },
        EffectView::RemoveTree(d) => World {
            files: w.files.restrict(w.files.dom().filter(|k: Seq<char>| !under(k, d, sep) && k != d)),
            ..w
        },
        EffectView::SetValue(n, v) => World { registry: w.registry.insert(n, v), ..w },
        EffectView::DeleteValue(n) => World { registry: w.registry.remove(n), ..w },
        _ => w,
    }
}

/// The world after every effect of `es` succeeded, in order.
pub open spec fn apply(w: World, es: Seq<EffectView>, sep: char) -> World
    decreases es.len(),
{
    if es.len() == 0 {
        w
    } else {
        apply_one(apply(w, es.drop_last(), sep), es.last(), sep)
    }
}

// ---------------------------------------------------------------- locations

pub open spec fn home_path(l: &Layout, name: Seq<char>) -> Seq<char> {
    join_spec(l.home@, name, '/')
}

pub open spec fn wrapper_path_spec(l: &Layout) -> Seq<char> {
    join_spec(install_dir_spec(l), "launch-root.sh"@, separator(l.platform))
}

pub open spec fn session_env_path_spec(l: &Layout) -> Seq<char> {
    home_path(l, ".config/environment.d/uprooted.conf"@)
}

pub open spec fn session_script_path_spec(l: &Layout) -> Seq<char> {
    home_path(l, ".config/plasma-workspace/env/uprooted.sh"@)
}

pub open spec fn desktop_entry_path_spec(l: &Layout) -> Seq<char> {
    home_path(l, ".local/share/applications/root-uprooted.desktop"@)
}

/// The login profile the block is appended to.
pub open spec fn login_profile_path_spec(l: &Layout) -> Seq<char> {
    if l.platform == Platform::MacOs {
        home_path(l, ".zprofile"@)
    } else {
        home_path(l, ".profile"@)
    }
}

fn home_join(l: &Layout, name: &str) -> (r: String)
    requires
        l.platform != Platform::Windows,
    ensures
        r@ == home_path(l, name@),
{
    join_path(l.platform, l.home.as_str(), name)
}

/// The launcher wrapper script's path.
pub fn wrapper_path(l: &Layout) -> (r: String)
    ensures
        r@ == wrapper_path_spec(l),
{
    let dir = get_uprooted_dir(l);
    join_path(l.platform, dir.as_str(), "launch-root.sh")
}

/// The login profile's path (POSIX platforms).
pub fn login_profile_path(l: &Layout) -> (r: String)
    requires
        l.platform != Platform::Windows,
    ensures
        r@ == login_profile_path_spec(l),
{
    if l.platform == Platform::MacOs {
        home_join(l, ".zprofile")
    } else {
        home_join(l, ".profile")
    }
}

// ---------------------------------------------------------------- deploy

pub open spec fn deploy_plan(l: &Layout) -> Seq<EffectView> {
    seq![EffectView::CreateDir(install_dir_spec(l), true)] + Seq::new(
        9,
        |i: int| EffectView::WritePayload(payload_path_spec(l, all_payloads()[i]), all_payloads()[i]),
    ) + if l.platform == Platform::Windows {
        Seq::empty()
    } else {
        seq![EffectView::MakeExecutable(payload_path_spec(l, Payload::Profiler))]
    }
}

/// Writes every payload into the install directory, creating it first; on
/// POSIX the profiler module is then made executable.
pub fn deploy_files(l: &Layout) -> (r: Vec<Effect>)
    ensures
        views(r@) == deploy_plan(l),
{
    let mut r: Vec<Effect> = Vec::new();
    let e = Effect::CreateDir { path: get_uprooted_dir(l), required: true };
    proof {
        lemma_views_push(r@, e);
        assert(views(r@) =~= Seq::<EffectView>::empty());
    }
    r.push(e);
    let ps = payload_list();
    let mut i: usize = 0;
    while i < ps.len()
        invariant
            ps@ == all_payloads(),
            i <= ps@.len(),
            views(r@) =~= seq![EffectView::CreateDir(install_dir_spec(l), true)] + Seq::new(
                i as nat,
                |j: int|
                    EffectView::WritePayload(
                        payload_path_spec(l, all_payloads()[j]),
                        all_payloads()[j],
                    ),
            ),
        decreases ps@.len() - i,
    {
        let p = ps[i];
        let e = Effect::WritePayload { path: payload_path(l, p), payload: p };
        proof {
            lemma_views_push(r@, e);
        }
        r.push(e);
        i += 1;
    }
    let ghost written = views(r@);
    if l.platform != Platform::Windows {
        let e = Effect::MakeExecutable { path: payload_path(l, Payload::Profiler) };
        proof {
            lemma_views_push(r@, e);
        }
        r.push(e);
    }
    assert(views(r@) =~= deploy_plan(l));
    r
}

fn push_effect(r: &mut Vec<Effect>, e: Effect)
    ensures
        views(final(r)@) == views(old(r)@).push(e@),
{
    proof {
        lemma_views_push(r@, e);
    }
    r.push(e);
}

fn set_value(r: &mut Vec<Effect>, name: &str, value: &str)
    ensures
        views(final(r)@) == views(old(r)@).push(EffectView::SetValue(name@, value@)),
{
    push_effect(r, Effect::SetValue { name: String::from_str(name), value: String::from_str(value) });
}

fn delete_value(r: &mut Vec<Effect>, name: &str)
    ensures
        views(final(r)@) == views(old(r)@).push(EffectView::DeleteValue(name@)),
{
    push_effect(r, Effect::DeleteValue { name: String::from_str(name) });
}

// ---------------------------------------------------------------- configure

/// The registry values that configure the hook, for a profiler at `pp`,
/// under the primary and the legacy prefix.
pub open spec fn registry_set_plan(pp: Seq<char>) -> Seq<EffectView> {
    seq![
        EffectView::SetValue("DOTNET_EnableDiagnostics"@, "1"@),
        EffectView::SetValue("DOTNET_ENABLE_PROFILING"@, "1"@),
        EffectView::SetValue("DOTNET_PROFILER"@, guid()),
        EffectView::SetValue("DOTNET_PROFILER_PATH"@, pp),
        EffectView::SetValue("DOTNET_ReadyToRun"@, "0"@),
        EffectView::SetValue("CORECLR_ENABLE_PROFILING"@, "1"@),
        EffectView::SetValue("CORECLR_PROFILER"@, guid()),
        EffectView::SetValue("CORECLR_PROFILER_PATH"@, pp),
        EffectView::DeleteValue("DOTNET_STARTUP_HOOKS"@),
        EffectView::Broadcast,
    ]
}

/// The appended profile block, where the profile does not hold one yet.
pub open spec fn append_plan(l: &Layout, t: Seq<char>) -> Seq<EffectView> {
    match append_spec(t, payload_path_spec(l, Payload::Profiler)) {
        Some(a) => seq![EffectView::AppendText(login_profile_path_spec(l), a, false)],
        None => Seq::empty(),
    }
}

/// Every channel's configuration on Linux, before the profile block.
pub open spec fn linux_set_plan(l: &Layout, target: Seq<char>) -> Seq<EffectView> {
    let pp = payload_path_spec(l, Payload::Profiler);
    let wr = wrapper_path_spec(l);
    seq![
        EffectView::CreateDir(home_path(l, ".config/environment.d"@), true),
        EffectView::WriteText(session_env_path_spec(l), session_env_spec(pp), true),
        EffectView::WriteText(wr, wrapper_text_spec(pp, target), true),
        EffectView::MakeExecutable(wr),
        EffectView::CreateDir(home_path(l, ".local/share/applications"@), true),
        EffectView::WriteText(desktop_entry_path_spec(l), desktop_entry_spec(wr), true),
        EffectView::MakeExecutable(desktop_entry_path_spec(l)),
        EffectView::CreateDir(home_path(l, ".config/plasma-workspace/env"@), false),
        EffectView::WriteText(session_script_path_spec(l), session_script_spec(pp), false),
        EffectView::MakeExecutable(session_script_path_spec(l)),
    ]
}

pub open spec fn macos_set_plan(l: &Layout, target: Seq<char>) -> Seq<EffectView> {
    let pp = payload_path_spec(l, Payload::Profiler);
    let wr = wrapper_path_spec(l);
    seq![EffectView::WriteText(wr, wrapper_text_spec(pp, target), true), EffectView::MakeExecutable(wr)]
}

/// The configuration of every channel of the platform. `profile` is the
/// login profile's current text, where it could be read.
pub open spec fn set_plan(l: &Layout, target: Seq<char>, profile: Option<Seq<char>>) -> Seq<
    EffectView,
> {
    let t = match profile {
        Some(t) => t,
        None => Seq::empty(),
    };
    match l.platform {
        Platform::Windows => registry_set_plan(payload_path_spec(l, Payload::Profiler)),
        Platform::Linux => linux_set_plan(l, target) + append_plan(l, t),
        Platform::MacOs => macos_set_plan(l, target) + append_plan(l, t),
    }
}

fn push_append(r: &mut Vec<Effect>, l: &Layout, profile: Option<&str>, pp: &str)
    requires
        l.platform != Platform::Windows,
        pp@ == payload_path_spec(l, Payload::Profiler),
    ensures
        views(final(r)@) == views(old(r)@) + append_plan(
            l,
            match profile {
                Some(t) => t@,
                None => Seq::empty(),
            },
        ),
{
    let t = match profile {
        Some(t) => t,
        None => "",
    };
    proof {
        reveal_strlit("");
    }
    assert(t@ == match profile {
        Some(t) => t@,
        None => Seq::<char>::empty(),
    });
    let ghost before = views(r@);
    match profile_append(t, pp) {
        Some(a) => {
            let e = Effect::AppendText { path: login_profile_path(l), text: a, required: false };
            let ghost ev = e@;
            push_effect(r, e);
            assert(views(r@) =~= before + seq![ev]);
        },
        None => {
            assert(views(r@) =~= views(r@) + Seq::<EffectView>::empty());
        },
    }
}

/// Writes the variables to every environment channel of the platform.
/// `target` is the target executable the wrapper runs; `profile` the login
/// profile's current text, where it could be read.
pub fn set_env_vars(l: &Layout, target: &str, profile: Option<&str>) -> (r: Vec<Effect>)
    ensures
        views(r@) == set_plan(l, target@, match profile {
            Some(t) => Some(t@),
            None => None,
        }),
{
    let pp = payload_path(l, Payload::Profiler);
    let mut r: Vec<Effect> = Vec::new();
    assert(views(r@) =~= Seq::<EffectView>::empty());
    match l.platform {
        Platform::Windows => {
            set_value(&mut r, "DOTNET_EnableDiagnostics", "1");
            set_value(&mut r, "DOTNET_ENABLE_PROFILING", "1");
            set_value(&mut r, "DOTNET_PROFILER", PROFILER_GUID);
            set_value(&mut r, "DOTNET_PROFILER_PATH", pp.as_str());
            set_value(&mut r, "DOTNET_ReadyToRun", "0");
            set_value(&mut r, "CORECLR_ENABLE_PROFILING", "1");
            set_value(&mut r, "CORECLR_PROFILER", PROFILER_GUID);
            set_value(&mut r, "CORECLR_PROFILER_PATH", pp.as_str());
            delete_value(&mut r, "DOTNET_STARTUP_HOOKS");
            push_effect(&mut r, Effect::Broadcast);
            assert(views(r@) =~= registry_set_plan(pp@));
        },
        Platform::Linux => {
            let wr = wrapper_path(l);
            let desktop = home_join(l, ".local/share/applications/root-uprooted.desktop");
            let script = home_join(l, ".config/plasma-workspace/env/uprooted.sh");
            push_effect(
                &mut r,
                Effect::CreateDir { path: home_join(l, ".config/environment.d"), required: true },
            );
            push_effect(
                &mut r,
                Effect::WriteText {
                    path: home_join(l, ".config/environment.d/uprooted.conf"),
                    text: session_env_text(pp.as_str()),
                    required: true,
                },
            );
            push_effect(
                &mut r,
                Effect::WriteText {
                    path: wr.clone(),
                    text: wrapper_text(pp.as_str(), target),
                    required: true,
                },
            );
            push_effect(&mut r, Effect::MakeExecutable { path: wr.clone() });
            push_effect(
                &mut r,
                Effect::CreateDir {
                    path: home_join(l, ".local/share/applications"),
                    required: true,
                },
            );
            push_effect(
                &mut r,
                Effect::WriteText {
                    path: desktop.clone(),
                    text: desktop_entry_text(wr.as_str()),
                    required: true,
                },
            );
            push_effect(&mut r, Effect::MakeExecutable { path: desktop });
            push_effect(
                &mut r,
                Effect::CreateDir {
                    path: home_join(l, ".config/plasma-workspace/env"),
                    required: false,
                },
            );
            push_effect(
                &mut r,
                Effect::WriteText {
                    path: script.clone(),
                    text: session_script_text(pp.as_str()),
                    required: false,
                },
            );
            push_effect(&mut r, Effect::MakeExecutable { path: script });
            assert(views(r@) =~= linux_set_plan(l, target@));
            push_append(&mut r, l, profile, pp.as_str());
        },
        Platform::MacOs => {
            let wr = wrapper_path(l);
            push_effect(
                &mut r,
                Effect::WriteText {
                    path: wr.clone(),
                    text: wrapper_text(pp.as_str(), target),
                    required: true,
                },
            );
            push_effect(&mut r, Effect::MakeExecutable { path: wr });
            assert(views(r@) =~= macos_set_plan(l, target@));
            push_append(&mut r, l, profile, pp.as_str());
        },
    }
    r
}

// ---------------------------------------------------------------- remove

/// Every registry value this system ever sets, and the obsolete one.
pub open spec fn registry_remove_plan() -> Seq<EffectView> {
    seq![
        EffectView::DeleteValue("DOTNET_EnableDiagnostics"@),
        EffectView::DeleteValue("DOTNET_ENABLE_PROFILING"@),
        EffectView::DeleteValue("DOTNET_PROFILER"@),
        EffectView::DeleteValue("DOTNET_PROFILER_PATH"@),
        EffectView::DeleteValue("DOTNET_ReadyToRun"@),
        EffectView::DeleteValue("CORECLR_ENABLE_PROFILING"@),
        EffectView::DeleteValue("CORECLR_PROFILER"@),
        EffectView::DeleteValue("CORECLR_PROFILER_PATH"@),
        EffectView::DeleteValue("DOTNET_STARTUP_HOOKS"@),
        EffectView::Broadcast,
    ]
}

/// The profile rewritten without its block, where it was read and names a
/// variable.
pub open spec fn clean_plan(l: &Layout, profile: Option<Seq<char>>) -> Seq<EffectView> {
    match profile {
        Some(t) => if needs_cleaning(t) {
            seq![EffectView::WriteText(login_profile_path_spec(l), stripped(t), false)]
        } else {
            Seq::empty()
        },
        None => Seq::empty(),
    }
}

pub open spec fn remove_plan(l: &Layout, profile: Option<Seq<char>>) -> Seq<EffectView> {
    match l.platform {
        Platform::Windows => registry_remove_plan(),
        Platform::Linux => seq![
            EffectView::RemoveFile(session_env_path_spec(l), false),
            EffectView::RemoveFile(session_script_path_spec(l), false),
            EffectView::RemoveFile(wrapper_path_spec(l), false),
            EffectView::RemoveFile(desktop_entry_path_spec(l), false),
        ] + clean_plan(l, profile),
        Platform::MacOs => seq![EffectView::RemoveFile(wrapper_path_spec(l), false)] + clean_plan(
            l,
            profile,
        ),
    }
}

fn push_clean(r: &mut Vec<Effect>, l: &Layout, profile: Option<&str>)
    requires
        l.platform != Platform::Windows,
    ensures
        views(final(r)@) == views(old(r)@) + clean_plan(
            l,
            match profile {
                Some(t) => Some(t@),
                None => None,
            },
        ),
{
    let cleaned = match profile {
        Some(t) => clean_profile(t),
        None => None,
    };
    let ghost before = views(r@);
    match cleaned {
        Some(c) => {
            let e = Effect::WriteText { path: login_profile_path(l), text: c, required: false };
            let ghost ev = e@;
            push_effect(r, e);
            assert(views(r@) =~= before + seq![ev]);
        },
        None => {
            assert(views(r@) =~= views(r@) + Seq::<EffectView>::empty());
        },
    }
}

/// Deletes the configuration from every channel of the platform; channels
/// that do not exist are no error. `profile` is the login profile's current
/// text, where it could be read.
pub fn remove_env_vars(l: &Layout, profile: Option<&str>) -> (r: Vec<Effect>)
    ensures
        views(r@) == remove_plan(l, match profile {
            Some(t) => Some(t@),
            None => None,
        }),
{
    let mut r: Vec<Effect> = Vec::new();
    assert(views(r@) =~= Seq::<EffectView>::empty());
    match l.platform {
        Platform::Windows => {
            delete_value(&mut r, "DOTNET_EnableDiagnostics");
            delete_value(&mut r, "DOTNET_ENABLE_PROFILING");
            delete_value(&mut r, "DOTNET_PROFILER");
            delete_value(&mut r, "DOTNET_PROFILER_PATH");
            delete_value(&mut r, "DOTNET_ReadyToRun");
            delete_value(&mut r, "CORECLR_ENABLE_PROFILING");
            delete_value(&mut r, "CORECLR_PROFILER");
            delete_value(&mut r, "CORECLR_PROFILER_PATH");
            delete_value(&mut r, "DOTNET_STARTUP_HOOKS");
            push_effect(&mut r, Effect::Broadcast);
            assert(views(r@) =~= registry_remove_plan());
        },
        Platform::Linux => {
            push_effect(
                &mut r,
                Effect::RemoveFile {
                    path: home_join(l, ".config/environment.d/uprooted.conf"),
                    required: false,
                },
            );
            push_effect(
                &mut r,
                Effect::RemoveFile {
                    path: home_join(l, ".config/plasma-workspace/env/uprooted.sh"),
                    required: false,
                },
            );
            push_effect(&mut r, Effect::RemoveFile { path: wrapper_path(l), required: false });
            push_effect(
                &mut r,
                Effect::RemoveFile {
                    path: home_join(l, ".local/share/applications/root-uprooted.desktop"),
                    required: false,
                },
            );
            push_clean(&mut r, l, profile);
        },
        Platform::MacOs => {
            push_effect(&mut r, Effect::RemoveFile { path: wrapper_path(l), required: false });
            push_clean(&mut r, l, profile);
        },
    }
    proof {
        let p = match profile {
            Some(t) => Some(t@),
            None => None,
        };
        if l.platform == Platform::Linux {
            assert(views(r@) =~= remove_plan(l, p));
        } else if l.platform == Platform::MacOs {
            assert(views(r@) =~= remove_plan(l, p));
        }
    }
    r
}

// ---------------------------------------------------------------- settings

/// The target's settings files this system resets.
pub open spec fn settings_name(i: int) -> Seq<char> {
    if i == 0 {
        "uprooted-settings.ini"@
    } else if i == 1 {
        "uprooted-settings.json"@
    } else {
        "uprooted-message-log.dat"@
    }
}

pub open spec fn settings_path_spec(l: &Layout, i: int) -> Seq<char> {
    join_spec(profile_dir_spec(l), settings_name(i), separator(l.platform))
}

/// The deletions for the first `k` settings files, those marked present.
pub open spec fn reset_plan(l: &Layout, present: Seq<bool>, k: int) -> Seq<EffectView>
    decreases k,
{
    if k <= 0 {
        Seq::empty()
    } else {
        reset_plan(l, present, k - 1) + if present[k - 1] {
            seq![EffectView::RemoveFile(settings_path_spec(l, k - 1), true)]
        } else {
            Seq::empty()
        }
    }
}

pub open spec fn count_present(present: Seq<bool>, k: int) -> nat
    decreases k,
{
    if k <= 0 {
        0
    } else {
        count_present(present, k - 1) + if present[k - 1] {
            1nat
        } else {
            0nat
        }
    }
}

/// The path of settings file `i`.
pub fn settings_path(l: &Layout, i: usize) -> (r: String)
    requires
        i < 3,
    ensures
        r@ == settings_path_spec(l, i as int),
{
    let dir = get_profile_dir(l);
    let name = if i == 0 {
        "uprooted-settings.ini"
    } else if i == 1 {
        "uprooted-settings.json"
    } else {
        "uprooted-message-log.dat"
    };
    join_path(l.platform, dir.as_str(), name)
}

/// Deletes those of the target's settings files that exist (`present`, in
/// the order ini, json, message log). The number of deletions is the count
/// of files reset.
pub fn reset_settings(l: &Layout, present: [bool; 3]) -> (r: Vec<Effect>)
    ensures
        views(r@) == reset_plan(l, present@, 3),
        r@.len() == count_present(present@, 3),
{
    let mut r: Vec<Effect> = Vec::new();
    let mut i: usize = 0;
    assert(views(r@) =~= Seq::<EffectView>::empty());
    while i < 3
        invariant
            i <= 3,
            present@.len() == 3,
            views(r@) == reset_plan(l, present@, i as int),
            r@.len() == count_present(present@, i as int),
        decreases 3 - i,
    {
        let ghost before = views(r@);
        if present[i] {
            let e = Effect::RemoveFile { path: settings_path(l, i), required: true };
            let ghost ev = e@;
            push_effect(&mut r, e);
            assert(views(r@) =~= before + seq![ev]);
        } else {
            assert(views(r@) =~= views(r@) + Seq::<EffectView>::empty());
        }
        i += 1;
    }
    r
}

/// Deletes the install directory and everything in it.
pub fn remove_files(l: &Layout) -> (r: Vec<Effect>)
    ensures
        views(r@) == seq![EffectView::RemoveTree(install_dir_spec(l))],
{
    let mut r: Vec<Effect> = Vec::new();
    assert(views(r@) =~= Seq::<EffectView>::empty());
    push_effect(&mut r, Effect::RemoveTree { path: get_uprooted_dir(l) });
    assert(views(r@) =~= seq![EffectView::RemoveTree(install_dir_spec(l))]);
    r
}

pub open spec fn path_views(v: Seq<String>) -> Seq<Seq<char>> {
    v.map_values(|s: String| s@)
}

/// The channels the status check reads, in priority order: the session
/// manager's file, then the wrapper, then the login profile (POSIX; none on
/// Windows, where the registry is read).
pub fn env_channel_paths(l: &Layout) -> (r: Vec<String>)
    ensures
        path_views(r@) == crate::laws::channel_paths(l),
{
    let mut r: Vec<String> = Vec::new();
    match l.platform {
        Platform::Windows => {},
        Platform::Linux => {
            r.push(home_join(l, ".config/environment.d/uprooted.conf"));
            r.push(wrapper_path(l));
            r.push(login_profile_path(l));
        },
        Platform::MacOs => {
            r.push(wrapper_path(l));
            r.push(login_profile_path(l));
        },
    }
    assert(path_views(r@) =~= crate::laws::channel_paths(l));
    r
}

/// The effects on files and registry that performing step `k` calls for;
/// the other steps (terminating or locating the target, patching assets,
/// verifying) change neither.
pub open spec fn step_plan(
    l: &Layout,
    k: StepKind,
    target: Seq<char>,
    profile: Option<Seq<char>>,
    present: Seq<bool>,
) -> Seq<EffectView> {
    match k {
        StepKind::Deploy => deploy_plan(l),
        StepKind::Configure => set_plan(l, target, profile),
        StepKind::RemoveEnvironment => remove_plan(l, profile),
        StepKind::ResetSettings => reset_plan(l, present, 3),
        StepKind::RemoveFiles => seq![EffectView::RemoveTree(install_dir_spec(l))],
        _ => Seq::empty(),
    }
}

/// The effects of performing step `kind`: `target` is the target
/// executable, `profile` the login profile's text where it could be read,
/// `present` which settings files exist.
pub fn step_effects(
    l: &Layout,
    kind: StepKind,
    target: &str,
    profile: Option<&str>,
    present: [bool; 3],
) -> (r: Vec<Effect>)
    ensures
        views(r@) == step_plan(
            l,
            kind,
            target@,
            match profile {
                Some(t) => Some(t@),
                None => None,
            },
            present@,
        ),
{
    match kind {
        StepKind::Deploy => deploy_files(l),
        StepKind::Configure => set_env_vars(l, target, profile),
        StepKind::RemoveEnvironment => remove_env_vars(l, profile),
        StepKind::ResetSettings => reset_settings(l, present),
        StepKind::RemoveFiles => remove_files(l),
        _ => {
            let r: Vec<Effect> = Vec::new();
            assert(views(r@) =~= Seq::<EffectView>::empty());
            r
        },
    }
}

} // verus!
