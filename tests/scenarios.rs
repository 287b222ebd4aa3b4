use std::collections::HashMap;

use uprooted::envconf::{check_env_values, EnvValues};
use uprooted::hook::{
    deploy_files, env_channel_paths, login_profile_path, remove_env_vars, remove_files,
    reset_settings, set_env_vars, settings_path, Effect,
};
use uprooted::layout::{payload_path, required_payload_list, Layout, Payload, Platform};
use uprooted::locate::get_root_exe_path;
use uprooted::pipeline::{
    run_install, run_repair, run_uninstall, Action, AppState, InstallerMode, Outcome, StepKind,
    StepStatus,
};
use uprooted::status::{channel_flags, check_hook_status, check_is_installed, detect, diagnose_verdict, HookStatus};

#[derive(Clone, Debug, PartialEq)]
enum Content {
    Payload(Payload),
    Text(String),
}

/// An in-memory machine: files by path and the registry's values.
struct Sim {
    layout: Layout,
    files: HashMap<String, Content>,
    registry: HashMap<String, String>,
    /// Asset paths and whether each carries the patch marker.
    assets: Vec<(String, bool)>,
    patch_calls: usize,
}

fn linux() -> Layout {
    Layout {
        platform: Platform::Linux,
        home: "/home/ada".to_string(),
        local_app_data: String::new(),
    }
}

fn windows() -> Layout {
    Layout {
        platform: Platform::Windows,
        home: String::new(),
        local_app_data: "C:\\Users\\ada\\AppData\\Local".to_string(),
    }
}

fn sim(layout: Layout) -> Sim {
    Sim { layout, files: HashMap::new(), registry: HashMap::new(), assets: Vec::new(), patch_calls: 0 }
}

fn sep(s: &Sim) -> char {
    if s.layout.platform == Platform::Windows {
        '\\'
    } else {
        '/'
    }
}

fn perform(s: &mut Sim, effects: Vec<Effect>) -> Result<(), String> {
    for e in effects {
        match e {
            Effect::CreateDir { .. } | Effect::MakeExecutable { .. } | Effect::Broadcast => {}
            Effect::WritePayload { path, payload } => {
                s.files.insert(path, Content::Payload(payload));
            }
            Effect::WriteText { path, text, .. } => {
                s.files.insert(path, Content::Text(text));
            }
            Effect::AppendText { path, text, .. } => {
                let old = match s.files.get(&path) {
                    Some(Content::Text(t)) => t.clone(),
                    _ => String::new(),
                };
                s.files.insert(path, Content::Text(old + &text));
            }
            Effect::RemoveFile { path, .. } => {
                s.files.remove(&path);
            }
            Effect::RemoveTree { path } => {
                let prefix = format!("{}{}", path, sep(s));
                s.files.retain(|k, _| k != &path && !k.starts_with(&prefix));
            }
            Effect::SetValue { name, value } => {
                s.registry.insert(name, value);
            }
            Effect::DeleteValue { name } => {
                s.registry.remove(&name);
            }
        }
    }
    Ok(())
}

fn text(s: &Sim, path: &str) -> Option<String> {
    match s.files.get(path) {
        Some(Content::Text(t)) => Some(t.clone()),
        _ => None,
    }
}

fn profile(s: &Sim) -> Option<String> {
    text(s, &login_profile_path(&s.layout))
}

fn unset() -> EnvValues {
    EnvValues {
        enable_profiling: None,
        legacy_enable_profiling: None,
        profiler: None,
        legacy_profiler: None,
        profiler_path: None,
        legacy_profiler_path: None,
        ready_to_run: None,
    }
}

fn status(s: &Sim) -> HookStatus {
    let l = &s.layout;
    let req = required_payload_list();
    let mut files = [false; 5];
    for (i, p) in req.iter().enumerate() {
        files[i] = s.files.contains_key(&payload_path(l, *p));
    }
    let module = payload_path(l, Payload::Profiler);
    let configured = if l.platform == Platform::Windows {
        let get = |n: &str| s.registry.get(n).cloned();
        check_env_values(&EnvValues {
            enable_profiling: get("DOTNET_ENABLE_PROFILING"),
            legacy_enable_profiling: get("CORECLR_ENABLE_PROFILING"),
            profiler: get("DOTNET_PROFILER"),
            legacy_profiler: get("CORECLR_PROFILER"),
            profiler_path: get("DOTNET_PROFILER_PATH"),
            legacy_profiler_path: get("CORECLR_PROFILER_PATH"),
            ready_to_run: get("DOTNET_ReadyToRun"),
        }, &module)
    } else {
        let texts: Vec<Option<String>> =
            env_channel_paths(l).iter().map(|p| text(s, p)).collect();
        channel_flags(&texts, &module)
    };
    check_hook_status(l.platform, files, configured, check_env_values(&unset(), &module))
}

fn all_false() -> HookStatus {
    HookStatus {
        profiler_dll: false,
        hook_dll: false,
        hook_deps: false,
        preload_js: false,
        theme_css: false,
        env_enable_profiling: false,
        env_profiler_guid: false,
        env_profiler_path: false,
        env_ready_to_run: false,
        files_ok: false,
        env_ok: false,
        env_vars_active: false,
    }
}

fn settings_present(s: &Sim) -> [bool; 3] {
    let l = &s.layout;
    [
        s.files.contains_key(&settings_path(l, 0)),
        s.files.contains_key(&settings_path(l, 1)),
        s.files.contains_key(&settings_path(l, 2)),
    ]
}

fn outcome_of(r: Result<(), String>) -> Outcome {
    match r {
        Ok(()) => Outcome::Succeeded,
        Err(e) => Outcome::Failed(e),
    }
}

/// Performs one step's work on the simulated machine.
fn step(s: &mut Sim, kind: StepKind) -> Outcome {
    let exe = get_root_exe_path(&s.layout);
    match kind {
        StepKind::CloseTarget => Outcome::NotRunning,
        StepKind::Locate => {
            if s.files.contains_key(&exe) {
                Outcome::Found
            } else {
                Outcome::NotFound(exe)
            }
        }
        StepKind::Deploy => {
            let plan = deploy_files(&s.layout);
            outcome_of(perform(s, plan))
        }
        StepKind::Configure => {
            let p = profile(s);
            let plan = set_env_vars(&s.layout, &exe, p.as_deref());
            outcome_of(perform(s, plan))
        }
        StepKind::RemoveEnvironment => {
            let p = profile(s);
            let plan = remove_env_vars(&s.layout, p.as_deref());
            outcome_of(perform(s, plan))
        }
        StepKind::ResetSettings => {
            let plan = reset_settings(&s.layout, settings_present(s));
            let n = plan.len() as u32;
            match perform(s, plan) {
                Ok(()) => Outcome::Removed(n),
                Err(e) => Outcome::Failed(e),
            }
        }
        StepKind::RemoveFiles => {
            let plan = remove_files(&s.layout);
            outcome_of(perform(s, plan))
        }
        StepKind::PatchInstall | StepKind::PatchRepair => {
            s.patch_calls += 1;
            if s.assets.is_empty() {
                return Outcome::Failed("No HTML files found.".to_string());
            }
            for a in s.assets.iter_mut() {
                a.1 = true;
            }
            Outcome::Succeeded
        }
        StepKind::PatchUninstall => {
            s.patch_calls += 1;
            for a in s.assets.iter_mut() {
                a.1 = false;
            }
            Outcome::Succeeded
        }
        StepKind::Verify => {
            let patched: Vec<bool> = s.assets.iter().map(|a| a.1).collect();
            let st = status(s);
            if st.files_ok && st.env_ok && check_is_installed(&patched) {
                Outcome::Succeeded
            } else {
                Outcome::Unverified
            }
        }
    }
}

fn run(s: &mut Sim, mode: InstallerMode) -> (AppState, Vec<StepKind>) {
    let mut state = AppState::start(mode);
    let mut ran = Vec::new();
    loop {
        match state.next_action() {
            Action::Finish => break,
            Action::Run(kind) => {
                ran.push(kind);
                let o = step(s, kind);
                match mode {
                    InstallerMode::Install => run_install(&mut state, o),
                    InstallerMode::Uninstall => run_uninstall(&mut state, o),
                    InstallerMode::Repair => run_repair(&mut state, o),
                }
            }
        }
    }
    (state, ran)
}

fn with_target(mut s: Sim) -> Sim {
    let exe = get_root_exe_path(&s.layout);
    s.files.insert(exe, Content::Text(String::new()));
    s.assets.push(("/profile/WebRtcBundle/index.html".to_string(), false));
    s
}

#[test]
fn install_aborts_without_target() {
    let mut s = sim(linux());
    let before = status(&s);
    let (state, ran) = run(&mut s, InstallerMode::Install);
    assert_eq!(ran, vec![StepKind::CloseTarget, StepKind::Locate]);
    assert!(state.finished);
    assert!(!state.success);
    assert_eq!(state.message, "Installation failed.");
    match &state.steps[1].status {
        StepStatus::Failed(m) => {
            assert_eq!(m, "Root not found at /home/ada/Applications/Root.AppImage")
        }
        _ => panic!("locate step should have failed"),
    }
    for i in 2..6 {
        assert!(matches!(state.steps[i].status, StepStatus::Pending));
    }
    assert!(s.files.is_empty());
    let after = status(&s);
    assert!(!after.files_ok && !after.env_ok);
    assert_eq!(before, after);
}

#[test]
fn diagnose_sees_patched_assets() {
    let mut s = with_target(sim(linux()));
    s.assets[0].1 = true;
    let patched: Vec<bool> = s.assets.iter().map(|a| a.1).collect();
    let pre = detect(
        get_root_exe_path(&s.layout),
        true,
        "/profile".to_string(),
        vec![s.assets[0].0.clone()],
        &patched,
        status(&s),
    );
    assert!(pre.is_installed);
    assert!(pre.root_found);
    // the diagnosis then deploys, configures and patches again
    let plan = deploy_files(&s.layout);
    let deploy_ok = perform(&mut s, plan).is_ok();
    assert!(matches!(step(&mut s, StepKind::Configure), Outcome::Succeeded));
    assert!(matches!(step(&mut s, StepKind::PatchInstall), Outcome::Succeeded));
    let patched: Vec<bool> = s.assets.iter().map(|a| a.1).collect();
    let post = detect(
        get_root_exe_path(&s.layout),
        true,
        "/profile".to_string(),
        vec![s.assets[0].0.clone()],
        &patched,
        status(&s),
    );
    assert!(post.is_installed);
    assert!(diagnose_verdict(deploy_ok, &post));
}

#[test]
fn install_then_uninstall_restores_baseline() {
    let mut s = with_target(sim(linux()));
    let prof = login_profile_path(&s.layout);
    let own_text = "export PATH=$HOME/bin:$PATH\n# my settings\n".to_string();
    s.files.insert(prof.clone(), Content::Text(own_text.clone()));
    let baseline = status(&s);
    assert_eq!(baseline, all_false());
    let (state, _) = run(&mut s, InstallerMode::Install);
    assert!(state.success);
    assert_eq!(state.message, "Patch active \u{2014} restart Root to load Uprooted.");
    let installed = status(&s);
    assert!(installed.files_ok && installed.env_ok);
    let (state, ran) = run(&mut s, InstallerMode::Uninstall);
    assert_eq!(ran.len(), 5);
    assert!(state.success);
    assert_eq!(status(&s), baseline);
    assert_eq!(text(&s, &prof), Some(own_text));
}

#[test]
fn windows_install_then_uninstall_restores_baseline() {
    let mut s = with_target(sim(windows()));
    let baseline = status(&s);
    let (state, _) = run(&mut s, InstallerMode::Install);
    assert!(state.success);
    assert_eq!(
        s.registry.get("DOTNET_PROFILER").map(|v| v.as_str()),
        Some("{D1A6F5A0-1234-4567-89AB-CDEF01234567}")
    );
    assert_eq!(
        s.registry.get("DOTNET_PROFILER_PATH").map(|v| v.as_str()),
        Some("C:\\Users\\ada\\AppData\\Local\\Root\\uprooted\\uprooted_profiler.dll")
    );
    let installed = status(&s);
    assert!(installed.env_ok && installed.env_vars_active && installed.files_ok);
    run(&mut s, InstallerMode::Uninstall);
    assert_eq!(status(&s), baseline);
    assert!(s.registry.is_empty());
}

#[test]
fn deploy_twice_leaves_same_files() {
    let mut once = sim(linux());
    let l = linux();
    perform(&mut once, deploy_files(&l)).unwrap();
    let mut twice = sim(linux());
    for _ in 0..3 {
        perform(&mut twice, deploy_files(&l)).unwrap();
    }
    assert_eq!(once.files, twice.files);
    assert_eq!(once.files.len(), 9);
}

#[test]
fn configure_twice_appends_one_block() {
    let mut s = sim(linux());
    let prof = login_profile_path(&s.layout);
    s.files.insert(prof.clone(), Content::Text("alias ll='ls -l'\n".to_string()));
    step(&mut s, StepKind::Configure);
    let first = s.files.clone();
    step(&mut s, StepKind::Configure);
    assert_eq!(first, s.files);
    let t = text(&s, &prof).unwrap();
    assert_eq!(t.matches("# Uprooted CLR profiler").count(), 1);
}

#[test]
fn remove_after_configure_keeps_unrelated_profile() {
    let mut s = sim(linux());
    let prof = login_profile_path(&s.layout);
    let own_text = "export EDITOR=vi\n\nexport PAGER=less\n".to_string();
    s.files.insert(prof.clone(), Content::Text(own_text.clone()));
    step(&mut s, StepKind::Configure);
    assert!(status(&s).env_ok);
    step(&mut s, StepKind::RemoveEnvironment);
    assert!(!status(&s).env_ok);
    assert_eq!(text(&s, &prof), Some(own_text));
}

#[test]
fn remove_after_configure_keeps_profile_without_final_break() {
    for own_text in ["a", "export EDITOR=vi\nalias x=y", ""] {
        let mut s = sim(linux());
        let prof = login_profile_path(&s.layout);
        s.files.insert(prof.clone(), Content::Text(own_text.to_string()));
        step(&mut s, StepKind::Configure);
        assert!(status(&s).env_ok);
        step(&mut s, StepKind::RemoveEnvironment);
        assert!(!status(&s).env_ok);
        assert_eq!(text(&s, &prof), Some(own_text.to_string()));
    }
}

#[test]
fn reset_settings_counts_existing_files() {
    let mut s = sim(linux());
    let a = settings_path(&s.layout, 0);
    let b = settings_path(&s.layout, 2);
    s.files.insert(a.clone(), Content::Text("x".to_string()));
    s.files.insert(b.clone(), Content::Text("y".to_string()));
    s.files.insert("/home/ada/keep.txt".to_string(), Content::Text("z".to_string()));
    match step(&mut s, StepKind::ResetSettings) {
        Outcome::Removed(n) => assert_eq!(n, 2),
        _ => panic!("reset should succeed"),
    }
    assert!(!s.files.contains_key(&a) && !s.files.contains_key(&b));
    assert!(s.files.contains_key("/home/ada/keep.txt"));
    match step(&mut s, StepKind::ResetSettings) {
        Outcome::Removed(n) => assert_eq!(n, 0),
        _ => panic!("reset should succeed"),
    }
}

#[test]
fn uninstall_continues_past_patch_failure() {
    let mut state = AppState::start(InstallerMode::Uninstall);
    run_uninstall(&mut state, Outcome::Closed(2));
    assert_eq!(state.steps[0].label, "Closed Root (2 processes)");
    run_uninstall(&mut state, Outcome::Succeeded);
    run_uninstall(&mut state, Outcome::Failed("restore failed".to_string()));
    assert!(!state.finished);
    assert_eq!(state.next_action(), Action::Run(StepKind::ResetSettings));
    run_uninstall(&mut state, Outcome::Removed(1));
    assert_eq!(state.steps[3].label, "Settings removed (1 file)");
    run_uninstall(&mut state, Outcome::Failed("busy".to_string()));
    assert!(state.finished && !state.success);
    assert_eq!(state.message, "Uninstall had errors.");
}

#[test]
fn uninstall_stops_when_environment_removal_fails() {
    let mut state = AppState::start(InstallerMode::Uninstall);
    run_uninstall(&mut state, Outcome::NotRunning);
    assert_eq!(state.steps[0].label, "Root is not running");
    run_uninstall(&mut state, Outcome::Failed("denied".to_string()));
    assert!(state.finished && !state.success);
    assert_eq!(state.message, "Uninstall failed.");
    assert_eq!(state.next_action(), Action::Finish);
}

#[test]
fn install_verification_failure_only_warns() {
    let mut state = AppState::start(InstallerMode::Install);
    run_install(&mut state, Outcome::Closed(1));
    assert_eq!(state.steps[0].label, "Closed Root (1 process)");
    for _ in 0..4 {
        run_install(&mut state, Outcome::Succeeded);
    }
    assert_eq!(state.next_action(), Action::Run(StepKind::Verify));
    run_install(&mut state, Outcome::Unverified);
    assert!(state.finished && state.success);
    assert_eq!(state.message, "Installed with warnings.");
    assert!(matches!(&state.steps[5].status, StepStatus::Failed(m) if m == "Verification found issues"));
}

#[test]
fn repair_stops_on_deploy_failure() {
    let mut state = AppState::start(InstallerMode::Repair);
    assert_eq!(state.title, "Repair (resets all settings)");
    run_repair(&mut state, Outcome::NotRunning);
    run_repair(&mut state, Outcome::Removed(3));
    assert_eq!(state.steps[1].label, "Settings reset (3 files removed)");
    run_repair(&mut state, Outcome::Failed("disk full".to_string()));
    assert!(state.finished && !state.success);
    assert_eq!(state.message, "Repair failed.");
    assert!(matches!(state.steps[3].status, StepStatus::Pending));
}

#[test]
fn repair_completes_despite_verification_failure() {
    let mut s = with_target(sim(linux()));
    s.assets.clear();
    let (state, _) = run(&mut s, InstallerMode::Repair);
    assert!(state.finished && !state.success);
    assert_eq!(state.message, "Repair failed.");
    let mut state = AppState::start(InstallerMode::Repair);
    for _ in 0..5 {
        run_repair(&mut state, Outcome::Succeeded);
    }
    run_repair(&mut state, Outcome::Unverified);
    assert!(state.finished && state.success);
    assert_eq!(state.message, "Repair complete \u{2014} restart Root to load Uprooted.");
}
