use uprooted::envconf::{
    check_env_text, check_env_values, desktop_entry_text, profile_block, session_env_text,
    wrapper_text, EnvFlags, EnvValues, PROFILER_GUID,
};
use uprooted::hook::{deploy_files, remove_env_vars, set_env_vars, Effect};
use uprooted::layout::{get_profile_dir, get_uprooted_dir, join_path, payload_path, Layout, Payload, Platform};
use uprooted::locate::{
    desktop_exec_paths, exe_candidates, get_root_exe_path, html_candidates, is_desktop_file_name,
    is_process_dir_name, is_target_file_name, is_target_process_exe, is_target_process_name,
    search_dirs,
};
use uprooted::num::{chrono_lite, days_to_date, decimal_string, format_size};
use uprooted::pipeline::{AppState, InstallerMode, Step, StepStatus};
use uprooted::profile::{clean_profile, profile_append, strip_profile_block};
use uprooted::status::{channel_flags, check_hook_status, check_is_installed};
use uprooted::text::contains_str;

fn layout(platform: Platform) -> Layout {
    Layout {
        platform,
        home: "/home/ada".to_string(),
        local_app_data: "C:\\Users\\ada\\AppData\\Local".to_string(),
    }
}

const P: &str = "C:\\p.dll";

fn values() -> EnvValues {
    EnvValues {
        enable_profiling: Some("1".to_string()),
        legacy_enable_profiling: None,
        profiler: Some(PROFILER_GUID.to_string()),
        legacy_profiler: None,
        profiler_path: Some("C:\\p.dll".to_string()),
        legacy_profiler_path: None,
        ready_to_run: Some("0".to_string()),
    }
}

#[test]
fn substring_search() {
    assert!(contains_str("abcabd", "abd"));
    assert!(contains_str("abc", ""));
    assert!(!contains_str("ab", "abc"));
    assert!(!contains_str("", "a"));
}

#[test]
fn paths_per_platform() {
    let w = layout(Platform::Windows);
    assert_eq!(get_uprooted_dir(&w), "C:\\Users\\ada\\AppData\\Local\\Root\\uprooted");
    assert_eq!(
        get_profile_dir(&w),
        "C:\\Users\\ada\\AppData\\Local\\Root Communications\\Root\\profile\\default"
    );
    assert_eq!(get_root_exe_path(&w), "C:\\Users\\ada\\AppData\\Local\\Root\\current\\Root.exe");
    let l = layout(Platform::Linux);
    assert_eq!(get_uprooted_dir(&l), "/home/ada/.local/share/uprooted");
    assert_eq!(
        payload_path(&l, Payload::Profiler),
        "/home/ada/.local/share/uprooted/libuprooted_profiler.so"
    );
    assert_eq!(get_root_exe_path(&l), "/home/ada/Applications/Root.AppImage");
    let m = layout(Platform::MacOs);
    assert_eq!(
        get_profile_dir(&m),
        "/home/ada/Library/Application Support/Root Communications/Root/profile/default"
    );
    assert_eq!(get_root_exe_path(&m), "/home/ada/Applications/Root.app/Contents/MacOS/Root");
    assert_eq!(join_path(Platform::Linux, "/a/", "b"), "/a/b");
    assert_eq!(join_path(Platform::Linux, "", "b"), "b");
    assert_eq!(join_path(Platform::Windows, "C:", "b"), "C:\\b");
}

#[test]
fn env_ok_needs_exact_identifier() {
    let good = check_env_values(&values(), P);
    assert_eq!(
        good,
        EnvFlags { enable_profiling: true, profiler_guid: true, profiler_path: true, ready_to_run: true }
    );
    let mut near = values();
    near.profiler = Some("{D1A6F5A0-1234-4567-89AB-CDEF01234568}".to_string());
    let f = check_env_values(&near, P);
    assert!(!f.profiler_guid);
    let st = check_hook_status(Platform::Windows, [true; 5], f, f);
    assert!(!st.env_ok && !st.env_vars_active && st.files_ok);
    let text = "DOTNET_ENABLE_PROFILING=1\nDOTNET_PROFILER={D1A6F5A0-1234-4567-89AB-CDEF01234568}\nDOTNET_PROFILER_PATH=/x\n";
    let t = check_env_text(text, "/x");
    assert!(t.enable_profiling && t.profiler_path && !t.profiler_guid);
    assert!(!check_hook_status(Platform::Linux, [true; 5], t, t).env_ok);
    // the identifier followed by more characters is no match
    let longer = format!("DOTNET_ENABLE_PROFILING=1\nDOTNET_PROFILER={}0\nDOTNET_PROFILER_PATH=/p\n", PROFILER_GUID);
    let t = check_env_text(&longer, "/p");
    assert!(!t.profiler_guid);
    assert!(!check_hook_status(Platform::Linux, [true; 5], t, t).env_ok);
    // nor is the identifier in a comment
    let comment = format!("# {}\nDOTNET_ENABLE_PROFILING=1\nDOTNET_PROFILER_PATH=/p\n", PROFILER_GUID);
    assert!(!check_env_text(&comment, "/p").profiler_guid);
    let exact = format!("DOTNET_ENABLE_PROFILING=1\nDOTNET_PROFILER={}\nDOTNET_PROFILER_PATH=/p", PROFILER_GUID);
    let t = check_env_text(&exact, "/p");
    assert!(t.enable_profiling && t.profiler_guid && t.profiler_path && !t.ready_to_run);
    assert!(!check_env_text("DOTNET_ENABLE_PROFILING=10\n", "/p").enable_profiling);
}

#[test]
fn env_ok_needs_deployed_path() {
    let mut v = values();
    v.profiler_path = Some("x".to_string());
    let f = check_env_values(&v, P);
    assert!(!f.profiler_path);
    assert!(!check_hook_status(Platform::Windows, [true; 5], f, f).env_ok);
    let text = format!(
        "export DOTNET_ENABLE_PROFILING=1\nexport DOTNET_PROFILER='{}'\nexport DOTNET_PROFILER_PATH='/other.so'\n",
        PROFILER_GUID
    );
    let t = check_env_text(&text, "/p.so");
    assert!(t.enable_profiling && t.profiler_guid && !t.profiler_path);
    assert!(check_env_text(&text, "/other.so").profiler_path);
    assert!(!check_env_text("DOTNET_PROFILER_PATH=\n", "/p.so").profiler_path);
}

#[test]
fn env_ok_iff_three_variables_set() {
    let ok = |v: &EnvValues| {
        let f = check_env_values(v, P);
        check_hook_status(Platform::Windows, [true; 5], f, f).env_ok
    };
    assert!(ok(&values()));
    let mut v = values();
    v.enable_profiling = None;
    assert!(!ok(&v));
    let mut v = values();
    v.profiler = None;
    assert!(!ok(&v));
    let mut v = values();
    v.profiler_path = None;
    assert!(!ok(&v));
    let mut v = values();
    v.ready_to_run = None;
    assert!(ok(&v));
}

#[test]
fn legacy_values_count_where_primary_unset() {
    let mut v = values();
    v.enable_profiling = None;
    v.legacy_enable_profiling = Some("1".to_string());
    assert!(check_env_values(&v, P).enable_profiling);
    v.enable_profiling = Some("0".to_string());
    assert!(!check_env_values(&v, P).enable_profiling);
    v.profiler_path = Some(String::new());
    assert!(!check_env_values(&v, P).profiler_path);
}

#[test]
fn codegen_flag_is_advisory() {
    let f = EnvFlags { enable_profiling: true, profiler_guid: true, profiler_path: true, ready_to_run: false };
    let st = check_hook_status(Platform::Linux, [true, true, false, true, true], f, f);
    assert!(st.env_ok && st.env_vars_active && !st.files_ok && !st.env_ready_to_run);
}

#[test]
fn first_readable_channel_decides() {
    let configured = session_env_text("/p.so");
    let chans = vec![None, Some(configured.clone()), Some(String::new())];
    assert!(channel_flags(&chans, "/p.so").profiler_guid);
    assert!(channel_flags(&chans, "/p.so").profiler_path);
    let chans = vec![Some(String::new()), Some(configured)];
    assert!(!channel_flags(&chans, "/p.so").enable_profiling);
    assert!(!channel_flags(&vec![], "/p.so").enable_profiling);
}

#[test]
fn written_channels_configure() {
    for t in [
        session_env_text("/p.so"),
        wrapper_text("/p.so", "/opt/Root.AppImage"),
        profile_block("/p.so"),
    ] {
        let f = check_env_text(&t, "/p.so");
        assert!(f.enable_profiling && f.profiler_guid && f.profiler_path && f.ready_to_run);
    }
    let w = wrapper_text("/p.so", "/opt/Root.AppImage");
    assert!(w.starts_with("#!/bin/bash\n"));
    assert!(w.ends_with("exec '/opt/Root.AppImage' \"$@\"\n"));
    assert!(w.contains("export DOTNET_PROFILER_PATH='/p.so'\n"));
    let d = desktop_entry_text("/w.sh");
    assert!(d.contains("\nExec=/w.sh\n"));
}

#[test]
fn profile_block_round_trip() {
    for c in ["export A=1\n", "export A=1", "a", "", "x\n\n", "x\n\ny"] {
        let add = profile_append(c, "/p.so").unwrap();
        assert!(add.starts_with("\n# Uprooted CLR profiler (remove these lines to disable)\n"));
        let full = format!("{}{}", c, add);
        assert!(profile_append(&full, "/p.so").is_none());
        assert_eq!(clean_profile(&full), Some(c.to_string()));
    }
    assert_eq!(profile_append("", "/p.so").unwrap(), format!("\n{}", profile_block("/p.so")));
}

#[test]
fn strip_keeps_following_content() {
    let t = "a\n# Uprooted CLR profiler (remove these lines to disable)\nexport DOTNET_X=1\n# c\n\nkeep\nexport DOTNET_Y=2\n";
    assert_eq!(strip_profile_block(t), "a\nkeep\nexport DOTNET_Y=2\n");
    assert_eq!(strip_profile_block("x\ny"), "x\ny");
    assert_eq!(clean_profile("export PATH=/bin\n"), None);
    // a block left without its variables is still removed
    assert_eq!(
        clean_profile("a\n\n# Uprooted CLR profiler (remove these lines to disable)\n# .NET 10+ (DOTNET_ prefix)\n"),
        Some("a\n".to_string())
    );
}

#[test]
fn deploy_plan_lists_every_payload() {
    let l = layout(Platform::Linux);
    let plan = deploy_files(&l);
    assert_eq!(plan.len(), 11);
    assert!(matches!(&plan[0], Effect::CreateDir { path, required: true } if path == "/home/ada/.local/share/uprooted"));
    assert!(matches!(&plan[10], Effect::MakeExecutable { path } if path.ends_with("libuprooted_profiler.so")));
    let w = layout(Platform::Windows);
    assert_eq!(deploy_files(&w).len(), 10);
}

#[test]
fn linux_configuration_covers_every_channel() {
    let l = layout(Platform::Linux);
    let plan = set_env_vars(&l, "/opt/Root.AppImage", None);
    let written: Vec<&str> = plan
        .iter()
        .filter_map(|e| match e {
            Effect::WriteText { path, .. } | Effect::AppendText { path, .. } => Some(path.as_str()),
            _ => None,
        })
        .collect();
    assert_eq!(
        written,
        vec![
            "/home/ada/.config/environment.d/uprooted.conf",
            "/home/ada/.local/share/uprooted/launch-root.sh",
            "/home/ada/.local/share/applications/root-uprooted.desktop",
            "/home/ada/.config/plasma-workspace/env/uprooted.sh",
            "/home/ada/.profile",
        ]
    );
    let removal = remove_env_vars(&l, Some("export A=1\n"));
    assert_eq!(removal.len(), 4);
}

#[test]
fn windows_configuration_sets_both_prefixes() {
    let w = layout(Platform::Windows);
    let plan = set_env_vars(&w, "", None);
    assert_eq!(plan.len(), 10);
    assert!(matches!(&plan[6], Effect::SetValue { name, value } if name == "CORECLR_PROFILER" && value == PROFILER_GUID));
    assert!(matches!(&plan[8], Effect::DeleteValue { name } if name == "DOTNET_STARTUP_HOOKS"));
    assert!(matches!(plan[9], Effect::Broadcast));
    assert_eq!(remove_env_vars(&w, None).len(), 10);
}

#[test]
fn target_file_names() {
    assert!(is_target_file_name("Root-0.9.86.AppImage"));
    assert!(is_target_file_name("root.appimage"));
    assert!(!is_target_file_name("myroot.AppImage"));
    assert!(!is_target_file_name("Root.AppImage.zs-sync"));
    assert!(is_target_process_exe("/tmp/.mount_Root/usr/bin/Root-x86_64.AppImage"));
    assert!(is_target_process_exe("/opt/app/ROOT"));
    assert!(!is_target_process_exe("/usr/bin/bash"));
    assert!(is_target_process_name("ROOT.EXE"));
    assert!(!is_target_process_name("Root.exe2"));
    assert!(is_process_dir_name("1234"));
    assert!(!is_process_dir_name("self"));
    assert!(is_desktop_file_name("root.desktop"));
    assert!(!is_desktop_file_name(".desktop"));
}

#[test]
fn desktop_entry_exec_lines() {
    let entry = "[Desktop Entry]\nName=Root Communications\nExec=/opt/Root.AppImage %U\nExec=  /usr/bin/root\r\n";
    assert_eq!(
        desktop_exec_paths("chat.desktop", entry),
        vec!["/opt/Root.AppImage".to_string(), "/usr/bin/root".to_string()]
    );
    let other = "[Desktop Entry]\nName=Editor\nExec=/usr/bin/ed\n";
    assert!(desktop_exec_paths("ed.desktop", other).is_empty());
    assert_eq!(desktop_exec_paths("root-app.desktop", other), vec!["/usr/bin/ed".to_string()]);
}

#[test]
fn search_candidates() {
    let l = layout(Platform::Linux);
    let c = exe_candidates(&l);
    assert_eq!(c.len(), 6);
    assert_eq!(c[3], "/opt/Root.AppImage");
    assert_eq!(c[5], "/home/ada/.local/bin/Root");
    let d = search_dirs(&l);
    assert_eq!(d[4], "/home/ada");
    let h = html_candidates(&l, &vec!["chat".to_string()]);
    assert_eq!(
        h,
        vec![
            "/home/ada/.local/share/Root Communications/Root/profile/default/WebRtcBundle/index.html".to_string(),
            "/home/ada/.local/share/Root Communications/Root/profile/default/RootApps/chat/index.html".to_string(),
        ]
    );
}

#[test]
fn installed_when_any_asset_patched() {
    assert!(!check_is_installed(&vec![]));
    assert!(!check_is_installed(&vec![false, false]));
    assert!(check_is_installed(&vec![false, true]));
}

#[test]
fn sizes() {
    assert_eq!(format_size(0), "0");
    assert_eq!(format_size(1023), "1023");
    assert_eq!(format_size(1024), "1.0 KB");
    assert_eq!(format_size(1536), "1.5 KB");
    assert_eq!(format_size(1280), "1.2 KB");
    assert_eq!(format_size(1048575), "1024.0 KB");
    assert_eq!(format_size(1048576), "1.0 MB");
    assert_eq!(format_size(5 * 1048576 + 524288), "5.5 MB");
    assert_eq!(decimal_string(18446744073709551615), "18446744073709551615");
}

#[test]
fn dates() {
    assert_eq!(days_to_date(0), (1970, 1, 1));
    assert_eq!(days_to_date(11017), (2000, 3, 1));
    assert_eq!(days_to_date(19723), (2024, 1, 1));
    assert_eq!(days_to_date(19782), (2024, 2, 29));
    assert_eq!(chrono_lite(Some(0)), "1970-01-01 00:00:00 UTC");
    assert_eq!(chrono_lite(Some(1700000000)), "2023-11-14 22:13:20 UTC");
    assert_eq!(chrono_lite(None), "unknown");
}

#[test]
fn pipelines_start_with_first_step_running() {
    let s = AppState::start(InstallerMode::Install);
    assert_eq!(s.steps.len(), 6);
    assert!(matches!(s.steps[0].status, StepStatus::Running));
    assert_eq!(s.steps[1].label, "Detect Root installation");
    assert_eq!(AppState::start(InstallerMode::Uninstall).steps.len(), 5);
    let st = Step::new("x");
    assert_eq!(st.label, "x");
    assert!(matches!(st.status, StepStatus::Pending));
}
