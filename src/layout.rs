//! Where things live: the install directory, the target's profile directory,
//! the payload files and the environment channels, per platform.
use vstd::prelude::*;

verus! {

/// The operating system family the engine is configured for.
#[derive(Clone, Copy, Debug, PartialEq, Eq, Structural)]
pub enum Platform {
    Windows,
    Linux,
    MacOs,
}

/// The per-user base directories every location is derived from.
pub struct Layout {
    pub platform: Platform,
    /// The user's home directory (`HOME`), used on Linux and macOS.
    pub home: String,
    /// The per-user local application data directory (`LOCALAPPDATA`), used on Windows.
    pub local_app_data: String,
}

/// One of the payload files deployed into the install directory.
#[derive(Clone, Copy, Debug, PartialEq, Eq, Structural)]
pub enum Payload {
    Profiler,
    HookDll,
    HookDeps,
    HookDllNet9,
    HookDepsNet9,
    PreloadJs,
    ThemeCss,
    ContentFilterJs,
    LinkEmbedsJs,
}

pub open spec fn separator(p: Platform) -> char {
    if p == Platform::Windows {
        '\\'
    } else {
        '/'
    }
}

/// `name` appended to `dir` as a child entry.
pub open spec fn join_spec(dir: Seq<char>, name: Seq<char>, sep: char) -> Seq<char> {
    if dir.len() == 0 {
        name
    } else if dir.last() == sep {
        dir + name
    } else {
        dir.push(sep) + name
    }
}

/// `name` appended to `dir` as a child entry, with the platform's separator.
pub fn join_path(platform: Platform, dir: &str, name: &str) -> (r: String)
    ensures
        r@ == join_spec(dir@, name@, separator(platform)),
{
    let n = dir.unicode_len();
    let mut r = String::from_str(dir);
    if n == 0 {
        return String::from_str(name);
    }
    let last = dir.get_char(n - 1);
    if platform == Platform::Windows {
        if last != '\\' {
            r.append("\\");
            proof {
                reveal_strlit("\\");
            }
        }
    } else {
        if last != '/' {
            r.append("/");
            proof {
                reveal_strlit("/");
            }
        }
    }
    r.append(name);
    proof {
        assert(dir@.last() == last);
        if last != separator(platform) {
            assert(dir@.push(separator(platform)) =~= dir@ + seq![separator(platform)]);
        }
    }
    assert(r@ =~= join_spec(dir@, name@, separator(platform)));
    r
}

pub open spec fn install_dir_spec(l: &Layout) -> Seq<char> {
    match l.platform {
        Platform::Windows => join_spec(l.local_app_data@, "Root\\uprooted"@, '\\'),
        Platform::Linux => join_spec(l.home@, ".local/share/uprooted"@, '/'),
        Platform::MacOs => join_spec(l.home@, "Library/Application Support/uprooted"@, '/'),
    }
}

/// The directory this system owns and deploys its payload into.
pub fn get_uprooted_dir(l: &Layout) -> (r: String)
    ensures
        r@ == install_dir_spec(l),
{
    match l.platform {
        Platform::Windows => join_path(l.platform, l.local_app_data.as_str(), "Root\\uprooted"),
        Platform::Linux => join_path(l.platform, l.home.as_str(), ".local/share/uprooted"),
        Platform::MacOs => join_path(
            l.platform,
            l.home.as_str(),
            "Library/Application Support/uprooted",
        ),
    }
}

pub open spec fn profile_dir_spec(l: &Layout) -> Seq<char> {
    match l.platform {
        Platform::Windows => join_spec(
            l.local_app_data@,
            "Root Communications\\Root\\profile\\default"@,
            '\\',
        ),
        Platform::Linux => join_spec(
            l.home@,
            ".local/share/Root Communications/Root/profile/default"@,
            '/',
        ),
        Platform::MacOs => join_spec(
            l.home@,
            "Library/Application Support/Root Communications/Root/profile/default"@,
            '/',
        ),
    }
}

/// The target application's per-user profile directory.
pub fn get_profile_dir(l: &Layout) -> (r: String)
    ensures
        r@ == profile_dir_spec(l),
{
    match l.platform {
        Platform::Windows => join_path(
            l.platform,
            l.local_app_data.as_str(),
            "Root Communications\\Root\\profile\\default",
        ),
        Platform::Linux => join_path(
            l.platform,
            l.home.as_str(),
            ".local/share/Root Communications/Root/profile/default",
        ),
        Platform::MacOs => join_path(
            l.platform,
            l.home.as_str(),
            "Library/Application Support/Root Communications/Root/profile/default",
        ),
    }
}

pub open spec fn payload_name_spec(platform: Platform, p: Payload) -> Seq<char> {
    match p {
        Payload::Profiler => match platform {
            Platform::Windows => "uprooted_profiler.dll"@,
            Platform::Linux => "libuprooted_profiler.so"@,
            Platform::MacOs => "libuprooted_profiler.dylib"@,
        },
        Payload::HookDll => "UprootedHook.dll"@,
        Payload::HookDeps => "UprootedHook.deps.json"@,
        Payload::HookDllNet9 => "UprootedHook.net9.dll"@,
        Payload::HookDepsNet9 => "UprootedHook.net9.deps.json"@,
        Payload::PreloadJs => "uprooted-preload.js"@,
        Payload::ThemeCss => "uprooted.css"@,
        Payload::ContentFilterJs => "nsfw-filter.js"@,
        Payload::LinkEmbedsJs => "link-embeds.js"@,
    }
}

/// The file name a payload is deployed under.
pub fn payload_name(platform: Platform, p: Payload) -> (r: &'static str)
    ensures
        r@ == payload_name_spec(platform, p),
{
    match p {
        Payload::Profiler => match platform {
            Platform::Windows => "uprooted_profiler.dll",
            Platform::Linux => "libuprooted_profiler.so",
            Platform::MacOs => "libuprooted_profiler.dylib",
        },
        Payload::HookDll => "UprootedHook.dll",
        Payload::HookDeps => "UprootedHook.deps.json",
        Payload::HookDllNet9 => "UprootedHook.net9.dll",
        Payload::HookDepsNet9 => "UprootedHook.net9.deps.json",
        Payload::PreloadJs => "uprooted-preload.js",
        Payload::ThemeCss => "uprooted.css",
        Payload::ContentFilterJs => "nsfw-filter.js",
        Payload::LinkEmbedsJs => "link-embeds.js",
    }
}

/// Every payload, in deployment order.
pub open spec fn all_payloads() -> Seq<Payload> {
    seq![
        Payload::Profiler,
        Payload::HookDll,
        Payload::HookDeps,
        Payload::HookDllNet9,
        Payload::HookDepsNet9,
        Payload::PreloadJs,
        Payload::ThemeCss,
        Payload::ContentFilterJs,
        Payload::LinkEmbedsJs,
    ]
}

/// The payloads whose presence the status check requires.
pub open spec fn required_payloads() -> Seq<Payload> {
    seq![
        Payload::Profiler,
        Payload::HookDll,
        Payload::HookDeps,
        Payload::PreloadJs,
        Payload::ThemeCss,
    ]
}

pub fn payload_list() -> (r: Vec<Payload>)
    ensures
        r@ == all_payloads(),
{
    let r = vec![
        Payload::Profiler,
        Payload::HookDll,
        Payload::HookDeps,
        Payload::HookDllNet9,
        Payload::HookDepsNet9,
        Payload::PreloadJs,
        Payload::ThemeCss,
        Payload::ContentFilterJs,
        Payload::LinkEmbedsJs,
    ];
    assert(r@ =~= all_payloads());
    r
}

pub fn required_payload_list() -> (r: Vec<Payload>)
    ensures
        r@ == required_payloads(),
{
    let r = vec![
        Payload::Profiler,
        Payload::HookDll,
        Payload::HookDeps,
        Payload::PreloadJs,
        Payload::ThemeCss,
    ];
    assert(r@ =~= required_payloads());
    r
}

pub open spec fn payload_path_spec(l: &Layout, p: Payload) -> Seq<char> {
    join_spec(install_dir_spec(l), payload_name_spec(l.platform, p), separator(l.platform))
}

/// The full path a payload is deployed to.
pub fn payload_path(l: &Layout, p: Payload) -> (r: String)
    ensures
        r@ == payload_path_spec(l, p),
{
    let dir = get_uprooted_dir(l);
    join_path(l.platform, dir.as_str(), payload_name(l.platform, p))
}

} // verus!
