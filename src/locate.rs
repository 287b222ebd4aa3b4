//! Target locator: where the target application may be installed, and how
//! a file name, a desktop entry or a process's executable is recognised as
//! the target. The search itself walks these candidates in order; the
//! first that exists wins.
use vstd::prelude::*;
use crate::layout::{get_profile_dir, join_path, join_spec, profile_dir_spec, separator, Layout, Platform};
use crate::profile::{body, lemma_split_push, split_lines};
use crate::text::{chars_of, starts_with};

verus! {

/// `s` holds, from `i` on, the pattern given in lower case `lo` and upper
/// case `up`, letter by letter in either case.
pub open spec fn ci_at(s: Seq<char>, i: int, lo: Seq<char>, up: Seq<char>) -> bool {
    &&& 0 <= i
    &&& i + lo.len() <= s.len()
    &&& forall|j: int| 0 <= j < lo.len() ==> s[i + j] == lo[j] || s[i + j] == up[j]
}

pub open spec fn contains_ci(s: Seq<char>, lo: Seq<char>, up: Seq<char>) -> bool {
    exists|i: int| #[trigger] ci_at(s, i, lo, up)
}

pub open spec fn ends_ci(s: Seq<char>, lo: Seq<char>, up: Seq<char>) -> bool {
    lo.len() <= s.len() && ci_at(s, s.len() - lo.len(), lo, up)
}

fn ci_at_exec(s: &Vec<char>, i: usize, lo: &Vec<char>, up: &Vec<char>) -> (r: bool)
    requires
        lo@.len() == up@.len(),
    ensures
        r == ci_at(s@, i as int, lo@, up@),
{
    let n = s.len();
    if i > n || lo.len() > n - i {
        return false;
    }
    let mut j: usize = 0;
    while j < lo.len()
        invariant
            n == s@.len(),
            lo@.len() == up@.len(),
            i + lo@.len() <= n,
            j <= lo@.len(),
            forall|k: int| 0 <= k < j ==> s@[i + k] == lo@[k] || s@[i + k] == up@[k],
        decreases lo@.len() - j,
    {
        if s[i + j] != lo[j] && s[i + j] != up[j] {
            return false;
        }
        j += 1;
    }
    true
}

fn contains_ci_exec(s: &Vec<char>, lo: &Vec<char>, up: &Vec<char>) -> (r: bool)
    requires
        lo@.len() == up@.len(),
    ensures
        r == contains_ci(s@, lo@, up@),
{
    let n = s.len();
    let mut i: usize = 0;
    loop
        invariant
            n == s@.len(),
            lo@.len() == up@.len(),
            i <= n,
            forall|k: int| 0 <= k < i ==> !ci_at(s@, k, lo@, up@),
        decreases n - i,
    {
        if ci_at_exec(s, i, lo, up) {
            return true;
        }
        if i == n {
            assert forall|k: int| !ci_at(s@, k, lo@, up@) by {
                if 0 <= k <= i {
                } else {
                }
            }
            return false;
        }
        i += 1;
    }
}

fn ends_ci_exec(s: &Vec<char>, lo: &Vec<char>, up: &Vec<char>) -> (r: bool)
    requires
        lo@.len() == up@.len(),
    ensures
        r == ends_ci(s@, lo@, up@),
{
    if lo.len() > s.len() {
        false
    } else {
        ci_at_exec(s, s.len() - lo.len(), lo, up)
    }
}

fn pattern(lo: &str, up: &str) -> (r: (Vec<char>, Vec<char>))
    requires
        lo@.len() == up@.len(),
    ensures
        r.0@ == lo@,
        r.1@ == up@,
{
    (chars_of(lo), chars_of(up))
}

/// A file name of the target's application image: it starts with "root"
/// and ends with ".appimage", in any letter case.
pub open spec fn is_target_file_name_spec(name: Seq<char>) -> bool {
    ci_at(name, 0, "root"@, "ROOT"@) && ends_ci(name, ".appimage"@, ".APPIMAGE"@)
}

/// Whether a file name found in a searched directory is the target's image.
pub fn is_target_file_name(name: &str) -> (r: bool)
    ensures
        r == is_target_file_name_spec(name@),
{
    proof {
        reveal_strlit("root");
        reveal_strlit("ROOT");
        reveal_strlit(".appimage");
        reveal_strlit(".APPIMAGE");
    }
    let v = chars_of(name);
    let (a, b) = pattern("root", "ROOT");
    let (c, d) = pattern(".appimage", ".APPIMAGE");
    ci_at_exec(&v, 0, &a, &b) && ends_ci_exec(&v, &c, &d)
}

/// A running process's executable that is the target: its path names both
/// "root" and "appimage", or ends with "/root", in any letter case.
pub open spec fn is_target_process_exe_spec(path: Seq<char>) -> bool {
    (contains_ci(path, "root"@, "ROOT"@) && contains_ci(path, "appimage"@, "APPIMAGE"@)) || ends_ci(
        path,
        "/root"@,
        "/ROOT"@,
    )
}

/// Whether a process's executable path is the target.
pub fn is_target_process_exe(path: &str) -> (r: bool)
    ensures
        r == is_target_process_exe_spec(path@),
{
    proof {
        reveal_strlit("root");
        reveal_strlit("ROOT");
        reveal_strlit("appimage");
        reveal_strlit("APPIMAGE");
        reveal_strlit("/root");
        reveal_strlit("/ROOT");
    }
    let v = chars_of(path);
    let (a, b) = pattern("root", "ROOT");
    let (c, d) = pattern("appimage", "APPIMAGE");
    let (e, f) = pattern("/root", "/ROOT");
    (contains_ci_exec(&v, &a, &b) && contains_ci_exec(&v, &c, &d)) || ends_ci_exec(&v, &e, &f)
}

/// The executable name of the target's process on Windows, in any letter case.
pub open spec fn is_target_process_name_spec(name: Seq<char>) -> bool {
    name.len() == "root.exe"@.len() && ci_at(name, 0, "root.exe"@, "ROOT.EXE"@)
}

/// Whether a process's executable name is the target's.
pub fn is_target_process_name(name: &str) -> (r: bool)
    ensures
        r == is_target_process_name_spec(name@),
{
    proof {
        reveal_strlit("root.exe");
        reveal_strlit("ROOT.EXE");
    }
    let v = chars_of(name);
    let (a, b) = pattern("root.exe", "ROOT.EXE");
    v.len() == a.len() && ci_at_exec(&v, 0, &a, &b)
}

/// A directory entry of the process table: its name is all decimal digits.
pub open spec fn is_process_dir_name_spec(name: Seq<char>) -> bool {
    forall|i: int| 0 <= i < name.len() ==> '0' <= #[trigger] name[i] <= '9'
}

/// Whether a process-table entry names a process.
pub fn is_process_dir_name(name: &str) -> (r: bool)
    ensures
        r == is_process_dir_name_spec(name@),
{
    let v = chars_of(name);
    let mut i: usize = 0;
    while i < v.len()
        invariant
            v@ == name@,
            i <= v@.len(),
            forall|k: int| 0 <= k < i ==> '0' <= #[trigger] v@[k] <= '9',
        decreases v@.len() - i,
    {
        if v[i] < '0' || v[i] > '9' {
            return false;
        }
        i += 1;
    }
    true
}

/// A desktop entry file: a name with the extension "desktop".
pub open spec fn is_desktop_file_name_spec(name: Seq<char>) -> bool {
    name.len() > ".desktop"@.len() && name.subrange(name.len() - 8, name.len() as int)
        == ".desktop"@
}

/// Whether a file name is a desktop entry's.
pub fn is_desktop_file_name(name: &str) -> (r: bool)
    ensures
        r == is_desktop_file_name_spec(name@),
{
    proof {
        reveal_strlit(".desktop");
    }
    let v = chars_of(name);
    let (a, b) = pattern(".desktop", ".desktop");
    if v.len() <= 8 {
        return false;
    }
    let r = ci_at_exec(&v, v.len() - 8, &a, &b);
    assert(r == (v@.subrange(v@.len() - 8, v@.len() as int) =~= ".desktop"@));
    r
}

fn concat(a: &str, b: &str) -> (r: String)
    ensures
        r@ == a@ + b@,
{
    let mut r = String::from_str(a);
    r.append(b);
    r
}

pub open spec fn exe_path_spec(l: &Layout) -> Seq<char> {
    match l.platform {
        Platform::Windows => join_spec(l.local_app_data@, "Root\\current\\Root.exe"@, '\\'),
        Platform::Linux => l.home@ + "/Applications/Root.AppImage"@,
        Platform::MacOs => l.home@ + "/Applications/Root.app/Contents/MacOS/Root"@,
    }
}

/// The target executable's well-known location on Windows and macOS; on
/// Linux the location reported when no search finds it.
pub fn get_root_exe_path(l: &Layout) -> (r: String)
    ensures
        r@ == exe_path_spec(l),
{
    match l.platform {
        Platform::Windows => join_path(l.platform, l.local_app_data.as_str(), "Root\\current\\Root.exe"),
        Platform::Linux => concat(l.home.as_str(), "/Applications/Root.AppImage"),
        Platform::MacOs => concat(l.home.as_str(), "/Applications/Root.app/Contents/MacOS/Root"),
    }
}

pub open spec fn exe_candidates_spec(home: Seq<char>) -> Seq<Seq<char>> {
    seq![
        home + "/Applications/Root.AppImage"@,
        home + "/Downloads/Root.AppImage"@,
        home + "/.local/bin/Root.AppImage"@,
        "/opt/Root.AppImage"@,
        "/usr/bin/Root.AppImage"@,
        home + "/.local/bin/Root"@,
    ]
}

pub open spec fn strings(v: Seq<String>) -> Seq<Seq<char>> {
    v.map_values(|s: String| s@)
}

fn push_str(v: &mut Vec<String>, s: String)
    ensures
        strings(final(v)@) == strings(old(v)@).push(s@),
{
    v.push(s);
    assert(strings(final(v)@) =~= strings(old(v)@).push(s@));
}

/// The exact paths the target is looked for at first, in order (Linux).
pub fn exe_candidates(l: &Layout) -> (r: Vec<String>)
    ensures
        strings(r@) == exe_candidates_spec(l.home@),
{
    let h = l.home.as_str();
    let mut r: Vec<String> = Vec::new();
    assert(strings(r@) =~= Seq::<Seq<char>>::empty());
    push_str(&mut r, concat(h, "/Applications/Root.AppImage"));
    push_str(&mut r, concat(h, "/Downloads/Root.AppImage"));
    push_str(&mut r, concat(h, "/.local/bin/Root.AppImage"));
    push_str(&mut r, String::from_str("/opt/Root.AppImage"));
    push_str(&mut r, String::from_str("/usr/bin/Root.AppImage"));
    push_str(&mut r, concat(h, "/.local/bin/Root"));
    assert(strings(r@) =~= exe_candidates_spec(l.home@));
    r
}

pub open spec fn search_dirs_spec(home: Seq<char>) -> Seq<Seq<char>> {
    seq![
        home + "/Applications"@,
        home + "/Downloads"@,
        home + "/.local/bin"@,
        home + "/Desktop"@,
        home,
        "/opt"@,
        "/usr/bin"@,
        "/usr/local/bin"@,
    ]
}

/// The directories scanned for a file named like the target's image, in
/// order (Linux).
pub fn search_dirs(l: &Layout) -> (r: Vec<String>)
    ensures
        strings(r@) == search_dirs_spec(l.home@),
{
    let h = l.home.as_str();
    let mut r: Vec<String> = Vec::new();
    assert(strings(r@) =~= Seq::<Seq<char>>::empty());
    push_str(&mut r, concat(h, "/Applications"));
    push_str(&mut r, concat(h, "/Downloads"));
    push_str(&mut r, concat(h, "/.local/bin"));
    push_str(&mut r, concat(h, "/Desktop"));
    push_str(&mut r, String::from_str(h));
    push_str(&mut r, String::from_str("/opt"));
    push_str(&mut r, String::from_str("/usr/bin"));
    push_str(&mut r, String::from_str("/usr/local/bin"));
    assert(strings(r@) =~= search_dirs_spec(l.home@));
    r
}

pub open spec fn desktop_dirs_spec(home: Seq<char>) -> Seq<Seq<char>> {
    seq![
        home + "/.local/share/applications"@,
        "/usr/share/applications"@,
        "/usr/local/share/applications"@,
    ]
}

/// The directories whose desktop entries are read, in order (Linux).
pub fn desktop_dirs(l: &Layout) -> (r: Vec<String>)
    ensures
        strings(r@) == desktop_dirs_spec(l.home@),
{
    let mut r: Vec<String> = Vec::new();
    assert(strings(r@) =~= Seq::<Seq<char>>::empty());
    push_str(&mut r, concat(l.home.as_str(), "/.local/share/applications"));
    push_str(&mut r, String::from_str("/usr/share/applications"));
    push_str(&mut r, String::from_str("/usr/local/share/applications"));
    assert(strings(r@) =~= desktop_dirs_spec(l.home@));
    r
}

pub open spec fn html_candidates_spec(l: &Layout, app_dirs: Seq<Seq<char>>) -> Seq<Seq<char>> {
    let sep = separator(l.platform);
    let apps = join_spec(profile_dir_spec(l), "RootApps"@, sep);
    seq![join_spec(join_spec(profile_dir_spec(l), "WebRtcBundle"@, sep), "index.html"@, sep)]
        + app_dirs.map_values(|d: Seq<char>| join_spec(join_spec(apps, d, sep), "index.html"@, sep))
}

/// The target's bundled HTML entry points: the primary bundle's, then one
/// per extension directory named in `app_dirs`. Those that exist are the
/// assets.
pub fn html_candidates(l: &Layout, app_dirs: &Vec<String>) -> (r: Vec<String>)
    ensures
        strings(r@) == html_candidates_spec(l, strings(app_dirs@)),
{
    let profile = get_profile_dir(l);
    let bundle = join_path(l.platform, profile.as_str(), "WebRtcBundle");
    let apps = join_path(l.platform, profile.as_str(), "RootApps");
    let mut r: Vec<String> = Vec::new();
    assert(strings(r@) =~= Seq::<Seq<char>>::empty());
    push_str(&mut r, join_path(l.platform, bundle.as_str(), "index.html"));
    let mut i: usize = 0;
    while i < app_dirs.len()
        invariant
            i <= app_dirs@.len(),
            apps@ == join_spec(profile_dir_spec(l), "RootApps"@, separator(l.platform)),
            strings(r@) == html_candidates_spec(l, strings(app_dirs@).subrange(0, i as int)),
        decreases app_dirs@.len() - i,
    {
        let d = join_path(l.platform, apps.as_str(), app_dirs[i].as_str());
        push_str(&mut r, join_path(l.platform, d.as_str(), "index.html"));
        assert(strings(app_dirs@).subrange(0, i + 1) =~= strings(app_dirs@).subrange(
            0,
            i as int,
        ).push(app_dirs@[i as int]@));
        assert(strings(r@) =~= html_candidates_spec(
            l,
            strings(app_dirs@).subrange(0, i + 1),
        ));
        i += 1;
    }
    assert(strings(app_dirs@).subrange(0, i as int) =~= strings(app_dirs@));
    r
}

/// A white-space character of Unicode (the `White_Space` property).
pub open spec fn is_ws(c: char) -> bool {
    ('\t' <= c <= '\r') || c == ' ' || c == '\u{85}' || c == '\u{A0}' || c == '\u{1680}' || (
    '\u{2000}' <= c <= '\u{200A}') || c == '\u{2028}' || c == '\u{2029}' || c == '\u{202F}'
        || c == '\u{205F}' || c == '\u{3000}'
}

fn is_ws_exec(c: char) -> (r: bool)
    ensures
        r == is_ws(c),
{
    ('\t' <= c && c <= '\r') || c == ' ' || c == '\u{85}' || c == '\u{A0}' || c == '\u{1680}' || (
    '\u{2000}' <= c && c <= '\u{200A}') || c == '\u{2028}' || c == '\u{2029}' || c == '\u{202F}'
        || c == '\u{205F}' || c == '\u{3000}'
}

pub open spec fn skip_ws(s: Seq<char>) -> Seq<char>
    decreases s.len(),
{
    if s.len() > 0 && is_ws(s[0]) {
        skip_ws(s.drop_first())
    } else {
        s
    }
}

pub open spec fn take_token(s: Seq<char>) -> Seq<char>
    decreases s.len(),
{
    if s.len() == 0 || is_ws(s[0]) {
        Seq::empty()
    } else {
        seq![s[0]] + take_token(s.drop_first())
    }
}

/// The first whitespace-delimited token of `s`; field codes such as `%U`
/// that follow it are left out.
pub open spec fn first_token(s: Seq<char>) -> Seq<char> {
    take_token(skip_ws(s))
}

pub open spec fn is_name_line(b: Seq<char>) -> bool {
    starts_with(b, "Name="@) && contains_ci(b, "root"@, "ROOT"@)
}

/// Some line declares a name that references the target.
pub open spec fn has_name_line(ls: Seq<Seq<char>>) -> bool
    decreases ls.len(),
{
    if ls.len() == 0 {
        false
    } else {
        has_name_line(ls.drop_last()) || is_name_line(body(ls.last()))
    }
}

/// The program of every `Exec=` line, in order.
pub open spec fn exec_tokens(ls: Seq<Seq<char>>) -> Seq<Seq<char>>
    decreases ls.len(),
{
    if ls.len() == 0 {
        Seq::empty()
    } else {
        let b = body(ls.last());
        exec_tokens(ls.drop_last()) + if starts_with(b, "Exec="@) {
            seq![first_token(b.subrange(5, b.len() as int))]
        } else {
            Seq::empty()
        }
    }
}

/// The programs a desktop entry launches, where the entry's file name or
/// its declared name references the target; none otherwise.
pub open spec fn desktop_exec_spec(file_name: Seq<char>, content: Seq<char>) -> Seq<Seq<char>> {
    if contains_ci(file_name, "root"@, "ROOT"@) || has_name_line(split_lines(content)) {
        exec_tokens(split_lines(content))
    } else {
        Seq::empty()
    }
}

/// The first token of `v[lo..hi]`, as its bounds in `v`.
fn token_bounds(v: &Vec<char>, lo: usize, hi: usize) -> (r: (usize, usize))
    requires
        lo <= hi <= v@.len(),
    ensures
        lo <= r.0 <= r.1 <= hi,
        v@.subrange(r.0 as int, r.1 as int) == first_token(v@.subrange(lo as int, hi as int)),
{
    let mut i = lo;
    while i < hi && is_ws_exec(v[i])
        invariant
            lo <= i <= hi <= v@.len(),
            skip_ws(v@.subrange(lo as int, hi as int)) == skip_ws(v@.subrange(i as int, hi as int)),
        decreases hi - i,
    {
        assert(v@.subrange(i as int, hi as int).drop_first() =~= v@.subrange(i + 1, hi as int));
        i += 1;
    }
    assert(skip_ws(v@.subrange(i as int, hi as int)) == v@.subrange(i as int, hi as int));
    let mut j = i;
    while j < hi && !is_ws_exec(v[j])
        invariant
            i <= j <= hi <= v@.len(),
            take_token(v@.subrange(i as int, hi as int)) == v@.subrange(i as int, j as int)
                + take_token(v@.subrange(j as int, hi as int)),
        decreases hi - j,
    {
        assert(v@.subrange(j as int, hi as int).drop_first() =~= v@.subrange(j + 1, hi as int));
        assert(v@.subrange(i as int, j + 1) =~= v@.subrange(i as int, j as int) + seq![v@[j as int]]);
        j += 1;
    }
    assert(take_token(v@.subrange(j as int, hi as int)) == Seq::<char>::empty());
    assert(v@.subrange(i as int, j as int) + Seq::<char>::empty() =~= v@.subrange(i as int, j as int));
    (i, j)
}

/// Reads a desktop entry: the programs of its `Exec=` lines, where its
/// file name or declared name references the target.
pub fn desktop_exec_paths(file_name: &str, content: &str) -> (r: Vec<String>)
    ensures
        strings(r@) == desktop_exec_spec(file_name@, content@),
{
    proof {
        reveal_strlit("root");
        reveal_strlit("ROOT");
        reveal_strlit("Name=");
        reveal_strlit("Exec=");
    }
    let v = chars_of(content);
    let n = v.len();
    let (lo, up) = pattern("root", "ROOT");
    let name_prefix = chars_of("Name=");
    let exec_prefix = chars_of("Exec=");
    let mut tokens: Vec<String> = Vec::new();
    let mut named = false;
    let mut start: usize = 0;
    let mut i: usize = 0;
    assert(content@.subrange(0, 0) =~= Seq::<char>::empty());
    assert(strings(tokens@) =~= Seq::<Seq<char>>::empty());
    while i < n
        invariant
            n == v@.len(),
            v@ == content@,
            lo@ == "root"@,
            up@ == "ROOT"@,
            lo@.len() == up@.len(),
            name_prefix@ == "Name="@,
            exec_prefix@ == "Exec="@,
            name_prefix@.len() == 5,
            exec_prefix@.len() == 5,
            start <= i <= n,
            i == n ==> start == n,
            start < n ==> (start == 0 || v@[start - 1] == '\n'),
            forall|k: int| start <= k < i ==> v@[k] != '\n',
            strings(tokens@) == exec_tokens(split_lines(content@.subrange(0, start as int))),
            named == has_name_line(split_lines(content@.subrange(0, start as int))),
        decreases n - i,
    {
        if v[i] == '\n' || i + 1 == n {
            let end = i + 1;
            let body_end = if v[i] == '\n' {
                i
            } else {
                end
            };
            let ghost b = v@.subrange(start as int, body_end as int);
            proof {
                let a = content@.subrange(0, start as int);
                let ln = content@.subrange(start as int, end as int);
                assert(content@.subrange(0, end as int) =~= a + ln);
                if start > 0 {
                    assert(a.last() == v@[start - 1]);
                }
                lemma_split_push(a, ln);
                assert(split_lines(a).push(ln).drop_last() =~= split_lines(a));
                assert(b =~= body(ln));
            }
            let is_exec = body_end - start >= 5 && occurs_at_range(&v, start, body_end, &exec_prefix);
            let is_name = body_end - start >= 5 && occurs_at_range(&v, start, body_end, &name_prefix)
                && contains_ci_range(&v, start, body_end, &lo, &up);
            proof {
                assert(is_exec == starts_with(b, "Exec="@));
                assert(is_name == is_name_line(b));
            }
            if is_name {
                named = true;
            }
            if is_exec {
                let (ts, te) = token_bounds(&v, start + 5, body_end);
                proof {
                    assert(v@.subrange(start + 5, body_end as int) =~= b.subrange(5, b.len() as int));
                }
                let tok = content.substring_char(ts, te);
                let ghost before = strings(tokens@);
                push_str(&mut tokens, String::from_str(tok));
                proof {
                    assert(strings(tokens@) =~= before + seq![first_token(b.subrange(5, b.len() as int))]);
                }
            } else {
                proof {
                    assert(strings(tokens@) =~= strings(tokens@) + Seq::<Seq<char>>::empty());
                }
            }
            start = end;
        }
        i += 1;
    }
    assert(content@.subrange(0, n as int) =~= content@);
    let fv = chars_of(file_name);
    if contains_ci_exec(&fv, &lo, &up) || named {
        tokens
    } else {
        let e: Vec<String> = Vec::new();
        assert(strings(e@) =~= Seq::<Seq<char>>::empty());
        e
    }
}

/// Whether `p` occurs at the start of `v[lo..hi]`.
fn occurs_at_range(v: &Vec<char>, lo: usize, hi: usize, p: &Vec<char>) -> (r: bool)
    requires
        lo <= hi <= v@.len(),
    ensures
        r == starts_with(v@.subrange(lo as int, hi as int), p@),
{
    if p.len() > hi - lo {
        return false;
    }
    let mut j: usize = 0;
    while j < p.len()
        invariant
            lo + p@.len() <= hi <= v@.len(),
            j <= p@.len(),
            forall|k: int| 0 <= k < j ==> v@[lo + k] == p@[k],
        decreases p@.len() - j,
    {
        if v[lo + j] != p[j] {
            assert(v@.subrange(lo as int, hi as int).subrange(0, p@.len() as int)[j as int] != p@[j as int]);
            return false;
        }
        j += 1;
    }
    assert(v@.subrange(lo as int, hi as int).subrange(0, p@.len() as int) =~= p@);
    true
}

/// Whether `v[lo..hi]` holds the pattern in either letter case.
fn contains_ci_range(v: &Vec<char>, lo: usize, hi: usize, a: &Vec<char>, b: &Vec<char>) -> (r: bool)
    requires
        lo <= hi <= v@.len(),
        a@.len() == b@.len(),
    ensures
        r == contains_ci(v@.subrange(lo as int, hi as int), a@, b@),
{
    let s = slice_of(v, lo, hi);
    contains_ci_exec(&s, a, b)
}

fn slice_of(v: &Vec<char>, lo: usize, hi: usize) -> (r: Vec<char>)
    requires
        lo <= hi <= v@.len(),
    ensures
        r@ == v@.subrange(lo as int, hi as int),
{
    let mut r: Vec<char> = Vec::new();
    let mut k = lo;
    while k < hi
        invariant
            lo <= k <= hi <= v@.len(),
            r@ == v@.subrange(lo as int, k as int),
        decreases hi - k,
    {
        r.push(v[k]);
        k += 1;
    }
    r
}

/// The first of `cands` whose flag in `found` is set.
pub open spec fn first_found(cands: Seq<Seq<char>>, found: Seq<bool>) -> Option<Seq<char>>
    decreases cands.len(),
{
    if cands.len() == 0 || found.len() == 0 {
        None
    } else if found[0] {
        Some(cands[0])
    } else {
        first_found(cands.drop_first(), found.drop_first())
    }
}

/// The first of `cands` that was found to exist (`found` holds, in the same
/// order, whether each exists).
pub fn first_existing(cands: &Vec<String>, found: &Vec<bool>) -> (r: Option<String>)
    ensures
        match r {
            Some(p) => first_found(strings(cands@), found@) == Some(p@),
            None => first_found(strings(cands@), found@) is None,
        },
{
    let mut i: usize = 0;
    assert(strings(cands@).subrange(0, cands@.len() as int) =~= strings(cands@));
    assert(found@.subrange(0, found@.len() as int) =~= found@);
    while i < cands.len() && i < found.len()
        invariant
            i <= cands@.len(),
            i <= found@.len(),
            forall|k: int| 0 <= k < i ==> !found@[k],
            first_found(strings(cands@), found@) == first_found(
                strings(cands@).subrange(i as int, cands@.len() as int),
                found@.subrange(i as int, found@.len() as int),
            ),
        decreases cands@.len() - i,
    {
        if found[i] {
            let r = cands[i].clone();
            proof {
                let c = strings(cands@).subrange(i as int, cands@.len() as int);
                assert(c[0] == cands@[i as int]@);
            }
            return Some(r);
        }
        proof {
            let c = strings(cands@).subrange(i as int, cands@.len() as int);
            let f = found@.subrange(i as int, found@.len() as int);
            assert(c.drop_first() =~= strings(cands@).subrange(i + 1, cands@.len() as int));
            assert(f.drop_first() =~= found@.subrange(i + 1, found@.len() as int));
        }
        i += 1;
    }
    None
}

pub open spec fn first_some(hits: Seq<Option<Seq<char>>>) -> Option<Seq<char>>
    decreases hits.len(),
{
    if hits.len() == 0 {
        None
    } else if hits[0] is Some {
        hits[0]
    } else {
        first_some(hits.drop_first())
    }
}

pub open spec fn hits_view(hits: Seq<Option<String>>) -> Seq<Option<Seq<char>>> {
    hits.map_values(|o: Option<String>| crate::envconf::opt_view(o))
}

/// The target executable: the hit of the first search tier that found one
/// (`hits` holds each tier's result, in order), or the well-known location
/// where none did.
pub fn select_target(l: &Layout, hits: &Vec<Option<String>>) -> (r: String)
    ensures
        r@ == match first_some(hits_view(hits@)) {
            Some(p) => p,
            None => exe_path_spec(l),
        },
{
    let mut i: usize = 0;
    assert(hits_view(hits@).subrange(0, hits@.len() as int) =~= hits_view(hits@));
    while i < hits.len()
        invariant
            i <= hits@.len(),
            first_some(hits_view(hits@)) == first_some(
                hits_view(hits@).subrange(i as int, hits@.len() as int),
            ),
        decreases hits@.len() - i,
    {
        let ghost rest = hits_view(hits@).subrange(i as int, hits@.len() as int);
        if let Some(p) = &hits[i] {
            assert(rest[0] == Some(p@));
            return p.clone();
        }
        assert(rest.drop_first() =~= hits_view(hits@).subrange(i + 1, hits@.len() as int));
        i += 1;
    }
    get_root_exe_path(l)
}

} // verus!
