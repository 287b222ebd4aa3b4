//! What holds of the operations together, over the modelled world.
use vstd::prelude::*;
use crate::envconf::{
    assigns, block_lines, block_marker, first_set, flags_ok, guid, profile_block_spec, terminated,
    text_flags, value_flags, EnvFlags, EnvValuesView,
};
use crate::hook::{
    step_plan,
    count_present, reset_plan, settings_path_spec,
    remove_plan, clean_plan, registry_remove_plan,
    append_plan, apply, apply_one, deploy_plan, desktop_entry_path_spec,
    linux_set_plan, login_profile_path_spec, macos_set_plan, registry_set_plan,
    session_env_path_spec, session_script_path_spec, set_plan, text_of, wrapper_path_spec,
    EffectView, Entry, World,
};
use crate::layout::{
    install_dir_spec, join_spec, payload_name_spec, payload_path_spec, profile_dir_spec,
    separator, Layout, Payload, Platform,
};
use crate::hook::{under, settings_name};
use crate::profile::{
    append_spec, has_configuration, lemma_contains_extend, lemma_strip_appended,
    needs_cleaning, no_break, stripped,
};
use crate::layout::required_payloads;
use crate::status::{first_text, status_spec, HookStatus};
use crate::pipeline::{
    advance_spec, next_action_spec, start_spec, Action, InstallerMode, OutcomeView, StatusView,
    StepKind,
};
use crate::text::{contains, occurs_at};

verus! {

/// An effect that sets or deletes one entry without reading it.
pub open spec fn overwriting(e: EffectView) -> bool {
    !(e is AppendText || e is RemoveTree)
}

/// `m` with the entries of `u` put in place: a key of `u` is set to its
/// value, or removed where that is `None`.
pub open spec fn overlay<V>(m: Map<Seq<char>, V>, u: Map<Seq<char>, Option<V>>) -> Map<
    Seq<char>,
    V,
> {
    Map::new(
        |k: Seq<char>|
            if u.contains_key(k) {
                u[k] is Some
            } else {
                m.contains_key(k)
            },
        |k: Seq<char>|
            if u.contains_key(k) {
                u[k]->Some_0
            } else {
                m[k]
            },
    )
}

/// The last setting or deletion of each file path in `es`.
pub open spec fn file_updates(es: Seq<EffectView>) -> Map<Seq<char>, Option<Entry>>
    decreases es.len(),
{
    if es.len() == 0 {
        Map::empty()
    } else {
        let u = file_updates(es.drop_last());
        match es.last() {
            EffectView::WritePayload(p, x) => u.insert(p, Some(Entry::Payload(x))),
            EffectView::WriteText(p, t, _) => u.insert(p, Some(Entry::Text(t))),
            EffectView::RemoveFile(p, _) => u.insert(p, None),
            _ => u,
        }
    }
}

/// The last setting or deletion of each registry value in `es`.
pub open spec fn registry_updates(es: Seq<EffectView>) -> Map<Seq<char>, Option<Seq<char>>>
    decreases es.len(),
{
    if es.len() == 0 {
        Map::empty()
    } else {
        let u = registry_updates(es.drop_last());
        match es.last() {
            EffectView::SetValue(n, v) => u.insert(n, Some(v)),
            EffectView::DeleteValue(n) => u.insert(n, None),
            _ => u,
        }
    }
}

pub open spec fn all_overwriting(es: Seq<EffectView>) -> bool {
    forall|i: int| 0 <= i < es.len() ==> overwriting(#[trigger] es[i])
}

/// Overwriting effects put their last settings in place.
pub proof fn lemma_apply_overwriting(w: World, es: Seq<EffectView>, sep: char)
    requires
        all_overwriting(es),
    ensures
        apply(w, es, sep) == (World {
            files: overlay(w.files, file_updates(es)),
            registry: overlay(w.registry, registry_updates(es)),
        }),
    decreases es.len(),
{
    if es.len() == 0 {
        assert(overlay(w.files, file_updates(es)) =~= w.files);
        assert(overlay(w.registry, registry_updates(es)) =~= w.registry);
    } else {
        let es1 = es.drop_last();
        assert forall|i: int| 0 <= i < es1.len() implies overwriting(#[trigger] es1[i]) by {
            assert(es1[i] == es[i]);
        }
        lemma_apply_overwriting(w, es1, sep);
        let e = es.last();
        assert(overwriting(es[es.len() - 1]));
        let w1 = apply(w, es1, sep);
        let fu = file_updates(es1);
        let ru = registry_updates(es1);
        match e {
            EffectView::WritePayload(p, x) => {
                assert(overlay(w.files, fu).insert(p, Entry::Payload(x)) =~= overlay(
                    w.files,
                    fu.insert(p, Some(Entry::Payload(x))),
                ));
            },
            EffectView::WriteText(p, t, _) => {
                assert(overlay(w.files, fu).insert(p, Entry::Text(t)) =~= overlay(
                    w.files,
                    fu.insert(p, Some(Entry::Text(t))),
                ));
            },
            EffectView::RemoveFile(p, _) => {
                assert(overlay(w.files, fu).remove(p) =~= overlay(w.files, fu.insert(p, None)));
            },
            EffectView::SetValue(n, v) => {
                assert(overlay(w.registry, ru).insert(n, v) =~= overlay(
                    w.registry,
                    ru.insert(n, Some(v)),
                ));
            },
            EffectView::DeleteValue(n) => {
                assert(overlay(w.registry, ru).remove(n) =~= overlay(
                    w.registry,
                    ru.insert(n, None),
                ));
            },
            _ => {},
        }
    }
}

proof fn lemma_overlay_twice<V>(m: Map<Seq<char>, V>, u: Map<Seq<char>, Option<V>>)
    ensures
        overlay(overlay(m, u), u) == overlay(m, u),
{
    assert(overlay(overlay(m, u), u) =~= overlay(m, u));
}

/// Overwriting effects performed twice leave what performing them once left.
pub proof fn lemma_overwriting_idempotent(w: World, es: Seq<EffectView>, sep: char)
    requires
        all_overwriting(es),
    ensures
        apply(apply(w, es, sep), es, sep) == apply(w, es, sep),
{
    lemma_apply_overwriting(w, es, sep);
    lemma_apply_overwriting(apply(w, es, sep), es, sep);
    lemma_overlay_twice(w.files, file_updates(es));
    lemma_overlay_twice(w.registry, registry_updates(es));
}

/// Deploying again changes nothing: every payload file ends up with the
/// same contents whether the deployment ran once or twice.
pub proof fn lemma_deploy_idempotent(l: &Layout, w: World)
    ensures
        apply(apply(w, deploy_plan(l), separator(l.platform)), deploy_plan(l), separator(l.platform))
            == apply(w, deploy_plan(l), separator(l.platform)),
{
    let es = deploy_plan(l);
    assert forall|i: int| 0 <= i < es.len() implies overwriting(#[trigger] es[i]) by {}
    lemma_overwriting_idempotent(w, es, separator(l.platform));
}

/// Whether `e` sets or deletes the file at `k`.
pub open spec fn targets(e: EffectView, k: Seq<char>) -> bool {
    match e {
        EffectView::WritePayload(p, _) => p == k,
        EffectView::WriteText(p, _, _) => p == k,
        EffectView::RemoveFile(p, _) => p == k,
        _ => false,
    }
}

proof fn lemma_untouched(es: Seq<EffectView>, k: Seq<char>)
    requires
        forall|i: int| 0 <= i < es.len() ==> !targets(#[trigger] es[i], k),
    ensures
        !file_updates(es).contains_key(k),
    decreases es.len(),
{
    if es.len() > 0 {
        let es1 = es.drop_last();
        assert forall|i: int| 0 <= i < es1.len() implies !targets(#[trigger] es1[i], k) by {
            assert(es1[i] == es[i]);
        }
        lemma_untouched(es1, k);
        assert(!targets(es[es.len() - 1], k));
    }
}

proof fn lemma_join_len(d: Seq<char>, n: Seq<char>, sep: char)
    ensures
        join_spec(d, n, sep).len() == d.len() + n.len() + if d.len() > 0 && d.last() != sep {
            1int
        } else {
            0int
        },
        n.len() > 0 ==> join_spec(d, n, sep).last() == n.last(),
{
}

/// The login profile is none of the other channels' files.
proof fn lemma_profile_distinct(l: &Layout)
    requires
        l.platform != Platform::Windows,
    ensures
        login_profile_path_spec(l) != session_env_path_spec(l),
        login_profile_path_spec(l) != session_script_path_spec(l),
        login_profile_path_spec(l) != desktop_entry_path_spec(l),
        login_profile_path_spec(l) != wrapper_path_spec(l),
{
    reveal_strlit(".profile");
    reveal_strlit(".zprofile");
    reveal_strlit(".config/environment.d/uprooted.conf");
    reveal_strlit(".config/plasma-workspace/env/uprooted.sh");
    reveal_strlit(".local/share/applications/root-uprooted.desktop");
    reveal_strlit("launch-root.sh");
    reveal_strlit(".local/share/uprooted");
    reveal_strlit("Library/Application Support/uprooted");
    let h = l.home@;
    lemma_join_len(h, ".profile"@, '/');
    lemma_join_len(h, ".zprofile"@, '/');
    lemma_join_len(h, ".config/environment.d/uprooted.conf"@, '/');
    lemma_join_len(h, ".config/plasma-workspace/env/uprooted.sh"@, '/');
    lemma_join_len(h, ".local/share/applications/root-uprooted.desktop"@, '/');
    lemma_join_len(h, ".local/share/uprooted"@, '/');
    lemma_join_len(h, "Library/Application Support/uprooted"@, '/');
    let d = install_dir_spec(l);
    lemma_join_len(d, "launch-root.sh"@, '/');
    assert(d.len() > 0);
    assert(d.last() == 'd');
}

proof fn lemma_contains_terminated(ls: Seq<Seq<char>>, k: int, x: Seq<char>)
    requires
        0 <= k < ls.len(),
        contains(ls[k], x),
    ensures
        contains(terminated(ls), x),
    decreases ls.len(),
{
    if k < ls.len() - 1 {
        lemma_contains_terminated(ls.drop_last(), k, x);
        lemma_contains_extend(terminated(ls.drop_last()), crate::envconf::line(ls.last()), x);
    } else {
        assert(crate::envconf::line(ls.last()) =~= ls.last() + seq!['\n']);
        lemma_contains_extend(ls.last(), seq!['\n'], x);
        lemma_contains_extend(terminated(ls.drop_last()), crate::envconf::line(ls.last()), x);
    }
}

/// The block appended after a line break, to the text `o`.
pub open spec fn with_block(o: Seq<char>, path: Seq<char>) -> Seq<char> {
    o + (seq!['\n'] + profile_block_spec(path))
}

/// Text ending with the appended block holds a configuration and the
/// block's marker.
proof fn lemma_block_configures(o: Seq<char>, path: Seq<char>)
    ensures
        has_configuration(with_block(o, path)),
        needs_cleaning(with_block(o, path)),
{
    let ls = block_lines(path);
    reveal_strlit("export DOTNET_ENABLE_PROFILING=1");
    reveal_strlit("DOTNET_ENABLE_PROFILING");
    reveal_strlit("# Uprooted CLR profiler (remove these lines to disable)");
    reveal_strlit("# Uprooted CLR profiler");
    assert(ls[3] == "export DOTNET_ENABLE_PROFILING=1"@);
    assert(ls[3].subrange(7, 30) =~= "DOTNET_ENABLE_PROFILING"@);
    assert(occurs_at(ls[3], "DOTNET_ENABLE_PROFILING"@, 7));
    lemma_contains_terminated(ls, 3, "DOTNET_ENABLE_PROFILING"@);
    assert(ls[0].subrange(0, 23) =~= block_marker());
    assert(occurs_at(ls[0], block_marker(), 0));
    lemma_contains_terminated(ls, 0, block_marker());
    let b = profile_block_spec(path);
    lemma_contains_extend(seq!['\n'], b, "DOTNET_ENABLE_PROFILING"@);
    lemma_contains_extend(o, seq!['\n'] + b, "DOTNET_ENABLE_PROFILING"@);
    lemma_contains_extend(seq!['\n'], b, block_marker());
    lemma_contains_extend(o, seq!['\n'] + b, block_marker());
}

/// The login profile's text, where it is a readable text file.
pub open spec fn profile_text(l: &Layout, w: World) -> Option<Seq<char>> {
    text_of(w, login_profile_path_spec(l))
}

pub open spec fn configure(l: &Layout, w: World, target: Seq<char>) -> World {
    apply(w, set_plan(l, target, profile_text(l, w)), separator(l.platform))
}

proof fn lemma_overlay_insert<V>(m: Map<Seq<char>, V>, u: Map<Seq<char>, Option<V>>, k: Seq<char>, v: V)
    requires
        !u.contains_key(k),
    ensures
        overlay(m.insert(k, v), u) == overlay(m, u).insert(k, v),
{
    assert(overlay(m.insert(k, v), u) =~= overlay(m, u).insert(k, v));
}

/// Configuring the environment a second time changes nothing; in
/// particular the login profile does not receive a second block.
pub proof fn lemma_configure_idempotent(l: &Layout, w: World, target: Seq<char>)
    ensures
        configure(l, configure(l, w, target), target) == configure(l, w, target),
{
    let sep = separator(l.platform);
    let w1 = configure(l, w, target);
    if l.platform == Platform::Windows {
        let es = registry_set_plan(payload_path_spec(l, Payload::Profiler));
        assert forall|i: int| 0 <= i < es.len() implies overwriting(#[trigger] es[i]) by {}
        lemma_overwriting_idempotent(w, es, sep);
    } else {
        let prof = login_profile_path_spec(l);
        let es = if l.platform == Platform::Linux {
            linux_set_plan(l, target)
        } else {
            macos_set_plan(l, target)
        };
        assert forall|i: int| 0 <= i < es.len() implies overwriting(#[trigger] es[i]) by {}
        lemma_profile_distinct(l);
        assert forall|i: int| 0 <= i < es.len() implies !targets(#[trigger] es[i], prof) by {}
        lemma_untouched(es, prof);
        lemma_apply_overwriting(w, es, sep);
        let wi = apply(w, es, sep);
        let t0 = match profile_text(l, w) {
            Some(t) => t,
            None => Seq::<char>::empty(),
        };
        let pp = payload_path_spec(l, Payload::Profiler);
        assert(text_of(wi, prof) == text_of(w, prof));
        if has_configuration(t0) {
            assert(append_plan(l, t0) =~= Seq::<EffectView>::empty());
            assert(es + append_plan(l, t0) =~= es);
            assert(w1 == wi);
            assert(profile_text(l, w1) == profile_text(l, w));
            lemma_overwriting_idempotent(w, es, sep);
        } else {
            let a = seq!['\n'] + profile_block_spec(pp);
            assert(append_spec(t0, pp) == Some(a));
            let x = EffectView::AppendText(prof, a, false);
            assert(append_plan(l, t0) == seq![x]);
            assert((es + seq![x]).drop_last() =~= es);
            assert(w1 == apply_one(wi, x, sep));
            let t1 = match text_of(wi, prof) {
                Some(o) => o + a,
                None => a,
            };
            assert(w1.files == wi.files.insert(prof, Entry::Text(t1)));
            assert(profile_text(l, w1) == Some(t1));
            lemma_block_configures(t0, pp);
            assert(has_configuration(t1)) by {
                assert(Seq::<char>::empty() + a =~= a);
            }
            assert(append_plan(l, t1) =~= Seq::<EffectView>::empty());
            assert(es + append_plan(l, t1) =~= es);
            lemma_apply_overwriting(w1, es, sep);
            lemma_overlay_insert(overlay(w.files, file_updates(es)), file_updates(es), prof, Entry::Text(t1));
            lemma_overlay_twice(w.files, file_updates(es));
            lemma_overlay_twice(w.registry, registry_updates(es));
        }
    }
}

// ---------------------------------------------------------------- status

/// The channels read for the configuration, in priority order.
pub open spec fn channel_paths(l: &Layout) -> Seq<Seq<char>> {
    match l.platform {
        Platform::Windows => Seq::empty(),
        Platform::Linux => seq![
            session_env_path_spec(l),
            wrapper_path_spec(l),
            login_profile_path_spec(l),
        ],
        Platform::MacOs => seq![wrapper_path_spec(l), login_profile_path_spec(l)],
    }
}

pub open spec fn lookup(reg: Map<Seq<char>, Seq<char>>, name: Seq<char>) -> Option<Seq<char>> {
    if reg.contains_key(name) {
        Some(reg[name])
    } else {
        None
    }
}

pub open spec fn registry_view(reg: Map<Seq<char>, Seq<char>>) -> EnvValuesView {
    EnvValuesView {
        enable_profiling: lookup(reg, "DOTNET_ENABLE_PROFILING"@),
        legacy_enable_profiling: lookup(reg, "CORECLR_ENABLE_PROFILING"@),
        profiler: lookup(reg, "DOTNET_PROFILER"@),
        legacy_profiler: lookup(reg, "CORECLR_PROFILER"@),
        profiler_path: lookup(reg, "DOTNET_PROFILER_PATH"@),
        legacy_profiler_path: lookup(reg, "CORECLR_PROFILER_PATH"@),
        ready_to_run: lookup(reg, "DOTNET_ReadyToRun"@),
    }
}

/// What the platform's configuration says in world `w`.
pub open spec fn configured_in(l: &Layout, w: World) -> EnvFlags {
    if l.platform == Platform::Windows {
        value_flags(registry_view(w.registry), payload_path_spec(l, Payload::Profiler))
    } else {
        text_flags(
            first_text(channel_paths(l).map_values(|p: Seq<char>| text_of(w, p))),
            payload_path_spec(l, Payload::Profiler),
        )
    }
}

pub open spec fn files_in(l: &Layout, w: World) -> Seq<bool> {
    required_payloads().map_values(|p: Payload| w.files.contains_key(payload_path_spec(l, p)))
}

/// The status a check finds in world `w`, the checking process's own
/// environment saying `process`.
pub open spec fn world_status(l: &Layout, w: World, process: EnvFlags) -> HookStatus {
    status_spec(l.platform, files_in(l, w), configured_in(l, w), process)
}

pub open spec fn remove(l: &Layout, w: World) -> World {
    apply(w, remove_plan(l, profile_text(l, w)), separator(l.platform))
}

pub open spec fn or_empty(t: Option<Seq<char>>) -> Seq<char> {
    match t {
        Some(t) => t,
        None => Seq::empty(),
    }
}

/// A login profile text that removing the block gives back unchanged: it
/// holds no block marker of its own, and the profiler path holds no line
/// break.
pub open spec fn plain_profile(l: &Layout, c: Seq<char>) -> bool {
    &&& !contains(c, block_marker())
    &&& no_break(payload_path_spec(l, Payload::Profiler))
}

proof fn lemma_apply_push(w: World, es: Seq<EffectView>, e: EffectView, sep: char)
    ensures
        apply(w, es.push(e), sep) == apply_one(apply(w, es, sep), e, sep),
{
    assert(es.push(e).drop_last() =~= es);
}

/// What configuring leaves in the login profile.
proof fn lemma_configured_profile(l: &Layout, w: World, target: Seq<char>)
    requires
        l.platform != Platform::Windows,
    ensures
        profile_text(l, configure(l, w, target)) == Some(
            if has_configuration(or_empty(profile_text(l, w))) {
                or_empty(profile_text(l, w))
            } else {
                with_block(
                    or_empty(profile_text(l, w)),
                    payload_path_spec(l, Payload::Profiler),
                )
            },
        ),
{
    let sep = separator(l.platform);
    let prof = login_profile_path_spec(l);
    let es = if l.platform == Platform::Linux {
        linux_set_plan(l, target)
    } else {
        macos_set_plan(l, target)
    };
    assert forall|i: int| 0 <= i < es.len() implies overwriting(#[trigger] es[i]) by {}
    lemma_profile_distinct(l);
    assert forall|i: int| 0 <= i < es.len() implies !targets(#[trigger] es[i], prof) by {}
    lemma_untouched(es, prof);
    lemma_apply_overwriting(w, es, sep);
    let wi = apply(w, es, sep);
    let t0 = or_empty(profile_text(l, w));
    let pp = payload_path_spec(l, Payload::Profiler);
    assert(text_of(wi, prof) == text_of(w, prof));
    if has_configuration(t0) {
        assert(append_plan(l, t0) =~= Seq::<EffectView>::empty());
        assert(es + append_plan(l, t0) =~= es);
        if profile_text(l, w) is None {
            reveal_strlit("DOTNET_ENABLE_PROFILING");
            assert(!occurs_at(t0, "DOTNET_ENABLE_PROFILING"@, 0));
        }
    } else {
        let a = seq!['\n'] + profile_block_spec(pp);
        let x = EffectView::AppendText(prof, a, false);
        assert(append_plan(l, t0) == seq![x]);
        assert(es + seq![x] =~= es.push(x));
        lemma_apply_push(w, es, x, sep);
        match text_of(wi, prof) {
            Some(o) => {
                assert(o + a =~= with_block(t0, pp));
            },
            None => {
                assert(a =~= with_block(t0, pp));
            },
        }
    }
}

/// What removal leaves in each channel after configuring.
proof fn lemma_removal_state(l: &Layout, w: World, target: Seq<char>)
    requires
        l.platform != Platform::Windows ==> plain_profile(l, or_empty(profile_text(l, w))),
    ensures
        ({
            let w2 = remove(l, configure(l, w, target));
            &&& l.platform == Platform::Windows ==> registry_cleared(w2.registry)
            &&& l.platform != Platform::Windows ==> text_of(w2, wrapper_path_spec(l)) is None
            &&& l.platform == Platform::Linux ==> text_of(w2, session_env_path_spec(l)) is None
            &&& l.platform != Platform::Windows ==> profile_text(l, w2) == Some(
                or_empty(profile_text(l, w)),
            )
        }),
{
    let sep = separator(l.platform);
    let w1 = configure(l, w, target);
    let w2 = remove(l, w1);
    if l.platform == Platform::Windows {
        let r = registry_remove_plan();
        let e = Seq::<EffectView>::empty();
        assert(r =~= e.push(r[0]).push(r[1]).push(r[2]).push(r[3]).push(r[4]).push(r[5]).push(
            r[6],
        ).push(r[7]).push(r[8]).push(r[9]));
        lemma_apply_push(w1, e, r[0], sep);
        lemma_apply_push(w1, e.push(r[0]), r[1], sep);
        lemma_apply_push(w1, e.push(r[0]).push(r[1]), r[2], sep);
        lemma_apply_push(w1, e.push(r[0]).push(r[1]).push(r[2]), r[3], sep);
        lemma_apply_push(w1, e.push(r[0]).push(r[1]).push(r[2]).push(r[3]), r[4], sep);
        lemma_apply_push(w1, e.push(r[0]).push(r[1]).push(r[2]).push(r[3]).push(r[4]), r[5], sep);
        lemma_apply_push(
            w1,
            e.push(r[0]).push(r[1]).push(r[2]).push(r[3]).push(r[4]).push(r[5]),
            r[6],
            sep,
        );
        lemma_apply_push(
            w1,
            e.push(r[0]).push(r[1]).push(r[2]).push(r[3]).push(r[4]).push(r[5]).push(r[6]),
            r[7],
            sep,
        );
        lemma_apply_push(
            w1,
            e.push(r[0]).push(r[1]).push(r[2]).push(r[3]).push(r[4]).push(r[5]).push(r[6]).push(
                r[7],
            ),
            r[8],
            sep,
        );
        lemma_apply_push(
            w1,
            e.push(r[0]).push(r[1]).push(r[2]).push(r[3]).push(r[4]).push(r[5]).push(r[6]).push(
                r[7],
            ).push(r[8]),
            r[9],
            sep,
        );
        assert(registry_cleared(w2.registry));
    } else {
        let c = or_empty(profile_text(l, w));
        let pp = payload_path_spec(l, Payload::Profiler);
        let prof = login_profile_path_spec(l);
        lemma_configured_profile(l, w, target);
        let t1 = if has_configuration(c) {
            c
        } else {
            with_block(c, pp)
        };
        assert(profile_text(l, w1) == Some(t1));
        lemma_profile_distinct(l);
        let e = Seq::<EffectView>::empty();
        if has_configuration(c) {
            // no block was appended, and the profile is left alone
            assert(!needs_cleaning(t1));
            assert(clean_plan(l, Some(t1)) =~= Seq::<EffectView>::empty());
            let r = remove_plan(l, Some(t1));
            if l.platform == Platform::Linux {
                assert(r =~= e.push(r[0]).push(r[1]).push(r[2]).push(r[3]));
                lemma_apply_push(w1, e, r[0], sep);
                lemma_apply_push(w1, e.push(r[0]), r[1], sep);
                lemma_apply_push(w1, e.push(r[0]).push(r[1]), r[2], sep);
                lemma_apply_push(w1, e.push(r[0]).push(r[1]).push(r[2]), r[3], sep);
            } else {
                assert(r =~= e.push(r[0]));
                lemma_apply_push(w1, e, r[0], sep);
            }
            assert(text_of(w2, wrapper_path_spec(l)) is None);
            assert(text_of(w2, prof) == Some(c));
        } else {
            // the profile is cleaned back to its own text
            lemma_block_configures(c, pp);
            lemma_strip_appended(c, pp);
            assert(needs_cleaning(t1));
            assert(stripped(t1) == c);
            let cw = EffectView::WriteText(prof, c, false);
            assert(clean_plan(l, Some(t1)) == seq![cw]);
            if l.platform == Platform::Linux {
                let r = remove_plan(l, Some(t1));
                assert(r =~= e.push(r[0]).push(r[1]).push(r[2]).push(r[3]).push(cw));
                lemma_apply_push(w1, e, r[0], sep);
                lemma_apply_push(w1, e.push(r[0]), r[1], sep);
                lemma_apply_push(w1, e.push(r[0]).push(r[1]), r[2], sep);
                lemma_apply_push(w1, e.push(r[0]).push(r[1]).push(r[2]), r[3], sep);
                lemma_apply_push(w1, e.push(r[0]).push(r[1]).push(r[2]).push(r[3]), cw, sep);
                assert(text_of(w2, session_env_path_spec(l)) is None);
                assert(text_of(w2, wrapper_path_spec(l)) is None);
                assert(text_of(w2, prof) == Some(c));
            } else {
                let r = remove_plan(l, Some(t1));
                assert(r =~= e.push(r[0]).push(cw));
                lemma_apply_push(w1, e, r[0], sep);
                lemma_apply_push(w1, e.push(r[0]), cw, sep);
                assert(text_of(w2, wrapper_path_spec(l)) is None);
                assert(text_of(w2, prof) == Some(c));
            }
        }
    }
}

/// None of the variables the check reads is set.
pub open spec fn registry_cleared(reg: Map<Seq<char>, Seq<char>>) -> bool {
    &&& !reg.contains_key("DOTNET_ENABLE_PROFILING"@)
    &&& !reg.contains_key("CORECLR_ENABLE_PROFILING"@)
    &&& !reg.contains_key("DOTNET_PROFILER"@)
    &&& !reg.contains_key("CORECLR_PROFILER"@)
    &&& !reg.contains_key("DOTNET_PROFILER_PATH"@)
    &&& !reg.contains_key("CORECLR_PROFILER_PATH"@)
    &&& !reg.contains_key("DOTNET_ReadyToRun"@)
}

pub open spec fn no_flags() -> EnvFlags {
    EnvFlags {
        enable_profiling: false,
        profiler_guid: false,
        profiler_path: false,
        ready_to_run: false,
    }
}

/// The configuration read where the wrapper and the session file are gone
/// and the profile holds `c`; or, on Windows, where the registry is cleared.
proof fn lemma_configured_after_removal(l: &Layout, w: World, c: Seq<char>)
    requires
        l.platform == Platform::Windows ==> registry_cleared(w.registry),
        l.platform != Platform::Windows ==> text_of(w, wrapper_path_spec(l)) is None,
        l.platform == Platform::Linux ==> text_of(w, session_env_path_spec(l)) is None,
        l.platform != Platform::Windows ==> profile_text(l, w) == Some(c),
    ensures
        configured_in(l, w) == if l.platform == Platform::Windows {
            no_flags()
        } else {
            text_flags(c, payload_path_spec(l, Payload::Profiler))
        },
{
    if l.platform != Platform::Windows {
        let ts = channel_paths(l).map_values(|p: Seq<char>| text_of(w, p));
        assert(first_text(ts) == first_text(ts.drop_first()));
        if l.platform == Platform::Linux {
            assert(first_text(ts.drop_first()) == first_text(ts.drop_first().drop_first()));
        }
        assert(first_text(ts) == c);
    }
}

/// Removing the configuration after it was written leaves the environment
/// unconfigured, and the login profile holding exactly what it held before
/// the block was appended (a profile that could not be read counts as
/// empty).
pub proof fn lemma_remove_after_configure(
    l: &Layout,
    w: World,
    target: Seq<char>,
    process: EnvFlags,
)
    requires
        l.platform != Platform::Windows ==> plain_profile(l, or_empty(profile_text(l, w))) && !flags_ok(
            text_flags(or_empty(profile_text(l, w)), payload_path_spec(l, Payload::Profiler)),
        ),
    ensures
        !world_status(l, remove(l, configure(l, w, target)), process).env_ok,
        l.platform != Platform::Windows ==> profile_text(l, remove(l, configure(l, w, target)))
            == Some(or_empty(profile_text(l, w))),
{
    lemma_removal_state(l, w, target);
    lemma_configured_after_removal(
        l,
        remove(l, configure(l, w, target)),
        or_empty(profile_text(l, w)),
    );
}

// ---------------------------------------------------------------- settings

/// Which of the target's settings files exist in `w`.
pub open spec fn settings_present(l: &Layout, w: World) -> Seq<bool> {
    seq![
        w.files.contains_key(settings_path_spec(l, 0)),
        w.files.contains_key(settings_path_spec(l, 1)),
        w.files.contains_key(settings_path_spec(l, 2)),
    ]
}

pub open spec fn is_settings_path(l: &Layout, k: Seq<char>, n: int) -> bool {
    exists|i: int| 0 <= i < n && k == settings_path_spec(l, i)
}

proof fn lemma_reset_upto(l: &Layout, w: World, k: int)
    requires
        0 <= k <= 3,
    ensures
        ({
            let wk = apply(w, reset_plan(l, settings_present(l, w), k), separator(l.platform));
            &&& reset_plan(l, settings_present(l, w), k).len() == count_present(settings_present(l, w), k)
            &&& forall|i: int| 0 <= i < k ==> !wk.files.contains_key(settings_path_spec(l, i))
            &&& forall|p: Seq<char>|
                !is_settings_path(l, p, k) ==> (wk.files.contains_key(p) == w.files.contains_key(p)
                    && wk.files[p] == w.files[p])
            &&& wk.registry == w.registry
        }),
    decreases k,
{
    let sep = separator(l.platform);
    let present = settings_present(l, w);
    if k > 0 {
        lemma_reset_upto(l, w, k - 1);
        let prev = reset_plan(l, present, k - 1);
        let wp = apply(w, prev, sep);
        let sp = settings_path_spec(l, k - 1);
        let wk = apply(w, reset_plan(l, present, k), sep);
        if present[k - 1] {
            let x = EffectView::RemoveFile(sp, true);
            assert(reset_plan(l, present, k) =~= prev.push(x));
            lemma_apply_push(w, prev, x, sep);
            assert(wk.files == wp.files.remove(sp));
        } else {
            assert(reset_plan(l, present, k) =~= prev);
            assert(!w.files.contains_key(sp));
            if is_settings_path(l, sp, k - 1) {
            } else {
            }
        }
        assert forall|p: Seq<char>| !is_settings_path(l, p, k) implies (wk.files.contains_key(p)
            == w.files.contains_key(p) && wk.files[p] == w.files[p]) by {
            assert(!is_settings_path(l, p, k - 1)) by {
                if is_settings_path(l, p, k - 1) {
                    let i = choose|i: int| 0 <= i < k - 1 && p == settings_path_spec(l, i);
                    assert(0 <= i < k && p == settings_path_spec(l, i));
                }
            }
            assert(p != sp) by {
                assert(0 <= k - 1 < k && sp == settings_path_spec(l, k - 1));
            }
        }
    }
}

/// Resetting settings deletes exactly the settings files that existed, and
/// counts them; a second reset then finds none.
pub proof fn lemma_reset_settings(l: &Layout, w: World)
    ensures
        ({
            let plan = reset_plan(l, settings_present(l, w), 3);
            let w1 = apply(w, plan, separator(l.platform));
            &&& plan.len() == count_present(settings_present(l, w), 3)
            &&& forall|i: int| 0 <= i < 3 ==> !w1.files.contains_key(settings_path_spec(l, i))
            &&& forall|p: Seq<char>|
                !is_settings_path(l, p, 3) ==> (w1.files.contains_key(p) == w.files.contains_key(p)
                    && w1.files[p] == w.files[p])
            &&& w1.registry == w.registry
            &&& count_present(settings_present(l, w1), 3) == 0
        }),
{
    lemma_reset_upto(l, w, 3);
    let w1 = apply(w, reset_plan(l, settings_present(l, w), 3), separator(l.platform));
    assert(!w1.files.contains_key(settings_path_spec(l, 0)));
    assert(!w1.files.contains_key(settings_path_spec(l, 1)));
    assert(!w1.files.contains_key(settings_path_spec(l, 2)));
    let q = settings_present(l, w1);
    assert(count_present(q, 0) == 0);
    assert(count_present(q, 1) == 0);
    assert(count_present(q, 2) == 0);
}

// ---------------------------------------------------------------- round trip

pub open spec fn install(l: &Layout, w: World, target: Seq<char>) -> World {
    configure(l, apply(w, deploy_plan(l), separator(l.platform)), target)
}

pub open spec fn uninstall(l: &Layout, w: World) -> World {
    let sep = separator(l.platform);
    let w1 = remove(l, w);
    let w2 = apply(w1, reset_plan(l, settings_present(l, w1), 3), sep);
    apply(w2, seq![EffectView::RemoveTree(install_dir_spec(l))], sep)
}

pub open spec fn all_false_status() -> HookStatus {
    HookStatus {
        profiler_dll: false,
        hook_dll: false,
        hook_deps: false,
        preload_js: false,
        theme_css: false,
        env_enable_profiling: false,
        env_profiler_guid: false,
        env_profiler_path: false,
        env_ready_to_run: false,
        files_ok: false,
        env_ok: false,
        env_vars_active: false,
    }
}

proof fn lemma_install_dir_shape(l: &Layout)
    ensures
        install_dir_spec(l).len() > 0,
        install_dir_spec(l).last() == 'd',
        l.platform != Platform::Windows ==> install_dir_spec(l).len() > login_profile_path_spec(
            l,
        ).len() + 1,
{
    reveal_strlit(".profile");
    reveal_strlit(".zprofile");
    reveal_strlit(".local/share/uprooted");
    reveal_strlit("Library/Application Support/uprooted");
    reveal_strlit("Root\\uprooted");
    let h = l.home@;
    lemma_join_len(h, ".profile"@, '/');
    lemma_join_len(h, ".zprofile"@, '/');
    lemma_join_len(h, ".local/share/uprooted"@, '/');
    lemma_join_len(h, "Library/Application Support/uprooted"@, '/');
    lemma_join_len(l.local_app_data@, "Root\\uprooted"@, '\\');
}

proof fn lemma_payload_under(l: &Layout, p: Payload)
    ensures
        under(payload_path_spec(l, p), install_dir_spec(l), separator(l.platform)),
        l.platform != Platform::Windows ==> payload_path_spec(l, p) != login_profile_path_spec(l),
{
    lemma_install_dir_shape(l);
    let d = install_dir_spec(l);
    let n = payload_name_spec(l.platform, p);
    let sep = separator(l.platform);
    reveal_strlit("uprooted_profiler.dll");
    reveal_strlit("libuprooted_profiler.so");
    reveal_strlit("libuprooted_profiler.dylib");
    reveal_strlit("UprootedHook.dll");
    reveal_strlit("UprootedHook.deps.json");
    reveal_strlit("UprootedHook.net9.dll");
    reveal_strlit("UprootedHook.net9.deps.json");
    reveal_strlit("uprooted-preload.js");
    reveal_strlit("uprooted.css");
    reveal_strlit("nsfw-filter.js");
    reveal_strlit("link-embeds.js");
    assert(n.len() > 0);
    lemma_join_len(d, n, sep);
    let k = payload_path_spec(l, p);
    assert(k == d.push(sep) + n);
    assert(k.subrange(0, d.len() as int) =~= d);
    assert(k[d.len() as int] == sep);
}

proof fn lemma_settings_not_profile(l: &Layout)
    requires
        l.platform != Platform::Windows,
    ensures
        !is_settings_path(l, login_profile_path_spec(l), 3),
{
    reveal_strlit(".profile");
    reveal_strlit(".zprofile");
    reveal_strlit(".local/share/Root Communications/Root/profile/default");
    reveal_strlit("Library/Application Support/Root Communications/Root/profile/default");
    reveal_strlit("uprooted-settings.ini");
    reveal_strlit("uprooted-settings.json");
    reveal_strlit("uprooted-message-log.dat");
    let h = l.home@;
    lemma_join_len(h, ".profile"@, '/');
    lemma_join_len(h, ".zprofile"@, '/');
    lemma_join_len(h, ".local/share/Root Communications/Root/profile/default"@, '/');
    lemma_join_len(
        h,
        "Library/Application Support/Root Communications/Root/profile/default"@,
        '/',
    );
    assert forall|i: int| 0 <= i < 3 implies settings_path_spec(l, i) != login_profile_path_spec(
        l,
    ) by {
        lemma_join_len(profile_dir_spec(l), settings_name(i), '/');
    }
}

/// Installing and then uninstalling brings the status back to the
/// all-false baseline it had before; the baseline profile must not
/// configure the variables by itself.
pub proof fn lemma_install_uninstall_round_trip(
    l: &Layout,
    w: World,
    target: Seq<char>,
    process: EnvFlags,
)
    requires
        world_status(l, w, process) == all_false_status(),
        l.platform != Platform::Windows ==> plain_profile(l, or_empty(profile_text(l, w)))
            && text_flags(or_empty(profile_text(l, w)), payload_path_spec(l, Payload::Profiler))
            == no_flags(),
    ensures
        world_status(l, uninstall(l, install(l, w, target)), process) == world_status(
            l,
            w,
            process,
        ),
{
    let sep = separator(l.platform);
    let c = or_empty(profile_text(l, w));
    let prof = login_profile_path_spec(l);
    let dp = deploy_plan(l);
    let wd = apply(w, dp, sep);
    // deployment leaves the login profile alone
    assert forall|i: int| 0 <= i < dp.len() implies overwriting(#[trigger] dp[i]) by {}
    lemma_apply_overwriting(w, dp, sep);
    if l.platform != Platform::Windows {
        assert forall|i: int| 0 <= i < dp.len() implies !targets(#[trigger] dp[i], prof) by {
            if 1 <= i < 10 {
                lemma_payload_under(l, crate::layout::all_payloads()[i - 1]);
            }
        }
        lemma_untouched(dp, prof);
        assert(profile_text(l, wd) == profile_text(l, w));
    }
    let wi = configure(l, wd, target);
    let w1 = remove(l, wi);
    lemma_removal_state(l, wd, target);
    let w2 = apply(w1, reset_plan(l, settings_present(l, w1), 3), sep);
    lemma_reset_upto(l, w1, 3);
    let x = EffectView::RemoveTree(install_dir_spec(l));
    let w3 = apply(w2, seq![x], sep);
    assert(seq![x] =~= Seq::<EffectView>::empty().push(x));
    lemma_apply_push(w2, Seq::empty(), x, sep);
    assert(w3 == apply_one(w2, x, sep));
    lemma_install_dir_shape(l);
    if l.platform != Platform::Windows {
        lemma_settings_not_profile(l);
        assert(text_of(w2, prof) == Some(c));
        assert(!under(prof, install_dir_spec(l), sep));
        assert(w3.files.contains_key(prof));
        assert(text_of(w3, prof) == Some(c));
        let wr = wrapper_path_spec(l);
        assert(text_of(w2, wr) is None) by {
            if is_settings_path(l, wr, 3) {
                let i = choose|i: int| 0 <= i < 3 && wr == settings_path_spec(l, i);
            }
        }
        assert(text_of(w3, wr) is None);
        if l.platform == Platform::Linux {
            let se = session_env_path_spec(l);
            assert(text_of(w2, se) is None) by {
                if is_settings_path(l, se, 3) {
                    let i = choose|i: int| 0 <= i < 3 && se == settings_path_spec(l, i);
                }
            }
            assert(text_of(w3, se) is None);
        }
    }
    lemma_configured_after_removal(l, w3, c);
    assert forall|i: int| 0 <= i < 5 implies !w3.files.contains_key(
        payload_path_spec(l, crate::layout::required_payloads()[i]),
    ) by {
        lemma_payload_under(l, crate::layout::required_payloads()[i]);
    }
    let f = files_in(l, w3);
    assert(!f[0] && !f[1] && !f[2] && !f[3] && !f[4]);
    assert(world_status(l, w3, process) == all_false_status());
}

// ---------------------------------------------------------------- pipelines

/// When the target executable is not found, installation stops right after
/// the locate step: it fails, no later step runs, and the two steps run
/// (terminating the target, locating it) call for no effect, so files,
/// registry and the status found are what they were.
pub proof fn lemma_install_stops_without_target(
    first: OutcomeView,
    path: Seq<char>,
    l: &Layout,
    w: World,
    target: Seq<char>,
    profile: Option<Seq<char>>,
    present: Seq<bool>,
    process: EnvFlags,
)
    ensures
        ({
            let s0 = start_spec(InstallerMode::Install);
            let s1 = advance_spec(s0, first);
            let s2 = advance_spec(s1, OutcomeView::NotFound(path));
            let sep = separator(l.platform);
            let w1 = apply(
                apply(w, step_plan(l, StepKind::CloseTarget, target, profile, present), sep),
                step_plan(l, StepKind::Locate, target, profile, present),
                sep,
            );
            &&& next_action_spec(s0) == Action::Run(StepKind::CloseTarget)
            &&& next_action_spec(s1) == Action::Run(StepKind::Locate)
            &&& s2.finished && !s2.success
            &&& next_action_spec(s2) == Action::Finish
            &&& s2.steps[1].status == StatusView::Failed("Root not found at "@ + path)
            &&& forall|j: int| 2 <= j < 6 ==> s2.steps[j].status == StatusView::Pending
            &&& w1 == w
            &&& world_status(l, w1, process) == world_status(l, w, process)
        }),
{
    let s0 = start_spec(InstallerMode::Install);
    let s1 = advance_spec(s0, first);
    assert(s0.steps.len() == 6);
    assert(s1.current == 1);
    assert(s1.steps.len() == 6);
    let s2 = advance_spec(s1, OutcomeView::NotFound(path));
    assert forall|j: int| 2 <= j < 6 implies s2.steps[j].status == StatusView::Pending by {
        assert(s1.steps[j] == s0.steps[j]);
    }
}

/// The environment counts as configured exactly when the enabling flag is
/// `1`, the profiler identifier is the fixed one and the profiler path is
/// the deployed module's, each value exact (a near miss does not count);
/// the codegen-mode flag plays no part. This holds of a channel's text and
/// of an environment's values.
pub proof fn lemma_env_ok_exact(t: Seq<char>, v: EnvValuesView, path: Seq<char>)
    ensures
        flags_ok(text_flags(t, path)) <==> ((assigns(t, "DOTNET_ENABLE_PROFILING"@, "1"@)
            || assigns(t, "CORECLR_ENABLE_PROFILING"@, "1"@)) && (assigns(
            t,
            "DOTNET_PROFILER"@,
            guid(),
        ) || assigns(t, "CORECLR_PROFILER"@, guid())) && (assigns(t, "DOTNET_PROFILER_PATH"@, path)
            || assigns(t, "CORECLR_PROFILER_PATH"@, path))),
        flags_ok(value_flags(v, path)) <==> (first_set(v.enable_profiling, v.legacy_enable_profiling)
            == Some("1"@) && first_set(v.profiler, v.legacy_profiler) == Some(guid()) && first_set(
            v.profiler_path,
            v.legacy_profiler_path,
        ) == Some(path)),
{
}

} // verus!
