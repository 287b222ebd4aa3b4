//! The block this system appends to a shell login profile, and its removal.
//!
//! The block is appended after a line break of its own. A text is read as a
//! list of lines, each ending with a line break except perhaps the last.
//! Removal drops every line that contains the block's opening marker and,
//! after it, the contiguous lines that are exports, comments, or the first
//! blank line; every other line is kept as it was. Where the text ends with
//! a block that directly follows a kept line, the line break before the
//! block, which came with it, goes too.
use vstd::prelude::*;
use crate::envconf::{block_lines, block_marker, line, profile_block, profile_block_spec, terminated};
use crate::text::{chars_of, contains, contains_chars, contains_str, occurs_at, starts_with, starts_with_chars};

verus! {

/// The lines of `s`, each with its line break.
pub open spec fn split_lines(s: Seq<char>) -> Seq<Seq<char>>
    decreases s.len(),
{
    if s.len() == 0 {
        Seq::empty()
    } else {
        let prev = split_lines(s.drop_last());
        if prev.len() > 0 && prev.last().last() != '\n' {
            prev.update(prev.len() - 1, prev.last().push(s.last()))
        } else {
            prev.push(seq![s.last()])
        }
    }
}

/// The lines of `ls` put back together.
pub open spec fn join_lines(ls: Seq<Seq<char>>) -> Seq<char>
    decreases ls.len(),
{
    if ls.len() == 0 {
        Seq::empty()
    } else {
        join_lines(ls.drop_last()) + ls.last()
    }
}

/// A line without its line break.
pub open spec fn body(l: Seq<char>) -> Seq<char> {
    if l.len() > 0 && l.last() == '\n' {
        l.drop_last()
    } else {
        l
    }
}

/// A line that may continue an open block: an export of one of the
/// runtime's variables, a comment, or a blank line.
pub open spec fn is_block_line(b: Seq<char>) -> bool {
    starts_with(b, "export CORECLR_"@) || starts_with(b, "export DOTNET_"@) || starts_with(
        b,
        "#"@,
    ) || b.len() == 0
}

/// The state of removal: the text kept so far, whether a block is open,
/// whether the line just read was kept, and whether the last line break of
/// the kept text came right before a block (and goes with it unless more
/// text is kept).
pub type StripState = (Seq<char>, bool, bool, bool);

/// One line of removal.
pub open spec fn strip_step(st: StripState, l: Seq<char>) -> StripState {
    let b = body(l);
    if contains(b, block_marker()) {
        (st.0, true, false, (st.2 && st.0.len() > 0 && st.0.last() == '\n') || st.3)
    } else if st.1 && is_block_line(b) {
        (st.0, b.len() > 0, false, st.3)
    } else {
        (st.0 + l, false, true, false)
    }
}

pub open spec fn strip_fold(ls: Seq<Seq<char>>, init: StripState) -> StripState
    decreases ls.len(),
{
    if ls.len() == 0 {
        init
    } else {
        strip_step(strip_fold(ls.drop_last(), init), ls.last())
    }
}

/// The text a finished removal leaves.
pub open spec fn strip_result(st: StripState) -> Seq<char> {
    if st.3 {
        st.0.drop_last()
    } else {
        st.0
    }
}

/// `t` with every appended block removed.
pub open spec fn stripped(t: Seq<char>) -> Seq<char> {
    strip_result(strip_fold(split_lines(t), (Seq::empty(), false, false, false)))
}

/// A profile already holds a configuration when it names the primary
/// enabling variable.
pub open spec fn has_configuration(t: Seq<char>) -> bool {
    contains(t, "DOTNET_ENABLE_PROFILING"@)
}

/// A profile is cleaned where it holds the block's marker.
pub open spec fn needs_cleaning(t: Seq<char>) -> bool {
    contains(t, block_marker())
}

/// The text to append to a profile holding `t`, if any: a line break, then
/// the block.
pub open spec fn append_spec(t: Seq<char>, path: Seq<char>) -> Option<Seq<char>> {
    if has_configuration(t) {
        None
    } else {
        Some(seq!['\n'] + profile_block_spec(path))
    }
}

/// The text to append to a login profile that holds `t`, for a profiler at
/// `path`; `None` where the profile already holds a configuration.
pub fn profile_append(t: &str, path: &str) -> (r: Option<String>)
    ensures
        r matches Some(s) ==> append_spec(t@, path@) == Some(s@),
        r is None ==> append_spec(t@, path@) is None,
{
    if contains_str(t, "DOTNET_ENABLE_PROFILING") {
        return None;
    }
    let mut r = String::from_str("\n");
    proof {
        reveal_strlit("\n");
    }
    let b = profile_block(path);
    r.append(b.as_str());
    assert(r@ =~= seq!['\n'] + profile_block_spec(path@));
    Some(r)
}

/// `t` with every appended block removed.
pub fn strip_profile_block(t: &str) -> (r: String)
    ensures
        r@ == stripped(t@),
{
    let v = chars_of(t);
    let n = v.len();
    let marker = chars_of("# Uprooted CLR profiler");
    let mut out = String::new();
    let mut in_block = false;
    let mut prev_kept = false;
    let mut cut = false;
    // a line break that ends the kept text is held back until it is known
    // whether it goes with a block at the end of the text
    let mut held = false;
    let mut start: usize = 0;
    let mut i: usize = 0;
    assert(t@.subrange(0, 0) =~= Seq::<char>::empty());
    while i < n
        invariant
            n == v@.len(),
            v@ == t@,
            marker@ == block_marker(),
            start <= i <= n,
            i == n ==> start == n,
            start < n ==> (start == 0 || v@[start - 1] == '\n'),
            forall|k: int| start <= k < i ==> v@[k] != '\n',
            ({
                let st = strip_fold(
                    split_lines(t@.subrange(0, start as int)),
                    (Seq::empty(), false, false, false),
                );
                &&& st.0 == out@ + if held {
                    seq!['\n']
                } else {
                    Seq::empty()
                }
                &&& st.1 == in_block
                &&& st.2 == prev_kept
                &&& st.3 == cut
                &&& cut ==> held
                &&& (prev_kept && st.0.len() > 0 && st.0.last() == '\n') ==> held
            }),
        decreases n - i,
    {
        if v[i] == '\n' || i + 1 == n {
            let end = i + 1;
            let ended_line = v[i] == '\n';
            let body_end = if ended_line {
                i
            } else {
                end
            };
            let b = slice_chars(&v, start, body_end);
            let body_text = t.substring_char(start, body_end);
            let ghost old_out = out@;
            let ghost old_held = held;
            proof {
                let a = t@.subrange(0, start as int);
                let ln = t@.subrange(start as int, end as int);
                assert(t@.subrange(0, end as int) =~= a + ln);
                if start > 0 {
                    assert(a.last() == v@[start - 1]);
                }
                lemma_split_push(a, ln);
                let ls = split_lines(a).push(ln);
                assert(ls.drop_last() =~= split_lines(a));
                assert(b@ =~= body(ln));
                if ended_line {
                    assert(ln =~= body(ln).push('\n'));
                } else {
                    assert(ln =~= body(ln));
                }
            }
            if contains_chars(&b, &marker) {
                if prev_kept && held {
                    cut = true;
                }
                in_block = true;
                prev_kept = false;
            } else if in_block && is_block_line_exec(&b) {
                in_block = b.len() > 0;
                prev_kept = false;
            } else {
                if held {
                    out.append("\n");
                    proof {
                        reveal_strlit("\n");
                    }
                }
                out.append(body_text);
                held = ended_line;
                cut = false;
                in_block = false;
                prev_kept = true;
                proof {
                    let ln = t@.subrange(start as int, end as int);
                    if ended_line {
                        assert(ln.last() == '\n');
                    } else {
                        assert(ln.last() != '\n');
                    }
                }
            }
            start = end;
        }
        i += 1;
    }
    proof {
        if cut {
            assert((out@ + seq!['\n']).drop_last() =~= out@);
        }
    }
    if held && !cut {
        out.append("\n");
        proof {
            reveal_strlit("\n");
        }
    }
    assert(t@.subrange(0, n as int) =~= t@);
    out
}

/// The cleaned text of a login profile holding `t`, or `None` where it
/// holds no block marker and is left alone.
pub fn clean_profile(t: &str) -> (r: Option<String>)
    ensures
        r matches Some(s) ==> needs_cleaning(t@) && s@ == stripped(t@),
        r is None ==> !needs_cleaning(t@),
{
    if contains_str(t, "# Uprooted CLR profiler") {
        Some(strip_profile_block(t))
    } else {
        None
    }
}

/// The characters `v[lo..hi]`.
fn slice_chars(v: &Vec<char>, lo: usize, hi: usize) -> (r: Vec<char>)
    requires
        lo <= hi <= v@.len(),
    ensures
        r@ == v@.subrange(lo as int, hi as int),
{
    let mut r: Vec<char> = Vec::new();
    let mut k = lo;
    while k < hi
        invariant
            lo <= k <= hi <= v@.len(),
            r@ == v@.subrange(lo as int, k as int),
        decreases hi - k,
    {
        r.push(v[k]);
        k += 1;
    }
    assert(r@ =~= v@.subrange(lo as int, hi as int));
    r
}

fn is_block_line_exec(b: &Vec<char>) -> (r: bool)
    ensures
        r == is_block_line(b@),
{
    let a = chars_of("export CORECLR_");
    let d = chars_of("export DOTNET_");
    let h = chars_of("#");
    starts_with_chars(b, &a) || starts_with_chars(b, &d) || starts_with_chars(b, &h) || b.len()
        == 0
}

proof fn lemma_split_last(s: Seq<char>)
    requires
        s.len() > 0,
    ensures
        split_lines(s).len() > 0,
        split_lines(s).last().len() > 0,
        split_lines(s).last().last() == s.last(),
{
}

/// Appending one line to a text whose lines are all ended adds that line.
pub proof fn lemma_split_push(a: Seq<char>, b: Seq<char>)
    requires
        a.len() == 0 || a.last() == '\n',
        b.len() > 0,
        forall|k: int| 0 <= k < b.len() - 1 ==> b[k] != '\n',
    ensures
        split_lines(a + b) == split_lines(a).push(b),
    decreases b.len(),
{
    if b.len() == 1 {
        assert((a + b).drop_last() =~= a);
        if a.len() > 0 {
            lemma_split_last(a);
        }
        assert(seq![(a + b).last()] =~= b);
    } else {
        let b1 = b.drop_last();
        assert((a + b).drop_last() =~= a + b1);
        lemma_split_push(a, b1);
        assert(b1.last() == b[b.len() - 2]);
        assert(split_lines(a + b1).last() == b1);
        assert(b1.push((a + b).last()) =~= b);
        assert(split_lines(a).push(b1).update(split_lines(a).len() as int, b) =~= split_lines(
            a,
        ).push(b));
    }
}

/// The fold over two lists of lines is the fold over the second started
/// where the first ended.
proof fn lemma_fold_append(x: Seq<Seq<char>>, y: Seq<Seq<char>>, init: StripState)
    ensures
        strip_fold(x + y, init) == strip_fold(y, strip_fold(x, init)),
    decreases y.len(),
{
    if y.len() == 0 {
        assert(x + y =~= x);
    } else {
        assert((x + y).drop_last() =~= x + y.drop_last());
        lemma_fold_append(x, y.drop_last(), init);
    }
}

proof fn lemma_join_split(s: Seq<char>)
    ensures
        join_lines(split_lines(s)) == s,
    decreases s.len(),
{
    if s.len() > 0 {
        let s1 = s.drop_last();
        lemma_join_split(s1);
        let prev = split_lines(s1);
        if prev.len() > 0 && prev.last().last() != '\n' {
            let ls = prev.update(prev.len() - 1, prev.last().push(s.last()));
            assert(ls.drop_last() =~= prev.drop_last());
            assert(join_lines(prev) == join_lines(prev.drop_last()) + prev.last());
        } else {
            assert(prev.push(seq![s.last()]).drop_last() =~= prev);
        }
        assert(s1.push(s.last()) =~= s);
    }
}

pub proof fn lemma_contains_extend(a: Seq<char>, b: Seq<char>, x: Seq<char>)
    ensures
        contains(a, x) ==> contains(a + b, x),
        contains(b, x) ==> contains(a + b, x),
{
    if contains(a, x) {
        let i = choose|i: int| occurs_at(a, x, i);
        assert((a + b).subrange(i, i + x.len()) =~= a.subrange(i, i + x.len()));
        assert(occurs_at(a + b, x, i));
    }
    if contains(b, x) {
        let i = choose|i: int| occurs_at(b, x, i);
        assert((a + b).subrange(a.len() + i, a.len() + i + x.len()) =~= b.subrange(
            i,
            i + x.len(),
        ));
        assert(occurs_at(a + b, x, a.len() + i));
    }
}

proof fn lemma_contains_line(ls: Seq<Seq<char>>, k: int, x: Seq<char>)
    requires
        0 <= k < ls.len(),
        contains(ls[k], x),
    ensures
        contains(join_lines(ls), x),
    decreases ls.len(),
{
    lemma_contains_extend(join_lines(ls.drop_last()), ls.last(), x);
    if k < ls.len() - 1 {
        lemma_contains_line(ls.drop_last(), k, x);
    }
}

proof fn lemma_contains_body(l: Seq<char>, x: Seq<char>)
    ensures
        contains(body(l), x) ==> contains(l, x),
{
    if l.len() > 0 && l.last() == '\n' {
        assert(l =~= l.drop_last() + seq![l.last()]);
        lemma_contains_extend(l.drop_last(), seq![l.last()], x);
    }
}

/// Lines none of which holds the marker are kept as they are.
proof fn lemma_fold_keeps(ls: Seq<Seq<char>>, o: Seq<char>, kept: bool)
    requires
        forall|k: int| 0 <= k < ls.len() ==> !contains(#[trigger] body(ls[k]), block_marker()),
    ensures
        strip_fold(ls, (o, false, kept, false)) == (
            o + join_lines(ls),
            false,
            ls.len() > 0 || kept,
            false,
        ),
    decreases ls.len(),
{
    if ls.len() == 0 {
        assert(o + Seq::<char>::empty() =~= o);
    } else {
        lemma_fold_keeps(ls.drop_last(), o, kept);
        assert(body(ls.last()) == body(ls[ls.len() - 1]));
        assert(o + join_lines(ls.drop_last()) + ls.last() =~= o + join_lines(ls));
    }
}

/// A text without the marker comes through removal unchanged.
pub proof fn lemma_strip_unrelated(c: Seq<char>)
    requires
        !contains(c, block_marker()),
    ensures
        strip_fold(split_lines(c), (Seq::empty(), false, false, false)) == (
            c,
            false,
            c.len() > 0,
            false,
        ),
{
    let ls = split_lines(c);
    lemma_join_split(c);
    assert forall|k: int| 0 <= k < ls.len() implies !contains(
        #[trigger] body(ls[k]),
        block_marker(),
    ) by {
        lemma_contains_body(ls[k], block_marker());
        if contains(ls[k], block_marker()) {
            lemma_contains_line(ls, k, block_marker());
        }
    }
    lemma_fold_keeps(ls, Seq::empty(), false);
    assert(Seq::<char>::empty() + c =~= c);
    if c.len() > 0 {
        lemma_split_last(c);
    } else {
        assert(ls.len() == 0);
    }
}

/// The lines of `ls`, each with its line break.
pub open spec fn ended(ls: Seq<Seq<char>>) -> Seq<Seq<char>> {
    ls.map_values(|l: Seq<char>| line(l))
}

pub open spec fn no_break(s: Seq<char>) -> bool {
    forall|k: int| 0 <= k < s.len() ==> s[k] != '\n'
}

/// Ended lines appended to an ended text are split back into those lines.
proof fn lemma_split_terminated(c: Seq<char>, ls: Seq<Seq<char>>)
    requires
        c.len() == 0 || c.last() == '\n',
        forall|k: int| 0 <= k < ls.len() ==> no_break(#[trigger] ls[k]),
    ensures
        split_lines(c + terminated(ls)) == split_lines(c) + ended(ls),
    decreases ls.len(),
{
    if ls.len() == 0 {
        assert(c + terminated(ls) =~= c);
        assert(split_lines(c) + ended(ls) =~= split_lines(c));
    } else {
        let l1 = ls.drop_last();
        assert forall|k: int| 0 <= k < l1.len() implies no_break(#[trigger] l1[k]) by {
            assert(l1[k] == ls[k]);
        }
        lemma_split_terminated(c, l1);
        let a = c + terminated(l1);
        let b = line(ls.last());
        assert(no_break(ls[ls.len() - 1]));
        if l1.len() > 0 {
            assert(terminated(l1).last() == '\n');
        }
        assert(a.len() == 0 || a.last() == '\n');
        lemma_split_push(a, b);
        assert(c + terminated(ls) =~= a + b);
        assert(split_lines(c) + ended(ls) =~= (split_lines(c) + ended(l1)).push(b));
    }
}

/// Lines that open or continue a block are all dropped, and leave it open.
proof fn lemma_fold_drops(ls: Seq<Seq<char>>, o: Seq<char>, cut: bool)
    requires
        forall|k: int|
            0 <= k < ls.len() ==> (#[trigger] ls[k]).len() > 0 && (contains(
                ls[k],
                block_marker(),
            ) || is_block_line(ls[k])),
    ensures
        strip_fold(ended(ls), (o, true, false, cut)) == (o, true, false, cut),
    decreases ls.len(),
{
    if ls.len() > 0 {
        let l1 = ls.drop_last();
        assert forall|k: int| 0 <= k < l1.len() implies (#[trigger] l1[k]).len() > 0 && (contains(
            l1[k],
            block_marker(),
        ) || is_block_line(l1[k])) by {
            assert(l1[k] == ls[k]);
        }
        lemma_fold_drops(l1, o, cut);
        assert(ended(ls).drop_last() =~= ended(l1));
        let l = ls[ls.len() - 1];
        assert(body(line(l)) =~= l);
    }
}

proof fn lemma_prefix_extend(a: Seq<char>, b: Seq<char>, p: Seq<char>)
    requires
        starts_with(a, p),
    ensures
        starts_with(a + b, p),
{
    assert((a + b).subrange(0, p.len() as int) =~= a.subrange(0, p.len() as int));
}

proof fn lemma_no_break_concat(a: Seq<char>, b: Seq<char>)
    requires
        no_break(a),
        no_break(b),
    ensures
        no_break(a + b),
{
    assert forall|k: int| 0 <= k < (a + b).len() implies (a + b)[k] != '\n' by {
        if k < a.len() {
            assert((a + b)[k] == a[k]);
        } else {
            assert((a + b)[k] == b[k - a.len()]);
        }
    }
}

/// The facts about the block's lines that removal relies on.
proof fn lemma_block_lines(path: Seq<char>)
    requires
        no_break(path),
    ensures
        contains(block_lines(path)[0], block_marker()),
        forall|k: int| 0 <= k < block_lines(path).len() ==> no_break(#[trigger] block_lines(path)[k]),
        forall|k: int|
            0 <= k < block_lines(path).len() ==> (#[trigger] block_lines(path)[k]).len() > 0 && (
            contains(block_lines(path)[k], block_marker()) || is_block_line(block_lines(path)[k])),
{
    let ls = block_lines(path);
    let marker = "# Uprooted CLR profiler (remove these lines to disable)";
    let guid = "{D1A6F5A0-1234-4567-89AB-CDEF01234567}";
    reveal_strlit("# Uprooted CLR profiler (remove these lines to disable)");
    reveal_strlit("{D1A6F5A0-1234-4567-89AB-CDEF01234567}");
    reveal_strlit("# Uprooted CLR profiler");
    reveal_strlit("# .NET 10+ (DOTNET_ prefix)");
    reveal_strlit("export DOTNET_EnableDiagnostics=1");
    reveal_strlit("export DOTNET_ENABLE_PROFILING=1");
    reveal_strlit("export DOTNET_PROFILER='");
    reveal_strlit("export DOTNET_PROFILER_PATH='");
    reveal_strlit("export DOTNET_ReadyToRun=0");
    reveal_strlit("# Legacy (.NET 8/9)");
    reveal_strlit("export CORECLR_ENABLE_PROFILING=1");
    reveal_strlit("export CORECLR_PROFILER='");
    reveal_strlit("export CORECLR_PROFILER_PATH='");
    reveal_strlit("'");
    reveal_strlit("export CORECLR_");
    reveal_strlit("export DOTNET_");
    reveal_strlit("#");
    let q = "'"@;
    assert(no_break(guid@));
    assert(no_break(q));
    let d1 = "export DOTNET_PROFILER='"@;
    let d2 = "export DOTNET_PROFILER_PATH='"@;
    let c1 = "export CORECLR_PROFILER='"@;
    let c2 = "export CORECLR_PROFILER_PATH='"@;
    assert(no_break(d1));
    assert(no_break(d2));
    assert(no_break(c1));
    assert(no_break(c2));
    lemma_no_break_concat(d1, guid@);
    lemma_no_break_concat(d1 + guid@, q);
    lemma_no_break_concat(d2, path);
    lemma_no_break_concat(d2 + path, q);
    lemma_no_break_concat(c1, guid@);
    lemma_no_break_concat(c1 + guid@, q);
    lemma_no_break_concat(c2, path);
    lemma_no_break_concat(c2 + path, q);
    assert(marker@.subrange(0, 23) =~= block_marker());
    assert(occurs_at(ls[0], block_marker(), 0));
    assert(d1.subrange(0, 14) =~= "export DOTNET_"@);
    assert(d2.subrange(0, 14) =~= "export DOTNET_"@);
    assert(c1.subrange(0, 15) =~= "export CORECLR_"@);
    assert(c2.subrange(0, 15) =~= "export CORECLR_"@);
    lemma_prefix_extend(d1, guid@, "export DOTNET_"@);
    lemma_prefix_extend(d1 + guid@, q, "export DOTNET_"@);
    lemma_prefix_extend(d2, path, "export DOTNET_"@);
    lemma_prefix_extend(d2 + path, q, "export DOTNET_"@);
    lemma_prefix_extend(c1, guid@, "export CORECLR_"@);
    lemma_prefix_extend(c1 + guid@, q, "export CORECLR_"@);
    lemma_prefix_extend(c2, path, "export CORECLR_"@);
    lemma_prefix_extend(c2 + path, q, "export CORECLR_"@);
    assert("# .NET 10+ (DOTNET_ prefix)"@.subrange(0, 1) =~= "#"@);
    assert("# Legacy (.NET 8/9)"@.subrange(0, 1) =~= "#"@);
    assert("export DOTNET_EnableDiagnostics=1"@.subrange(0, 14) =~= "export DOTNET_"@);
    assert("export DOTNET_ENABLE_PROFILING=1"@.subrange(0, 14) =~= "export DOTNET_"@);
    assert("export DOTNET_ReadyToRun=0"@.subrange(0, 14) =~= "export DOTNET_"@);
    assert("export CORECLR_ENABLE_PROFILING=1"@.subrange(0, 15) =~= "export CORECLR_"@);
    assert(ls.len() == 11);
    assert(ls[4] == d1 + guid@ + q);
    assert(ls[5] == d2 + path + q);
    assert(ls[9] == c1 + guid@ + q);
    assert(ls[10] == c2 + path + q);
}

/// A marker ending in something other than a line break that occurs in a
/// text followed by one line break occurs in the text itself.
proof fn lemma_contains_before_break(c: Seq<char>, x: Seq<char>)
    requires
        x.len() > 0,
        x.last() != '\n',
        contains(c.push('\n'), x),
    ensures
        contains(c, x),
{
    let i = choose|i: int| occurs_at(c.push('\n'), x, i);
    let c1 = c.push('\n');
    if i + x.len() == c1.len() {
        assert(c1.subrange(i, i + x.len())[x.len() - 1] == c1[c1.len() - 1]);
        assert(false);
    }
    assert(c.subrange(i, i + x.len()) =~= c1.subrange(i, i + x.len()));
    assert(occurs_at(c, x, i));
}

/// Removing the block from a profile it was appended to gives back the
/// profile as it was, byte for byte, provided the profile's own text does
/// not hold the block's marker and the profiler path holds no line break.
pub proof fn lemma_strip_appended(c: Seq<char>, path: Seq<char>)
    requires
        !contains(c, block_marker()),
        no_break(path),
    ensures
        stripped(c + (seq!['\n'] + profile_block_spec(path))) == c,
{
    let ls = block_lines(path);
    let c1 = c.push('\n');
    assert(c + (seq!['\n'] + profile_block_spec(path)) =~= c1 + terminated(ls));
    lemma_block_lines(path);
    lemma_split_terminated(c1, ls);
    let init: StripState = (Seq::empty(), false, false, false);
    lemma_fold_append(split_lines(c1), ended(ls), init);
    reveal_strlit("# Uprooted CLR profiler");
    if contains(c1, block_marker()) {
        lemma_contains_before_break(c, block_marker());
    }
    lemma_strip_unrelated(c1);
    let k1 = strip_fold(split_lines(c1), init);
    assert(k1 == (c1, false, true, false));
    // the first line opens the block and takes back the line break before it
    let rest = ls.drop_first();
    assert(ended(ls) =~= seq![line(ls[0])] + ended(rest));
    lemma_fold_append(seq![line(ls[0])], ended(rest), k1);
    assert(body(line(ls[0])) =~= ls[0]);
    let one = seq![line(ls[0])];
    assert(one.drop_last() =~= Seq::<Seq<char>>::empty());
    assert(one.last() == line(ls[0]));
    assert(strip_fold(one.drop_last(), k1) == k1);
    assert(c1.drop_last() =~= c);
    assert(strip_step(k1, line(ls[0])) == (c1, true, false, true));
    assert(strip_fold(one, k1) == (c1, true, false, true));
    assert forall|k: int| 0 <= k < rest.len() implies (#[trigger] rest[k]).len() > 0 && (contains(
        rest[k],
        block_marker(),
    ) || is_block_line(rest[k])) by {
        assert(rest[k] == ls[k + 1]);
    }
    lemma_fold_drops(rest, c1, true);
    assert(profile_block_spec(path) == terminated(ls));
}

} // verus!
