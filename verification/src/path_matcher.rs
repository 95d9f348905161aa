//! Route patterns. A pattern is a `/`-separated template whose segments may
//! hold `?` (one character, no slash), `*` (any run without a slash), a whole
//! segment `**` (any remainder, slashes included), `{name}` (capture one
//! segment) or `{name:re}` (capture with an explicit inner expression). A
//! pattern is translated into an anchored regular expression; matching and
//! capture extraction are delegated to the regex engine through trusted
//! wrappers whose results are named functions of the strings involved.

use vstd::prelude::*;

use crate::text::chars_of;
use crate::text::push_range;
use crate::text::string_from_chars;

verus! {

// ---------------------------------------------------------------------------
// What the regex engine is trusted for.
// ---------------------------------------------------------------------------

/// Whether the regex engine accepts `re` as a regular expression.
pub uninterp spec fn regex_ok(re: Seq<char>) -> bool;

/// Whether the regular expression `re` matches `text`.
pub uninterp spec fn regex_match(re: Seq<char>, text: Seq<char>) -> bool;

/// What the named capture group `name` of `re` captured in `text`, if the
/// expression matched and the group participated.
pub uninterp spec fn regex_capture(re: Seq<char>, text: Seq<char>, name: Seq<char>) -> Option<
    Seq<char>,
>;

/// Relies on regex::Regex::new: whether a regex string compiles is a function
/// of the string alone (the crate fixes the accepted syntax and the default
/// size limit).
#[verifier::external_body]
fn regex_compiles(re: &str) -> (r: bool)
    ensures
        r == regex_ok(re@),
{
    regex::Regex::new(re).is_ok()
}

/// Relies on regex::Regex::new and Regex::is_match: whether a regular
/// expression matches a text is a function of the regex string and the text.
#[verifier::external_body]
fn regex_match_str(re: &str, text: &str) -> (r: bool)
    requires
        regex_ok(re@),
    ensures
        r == regex_match(re@, text@),
{
    regex::Regex::new(re).map(|rx| rx.is_match(text)).unwrap_or(false)
}

/// Relies on regex::Regex::new, Regex::captures and Captures::name: the text
/// captured by a named group is a function of the regex string, the text and
/// the group name.
#[verifier::external_body]
fn regex_capture_str(re: &str, text: &str, name: &str) -> (r: Option<String>)
    requires
        regex_ok(re@),
    ensures
        r is Some <==> regex_capture(re@, text@, name@) is Some,
        r is Some ==> r.unwrap()@ == regex_capture(re@, text@, name@).unwrap(),
{
    regex::Regex::new(re).ok().and_then(|rx| rx.captures(text)).and_then(
        |c| c.name(name).map(|m| m.as_str().to_string()),
    )
}

// ---------------------------------------------------------------------------
// Translation of a pattern into a regex string.
// ---------------------------------------------------------------------------

/// The characters the regex engine gives a meaning to; every other character
/// stands for itself. This set is fixed by the regex crate.
pub open spec fn spec_is_meta(c: char) -> bool {
    c == '\\' || c == '.' || c == '+' || c == '*' || c == '?' || c == '(' || c == ')' || c == '|'
        || c == '[' || c == ']' || c == '{' || c == '}' || c == '^' || c == '$' || c == '#'
        || c == '&' || c == '-' || c == '~'
}

fn is_meta(c: char) -> (r: bool)
    ensures
        r == spec_is_meta(c),
{
    c == '\\' || c == '.' || c == '+' || c == '*' || c == '?' || c == '(' || c == ')' || c == '|'
        || c == '[' || c == ']' || c == '{' || c == '}' || c == '^' || c == '$' || c == '#'
        || c == '&' || c == '-' || c == '~'
}

/// A literal character, escaped where the regex engine would read it.
pub open spec fn spec_escape(c: char) -> Seq<char> {
    if spec_is_meta(c) {
        seq!['\\', c]
    } else {
        seq![c]
    }
}

/// The position of the first `}` at or after `i`, or the length if none.
pub open spec fn spec_find_close(seg: Seq<char>, i: int) -> int
    decreases seg.len() - i when 0 <= i <= seg.len()
{
    if i >= seg.len() {
        seg.len() as int
    } else if seg[i] == '}' {
        i
    } else {
        spec_find_close(seg, i + 1)
    }
}

pub proof fn lemma_find_close_bounds(seg: Seq<char>, i: int)
    requires
        0 <= i <= seg.len(),
    ensures
        i <= spec_find_close(seg, i) <= seg.len(),
    decreases seg.len() - i,
{
    if i < seg.len() && seg[i] != '}' {
        lemma_find_close_bounds(seg, i + 1);
    }
}

fn find_close(seg: &[char], i: usize) -> (r: usize)
    requires
        i <= seg@.len(),
    ensures
        r == spec_find_close(seg@, i as int),
        i <= r <= seg@.len(),
{
    let mut j: usize = i;
    while j < seg.len()
        invariant
            i <= j <= seg@.len(),
            spec_find_close(seg@, i as int) == spec_find_close(seg@, j as int),
        decreases seg.len() - j,
    {
        if seg[j] == '}' {
            return j;
        }
        j += 1;
    }
    j
}

/// The position of the first `:` at or after `i`, or `None`.
pub open spec fn spec_find_colon(s: Seq<char>, i: int) -> Option<int>
    decreases s.len() - i when 0 <= i <= s.len()
{
    if i >= s.len() {
        None
    } else if s[i] == ':' {
        Some(i)
    } else {
        spec_find_colon(s, i + 1)
    }
}

pub proof fn lemma_find_colon_bounds(s: Seq<char>, i: int)
    requires
        0 <= i <= s.len(),
        spec_find_colon(s, i) is Some,
    ensures
        i <= spec_find_colon(s, i).unwrap() < s.len(),
    decreases s.len() - i,
{
    if i < s.len() && s[i] != ':' {
        lemma_find_colon_bounds(s, i + 1);
    }
}

fn find_colon(s: &[char]) -> (r: Option<usize>)
    ensures
        match r {
            Some(k) => spec_find_colon(s@, 0) == Some(k as int),
            None => spec_find_colon(s@, 0) is None,
        },
{
    let mut j: usize = 0;
    while j < s.len()
        invariant
            0 <= j <= s@.len(),
            spec_find_colon(s@, 0) == spec_find_colon(s@, j as int),
        decreases s.len() - j,
    {
        if s[j] == ':' {
            return Some(j);
        }
        j += 1;
    }
    None
}

/// The regex text of a capture construct with inner text `inside`: an
/// explicit expression after the first `:`, or one whole path segment.
pub open spec fn spec_group_re(inside: Seq<char>) -> Seq<char> {
    match spec_find_colon(inside, 0) {
        Some(k) => seq!['(', '?', 'P', '<'] + inside.take(k) + seq!['>'] + inside.skip(k + 1)
            + seq![')'],
        None => seq!['(', '?', 'P', '<'] + inside + seq!['>', '[', '^', '/', ']', '+', ')'],
    }
}

/// The variable name of a capture construct with inner text `inside`.
pub open spec fn spec_group_var(inside: Seq<char>) -> Seq<char> {
    match spec_find_colon(inside, 0) {
        Some(k) => inside.take(k),
        None => inside,
    }
}

/// The regex text of one pattern segment, read from position `i`.
pub open spec fn spec_seg_re(seg: Seq<char>, i: int) -> Seq<char>
    decreases seg.len() - i when 0 <= i <= seg.len() via spec_seg_re_decreases
{
    if i >= seg.len() {
        Seq::empty()
    } else if seg[i] == '*' {
        seq!['[', '^', '/', ']', '*'] + spec_seg_re(seg, i + 1)
    } else if seg[i] == '?' {
        seq!['[', '^', '/', ']'] + spec_seg_re(seg, i + 1)
    } else if seg[i] == '{' {
        let j = spec_find_close(seg, i + 1);
        if j >= seg.len() {
            seq!['\\', '{'] + spec_seg_re(seg, i + 1)
        } else {
            spec_group_re(seg.subrange(i + 1, j)) + spec_seg_re(seg, j + 1)
        }
    } else {
        spec_escape(seg[i]) + spec_seg_re(seg, i + 1)
    }
}

#[via_fn]
proof fn spec_seg_re_decreases(seg: Seq<char>, i: int) {
    if 0 <= i < seg.len() && seg[i] == '{' {
        lemma_find_close_bounds(seg, i + 1);
    }
}

/// The variable names of one pattern segment, read from position `i`.
pub open spec fn spec_seg_vars(seg: Seq<char>, i: int) -> Seq<Seq<char>>
    decreases seg.len() - i when 0 <= i <= seg.len() via spec_seg_vars_decreases
{
    if i >= seg.len() {
        Seq::empty()
    } else if seg[i] == '{' {
        let j = spec_find_close(seg, i + 1);
        if j >= seg.len() {
            spec_seg_vars(seg, i + 1)
        } else {
            seq![spec_group_var(seg.subrange(i + 1, j))] + spec_seg_vars(seg, j + 1)
        }
    } else {
        spec_seg_vars(seg, i + 1)
    }
}

#[via_fn]
proof fn spec_seg_vars_decreases(seg: Seq<char>, i: int) {
    if 0 <= i < seg.len() && seg[i] == '{' {
        lemma_find_close_bounds(seg, i + 1);
    }
}

/// The pattern split at every `/`, empty pieces kept.
pub open spec fn spec_split_segments(p: Seq<char>) -> Seq<Seq<char>>
    decreases p.len(),
{
    if p.len() == 0 {
        seq![Seq::<char>::empty()]
    } else if p[0] == '/' {
        seq![Seq::<char>::empty()] + spec_split_segments(p.skip(1))
    } else {
        let rest = spec_split_segments(p.skip(1));
        seq![seq![p[0]] + rest[0]] + rest.skip(1)
    }
}

pub proof fn lemma_split_segments_len(p: Seq<char>)
    ensures
        spec_split_segments(p).len() >= 1,
    decreases p.len(),
{
    if p.len() > 0 {
        lemma_split_segments_len(p.skip(1));
    }
}

/// Whether a segment is the whole-remainder wildcard `**`.
pub open spec fn spec_is_double_star(seg: Seq<char>) -> bool {
    seg.len() == 2 && seg[0] == '*' && seg[1] == '*'
}

/// The regex text of a segment list: empty segments vanish, `**` becomes an
/// optional match of the whole remainder, and every other segment is followed
/// by `/` when further segments follow it.
pub open spec fn spec_body_re(segs: Seq<Seq<char>>) -> Seq<char>
    decreases segs.len(),
{
    if segs.len() == 0 {
        Seq::empty()
    } else if segs[0].len() == 0 {
        spec_body_re(segs.skip(1))
    } else if spec_is_double_star(segs[0]) {
        seq!['(', '?', ':', '.', '*', ')', '?'] + spec_body_re(segs.skip(1))
    } else {
        spec_seg_re(segs[0], 0) + (if segs.len() > 1 {
            seq!['/']
        } else {
            Seq::<char>::empty()
        }) + spec_body_re(segs.skip(1))
    }
}

/// The variable names of a segment list, in pattern order.
pub open spec fn spec_body_vars(segs: Seq<Seq<char>>) -> Seq<Seq<char>>
    decreases segs.len(),
{
    if segs.len() == 0 {
        Seq::empty()
    } else if segs[0].len() == 0 || spec_is_double_star(segs[0]) {
        spec_body_vars(segs.skip(1))
    } else {
        spec_seg_vars(segs[0], 0) + spec_body_vars(segs.skip(1))
    }
}

/// The full anchored regex text of a pattern.
pub open spec fn spec_compile_re(p: Seq<char>) -> Seq<char> {
    seq!['^'] + (if p.len() > 0 && p[0] == '/' {
        seq!['/']
    } else {
        Seq::<char>::empty()
    }) + spec_body_re(spec_split_segments(p)) + seq!['$']
}

/// The variable names of a pattern, in order of appearance.
pub open spec fn spec_compile_vars(p: Seq<char>) -> Seq<Seq<char>> {
    spec_body_vars(spec_split_segments(p))
}

// ---------------------------------------------------------------------------
// Executable translation.
// ---------------------------------------------------------------------------

fn split_slash(p: &[char]) -> (r: Vec<Vec<char>>)
    ensures
        r@.len() == spec_split_segments(p@).len(),
        forall|k: int| 0 <= k < r@.len() ==> r@[k]@ == spec_split_segments(p@)[k],
{
    let ghost segs = spec_split_segments(p@);
    let mut done: Vec<Vec<char>> = Vec::new();
    let mut cur: Vec<char> = Vec::new();
    let mut i: usize = 0;
    proof {
        assert(p@.skip(0) == p@);
    }
    while i < p.len()
        invariant
            0 <= i <= p@.len(),
            segs == spec_split_segments(p@),
            segs.len() == done@.len() + spec_split_segments(p@.skip(i as int)).len(),
            forall|k: int| 0 <= k < done@.len() ==> segs[k] == done@[k]@,
            segs[done@.len() as int] == cur@ + spec_split_segments(p@.skip(i as int))[0],
            forall|k: int|
                0 < k < spec_split_segments(p@.skip(i as int)).len() ==> segs[done@.len() + k]
                    == spec_split_segments(p@.skip(i as int))[k],
        decreases p.len() - i,
    {
        let ghost tail = p@.skip(i as int);
        proof {
            assert(tail.len() > 0);
            assert(tail.skip(1) == p@.skip(i + 1 as int));
            lemma_split_segments_len(p@.skip(i + 1 as int));
        }
        let c = p[i];
        assert(c == tail[0]);
        let ghost rest = spec_split_segments(p@.skip(i + 1 as int));
        if c == '/' {
            let ghost old_len = done@.len() as int;
            proof {
                assert(spec_split_segments(tail) =~= seq![Seq::<char>::empty()] + rest);
                assert(spec_split_segments(tail)[0] =~= Seq::<char>::empty());
                assert(cur@ + Seq::<char>::empty() =~= cur@);
                assert(forall|k: int| 0 < k < rest.len() + 1 ==> spec_split_segments(tail)[k] == rest[k - 1]);
                assert(rest.len() >= 1);
                assert(segs[old_len + 1] == spec_split_segments(tail)[1]);
                assert(spec_split_segments(tail)[1] == rest[0]);
                assert(Seq::<char>::empty() + rest[0] =~= rest[0]);
                assert forall|k: int| 0 < k < rest.len() implies segs[old_len + 1 + k] == rest[k] by {
                    assert(segs[old_len + (k + 1)] == spec_split_segments(tail)[k + 1]);
                    assert(spec_split_segments(tail)[k + 1] == rest[k]);
                }
            }
            done.push(cur);
            cur = Vec::new();
        } else {
            proof {
                assert(spec_split_segments(tail) =~= seq![seq![c] + rest[0]] + rest.skip(1));
                assert(cur@ + (seq![c] + rest[0]) =~= cur@.push(c) + rest[0]);
                assert(forall|k: int| 0 < k < rest.len() ==> spec_split_segments(tail)[k] == rest[k]);
            }
            cur.push(c);
        }
        i += 1;
    }
    proof {
        assert(p@.skip(i as int) =~= Seq::<char>::empty());
        assert(spec_split_segments(Seq::<char>::empty()).len() == 1);
        assert(segs[done@.len() as int] == cur@ + Seq::<char>::empty());
        assert(cur@ + Seq::<char>::empty() =~= cur@);
    }
    done.push(cur);
    done
}

/// Append to `re` the regex text of the capture construct `inside`, and to
/// `vars` its variable name.
fn push_group(re: &mut Vec<char>, vars: &mut Vec<String>, inside: &[char])
    ensures
        final(re)@ == old(re)@ + spec_group_re(inside@),
        final(vars)@.len() == old(vars)@.len() + 1,
        forall|k: int| 0 <= k < old(vars)@.len() ==> final(vars)@[k] == old(vars)@[k],
        final(vars)@[old(vars)@.len() as int]@ == spec_group_var(inside@),
{
    re.push('(');
    re.push('?');
    re.push('P');
    re.push('<');
    let mut name_chars: Vec<char> = Vec::new();
    match find_colon(inside) {
        Some(k) => {
            proof {
                lemma_find_colon_bounds(inside@, 0);
            }
            let n = inside.len();
            assert(k < n);
            push_range(re, inside, 0, k);
            re.push('>');
            push_range(re, inside, k + 1, n);
            re.push(')');
            push_range(&mut name_chars, inside, 0, k);
            proof {
                assert(inside@.subrange(0, k as int) == inside@.take(k as int));
                assert(inside@.subrange(k + 1 as int, inside@.len() as int) == inside@.skip(
                    k + 1 as int,
                ));
                assert(final(re)@ =~= old(re)@ + spec_group_re(inside@));
            }
        },
        None => {
            push_range(re, inside, 0, inside.len());
            re.push('>');
            re.push('[');
            re.push('^');
            re.push('/');
            re.push(']');
            re.push('+');
            re.push(')');
            push_range(&mut name_chars, inside, 0, inside.len());
            proof {
                assert(inside@.subrange(0, inside@.len() as int) == inside@);
                assert(final(re)@ =~= old(re)@ + spec_group_re(inside@));
            }
        },
    }
    let name = string_from_chars(&name_chars);
    vars.push(name);
}

/// Append to `re` the regex text of one ordinary segment, and to `vars` its
/// variable names.
fn push_segment(re: &mut Vec<char>, vars: &mut Vec<String>, seg: &[char])
    ensures
        final(re)@ == old(re)@ + spec_seg_re(seg@, 0),
        final(vars)@.len() == old(vars)@.len() + spec_seg_vars(seg@, 0).len(),
        forall|k: int| 0 <= k < old(vars)@.len() ==> final(vars)@[k] == old(vars)@[k],
        forall|k: int|
            0 <= k < spec_seg_vars(seg@, 0).len() ==> final(vars)@[old(vars)@.len() + k]@
                == spec_seg_vars(seg@, 0)[k],
{
    let mut i: usize = 0;
    while i < seg.len()
        invariant
            0 <= i <= seg@.len(),
            re@ + spec_seg_re(seg@, i as int) == old(re)@ + spec_seg_re(seg@, 0),
            vars@.len() + spec_seg_vars(seg@, i as int).len() == old(vars)@.len() + spec_seg_vars(
                seg@,
                0,
            ).len(),
            forall|k: int| 0 <= k < old(vars)@.len() ==> vars@[k] == old(vars)@[k],
            vars@.len() >= old(vars)@.len(),
            forall|k: int|
                old(vars)@.len() <= k < vars@.len() ==> vars@[k]@ == spec_seg_vars(seg@, 0)[
                    k - old(vars)@.len()],
            spec_seg_vars(seg@, 0) =~= vars@.subrange(old(vars)@.len() as int, vars@.len() as int)
                .map_values(|s: String| s@) + spec_seg_vars(seg@, i as int),
        decreases seg.len() - i,
    {
        let c = seg[i];
        if c == '*' {
            re.push('[');
            re.push('^');
            re.push('/');
            re.push(']');
            re.push('*');
            i += 1;
        } else if c == '?' {
            re.push('[');
            re.push('^');
            re.push('/');
            re.push(']');
            i += 1;
        } else if c == '{' {
            let j = find_close(seg, i + 1);
            if j >= seg.len() {
                re.push('\\');
                re.push('{');
                i += 1;
            } else {
                let ghost old_vars_here = vars@;
                let inside = &seg[i + 1..j];
                assert(inside@ == seg@.subrange(i + 1 as int, j as int));
                push_group(re, vars, inside);
                proof {
                    assert(vars@.subrange(old(vars)@.len() as int, vars@.len() as int).map_values(
                        |s: String| s@,
                    ) =~= old_vars_here.subrange(old(vars)@.len() as int, old_vars_here.len() as int)
                        .map_values(|s: String| s@) + seq![
                        spec_group_var(seg@.subrange(i + 1 as int, j as int)),
                    ]);
                }
                i = j + 1;
            }
        } else {
            if is_meta(c) {
                re.push('\\');
                re.push(c);
            } else {
                re.push(c);
            }
            i += 1;
        }
    }
    proof {
        assert(re@ =~= old(re)@ + spec_seg_re(seg@, 0));
        assert(spec_seg_vars(seg@, 0) =~= vars@.subrange(
            old(vars)@.len() as int,
            vars@.len() as int,
        ).map_values(|s: String| s@));
    }
}

/// Translate a whole pattern: the anchored regex text and the variable names.
fn compile_chars(p: &[char]) -> (r: (Vec<char>, Vec<String>))
    ensures
        r.0@ == spec_compile_re(p@),
        r.1@.len() == spec_compile_vars(p@).len(),
        forall|k: int| 0 <= k < r.1@.len() ==> r.1@[k]@ == spec_compile_vars(p@)[k],
{
    let mut re: Vec<char> = Vec::new();
    let mut vars: Vec<String> = Vec::new();
    re.push('^');
    if p.len() > 0 && p[0] == '/' {
        re.push('/');
    }
    let ghost lead = re@;
    let segs = split_slash(p);
    let ghost sv = spec_split_segments(p@);
    let mut k: usize = 0;
    proof {
        assert(sv.skip(0) == sv);
    }
    while k < segs.len()
        invariant
            0 <= k <= segs@.len() == sv.len(),
            forall|t: int| 0 <= t < sv.len() ==> segs@[t]@ == sv[t],
            re@ + spec_body_re(sv.skip(k as int)) == lead + spec_body_re(sv),
            vars@.len() + spec_body_vars(sv.skip(k as int)).len() == spec_body_vars(sv).len(),
            forall|t: int|
                0 <= t < vars@.len() ==> vars@[t]@ == spec_body_vars(sv)[t],
            spec_body_vars(sv) =~= vars@.map_values(|s: String| s@) + spec_body_vars(
                sv.skip(k as int),
            ),
            lead == seq!['^'] + (if p@.len() > 0 && p@[0] == '/' {
                seq!['/']
            } else {
                Seq::<char>::empty()
            }),
        decreases segs.len() - k,
    {
        let ghost tail = sv.skip(k as int);
        proof {
            assert(tail.len() > 0);
            assert(tail[0] == sv[k as int]);
            assert(tail.skip(1) =~= sv.skip(k + 1 as int));
        }
        let seg = &segs[k];
        if seg.len() == 0 {
            // an empty piece adds nothing, not even a separator
        } else if seg.len() == 2 && seg[0] == '*' && seg[1] == '*' {
            re.push('(');
            re.push('?');
            re.push(':');
            re.push('.');
            re.push('*');
            re.push(')');
            re.push('?');
        } else {
            let ghost vars_before = vars@;
            push_segment(&mut re, &mut vars, seg.as_slice());
            if k + 1 < segs.len() {
                re.push('/');
            }
            proof {
                assert(vars@.map_values(|s: String| s@) =~= vars_before.map_values(|s: String| s@)
                    + spec_seg_vars(sv[k as int], 0));
            }
        }
        proof {
            assert(re@ + spec_body_re(sv.skip(k + 1 as int)) =~= lead + spec_body_re(sv));
            assert(spec_body_vars(sv) =~= vars@.map_values(|s: String| s@) + spec_body_vars(
                sv.skip(k + 1 as int),
            ));
        }
        k += 1;
    }
    proof {
        assert(sv.skip(sv.len() as int) =~= Seq::<Seq<char>>::empty());
    }
    re.push('$');
    proof {
        assert(re@ =~= spec_compile_re(p@));
        assert(spec_compile_vars(p@) =~= vars@.map_values(|s: String| s@));
        assert(forall|t: int|
            0 <= t < vars@.len() ==> vars@.map_values(|s: String| s@)[t] == vars@[t]@);
    }
    (re, vars)
}

// ---------------------------------------------------------------------------
// The compiled pattern.
// ---------------------------------------------------------------------------

/// Whether `path` is matched by the pattern `p` (through its regex form).
pub open spec fn spec_pattern_matches(p: Seq<char>, path: Seq<char>) -> bool {
    regex_match(spec_compile_re(p), path)
}

/// The `(name, value)` pairs the pattern `p` extracts from `path`: each
/// variable that captured, in declaration order.
pub open spec fn spec_captures(p: Seq<char>, path: Seq<char>, names: Seq<Seq<char>>) -> Seq<
    (Seq<char>, Seq<char>),
>
    decreases names.len(),
{
    if names.len() == 0 {
        Seq::empty()
    } else {
        let head = match regex_capture(spec_compile_re(p), path, names[0]) {
            Some(v) => seq![(names[0], v)],
            None => Seq::<(Seq<char>, Seq<char>)>::empty(),
        };
        head + spec_captures(p, path, names.skip(1))
    }
}

/// What `match_path` returns for pattern `p` on `path`.
pub open spec fn spec_match_path(p: Seq<char>, path: Seq<char>) -> Option<
    Seq<(Seq<char>, Seq<char>)>,
> {
    if spec_pattern_matches(p, path) {
        Some(spec_captures(p, path, spec_compile_vars(p)))
    } else {
        None
    }
}

/// Law: compiling one pattern string twice yields matchers that accept
/// exactly the same paths and extract identical variable maps — what a
/// matcher answers is a function of its pattern text and the path alone.
pub proof fn lemma_recompiled_patterns_agree(a: RoutePattern, b: RoutePattern, path: Seq<char>)
    requires
        a.spec_pattern() == b.spec_pattern(),
    ensures
        spec_pattern_matches(a.spec_pattern(), path) == spec_pattern_matches(
            b.spec_pattern(),
            path,
        ),
        spec_match_path(a.spec_pattern(), path) == spec_match_path(b.spec_pattern(), path),
{
}

/// The pattern text could not be turned into an accepted regular expression.
#[derive(Clone, Copy, PartialEq, Eq, Debug)]
pub struct PatternError;

/// A pattern together with its regex form and its capture variable names.
#[derive(Debug)]
pub struct RoutePattern {
    pattern: String,
    regex: String,
    var_names: Vec<String>,
}

impl RoutePattern {
    /// The raw pattern this value was compiled from.
    pub closed spec fn spec_pattern(&self) -> Seq<char> {
        self.pattern@
    }

    #[verifier::type_invariant]
    spec fn wf(self) -> bool {
        &&& self.regex@ == spec_compile_re(self.pattern@)
        &&& regex_ok(self.regex@)
        &&& self.var_names@.map_values(|s: String| s@) == spec_compile_vars(self.pattern@)
    }

    /// Compile `pattern`. Fails exactly when the regex engine rejects the
    /// translated expression (for example an inner expression of a
    /// `{name:re}` construct that is itself malformed).
    pub fn from_pattern(pattern: &str) -> (r: Result<RoutePattern, PatternError>)
        ensures
            r is Ok <==> regex_ok(spec_compile_re(pattern@)),
            r is Ok ==> r.unwrap().spec_pattern() == pattern@,
    {
        let cs = chars_of(pattern);
        let (re_chars, var_names) = compile_chars(cs.as_slice());
        let regex = string_from_chars(&re_chars);
        if regex_compiles(regex.as_str()) {
            let pattern_text = pattern.to_owned();
            proof {
                assert(regex@ == spec_compile_re(pattern_text@));
                assert(var_names@.map_values(|s: String| s@) =~= spec_compile_vars(pattern_text@));
            }
            Ok(RoutePattern { pattern: pattern_text, regex, var_names })
        } else {
            Err(PatternError)
        }
    }

    /// Whether this pattern matches `path` (no variable extraction).
    pub fn matches(&self, path: &str) -> (r: bool)
        ensures
            r == spec_pattern_matches(self.spec_pattern(), path@),
    {
        proof {
            use_type_invariant(self);
        }
        regex_match_str(self.regex.as_str(), path)
    }

    /// Match `path` and extract the named variables; `None` when the pattern
    /// does not match.
    pub fn match_path(&self, path: &str) -> (r: Option<Vec<(String, String)>>)
        ensures
            r is Some <==> spec_match_path(self.spec_pattern(), path@) is Some,
            r is Some ==> {
                let pairs = spec_match_path(self.spec_pattern(), path@).unwrap();
                &&& r.unwrap()@.len() == pairs.len()
                &&& forall|k: int|
                    0 <= k < pairs.len() ==> (r.unwrap()@[k].0@, r.unwrap()@[k].1@) == pairs[k]
            },
    {
        proof {
            use_type_invariant(self);
        }
        if !regex_match_str(self.regex.as_str(), path) {
            return None;
        }
        let ghost names = spec_compile_vars(self.pattern@);
        let mut out: Vec<(String, String)> = Vec::new();
        let mut i: usize = 0;
        proof {
            assert(names.skip(0) == names);
            assert(spec_captures(self.pattern@, path@, names.skip(names.len() as int)).len() == 0);
        }
        while i < self.var_names.len()
            invariant
                self.wf(),
                0 <= i <= self.var_names@.len() == names.len(),
                forall|t: int| 0 <= t < names.len() ==> self.var_names@[t]@ == names[t],
                spec_captures(self.pattern@, path@, names) =~= out@.map_values(
                    |p: (String, String)| (p.0@, p.1@),
                ) + spec_captures(self.pattern@, path@, names.skip(i as int)),
            decreases self.var_names.len() - i,
        {
            let ghost tail = names.skip(i as int);
            proof {
                assert(tail.len() > 0);
                assert(tail[0] == names[i as int]);
                assert(tail.skip(1) =~= names.skip(i + 1 as int));
            }
            let name = &self.var_names[i];
            let ghost before = out@;
            match regex_capture_str(self.regex.as_str(), path, name.as_str()) {
                Some(v) => {
                    out.push((name.clone(), v));
                },
                None => {},
            }
            proof {
                assert(spec_captures(self.pattern@, path@, names) =~= out@.map_values(
                    |p: (String, String)| (p.0@, p.1@),
                ) + spec_captures(self.pattern@, path@, names.skip(i + 1 as int)));
            }
            i += 1;
        }
        proof {
            assert(names.skip(names.len() as int) =~= Seq::<Seq<char>>::empty());
            assert(spec_captures(self.pattern@, path@, names) =~= out@.map_values(
                |p: (String, String)| (p.0@, p.1@),
            ));
        }
        Some(out)
    }
}

/// The memoized patterns of one engine: compiled patterns keyed by their
/// exact pattern text, never evicted (bounded by the distinct configured
/// patterns). A cached matcher behaves exactly as a fresh compilation of the
/// same text, so memoization is invisible to callers.
pub struct PatternCache {
    patterns: Vec<RoutePattern>,
}

impl PatternCache {
    /// An empty cache.
    pub fn new() -> (r: PatternCache) {
        PatternCache { patterns: Vec::new() }
    }

    /// The compiled form of `pattern`, reused when the exact text was
    /// compiled before. Fails exactly when compilation does.
    pub fn get_or_compile(&mut self, pattern: &str) -> (r: Result<&RoutePattern, PatternError>)
        ensures
            r is Ok <==> regex_ok(spec_compile_re(pattern@)),
            r is Ok ==> r.unwrap().spec_pattern() == pattern@,
    {
        let mut i: usize = 0;
        let mut found: Option<usize> = None;
        let n = self.patterns.len();
        while i < n && found.is_none()
            invariant
                0 <= i <= n == self.patterns@.len(),
                match found {
                    Some(f) => f < self.patterns@.len() && self.patterns@[
                        f as int].spec_pattern() == pattern@,
                    None => true,
                },
            decreases n - i, if found is Some { 0int } else { 1int },
        {
            let hit = {
                let candidate = &self.patterns[i];
                let ghost cand = *candidate;
                proof {
                    use_type_invariant(candidate);
                }
                let eq = candidate.pattern == pattern.to_owned();
                proof {
                    if eq {
                        assert(cand.spec_pattern() == pattern@);
                    }
                }
                eq
            };
            if hit {
                found = Some(i);
            } else {
                i += 1;
            }
        }
        match found {
            Some(f) => {
                let cached = &self.patterns[f];
                proof {
                    use_type_invariant(cached);
                }
                Ok(cached)
            },
            None => {
                match RoutePattern::from_pattern(pattern) {
                    Ok(compiled) => {
                        self.patterns.push(compiled);
                        let idx = self.patterns.len() - 1;
                        let entry = &self.patterns[idx];
                        proof {
                            use_type_invariant(entry);
                        }
                        Ok(entry)
                    },
                    Err(e) => Err(e),
                }
            },
        }
    }
}

} // verus!
