//! Route patterns and request paths: their grammar, how a pattern matches a
//! path segment by segment, and what parameters a match binds.
use crate::context::str_eq;
use vstd::prelude::*;
use vstd::string::*;

verus! {

/// `s` split at every `/`; a string without `/` is one segment.
pub open spec fn split_slash(s: Seq<char>) -> Seq<Seq<char>>
    decreases s.len(),
{
    if s.len() == 0 {
        seq![Seq::empty()]
    } else {
        let rest = split_slash(s.drop_last());
        if s.last() == '/' {
            rest.push(Seq::empty())
        } else {
            rest.update(rest.len() - 1, rest.last().push(s.last()))
        }
    }
}

/// The segments of a path or pattern that starts with `/`.
pub open spec fn segments(p: Seq<char>) -> Seq<Seq<char>> {
    split_slash(p.drop_first())
}

pub open spec fn is_param(seg: Seq<char>) -> bool {
    seg.len() > 0 && seg[0] == ':'
}

/// A pattern segment matches a path segment: a parameter takes any
/// non-empty segment, a literal only itself.
pub open spec fn segment_matches(pat: Seq<char>, seg: Seq<char>) -> bool {
    if is_param(pat) {
        seg.len() > 0
    } else {
        pat == seg
    }
}

pub open spec fn segments_match(ps: Seq<Seq<char>>, qs: Seq<Seq<char>>) -> bool {
    ps.len() == qs.len() && forall|i: int| 0 <= i < ps.len() ==> segment_matches(ps[i], qs[i])
}

pub open spec fn pattern_matches(pattern: Seq<char>, path: Seq<char>) -> bool {
    segments_match(segments(pattern), segments(path))
}

/// The (name, value) pairs bound by the parameter segments, left to right.
pub open spec fn segment_bindings(ps: Seq<Seq<char>>, qs: Seq<Seq<char>>) -> Seq<
    (Seq<char>, Seq<char>),
>
    decreases ps.len(),
{
    if ps.len() == 0 || qs.len() == 0 {
        Seq::empty()
    } else {
        let rest = segment_bindings(ps.drop_last(), qs.drop_last());
        if is_param(ps.last()) {
            rest.push((ps.last().drop_first(), qs.last()))
        } else {
            rest
        }
    }
}

pub open spec fn bindings(pattern: Seq<char>, path: Seq<char>) -> Seq<(Seq<char>, Seq<char>)> {
    segment_bindings(segments(pattern), segments(path))
}

/// Two patterns with the same literal and parameter segments at every
/// position: they match exactly the same paths.
pub open spec fn same_shape(p: Seq<char>, q: Seq<char>) -> bool {
    let ps = segments(p);
    let qs = segments(q);
    &&& ps.len() == qs.len()
    &&& forall|i: int|
        0 <= i < ps.len() ==> ((is_param(ps[i]) && is_param(qs[i])) || ps[i] == qs[i])
}

/// `q` takes priority over `p`: at the first segment where one of them has
/// a parameter and the other a literal, `q` has the literal.
pub open spec fn literal_first(q: Seq<char>, p: Seq<char>) -> bool {
    let qs = segments(q);
    let ps = segments(p);
    exists|i: int|
        0 <= i < qs.len() && i < ps.len() && !is_param(#[trigger] qs[i]) && is_param(ps[i])
            && forall|j: int| 0 <= j < i ==> is_param(qs[j]) == is_param(ps[j])
}

/// Starts with `/` and has no empty segment: `/` alone, or no `//` and no
/// trailing `/`.
pub open spec fn valid_path(p: Seq<char>) -> bool {
    &&& p.len() >= 1
    &&& p[0] == '/'
    &&& p.len() == 1 || (p.last() != '/' && forall|i: int|
        1 <= i < p.len() && #[trigger] p[i] == '/' ==> p[i - 1] != '/')
}

pub open spec fn colon_count(p: Seq<char>) -> nat
    decreases p.len(),
{
    if p.len() == 0 {
        0
    } else {
        colon_count(p.drop_last()) + if p.last() == ':' {
            1nat
        } else {
            0nat
        }
    }
}

/// The most parameters one pattern may hold.
pub const MAX_PARAMS: usize = 25;

/// A route pattern: a valid path whose segments are literals free of `:`
/// and `*`, or a `:` followed by a non-empty name, at most `MAX_PARAMS` of
/// them.
pub open spec fn valid_pattern(p: Seq<char>) -> bool {
    &&& valid_path(p)
    &&& forall|i: int| 0 <= i < p.len() ==> p[i] != '*'
    &&& forall|i: int|
        0 <= i < p.len() && #[trigger] p[i] == ':' ==> (p[i - 1] == '/' && i + 1 < p.len() && p[i + 1]
            != '/')
    &&& colon_count(p) <= MAX_PARAMS
}

/// A pattern without parameters.
pub open spec fn is_literal(p: Seq<char>) -> bool {
    forall|i: int| 0 <= i < p.len() ==> p[i] != ':'
}

/// A path with one trailing `/` removed (not from `/` itself).
pub open spec fn normalized(p: Seq<char>) -> Seq<char> {
    if p.len() >= 2 && p.last() == '/' {
        p.drop_last()
    } else {
        p
    }
}

/// The per-character conditions of `valid_pattern` at position `i`.
pub open spec fn char_ok(p: Seq<char>, i: int) -> bool {
    &&& p[i] != '*'
    &&& p[i] == ':' ==> (i >= 1 && p[i - 1] == '/' && i + 1 < p.len() && p[i + 1] != '/')
    &&& (i >= 1 && p[i] == '/') ==> p[i - 1] != '/'
}

/// `char_ok` at every position from `i` on.
pub open spec fn chars_ok_from(p: Seq<char>, i: nat) -> bool
    decreases p.len() - i,
{
    if i >= p.len() {
        true
    } else {
        char_ok(p, i as int) && chars_ok_from(p, i + 1)
    }
}

proof fn lemma_chars_ok_from(p: Seq<char>, i: nat)
    requires
        chars_ok_from(p, i),
    ensures
        forall|j: int| i <= j < p.len() ==> #[trigger] char_ok(p, j),
    decreases p.len() - i,
{
    if i < p.len() {
        lemma_chars_ok_from(p, i + 1);
    }
}

/// A pattern whose characters pass one by one, that starts with `/`, does
/// not end with one and has at most `MAX_PARAMS` parameters is valid.
pub proof fn lemma_valid_pattern_by_chars(p: Seq<char>)
    requires
        p.len() >= 2,
        p[0] == '/',
        p.last() != '/',
        chars_ok_from(p, 0),
        colon_count(p) <= MAX_PARAMS,
    ensures
        valid_pattern(p),
{
    lemma_chars_ok_from(p, 0);
    assert forall|i: int| 1 <= i < p.len() && #[trigger] p[i] == '/' implies p[i - 1] != '/' by {
        assert(char_ok(p, i));
    }
    assert forall|i: int| 0 <= i < p.len() implies p[i] != '*' by {
        assert(char_ok(p, i));
    }
    assert forall|i: int| 0 <= i < p.len() && #[trigger] p[i] == ':' implies (p[i - 1] == '/' && i + 1 < p.len() && p[i + 1] != '/') by {
        assert(char_ok(p, i));
    }
}

/// A string without `/` is one segment.
pub proof fn lemma_split_single(s: Seq<char>)
    requires
        forall|i: int| 0 <= i < s.len() ==> s[i] != '/',
    ensures
        split_slash(s) == seq![s],
    decreases s.len(),
{
    if s.len() > 0 {
        lemma_split_single(s.drop_last());
        assert(s.drop_last().push(s.last()) =~= s);
        assert(s.last() != '/');
        assert(seq![s.drop_last()].update(0, s.drop_last().push(s.last())) =~= seq![s]);
    } else {
        assert(s =~= Seq::<char>::empty());
    }
}

/// A `/` and a string without `/` after `s` add that string as a segment.
pub proof fn lemma_split_append(s: Seq<char>, t: Seq<char>)
    requires
        forall|i: int| 0 <= i < t.len() ==> t[i] != '/',
    ensures
        split_slash(s + seq!['/'] + t) == split_slash(s).push(t),
    decreases t.len(),
{
    if t.len() == 0 {
        assert((s + seq!['/'] + t).drop_last() =~= s);
        assert(s + seq!['/'] + t =~= s.push('/'));
        assert(t =~= Seq::<char>::empty());
    } else {
        lemma_split_append(s, t.drop_last());
        assert((s + seq!['/'] + t).drop_last() =~= s + seq!['/'] + t.drop_last());
        assert(t.drop_last().push(t.last()) =~= t);
        assert((s + seq!['/'] + t).last() == t.last());
        assert(t.last() != '/');
        assert(split_slash(s).push(t.drop_last()).update(split_slash(s).len() as int, t.drop_last().push(t.last())) =~= split_slash(s).push(t));
    }
}

/// Whether `p` is a valid path.
pub fn check_path(p: &str) -> (r: bool)
    ensures
        r == valid_path(p@),
{
    let n = p.unicode_len();
    if n == 0 || p.get_char(0) != '/' {
        return false;
    }
    if n == 1 {
        return true;
    }
    if p.get_char(n - 1) == '/' {
        return false;
    }
    let mut i: usize = 1;
    while i < n
        invariant
            1 <= i <= n,
            n == p@.len(),
            p@[0] == '/',
            forall|j: int| 1 <= j < i && #[trigger] p@[j] == '/' ==> p@[j - 1] != '/',
        decreases n - i,
    {
        if p.get_char(i) == '/' && p.get_char(i - 1) == '/' {
            return false;
        }
        i = i + 1;
    }
    true
}

/// Whether `p` is a valid route pattern.
pub fn check_pattern(p: &str) -> (r: bool)
    ensures
        r == valid_pattern(p@),
{
    if !check_path(p) {
        return false;
    }
    let n = p.unicode_len();
    let mut colons: usize = 0;
    let mut i: usize = 0;
    while i < n
        invariant
            0 <= i <= n,
            n == p@.len(),
            valid_path(p@),
            colons == colon_count(p@.subrange(0, i as int)),
            colons <= MAX_PARAMS,
            forall|j: int| 0 <= j < i ==> p@[j] != '*',
            forall|j: int|
                0 <= j < i && #[trigger] p@[j] == ':' ==> (p@[j - 1] == '/' && j + 1 < p@.len()
                    && p@[j + 1] != '/'),
        decreases n - i,
    {
        let c = p.get_char(i);
        assert(p@.subrange(0, i + 1).drop_last() =~= p@.subrange(0, i as int));
        if c == '*' {
            return false;
        }
        if c == ':' {
            if i == 0 || i + 1 >= n || p.get_char(i - 1) != '/' || p.get_char(i + 1) == '/' {
                return false;
            }
            if colons == MAX_PARAMS {
                proof {
                    lemma_colon_count_prefix(p@, i as int + 1);
                }
                return false;
            }
            colons = colons + 1;
        }
        i = i + 1;
    }
    assert(p@.subrange(0, n as int) =~= p@);
    true
}

/// The count of `:` never shrinks as a prefix grows.
proof fn lemma_colon_count_prefix(p: Seq<char>, k: int)
    requires
        0 <= k <= p.len(),
    ensures
        colon_count(p.subrange(0, k)) <= colon_count(p),
    decreases p.len() - k,
{
    if k < p.len() {
        lemma_colon_count_prefix(p, k + 1);
        assert(p.subrange(0, k + 1).drop_last() =~= p.subrange(0, k));
    } else {
        assert(p.subrange(0, k) =~= p);
    }
}

/// `s` split at every `/`, as `split_slash` says.
pub fn split_segments(s: &str) -> (r: Vec<&str>)
    ensures
        r@.map_values(|x: &str| x@) == split_slash(s@),
{
    let n = s.unicode_len();
    let mut out: Vec<&str> = Vec::new();
    let mut start: usize = 0;
    let mut i: usize = 0;
    assert(s@.subrange(0, 0) =~= Seq::<char>::empty());
    assert(out@.map_values(|x: &str| x@).push(s@.subrange(0, 0)) =~= seq![Seq::<char>::empty()]);
    while i < n
        invariant
            n == s@.len(),
            start <= i <= n,
            split_slash(s@.subrange(0, i as int)) == out@.map_values(|x: &str| x@).push(
                s@.subrange(start as int, i as int),
            ),
        decreases n - i,
    {
        let ghost before = out@.map_values(|x: &str| x@);
        assert(s@.subrange(0, i + 1).drop_last() =~= s@.subrange(0, i as int));
        if s.get_char(i) == '/' {
            let seg = s.substring_char(start, i);
            out.push(seg);
            assert(out@.map_values(|x: &str| x@) =~= before.push(s@.subrange(start as int, i as int)));
            start = i + 1;
            assert(s@.subrange(start as int, i + 1) =~= Seq::<char>::empty());
        } else {
            assert(s@.subrange(start as int, i + 1) =~= s@.subrange(start as int, i as int).push(s@[i as int]));
        }
        i = i + 1;
    }
    let ghost before = out@.map_values(|x: &str| x@);
    let last = s.substring_char(start, n);
    out.push(last);
    assert(s@.subrange(0, n as int) =~= s@);
    assert(out@.map_values(|x: &str| x@) =~= before.push(s@.subrange(start as int, n as int)));
    out
}

fn seg_is_param(seg: &str) -> (r: bool)
    ensures
        r == is_param(seg@),
{
    seg.unicode_len() > 0 && seg.get_char(0) == ':'
}

/// Whether two patterns (each starting with `/`) have the same shape.
pub fn check_same_shape(p: &str, q: &str) -> (r: bool)
    requires
        p@.len() >= 1,
        q@.len() >= 1,
    ensures
        r == same_shape(p@, q@),
{
    let pn = p.unicode_len();
    let qn = q.unicode_len();
    let ptail = p.substring_char(1, pn);
    let qtail = q.substring_char(1, qn);
    assert(ptail@ =~= p@.drop_first());
    assert(qtail@ =~= q@.drop_first());
    let ps = split_segments(ptail);
    let qs = split_segments(qtail);
    let ghost pv = ps@.map_values(|x: &str| x@);
    let ghost qv = qs@.map_values(|x: &str| x@);
    assert(pv == segments(p@));
    assert(qv == segments(q@));
    if ps.len() != qs.len() {
        return false;
    }
    let mut i: usize = 0;
    while i < ps.len()
        invariant
            ps@.len() == qs@.len(),
            pv == ps@.map_values(|x: &str| x@),
            qv == qs@.map_values(|x: &str| x@),
            pv == segments(p@),
            qv == segments(q@),
            i <= ps@.len(),
            forall|j: int| 0 <= j < i ==> ((is_param(pv[j]) && is_param(qv[j])) || pv[j] == qv[j]),
        decreases ps@.len() - i,
    {
        let a = ps[i];
        let b = qs[i];
        assert(a@ == pv[i as int] && b@ == qv[i as int]);
        if !((seg_is_param(a) && seg_is_param(b)) || str_eq(a, b)) {
            assert(!((is_param(pv[i as int]) && is_param(qv[i as int])) || pv[i as int] == qv[i as int]));
            return false;
        }
        i = i + 1;
    }
    true
}

/// `p` with one trailing `/` removed (not from `/` itself).
pub fn normalize(p: &str) -> (r: &str)
    ensures
        r@ == normalized(p@),
{
    let n = p.unicode_len();
    if n >= 2 && p.get_char(n - 1) == '/' {
        p.substring_char(0, n - 1)
    } else {
        p
    }
}

} // verus!
