//! Lexical operations on path strings.
//!
//! Paths are plain strings of characters separated by `/`. Everything in this
//! module is purely lexical: no lookup of any kind happens here.

use vstd::prelude::*;
use vstd::string::*;

verus! {

// ---------------------------------------------------------------------------
// Specifier classification
// ---------------------------------------------------------------------------

/// A path that begins with the root marker `/`.
pub open spec fn is_absolute_spec(s: Seq<char>) -> bool {
    s.len() > 0 && s[0] == '/'
}

/// A specifier that begins with `./`.
pub open spec fn is_dot_relative_spec(s: Seq<char>) -> bool {
    s.len() >= 2 && s[0] == '.' && s[1] == '/'
}

/// A specifier that begins with `../`.
pub open spec fn is_dotdot_relative_spec(s: Seq<char>) -> bool {
    s.len() >= 3 && s[0] == '.' && s[1] == '.' && s[2] == '/'
}

/// A specifier that names a location explicitly (absolute or relative),
/// as opposed to a bare dependency-package reference.
pub open spec fn is_explicit_spec(s: Seq<char>) -> bool {
    is_absolute_spec(s) || is_dot_relative_spec(s) || is_dotdot_relative_spec(s)
}

pub fn is_absolute(s: &str) -> (r: bool)
    ensures
        r == is_absolute_spec(s@),
{
    s.unicode_len() > 0 && s.get_char(0) == '/'
}

pub fn is_explicit(s: &str) -> (r: bool)
    ensures
        r == is_explicit_spec(s@),
{
    let n = s.unicode_len();
    if n > 0 && s.get_char(0) == '/' {
        true
    } else if n >= 2 && s.get_char(0) == '.' && s.get_char(1) == '/' {
        true
    } else {
        n >= 3 && s.get_char(0) == '.' && s.get_char(1) == '.' && s.get_char(2) == '/'
    }
}

// ---------------------------------------------------------------------------
// Joining
// ---------------------------------------------------------------------------

/// Join a base directory and a path segment. An absolute segment replaces the
/// base entirely; an empty base leaves the segment untouched; otherwise the two
/// are glued with a single `/` (none is added when the base already ends in one).
pub open spec fn join_spec(base: Seq<char>, seg: Seq<char>) -> Seq<char> {
    if is_absolute_spec(seg) {
        seg
    } else if base.len() == 0 {
        seg
    } else if base[base.len() - 1] == '/' {
        base + seg
    } else {
        base + seq!['/'] + seg
    }
}

pub fn join(base: &str, seg: &str) -> (r: String)
    ensures
        r@ == join_spec(base@, seg@),
{
    let n = base.unicode_len();
    if is_absolute(seg) || n == 0 {
        seg.to_owned()
    } else {
        let mut out = base.to_owned();
        if base.get_char(n - 1) != '/' {
            out.append("/");
            proof {
                reveal_strlit("/");
                assert(out@ =~= base@ + seq!['/']);
            }
        }
        out.append(seg);
        proof {
            if base@[base@.len() - 1] != '/' {
                assert(out@ =~= base@ + seq!['/'] + seg@);
            }
        }
        out
    }
}

// ---------------------------------------------------------------------------
// Parent directory
// ---------------------------------------------------------------------------

/// Drop every trailing `/` from a path.
pub open spec fn strip_trailing_slashes(s: Seq<char>) -> Seq<char>
    decreases s.len(),
{
    if s.len() > 0 && s[s.len() - 1] == '/' {
        strip_trailing_slashes(s.drop_last())
    } else {
        s
    }
}

/// Drop the trailing run of non-`/` characters (the last segment) from a path.
pub open spec fn strip_last_segment(s: Seq<char>) -> Seq<char>
    decreases s.len(),
{
    if s.len() > 0 && s[s.len() - 1] != '/' {
        strip_last_segment(s.drop_last())
    } else {
        s
    }
}

/// The parent directory of a path, ignoring trailing slashes: `None` for the
/// empty path and for the root, the empty path for a single relative segment,
/// the root for a first-level entry, and the leading portion otherwise.
pub open spec fn parent_spec(p: Seq<char>) -> Option<Seq<char>> {
    let q = strip_trailing_slashes(p);
    if q.len() == 0 {
        None
    } else {
        let r = strip_last_segment(q);
        if r.len() == 0 {
            Some(Seq::empty())
        } else {
            let r2 = strip_trailing_slashes(r);
            if r2.len() == 0 {
                Some(seq!['/'])
            } else {
                Some(r2)
            }
        }
    }
}

proof fn lemma_strip_slashes_take(s: Seq<char>, j: int)
    requires
        0 <= j <= s.len(),
        forall|k: int| j <= k < s.len() ==> s[k] == '/',
        j > 0 ==> s[j - 1] != '/',
    ensures
        strip_trailing_slashes(s) == s.take(j),
    decreases s.len(),
{
    if s.len() > j {
        assert(s[s.len() - 1] == '/');
        assert(s.drop_last() =~= s.take(s.len() - 1));
        lemma_strip_slashes_take(s.take(s.len() - 1), j);
    } else {
        assert(s.take(j) =~= s);
    }
}

proof fn lemma_strip_segment_take(s: Seq<char>, j: int)
    requires
        0 <= j <= s.len(),
        forall|k: int| j <= k < s.len() ==> s[k] != '/',
        j > 0 ==> s[j - 1] == '/',
    ensures
        strip_last_segment(s) == s.take(j),
    decreases s.len(),
{
    if s.len() > j {
        assert(s[s.len() - 1] != '/');
        assert(s.drop_last() =~= s.take(s.len() - 1));
        lemma_strip_segment_take(s.take(s.len() - 1), j);
    } else {
        assert(s.take(j) =~= s);
    }
}

proof fn lemma_strip_slashes_len(s: Seq<char>)
    ensures
        strip_trailing_slashes(s).len() <= s.len(),
        strip_trailing_slashes(s).len() > 0 ==> strip_trailing_slashes(s).last() != '/',
    decreases s.len(),
{
    if s.len() > 0 && s[s.len() - 1] == '/' {
        lemma_strip_slashes_len(s.drop_last());
    }
}

proof fn lemma_strip_segment_len(s: Seq<char>)
    ensures
        strip_last_segment(s).len() <= s.len(),
        s.len() > 0 && s[s.len() - 1] != '/' ==> strip_last_segment(s).len() < s.len(),
    decreases s.len(),
{
    if s.len() > 0 && s[s.len() - 1] != '/' {
        lemma_strip_segment_len(s.drop_last());
    }
}

/// A parent path is strictly shorter than the path it was taken from, which
/// bounds the ancestor walk.
pub proof fn lemma_parent_shorter(p: Seq<char>)
    requires
        parent_spec(p) is Some,
    ensures
        parent_spec(p)->0.len() < p.len(),
{
    let q = strip_trailing_slashes(p);
    lemma_strip_slashes_len(p);
    let r = strip_last_segment(q);
    lemma_strip_segment_len(q);
    if r.len() > 0 {
        lemma_strip_slashes_len(r);
    }
}

pub fn parent(p: &str) -> (r: Option<String>)
    ensures
        match r {
            Some(q) => parent_spec(p@) == Some(q@),
            None => parent_spec(p@) is None,
        },
{
    let n = p.unicode_len();
    let mut j = n;
    while j > 0 && p.get_char(j - 1) == '/'
        invariant
            j <= n,
            n == p@.len(),
            forall|k: int| j <= k < n ==> p@[k] == '/',
        decreases j,
    {
        j = j - 1;
    }
    proof {
        lemma_strip_slashes_take(p@, j as int);
    }
    if j == 0 {
        return None;
    }
    let mut k = j;
    while k > 0 && p.get_char(k - 1) != '/'
        invariant
            k <= j <= n,
            n == p@.len(),
            forall|t: int| k <= t < j ==> p@[t] != '/',
        decreases k,
    {
        k = k - 1;
    }
    proof {
        assert forall|t: int| k <= t < p@.take(j as int).len() implies p@.take(j as int)[t] != '/' by {}
        lemma_strip_segment_take(p@.take(j as int), k as int);
        assert(p@.take(j as int).take(k as int) =~= p@.take(k as int));
    }
    if k == 0 {
        return Some(String::new());
    }
    let mut m = k;
    while m > 0 && p.get_char(m - 1) == '/'
        invariant
            m <= k <= n,
            n == p@.len(),
            forall|t: int| m <= t < k ==> p@[t] == '/',
        decreases m,
    {
        m = m - 1;
    }
    proof {
        assert forall|t: int| m <= t < p@.take(k as int).len() implies p@.take(k as int)[t] == '/' by {}
        lemma_strip_slashes_take(p@.take(k as int), m as int);
        assert(p@.take(k as int).take(m as int) =~= p@.take(m as int));
    }
    if m == 0 {
        let root = "/";
        proof {
            reveal_strlit("/");
            assert(root@ =~= seq!['/']);
        }
        return Some(root.to_owned());
    }
    Some(p.substring_char(0, m).to_owned())
}

// ---------------------------------------------------------------------------
// Lexical normalization
// ---------------------------------------------------------------------------

/// The single segment `.`.
pub open spec fn is_dot_segment(seg: Seq<char>) -> bool {
    seg.len() == 1 && seg[0] == '.'
}

/// The single segment `..`.
pub open spec fn is_dotdot_segment(seg: Seq<char>) -> bool {
    seg.len() == 2 && seg[0] == '.' && seg[1] == '.'
}

/// Fold one segment into the stack of kept segments: empty and `.` segments
/// are dropped, `..` pops the last kept segment (or nothing at the root), and
/// any other segment is kept.
pub open spec fn norm_step(stack: Seq<Seq<char>>, seg: Seq<char>) -> Seq<Seq<char>> {
    if seg.len() == 0 || is_dot_segment(seg) {
        stack
    } else if is_dotdot_segment(seg) {
        if stack.len() > 0 {
            stack.drop_last()
        } else {
            stack
        }
    } else {
        stack.push(seg)
    }
}

/// Scan a path left to right from position `i`, splitting on `/` and folding
/// each completed segment into the stack; `cur` holds the segment read so far.
pub open spec fn norm_scan(s: Seq<char>, i: int, stack: Seq<Seq<char>>, cur: Seq<char>) -> Seq<
    Seq<char>,
>
    decreases s.len() - i,
{
    if i < 0 || i >= s.len() {
        norm_step(stack, cur)
    } else if s[i] == '/' {
        norm_scan(s, i + 1, norm_step(stack, cur), Seq::empty())
    } else {
        norm_scan(s, i + 1, stack, cur.push(s[i]))
    }
}

/// The segments a path keeps after lexical normalization.
pub open spec fn normal_segments(s: Seq<char>) -> Seq<Seq<char>> {
    norm_scan(s, 0, Seq::empty(), Seq::empty())
}

/// Glue segments back together, each preceded by `/`.
pub open spec fn glue_segments(segs: Seq<Seq<char>>) -> Seq<char>
    decreases segs.len(),
{
    if segs.len() == 0 {
        Seq::empty()
    } else {
        glue_segments(segs.drop_last()) + seq!['/'] + segs.last()
    }
}

/// Lexical normalization: the root marker followed by the kept segments.
pub open spec fn normalize_path_spec(s: Seq<char>) -> Seq<char> {
    let segs = normal_segments(s);
    if segs.len() == 0 {
        seq!['/']
    } else {
        glue_segments(segs)
    }
}

proof fn lemma_norm_scan_tail(s: Seq<char>, i: int, stack: Seq<Seq<char>>, cur: Seq<char>)
    requires
        0 <= i <= s.len(),
        forall|k: int| i <= k < s.len() ==> s[k] != '/',
    ensures
        norm_scan(s, i, stack, cur) == norm_step(stack, cur + s.skip(i)),
    decreases s.len() - i,
{
    if i == s.len() {
        assert(cur + s.skip(i) =~= cur);
    } else {
        lemma_norm_scan_tail(s, i + 1, stack, cur.push(s[i]));
        assert(cur.push(s[i]) + s.skip(i + 1) =~= cur + s.skip(i));
    }
}

proof fn lemma_norm_scan_append_segment(
    s: Seq<char>,
    t: Seq<char>,
    i: int,
    stack: Seq<Seq<char>>,
    cur: Seq<char>,
)
    requires
        0 <= i <= s.len(),
        !t.contains('/'),
    ensures
        norm_scan(s + seq!['/'] + t, i, stack, cur) == norm_step(norm_scan(s, i, stack, cur), t),
    decreases s.len() - i,
{
    let ext = s + seq!['/'] + t;
    if i == s.len() {
        assert(ext[i] == '/');
        assert forall|k: int| i + 1 <= k < ext.len() implies ext[k] != '/' by {
            assert(ext[k] == t[k - s.len() - 1]);
            if ext[k] == '/' {
                assert(t.contains('/'));
            }
        }
        lemma_norm_scan_tail(ext, i + 1, norm_step(stack, cur), Seq::empty());
        assert(Seq::<char>::empty() + ext.skip(i + 1) =~= t);
        assert(norm_scan(s, i, stack, cur) == norm_step(stack, cur));
    } else {
        assert(ext[i] == s[i]);
        if s[i] == '/' {
            lemma_norm_scan_append_segment(s, t, i + 1, norm_step(stack, cur), Seq::empty());
        } else {
            lemma_norm_scan_append_segment(s, t, i + 1, stack, cur.push(s[i]));
        }
    }
}

/// Joining one kept, separator-free segment onto a base appends exactly that
/// segment to the base's normal form.
pub proof fn lemma_normal_segments_join(base: Seq<char>, seg: Seq<char>)
    requires
        !seg.contains('/'),
        seg.len() > 0,
        !is_dot_segment(seg),
        !is_dotdot_segment(seg),
    ensures
        normal_segments(join_spec(base, seg)) == normal_segments(base).push(seg),
{
    assert(!is_absolute_spec(seg)) by {
        if is_absolute_spec(seg) {
            assert(seg.contains('/'));
        }
    }
    if base.len() == 0 {
        assert forall|k: int| 0 <= k < seg.len() implies seg[k] != '/' by {
            if seg[k] == '/' {
                assert(seg.contains('/'));
            }
        }
        lemma_norm_scan_tail(seg, 0, Seq::empty(), Seq::empty());
        assert(Seq::<char>::empty() + seg.skip(0) =~= seg);
        assert(normal_segments(base) == norm_step(Seq::empty(), Seq::empty()));
        assert(normal_segments(join_spec(base, seg)) =~= normal_segments(base).push(seg));
    } else if base[base.len() - 1] == '/' {
        let b2 = base.drop_last();
        assert(!Seq::<char>::empty().contains('/'));
        lemma_norm_scan_append_segment(b2, Seq::empty(), 0, Seq::empty(), Seq::empty());
        assert(base =~= b2 + seq!['/'] + Seq::<char>::empty());
        assert(normal_segments(base) == norm_step(normal_segments(b2), Seq::empty()));
        lemma_norm_scan_append_segment(b2, seg, 0, Seq::empty(), Seq::empty());
        assert(join_spec(base, seg) =~= b2 + seq!['/'] + seg);
        assert(normal_segments(join_spec(base, seg)) == norm_step(normal_segments(b2), seg));
    } else {
        lemma_norm_scan_append_segment(base, seg, 0, Seq::empty(), Seq::empty());
        assert(join_spec(base, seg) == base + seq!['/'] + seg);
    }
}

/// Remove excess components like `/./` and `/../` from a path, purely
/// lexically: no link is followed and nothing is looked up.
pub fn normalize_path(p: &str) -> (r: String)
    ensures
        r@ == normalize_path_spec(p@),
{
    let n = p.unicode_len();
    let mut stack: Vec<String> = Vec::new();
    let mut start: usize = 0;
    let mut i: usize = 0;
    proof {
        assert(stack.deep_view() =~= Seq::<Seq<char>>::empty());
        assert(p@.subrange(0, 0) =~= Seq::<char>::empty());
    }
    while i < n
        invariant
            n == p@.len(),
            start <= i <= n,
            forall|t: int| start <= t < i ==> p@[t] != '/',
            norm_scan(p@, i as int, stack.deep_view(), p@.subrange(start as int, i as int))
                == normal_segments(p@),
        decreases n - i,
    {
        let ghost old_stack = stack.deep_view();
        let ghost cur = p@.subrange(start as int, i as int);
        let sep = p.get_char(i) == '/';
        if sep {
            let seglen = i - start;
            if seglen == 0 || (seglen == 1 && p.get_char(start) == '.') {
                proof {
                    assert(norm_step(old_stack, cur) == old_stack);
                }
            } else if seglen == 2 && p.get_char(start) == '.' && p.get_char(start + 1) == '.' {
                if stack.len() > 0 {
                    stack.pop();
                }
                proof {
                    assert(is_dotdot_segment(cur));
                    if old_stack.len() > 0 {
                        assert(stack.deep_view() =~= old_stack.drop_last());
                    }
                    assert(stack.deep_view() == norm_step(old_stack, cur));
                }
            } else {
                let seg = p.substring_char(start, i).to_owned();
                stack.push(seg);
                proof {
                    assert(!(cur.len() == 0 || is_dot_segment(cur) || is_dotdot_segment(cur)));
                    assert(stack.deep_view() =~= old_stack.push(cur));
                }
            }
            start = i + 1;
        }
        i = i + 1;
        proof {
            if sep {
                assert(p@.subrange(start as int, i as int) =~= Seq::<char>::empty());
                assert(norm_scan(p@, i - 1, old_stack, cur) == norm_scan(
                    p@,
                    i as int,
                    stack.deep_view(),
                    Seq::<char>::empty(),
                ));
            } else {
                assert(p@.subrange(start as int, i as int) =~= cur.push(p@[i - 1]));
            }
        }
    }
    // Fold in the final segment, the one after the last separator.
    let ghost old_stack = stack.deep_view();
    let ghost cur = p@.subrange(start as int, n as int);
    proof {
        assert(norm_scan(p@, n as int, old_stack, cur) == norm_step(old_stack, cur));
    }
    let seglen = n - start;
    if seglen == 0 || (seglen == 1 && p.get_char(start) == '.') {
        proof {
            assert(norm_step(old_stack, cur) == old_stack);
        }
    } else if seglen == 2 && p.get_char(start) == '.' && p.get_char(start + 1) == '.' {
        if stack.len() > 0 {
            stack.pop();
        }
        proof {
            assert(is_dotdot_segment(cur));
            if old_stack.len() > 0 {
                assert(stack.deep_view() =~= old_stack.drop_last());
            }
            assert(stack.deep_view() == norm_step(old_stack, cur));
        }
    } else {
        let seg = p.substring_char(start, n).to_owned();
        stack.push(seg);
        proof {
            assert(!(cur.len() == 0 || is_dot_segment(cur) || is_dotdot_segment(cur)));
            assert(stack.deep_view() =~= old_stack.push(cur));
        }
    }
    let ghost segs = normal_segments(p@);
    proof {
        assert(stack.deep_view() == segs);
    }
    if stack.len() == 0 {
        let root = "/";
        proof {
            reveal_strlit("/");
            assert(root@ =~= seq!['/']);
        }
        return root.to_owned();
    }
    let mut out = String::new();
    let mut k: usize = 0;
    proof {
        assert(segs.take(0) =~= Seq::<Seq<char>>::empty());
    }
    while k < stack.len()
        invariant
            stack.deep_view() == segs,
            k <= stack.len(),
            out@ == glue_segments(segs.take(k as int)),
        decreases stack.len() - k,
    {
        out.append("/");
        out.append(stack[k].as_str());
        proof {
            reveal_strlit("/");
            assert(segs.take(k + 1).drop_last() =~= segs.take(k as int));
            assert(segs.take(k + 1).last() == segs[k as int]);
            assert(out@ =~= glue_segments(segs.take(k as int)) + seq!['/'] + segs[k as int]);
        }
        k = k + 1;
    }
    proof {
        assert(segs.take(stack.deep_view().len() as int) =~= segs);
    }
    out
}

} // verus!
