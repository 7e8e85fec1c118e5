//! Operations on `/`-separated path strings.
//!
//! Paths are held as plain strings; a component is a non-empty run of
//! characters between separators, and a path starting with the separator is
//! absolute. Each operation's behavior is stated exactly over the path's
//! character sequence.

use vstd::prelude::*;

use crate::string_utils::ascii_case_eq;
use crate::string_utils::eq_ignore_ascii_case;
use crate::string_utils::join_spec;
use crate::string_utils::split;
use crate::string_utils::split_spec;
use crate::string_utils::starts_with;

verus! {

// ---------------------------------------------------------------------------
// Finding the last separator or dot
// ---------------------------------------------------------------------------

/// The position of the last occurrence of `c` in `s`, if any.
pub open spec fn last_index_spec(s: Seq<char>, c: char) -> Option<int>
    decreases s.len(),
{
    if s.len() == 0 {
        None
    } else if s.last() == c {
        Some(s.len() - 1)
    } else {
        last_index_spec(s.drop_last(), c)
    }
}

fn last_index_of(s: &str, c: char) -> (r: Option<usize>)
    ensures
        r is Some <==> last_index_spec(s@, c) is Some,
        r is Some ==> last_index_spec(s@, c) == Some(r->0 as int) && r->0 < s@.len(),
{
    let n = s.unicode_len();
    proof {
        assert(s@.take(n as int) =~= s@);
    }
    let mut k = n;
    while k > 0
        invariant
            n == s@.len(),
            0 <= k <= n,
            last_index_spec(s@, c) == last_index_spec(s@.take(k as int), c),
        decreases k,
    {
        if s.get_char(k - 1) == c {
            proof {
                assert(s@.take(k as int).last() == s@[k - 1]);
            }
            return Some(k - 1);
        }
        proof {
            assert(s@.take(k as int).drop_last() =~= s@.take(k - 1));
        }
        k = k - 1;
    }
    proof {
        assert(s@.take(0).len() == 0);
    }
    None
}

// ---------------------------------------------------------------------------
// File name, stem, extension, directory
// ---------------------------------------------------------------------------

/// A path with one trailing separator removed; the bare root keeps its
/// separator. The component operations below ignore a trailing separator,
/// as the standard path operations do.
pub open spec fn strip_trailing_sep(p: Seq<char>) -> Seq<char> {
    if p.len() > 1 && p.last() == '/' {
        p.drop_last()
    } else {
        p
    }
}

/// The final component of a path, a trailing separator ignored: everything
/// after the last separator that remains.
pub open spec fn file_name_part(p: Seq<char>) -> Seq<char> {
    let q = strip_trailing_sep(p);
    match last_index_spec(q, '/') {
        Some(k) => q.skip(k + 1),
        None => q,
    }
}

/// Whether a component is one of the relative markers `.` and `..`, which
/// have neither a stem nor an extension.
pub open spec fn is_dot_component(name: Seq<char>) -> bool {
    name == "."@ || name == ".."@
}

/// The extension of a path's final component (trailing separator ignored):
/// what follows the last dot, provided the component is not a relative
/// marker and the dot is neither the component's first character (a hidden
/// file has no extension) nor its last (an empty extension counts as none).
pub open spec fn extension_spec(p: Seq<char>) -> Option<Seq<char>> {
    let name = file_name_part(p);
    if is_dot_component(name) {
        None
    } else {
        match last_index_spec(name, '.') {
            Some(k) => if k > 0 && k + 1 < name.len() {
                Some(name.skip(k + 1))
            } else {
                None
            },
            None => None,
        }
    }
}

/// The stem of a path's final component (trailing separator ignored): what
/// precedes the last dot, or the whole component when there is no dot or
/// it comes first; `None` for an empty component and for the relative
/// markers `.` and `..`.
pub open spec fn file_stem_spec(p: Seq<char>) -> Option<Seq<char>> {
    let name = file_name_part(p);
    if name.len() == 0 || is_dot_component(name) {
        None
    } else {
        match last_index_spec(name, '.') {
            Some(k) => if k > 0 {
                Some(name.take(k))
            } else {
                Some(name)
            },
            None => Some(name),
        }
    }
}

/// The directory of a path (trailing separator ignored): what precedes the
/// last separator; `.` for a bare relative component, the root for a
/// top-level entry or the root itself, and `None` only for an empty path.
pub open spec fn directory_spec(p: Seq<char>) -> Option<Seq<char>> {
    if p.len() == 0 {
        None
    } else {
        let q = strip_trailing_sep(p);
        match last_index_spec(q, '/') {
            Some(k) => if k == 0 {
                Some("/"@)
            } else {
                Some(q.take(k))
            },
            None => Some("."@),
        }
    }
}

/// The path with one trailing separator removed (see
/// [`strip_trailing_sep`]).
fn stripped<'a>(path: &'a str) -> (r: &'a str)
    ensures
        r@ == strip_trailing_sep(path@),
{
    let n = path.unicode_len();
    if n > 1 && path.get_char(n - 1) == '/' {
        let r = path.substring_char(0, n - 1);
        proof {
            assert(r@ =~= path@.drop_last());
        }
        r
    } else {
        path
    }
}

/// Whether a component is the marker `.` or `..` (see
/// [`is_dot_component`]).
fn is_dot_name(name: &str) -> (r: bool)
    ensures
        r == is_dot_component(name@),
{
    let owned = name.to_owned();
    owned == String::from_str(".") || owned == String::from_str("..")
}

/// Returns the extension of the path's final component (see
/// [`extension_spec`]).
pub fn get_file_extension(path: &str) -> (r: Option<String>)
    ensures
        (match r {
            Some(e) => Some(e@),
            None => None,
        }) == extension_spec(path@),
{
    let base = stripped(path);
    let n = base.unicode_len();
    let start = match last_index_of(base, '/') {
        Some(k) => k + 1,
        None => 0,
    };
    let name = base.substring_char(start, n);
    proof {
        assert(name@ =~= file_name_part(path@));
    }
    if is_dot_name(name) {
        return None;
    }
    let nl = name.unicode_len();
    match last_index_of(name, '.') {
        Some(k) => {
            if k > 0 && k + 1 < nl {
                Some(name.substring_char(k + 1, nl).to_owned())
            } else {
                None
            }
        },
        None => None,
    }
}

/// Returns the stem of the path's final component (see [`file_stem_spec`]).
pub fn get_file_name(path: &str) -> (r: Option<String>)
    ensures
        (match r {
            Some(e) => Some(e@),
            None => None,
        }) == file_stem_spec(path@),
{
    let base = stripped(path);
    let n = base.unicode_len();
    let start = match last_index_of(base, '/') {
        Some(k) => k + 1,
        None => 0,
    };
    let name = base.substring_char(start, n);
    proof {
        assert(name@ =~= file_name_part(path@));
    }
    let nl = name.unicode_len();
    if nl == 0 || is_dot_name(name) {
        return None;
    }
    match last_index_of(name, '.') {
        Some(k) => {
            if k > 0 {
                Some(name.substring_char(0, k).to_owned())
            } else {
                Some(name.to_owned())
            }
        },
        None => Some(name.to_owned()),
    }
}

/// Returns the directory holding the path (see [`directory_spec`]).
pub fn get_directory_name(path: &str) -> (r: Option<String>)
    ensures
        (match r {
            Some(e) => Some(e@),
            None => None,
        }) == directory_spec(path@),
{
    if path.unicode_len() == 0 {
        return None;
    }
    let base = stripped(path);
    match last_index_of(base, '/') {
        Some(k) => {
            if k == 0 {
                Some(String::from_str("/"))
            } else {
                Some(base.substring_char(0, k).to_owned())
            }
        },
        None => Some(String::from_str(".")),
    }
}

/// Returns the final component of the path (see [`file_name_part`]).
pub fn file_name_of(path: &str) -> (r: String)
    ensures
        r@ == file_name_part(path@),
{
    let base = stripped(path);
    let n = base.unicode_len();
    let start = match last_index_of(base, '/') {
        Some(k) => k + 1,
        None => 0,
    };
    let name = base.substring_char(start, n);
    proof {
        assert(name@ =~= file_name_part(path@));
    }
    name.to_owned()
}

// ---------------------------------------------------------------------------
// Joining
// ---------------------------------------------------------------------------

/// Joining two paths: an absolute second path replaces the first; an empty
/// first path yields the second; otherwise the two are separated by one
/// separator, reusing the first path's trailing one if present.
pub open spec fn join_paths_spec(p1: Seq<char>, p2: Seq<char>) -> Seq<char> {
    if p2.len() > 0 && p2[0] == '/' {
        p2
    } else if p1.len() == 0 {
        p2
    } else if p1.last() == '/' {
        p1 + p2
    } else {
        p1 + "/"@ + p2
    }
}

/// Joins two paths (see [`join_paths_spec`]).
pub fn join_paths(path1: &str, path2: &str) -> (r: String)
    ensures
        r@ == join_paths_spec(path1@, path2@),
{
    let n2 = path2.unicode_len();
    if n2 > 0 && path2.get_char(0) == '/' {
        return path2.to_owned();
    }
    let n1 = path1.unicode_len();
    if n1 == 0 {
        return path2.to_owned();
    }
    let mut r = path1.to_owned();
    if path1.get_char(n1 - 1) != '/' {
        r.append("/");
    }
    r.append(path2);
    r
}

/// Whether the path's extension equals `extension_with_dot` (which must be
/// a dot followed by at least one character), ignoring ASCII case.
pub open spec fn has_extension_spec(p: Seq<char>, ext: Seq<char>) -> bool {
    &&& "."@.is_prefix_of(ext)
    &&& ext.len() >= 2
    &&& match extension_spec(p) {
        Some(e) => ascii_case_eq(e, ext.skip(1)),
        None => false,
    }
}

/// Tests a path against a dot-prefixed extension, ignoring ASCII case; a
/// malformed extension argument matches nothing.
pub fn has_extension(file_path: &str, extension_with_dot: &str) -> (r: bool)
    ensures
        r == has_extension_spec(file_path@, extension_with_dot@),
{
    let ne = extension_with_dot.unicode_len();
    if !starts_with(extension_with_dot, ".") || ne < 2 {
        return false;
    }
    let target = extension_with_dot.substring_char(1, ne);
    match get_file_extension(file_path) {
        Some(e) => eq_ignore_ascii_case(e.as_str(), target),
        None => false,
    }
}

// ---------------------------------------------------------------------------
// Normalization
// ---------------------------------------------------------------------------

/// One step of component normalization: `.` disappears; `..` removes the
/// preceding ordinary component, disappears at the root of an absolute
/// path, and is kept otherwise; anything else is kept.
pub open spec fn norm_step(st: Seq<Seq<char>>, seg: Seq<char>, absolute: bool)
    -> Seq<Seq<char>> {
    if seg == "."@ {
        st
    } else if seg == ".."@ {
        if st.len() > 0 && st.last() != ".."@ {
            st.drop_last()
        } else if absolute && st.len() == 0 {
            st
        } else {
            st.push(seg)
        }
    } else {
        st.push(seg)
    }
}

/// The components left after normalizing a component list.
pub open spec fn norm_stack(segs: Seq<Seq<char>>, absolute: bool) -> Seq<Seq<char>>
    decreases segs.len(),
{
    if segs.len() == 0 {
        seq![]
    } else {
        norm_step(norm_stack(segs.drop_last(), absolute), segs.last(), absolute)
    }
}

/// The normalized form of a path: its components cleaned of `.` and
/// resolvable `..` entries, joined back with single separators. An empty
/// path stays empty; a path whose components all cancel becomes `.` (or
/// the bare root for an absolute path).
pub open spec fn normalize_spec(p: Seq<char>) -> Seq<char> {
    let absolute = p.len() > 0 && p[0] == '/';
    let st = norm_stack(split_spec(p, "/"@), absolute);
    if p.len() == 0 {
        p
    } else if st.len() == 0 {
        if absolute {
            "/"@
        } else {
            "."@
        }
    } else if absolute {
        "/"@ + join_spec(st, "/"@)
    } else {
        join_spec(st, "/"@)
    }
}

/// Normalizes a path (see [`normalize_spec`]).
#[verifier::loop_isolation(false)]
pub fn normalize_path(path: &str) -> (r: String)
    ensures
        r@ == normalize_spec(path@),
{
    let n = path.unicode_len();
    if n == 0 {
        return String::new();
    }
    let absolute = path.get_char(0) == '/';
    let segs = split(path, "/");
    let ghost segviews = segs@.map_values(|s: String| s@);
    let mut stack: Vec<String> = Vec::new();
    let ns = segs.len();
    for i in 0..ns
        invariant
            ns == segs@.len(),
            segviews == segs@.map_values(|s: String| s@),
            segviews.len() == ns,
            stack@.map_values(|s: String| s@)
                == norm_stack(segviews.take(i as int), absolute),
    {
        let seg = &segs[i];
        let ghost prev = stack@.map_values(|s: String| s@);
        let dot = String::from_str(".");
        let dotdot = String::from_str("..");
        if *seg == dot {
        } else if *seg == dotdot {
            let keep_len = stack.len();
            if keep_len > 0 && !(stack[keep_len - 1] == dotdot) {
                let ghost popped = stack@;
                stack.pop();
                proof {
                    assert(stack@ =~= popped.drop_last());
                    assert(stack@.map_values(|s: String| s@) =~= prev.drop_last());
                }
            } else if absolute && keep_len == 0 {
            } else {
                stack.push(seg.clone());
                proof {
                    assert(stack@.map_values(|s: String| s@) =~= prev.push(seg@));
                }
            }
        } else {
            stack.push(seg.clone());
            proof {
                assert(stack@.map_values(|s: String| s@) =~= prev.push(seg@));
            }
        }
        proof {
            assert(segviews.take(i + 1).drop_last() =~= segviews.take(i as int));
            assert(segviews.take(i + 1).last() == segviews[i as int]);
            assert(segviews[i as int] == seg@);
            assert(stack@.map_values(|s: String| s@)
                =~= norm_stack(segviews.take(i + 1), absolute));
        }
    }
    proof {
        assert(segviews.take(ns as int) =~= segviews);
    }
    if stack.len() == 0 {
        if absolute {
            return String::from_str("/");
        } else {
            return String::from_str(".");
        }
    }
    let joined = crate::string_utils::join(&stack, "/");
    if absolute {
        let mut r = String::from_str("/");
        r.append(joined.as_str());
        r
    } else {
        joined
    }
}

// ---------------------------------------------------------------------------
// Absolute and relative paths
// ---------------------------------------------------------------------------

/// A path made absolute against the given working directory and
/// normalized; an already absolute path is only normalized.
pub open spec fn absolute_spec(p: Seq<char>, cwd: Seq<char>) -> Seq<char> {
    normalize_spec(join_paths_spec(cwd, p))
}

/// Resolves a path against the working directory and normalizes it (see
/// [`absolute_spec`]).
pub fn to_absolute_path(path: &str, current_dir: &str) -> (r: String)
    ensures
        r@ == absolute_spec(path@, current_dir@),
{
    let joined = join_paths(current_dir, path);
    normalize_path(joined.as_str())
}

/// The relative walk from one component list to another: shared leading
/// components drop away; one `..` remains for each leftover base
/// component, followed by the leftover path components.
pub open spec fn relative_segs(psegs: Seq<Seq<char>>, bsegs: Seq<Seq<char>>)
    -> Seq<Seq<char>>
    decreases psegs.len() + bsegs.len(),
{
    if psegs.len() > 0 && bsegs.len() > 0 && psegs[0] == bsegs[0] {
        relative_segs(psegs.drop_first(), bsegs.drop_first())
    } else {
        Seq::new(bsegs.len(), |i: int| ".."@) + psegs
    }
}

/// The path leading from `base` to `path`, both first made absolute
/// against `cwd` and normalized: `.` when they coincide, else the relative
/// walk over their components.
pub open spec fn relative_spec(p: Seq<char>, base: Seq<char>, cwd: Seq<char>) -> Seq<char> {
    let ap = absolute_spec(p, cwd);
    let ab = absolute_spec(base, cwd);
    if ap == ab {
        "."@
    } else {
        let r = relative_segs(split_spec(ap, "/"@), split_spec(ab, "/"@));
        if r.len() == 0 {
            "."@
        } else {
            join_spec(r, "/"@)
        }
    }
}

/// Computes the relative path from `base` to `path`, resolving both
/// against the working directory first (see [`relative_spec`]).
pub fn get_relative_path(path: &str, base: &str, current_dir: &str) -> (r: String)
    ensures
        r@ == relative_spec(path@, base@, current_dir@),
{
    let abs_path = to_absolute_path(path, current_dir);
    let abs_base = to_absolute_path(base, current_dir);
    if abs_path == abs_base {
        return String::from_str(".");
    }
    let psegs = split(abs_path.as_str(), "/");
    let bsegs = split(abs_base.as_str(), "/");
    let ghost pviews = psegs@.map_values(|s: String| s@);
    let ghost bviews = bsegs@.map_values(|s: String| s@);
    let np = psegs.len();
    let nb = bsegs.len();
    proof {
        assert(pviews.skip(0) =~= pviews);
        assert(bviews.skip(0) =~= bviews);
    }
    let mut common: usize = 0;
    loop
        invariant
            np == pviews.len(),
            nb == bviews.len(),
            pviews == psegs@.map_values(|s: String| s@),
            bviews == bsegs@.map_values(|s: String| s@),
            0 <= common <= np,
            common <= nb,
            relative_segs(pviews, bviews)
                == relative_segs(pviews.skip(common as int), bviews.skip(common as int)),
        ensures
            0 <= common <= np,
            common <= nb,
            relative_segs(pviews, bviews)
                == relative_segs(pviews.skip(common as int), bviews.skip(common as int)),
            common == np || common == nb
                || pviews.skip(common as int)[0] != bviews.skip(common as int)[0],
        decreases np - common,
    {
        if common >= np || common >= nb {
            break;
        }
        proof {
            assert(pviews.skip(common as int)[0] == pviews[common as int]);
            assert(bviews.skip(common as int)[0] == bviews[common as int]);
        }
        if !(psegs[common] == bsegs[common]) {
            break;
        }
        proof {
            assert(pviews.skip(common as int).drop_first() =~= pviews.skip(common + 1));
            assert(bviews.skip(common as int).drop_first() =~= bviews.skip(common + 1));
        }
        common = common + 1;
    }
    let ghost ptail = pviews.skip(common as int);
    let ghost btail = bviews.skip(common as int);
    proof {
        assert(relative_segs(ptail, btail)
            =~= Seq::new(btail.len(), |i: int| ".."@) + ptail);
    }
    let mut parts: Vec<String> = Vec::new();
    let mut k: usize = common;
    while k < nb
        invariant
            common <= k <= nb,
            parts@.map_values(|s: String| s@)
                =~= Seq::new((k - common) as nat, |i: int| ".."@),
        decreases nb - k,
    {
        let ghost prevm = parts@.map_values(|s: String| s@);
        let piece = String::from_str("..");
        let ghost mv = piece@;
        parts.push(piece);
        proof {
            assert(parts@.map_values(|s: String| s@) =~= prevm.push(mv));
            assert(parts@.map_values(|s: String| s@)
                =~= Seq::new((k + 1 - common) as nat, |i: int| ".."@));
        }
        k = k + 1;
    }
    let mut j: usize = common;
    while j < np
        invariant
            common <= j <= np,
            common <= nb,
            np == pviews.len(),
            pviews == psegs@.map_values(|s: String| s@),
            parts@.map_values(|s: String| s@)
                =~= Seq::new((nb - common) as nat, |i: int| ".."@)
                    + pviews.skip(common as int).take(j - common),
        decreases np - j,
    {
        let ghost prevp = parts@.map_values(|s: String| s@);
        parts.push(psegs[j].clone());
        proof {
            assert(pviews.skip(common as int).take(j + 1 - common).drop_last()
                =~= pviews.skip(common as int).take(j - common));
            assert(pviews.skip(common as int).take(j + 1 - common).last()
                == pviews[j as int]);
            assert(parts@.map_values(|s: String| s@) =~= prevp.push(pviews[j as int]));
            assert(parts@.map_values(|s: String| s@)
                =~= Seq::new((nb - common) as nat, |i: int| ".."@)
                    + pviews.skip(common as int).take(j + 1 - common));
        }
        j = j + 1;
    }
    proof {
        assert(ptail.take(np - common) =~= ptail);
        assert(parts@.map_values(|s: String| s@) =~= relative_segs(pviews, bviews));
    }
    if parts.len() == 0 {
        String::from_str(".")
    } else {
        crate::string_utils::join(&parts, "/")
    }
}

} // verus!
