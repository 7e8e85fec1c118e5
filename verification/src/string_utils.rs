//! General-purpose string operations.
//!
//! Most operations here are implemented and verified directly over the
//! character sequences of their inputs. Unicode case conversion and the
//! Unicode whitespace property cannot reasonably be restated here, so those
//! two lean on the standard library behind named results (see
//! [`lower_of`], [`upper_of`] and [`is_whitespace_char`]).

use vstd::prelude::*;

verus! {

// ---------------------------------------------------------------------------
// Character classification and ASCII case folding
// ---------------------------------------------------------------------------

/// Whether `c` is Unicode whitespace. Named result of
/// `char::is_whitespace`, a fixed property of the character alone.
pub uninterp spec fn is_whitespace_char(c: char) -> bool;

/// Relies on char::is_whitespace: whether a character has the Unicode
/// whitespace property; a fixed function of the character.
#[verifier::external_body]
pub fn char_is_whitespace(c: char) -> (r: bool)
    ensures
        r == is_whitespace_char(c),
{
    c.is_whitespace()
}

/// ASCII lower-casing of one character; other characters are unchanged.
pub open spec fn ascii_lower_char(c: char) -> char {
    if 'A' as u32 <= c as u32 && c as u32 <= 'Z' as u32 {
        ((c as u32 + 32) as char)
    } else {
        c
    }
}

pub open spec fn ascii_lower_seq(s: Seq<char>) -> Seq<char> {
    s.map_values(|c: char| ascii_lower_char(c))
}

/// Whether two strings are equal up to ASCII case.
pub open spec fn ascii_case_eq(a: Seq<char>, b: Seq<char>) -> bool {
    ascii_lower_seq(a) == ascii_lower_seq(b)
}

fn lower_char(c: char) -> (r: char)
    ensures
        r == ascii_lower_char(c),
{
    let u = c as u32;
    if 65 <= u && u <= 90 {
        ((u as u8 + 32) as char)
    } else {
        c
    }
}

/// Compares two strings ignoring ASCII case.
pub fn eq_ignore_ascii_case(a: &str, b: &str) -> (r: bool)
    ensures
        r == ascii_case_eq(a@, b@),
{
    let la = a.unicode_len();
    let lb = b.unicode_len();
    if la != lb {
        proof {
            assert(ascii_lower_seq(a@).len() == a@.len());
            assert(ascii_lower_seq(b@).len() == b@.len());
        }
        return false;
    }
    for i in 0..la
        invariant
            la == a@.len(),
            la == b@.len(),
            forall|j: int|
                0 <= j < i ==> ascii_lower_char(a@[j]) == ascii_lower_char(b@[j]),
    {
        let ca = lower_char(a.get_char(i));
        let cb = lower_char(b.get_char(i));
        if ca != cb {
            proof {
                assert(ascii_lower_seq(a@)[i as int] != ascii_lower_seq(b@)[i as int]);
            }
            return false;
        }
    }
    proof {
        assert(ascii_lower_seq(a@) =~= ascii_lower_seq(b@));
    }
    true
}

// ---------------------------------------------------------------------------
// Prefix, suffix, containment, emptiness
// ---------------------------------------------------------------------------

/// Whether `s` starts with `prefix`.
pub fn starts_with(s: &str, prefix: &str) -> (r: bool)
    ensures
        r == prefix@.is_prefix_of(s@),
{
    let np = prefix.unicode_len();
    let ns = s.unicode_len();
    if ns < np {
        return false;
    }
    for i in 0..np
        invariant
            np == prefix@.len(),
            ns == s@.len(),
            np <= ns,
            forall|j: int| 0 <= j < i ==> s@[j] == prefix@[j],
    {
        if s.get_char(i) != prefix.get_char(i) {
            proof {
                assert(s@.subrange(0, np as int)[i as int] != prefix@[i as int]);
            }
            return false;
        }
    }
    proof {
        assert(prefix@ =~= s@.subrange(0, np as int));
    }
    true
}

/// Whether `s` ends with `suffix`.
pub fn ends_with(s: &str, suffix: &str) -> (r: bool)
    ensures
        r == suffix@.is_suffix_of(s@),
{
    let np = suffix.unicode_len();
    let ns = s.unicode_len();
    if ns < np {
        return false;
    }
    let off = ns - np;
    for i in 0..np
        invariant
            np == suffix@.len(),
            ns == s@.len(),
            off == ns - np,
            forall|j: int| 0 <= j < i ==> s@[off + j] == suffix@[j],
    {
        if s.get_char(off + i) != suffix.get_char(i) {
            proof {
                assert(s@.subrange(off as int, ns as int)[i as int] != suffix@[i as int]);
            }
            return false;
        }
    }
    proof {
        assert(suffix@ =~= s@.subrange(off as int, ns as int));
    }
    true
}

/// Whether `sub` occurs in `s` starting at position `at`.
pub open spec fn matches_at(s: Seq<char>, sub: Seq<char>, at: int) -> bool {
    0 <= at && at + sub.len() <= s.len() && sub =~= s.subrange(at, at + sub.len())
}

/// Whether `sub` occurs anywhere in `s`.
pub open spec fn contains_seq(s: Seq<char>, sub: Seq<char>) -> bool {
    exists|at: int| matches_at(s, sub, at)
}

/// Whether `sub` occurs at `at`, decided by comparing characters.
fn check_match_at(s: &str, sub: &str, at: usize) -> (r: bool)
    requires
        at + sub@.len() <= s@.len(),
    ensures
        r == matches_at(s@, sub@, at as int),
{
    let m = sub.unicode_len();
    let ns = s.unicode_len();
    for i in 0..m
        invariant
            m == sub@.len(),
            ns == s@.len(),
            at + m <= ns,
            forall|j: int| 0 <= j < i ==> s@[at + j] == sub@[j],
    {
        if s.get_char(at + i) != sub.get_char(i) {
            proof {
                assert(s@.subrange(at as int, at + m)[i as int] != sub@[i as int]);
            }
            return false;
        }
    }
    proof {
        assert(sub@ =~= s@.subrange(at as int, at + m));
    }
    true
}

/// The first position at or after `from` where `sub` occurs in `s`.
pub open spec fn first_match_from(s: Seq<char>, sub: Seq<char>, from: int) -> Option<int>
    decreases s.len() - from,
{
    if from + sub.len() > s.len() || from < 0 {
        None
    } else if matches_at(s, sub, from) {
        Some(from)
    } else {
        first_match_from(s, sub, from + 1)
    }
}

/// Finds the first occurrence of `sub` at or after `from`.
fn find_from(s: &str, sub: &str, from: usize) -> (r: Option<usize>)
    requires
        sub@.len() > 0,
    ensures
        r == match first_match_from(s@, sub@, from as int) {
            Some(i) => Some(i as usize),
            None => None::<usize>,
        },
        r is Some ==> from <= r->0 && r->0 + sub@.len() <= s@.len()
            && matches_at(s@, sub@, r->0 as int),
{
    let ns = s.unicode_len();
    let m = sub.unicode_len();
    if from >= ns || ns - from < m {
        proof {
            assert(first_match_from(s@, sub@, from as int) is None);
        }
        return None;
    }
    let last = ns - m;
    let mut at = from;
    while at <= last
        invariant
            ns == s@.len(),
            m == sub@.len(),
            m > 0,
            last == ns - m,
            from <= at <= last + 1,
            first_match_from(s@, sub@, from as int)
                == first_match_from(s@, sub@, at as int),
        decreases last + 1 - at,
    {
        if check_match_at(s, sub, at) {
            return Some(at);
        }
        at = at + 1;
    }
    proof {
        assert(first_match_from(s@, sub@, at as int) is None);
    }
    None
}

/// Whether `s` contains `sub` as a contiguous substring.
pub fn contains_substring(s: &str, sub: &str) -> (r: bool)
    ensures
        r == contains_seq(s@, sub@),
{
    let m = sub.unicode_len();
    if m == 0 {
        proof {
            assert(matches_at(s@, sub@, 0));
        }
        return true;
    }
    match find_from(s, sub, 0) {
        Some(at) => {
            proof {
                assert(matches_at(s@, sub@, at as int));
            }
            true
        },
        None => {
            proof {
                assert(forall|at: int| #[trigger] matches_at(s@, sub@, at)
                    ==> first_match_from(s@, sub@, 0) is Some) by {
                    if exists|at: int| matches_at(s@, sub@, at) {
                        let at = choose|at: int| matches_at(s@, sub@, at);
                        lemma_first_match_finds(s@, sub@, 0, at);
                    }
                };
            }
            false
        },
    }
}

/// If `sub` occurs at `at`, then scanning from any `from <= at` finds an
/// occurrence.
proof fn lemma_first_match_finds(s: Seq<char>, sub: Seq<char>, from: int, at: int)
    requires
        0 <= from <= at,
        matches_at(s, sub, at),
    ensures
        first_match_from(s, sub, from) is Some,
    decreases at - from,
{
    if from < at {
        lemma_first_match_finds(s, sub, from + 1, at);
    }
}

/// Whether `s` is the empty string.
pub fn is_empty(s: &str) -> (r: bool)
    ensures
        r == (s@.len() == 0),
{
    s.is_empty()
}

// ---------------------------------------------------------------------------
// Trimming
// ---------------------------------------------------------------------------

/// The number of leading whitespace characters of `s`.
pub open spec fn ws_prefix_len(s: Seq<char>) -> int
    decreases s.len(),
{
    if s.len() == 0 || !is_whitespace_char(s[0]) {
        0
    } else {
        1 + ws_prefix_len(s.drop_first())
    }
}

/// The number of trailing whitespace characters of `s`.
pub open spec fn ws_suffix_len(s: Seq<char>) -> int
    decreases s.len(),
{
    if s.len() == 0 || !is_whitespace_char(s.last()) {
        0
    } else {
        1 + ws_suffix_len(s.drop_last())
    }
}

pub open spec fn trim_start_spec(s: Seq<char>) -> Seq<char> {
    s.skip(ws_prefix_len(s))
}

pub open spec fn trim_end_spec(s: Seq<char>) -> Seq<char> {
    s.take(s.len() - ws_suffix_len(s))
}

pub open spec fn trim_spec(s: Seq<char>) -> Seq<char> {
    trim_end_spec(trim_start_spec(s))
}

proof fn lemma_ws_prefix_len_is(s: Seq<char>, i: int)
    requires
        0 <= i <= s.len(),
        forall|j: int| 0 <= j < i ==> is_whitespace_char(s[j]),
        i < s.len() ==> !is_whitespace_char(s[i]),
    ensures
        ws_prefix_len(s) == i,
    decreases i,
{
    if i == 0 {
    } else {
        assert(is_whitespace_char(s[0]));
        let t = s.drop_first();
        assert(forall|j: int| 0 <= j < i - 1 ==> s[j + 1] == t[j]
            && is_whitespace_char(#[trigger] t[j]));
        lemma_ws_prefix_len_is(t, i - 1);
    }
}

proof fn lemma_ws_suffix_len_is(s: Seq<char>, k: int)
    requires
        0 <= k <= s.len(),
        forall|j: int| k <= j < s.len() ==> is_whitespace_char(s[j]),
        k > 0 ==> !is_whitespace_char(s[k - 1]),
    ensures
        ws_suffix_len(s) == s.len() - k,
    decreases s.len() - k,
{
    if k == s.len() {
    } else {
        assert(is_whitespace_char(s.last()));
        let t = s.drop_last();
        assert(forall|j: int| k <= j < t.len() ==> t[j] == s[j]
            && is_whitespace_char(#[trigger] t[j]));
        lemma_ws_suffix_len_is(t, k);
    }
}

/// Removes leading whitespace.
pub fn trim_left(s: &str) -> (r: String)
    ensures
        r@ == trim_start_spec(s@),
{
    let n = s.unicode_len();
    let mut i: usize = 0;
    loop
        invariant
            n == s@.len(),
            0 <= i <= n,
            forall|j: int| 0 <= j < i ==> is_whitespace_char(s@[j]),
        ensures
            0 <= i <= n,
            forall|j: int| 0 <= j < i ==> is_whitespace_char(s@[j]),
            i < n ==> !is_whitespace_char(s@[i as int]),
        decreases n - i,
    {
        if i >= n {
            break;
        }
        if !char_is_whitespace(s.get_char(i)) {
            break;
        }
        i = i + 1;
    }
    proof {
        lemma_ws_prefix_len_is(s@, i as int);
    }
    s.substring_char(i, n).to_owned()
}

/// Removes trailing whitespace.
pub fn trim_right(s: &str) -> (r: String)
    ensures
        r@ == trim_end_spec(s@),
{
    let n = s.unicode_len();
    let mut k: usize = n;
    loop
        invariant
            n == s@.len(),
            0 <= k <= n,
            forall|j: int| k <= j < n ==> is_whitespace_char(s@[j]),
        ensures
            0 <= k <= n,
            forall|j: int| k <= j < n ==> is_whitespace_char(s@[j]),
            k > 0 ==> !is_whitespace_char(s@[k - 1]),
        decreases k,
    {
        if k == 0 {
            break;
        }
        if !char_is_whitespace(s.get_char(k - 1)) {
            break;
        }
        k = k - 1;
    }
    proof {
        lemma_ws_suffix_len_is(s@, k as int);
    }
    s.substring_char(0, k).to_owned()
}

/// Removes leading and trailing whitespace.
pub fn trim(s: &str) -> (r: String)
    ensures
        r@ == trim_spec(s@),
{
    let left = trim_left(s);
    trim_right(left.as_str())
}

// ---------------------------------------------------------------------------
// Splitting and joining
// ---------------------------------------------------------------------------

proof fn lemma_first_match_range(s: Seq<char>, sub: Seq<char>, from: int)
    requires
        first_match_from(s, sub, from) is Some,
    ensures
        from <= first_match_from(s, sub, from)->0,
        matches_at(s, sub, first_match_from(s, sub, from)->0),
    decreases s.len() - from,
{
    if !(from + sub.len() > s.len() || from < 0) && !matches_at(s, sub, from) {
        lemma_first_match_range(s, sub, from + 1);
    }
}

/// The pieces of `s` from position `start` on, cut at each occurrence of
/// the (non-empty) delimiter `d`, leftmost first.
pub open spec fn split_from(s: Seq<char>, d: Seq<char>, start: int) -> Seq<Seq<char>>
    decreases s.len() - start,
    when d.len() > 0 && 0 <= start <= s.len()
    via split_from_decreases
{
    match first_match_from(s, d, start) {
        Some(i) => seq![s.subrange(start, i)] + split_from(s, d, i + d.len()),
        None => seq![s.subrange(start, s.len() as int)],
    }
}

#[via_fn]
proof fn split_from_decreases(s: Seq<char>, d: Seq<char>, start: int) {
    if d.len() > 0 && 0 <= start <= s.len() {
        if first_match_from(s, d, start) is Some {
            lemma_first_match_range(s, d, start);
        }
    }
}

/// All pieces of `s` cut at the non-empty delimiter `d`, empty pieces
/// included.
pub open spec fn split_all_spec(s: Seq<char>, d: Seq<char>) -> Seq<Seq<char>> {
    split_from(s, d, 0)
}

/// What [`split`] returns: the non-empty pieces, or one piece per character
/// when the delimiter is empty.
pub open spec fn split_spec(s: Seq<char>, d: Seq<char>) -> Seq<Seq<char>> {
    if d.len() == 0 {
        Seq::new(s.len(), |i: int| seq![s[i]])
    } else {
        split_all_spec(s, d).filter(|p: Seq<char>| p.len() != 0)
    }
}

/// Splits `s` at each occurrence of `delimiter`, dropping empty pieces.
/// With an empty delimiter the result is one piece per character.
pub fn split(s: &str, delimiter: &str) -> (r: Vec<String>)
    ensures
        r@.map_values(|p: String| p@) == split_spec(s@, delimiter@),
{
    broadcast use vstd::seq_lib::group_filter_ensures;

    let n = s.unicode_len();
    let dl = delimiter.unicode_len();
    let mut out: Vec<String> = Vec::new();
    if dl == 0 {
        for i in 0..n
            invariant
                n == s@.len(),
                out@.map_values(|p: String| p@)
                    =~= Seq::new(i as nat, |j: int| seq![s@[j]]),
        {
            let c = s.substring_char(i, i + 1);
            let ghost prev = out@;
            out.push(c.to_owned());
            proof {
                assert(c@ =~= seq![s@[i as int]]);
                assert(out@.map_values(|p: String| p@)
                    =~= prev.map_values(|p: String| p@).push(c@));
                assert(out@.map_values(|p: String| p@)
                    =~= Seq::new((i + 1) as nat, |j: int| seq![s@[j]]));
            }
        }
        proof {
            assert(out@.map_values(|p: String| p@) =~= split_spec(s@, delimiter@));
        }
        return out;
    }
    let pred = Ghost(|p: Seq<char>| p.len() != 0);
    let mut start: usize = 0;
    loop
        invariant_except_break
            split_spec(s@, delimiter@)
                =~= out@.map_values(|p: String| p@)
                    + split_from(s@, delimiter@, start as int).filter(pred@),
        invariant
            pred@ == (|p: Seq<char>| p.len() != 0),
            n == s@.len(),
            dl == delimiter@.len(),
            dl > 0,
            0 <= start <= n,
        ensures
            out@.map_values(|p: String| p@) =~= split_spec(s@, delimiter@),
        decreases n - start,
    {
        match find_from(s, delimiter, start) {
            Some(i) => {
                proof {
                    lemma_first_match_range(s@, delimiter@, start as int);
                    Seq::filter_distributes_over_add(
                        seq![s@.subrange(start as int, i as int)],
                        split_from(s@, delimiter@, i + dl),
                        pred@,
                    );
                }
                proof {
                    reveal_with_fuel(Seq::filter, 3);
                    let piece = s@.subrange(start as int, i as int);
                    assert(seq![piece].drop_last() =~= Seq::<Seq<char>>::empty());
                    if piece.len() != 0 {
                        assert(seq![piece].filter(pred@) =~= seq![piece]);
                    } else {
                        assert(seq![piece].filter(pred@) =~= Seq::<Seq<char>>::empty());
                    }
                }
                if i > start {
                    let piece = s.substring_char(start, i);
                    let ghost prev = out@;
                    out.push(piece.to_owned());
                    proof {
                        assert(out@.map_values(|p: String| p@)
                            =~= prev.map_values(|p: String| p@).push(
                            s@.subrange(start as int, i as int)));
                    }
                }
                start = i + dl;
            },
            None => {
                proof {
                    reveal_with_fuel(Seq::filter, 3);
                    let piece = s@.subrange(start as int, n as int);
                    assert(seq![piece].drop_last() =~= Seq::<Seq<char>>::empty());
                    if piece.len() != 0 {
                        assert(seq![piece].filter(pred@) =~= seq![piece]);
                    } else {
                        assert(seq![piece].filter(pred@) =~= Seq::<Seq<char>>::empty());
                    }
                }
                if start < n {
                    let piece = s.substring_char(start, n);
                    let ghost prev = out@;
                    out.push(piece.to_owned());
                    proof {
                        assert(out@.map_values(|p: String| p@)
                            =~= prev.map_values(|p: String| p@).push(
                            s@.subrange(start as int, n as int)));
                    }
                }
                break;
            },
        }
    }
    out
}

/// `elements` joined with `delimiter` between consecutive elements.
pub open spec fn join_spec(elems: Seq<Seq<char>>, d: Seq<char>) -> Seq<char>
    decreases elems.len(),
{
    if elems.len() == 0 {
        Seq::empty()
    } else if elems.len() == 1 {
        elems[0]
    } else {
        join_spec(elems.drop_last(), d) + d + elems.last()
    }
}

/// Concatenates the elements, separated by `delimiter`.
pub fn join(elements: &Vec<String>, delimiter: &str) -> (r: String)
    ensures
        r@ == join_spec(elements@.map_values(|e: String| e@), delimiter@),
{
    let mut r = String::new();
    let n = elements.len();
    for i in 0..n
        invariant
            n == elements@.len(),
            r@ =~= join_spec(
                elements@.take(i as int).map_values(|e: String| e@),
                delimiter@,
            ),
    {
        if i > 0 {
            r.append(delimiter);
        }
        r.append(elements[i].as_str());
        proof {
            let views = elements@.take(i + 1).map_values(|e: String| e@);
            assert(views.drop_last()
                =~= elements@.take(i as int).map_values(|e: String| e@));
            assert(views.last() == elements@[i as int]@);
            assert(r@ =~= join_spec(views, delimiter@));
        }
    }
    proof {
        assert(elements@.take(n as int) =~= elements@);
    }
    r
}

// ---------------------------------------------------------------------------
// Replacement
// ---------------------------------------------------------------------------

/// `s` from position `start` on, with each occurrence of the non-empty
/// pattern `f` replaced by `t`, leftmost first, non-overlapping.
pub open spec fn replace_from(s: Seq<char>, f: Seq<char>, t: Seq<char>, start: int) -> Seq<char>
    decreases s.len() - start,
    when f.len() > 0 && 0 <= start <= s.len()
    via replace_from_decreases
{
    match first_match_from(s, f, start) {
        Some(i) => s.subrange(start, i) + t + replace_from(s, f, t, i + f.len()),
        None => s.subrange(start, s.len() as int),
    }
}

#[via_fn]
proof fn replace_from_decreases(s: Seq<char>, f: Seq<char>, t: Seq<char>, start: int) {
    if f.len() > 0 && 0 <= start <= s.len() {
        if first_match_from(s, f, start) is Some {
            lemma_first_match_range(s, f, start);
        }
    }
}

/// What [`replace`] returns; an empty pattern leaves `s` unchanged.
pub open spec fn replace_spec(s: Seq<char>, f: Seq<char>, t: Seq<char>) -> Seq<char> {
    if f.len() == 0 {
        s
    } else {
        replace_from(s, f, t, 0)
    }
}

/// Replaces every occurrence of `from` in `s` by `to`, scanning left to
/// right without overlap. An empty `from` returns `s` unchanged.
pub fn replace(s: &str, from: &str, to: &str) -> (r: String)
    ensures
        r@ == replace_spec(s@, from@, to@),
{
    let n = s.unicode_len();
    let fl = from.unicode_len();
    if fl == 0 {
        return s.to_owned();
    }
    let mut r = String::new();
    let mut start: usize = 0;
    loop
        invariant_except_break
            replace_spec(s@, from@, to@)
                =~= r@ + replace_from(s@, from@, to@, start as int),
        invariant
            n == s@.len(),
            fl == from@.len(),
            fl > 0,
            0 <= start <= n,
        ensures
            r@ =~= replace_spec(s@, from@, to@),
        decreases n - start,
    {
        let ghost prev = r@;
        match find_from(s, from, start) {
            Some(i) => {
                proof {
                    lemma_first_match_range(s@, from@, start as int);
                }
                r.append(s.substring_char(start, i));
                r.append(to);
                proof {
                    assert(r@ =~= prev + (s@.subrange(start as int, i as int) + to@));
                    assert(replace_from(s@, from@, to@, start as int)
                        =~= (s@.subrange(start as int, i as int) + to@)
                            + replace_from(s@, from@, to@, i + fl));
                    assert(replace_spec(s@, from@, to@)
                        =~= (prev + (s@.subrange(start as int, i as int) + to@))
                            + replace_from(s@, from@, to@, i + fl));
                }
                start = i + fl;
            },
            None => {
                r.append(s.substring_char(start, n));
                proof {
                    assert(replace_from(s@, from@, to@, start as int)
                        =~= s@.subrange(start as int, n as int));
                    assert(r@ =~= prev + s@.subrange(start as int, n as int));
                }
                break;
            },
        }
    }
    r
}

/// The result of applying each replacement pair in order; a pair with an
/// empty pattern is skipped.
pub open spec fn replace_all_spec(s: Seq<char>, pairs: Seq<(Seq<char>, Seq<char>)>) -> Seq<char>
    decreases pairs.len(),
{
    if pairs.len() == 0 {
        s
    } else {
        let prev = replace_all_spec(s, pairs.drop_last());
        let pair = pairs.last();
        if pair.0.len() == 0 {
            prev
        } else {
            replace_spec(prev, pair.0, pair.1)
        }
    }
}

/// Applies each `(from, to)` replacement in order over the whole string;
/// a pair with an empty `from` is skipped.
pub fn replace_all(s: &str, replacements: &Vec<(String, String)>) -> (r: String)
    ensures
        r@ == replace_all_spec(
            s@,
            replacements@.map_values(|p: (String, String)| (p.0@, p.1@)),
        ),
{
    let ghost pairs = replacements@.map_values(|p: (String, String)| (p.0@, p.1@));
    let mut r = s.to_owned();
    let n = replacements.len();
    for i in 0..n
        invariant
            n == replacements@.len(),
            pairs == replacements@.map_values(|p: (String, String)| (p.0@, p.1@)),
            pairs.len() == n,
            r@ =~= replace_all_spec(s@, pairs.take(i as int)),
    {
        let (from, to) = (&replacements[i].0, &replacements[i].1);
        if !from.as_str().is_empty() {
            r = replace(r.as_str(), from.as_str(), to.as_str());
        }
        proof {
            assert(pairs.take(i + 1).drop_last() =~= pairs.take(i as int));
            assert(pairs.take(i + 1).last() == pairs[i as int]);
        }
    }
    proof {
        assert(pairs.take(n as int) =~= pairs);
    }
    r
}

// ---------------------------------------------------------------------------
// Case conversion
// ---------------------------------------------------------------------------

/// The Unicode lower-casing of a string. Named result of
/// `str::to_lowercase`, a fixed function of the characters alone.
pub uninterp spec fn lower_of(s: Seq<char>) -> Seq<char>;

/// The Unicode upper-casing of a string. Named result of
/// `str::to_uppercase`, a fixed function of the characters alone.
pub uninterp spec fn upper_of(s: Seq<char>) -> Seq<char>;

/// Relies on str::to_lowercase: the Unicode lowercase equivalent of the
/// string, a function of its characters alone; empty input gives empty
/// output.
#[verifier::external_body]
pub fn to_lower(s: &str) -> (r: String)
    ensures
        r@ == lower_of(s@),
        s@.len() == 0 ==> r@.len() == 0,
{
    s.to_lowercase()
}

/// Relies on str::to_uppercase: the Unicode uppercase equivalent of the
/// string, a function of its characters alone; empty input gives empty
/// output.
#[verifier::external_body]
pub fn to_upper(s: &str) -> (r: String)
    ensures
        r@ == upper_of(s@),
        s@.len() == 0 ==> r@.len() == 0,
{
    s.to_uppercase()
}

// ---------------------------------------------------------------------------
// Repetition
// ---------------------------------------------------------------------------

pub open spec fn repeat_spec(s: Seq<char>, count: nat) -> Seq<char>
    decreases count,
{
    if count == 0 {
        Seq::empty()
    } else {
        repeat_spec(s, (count - 1) as nat) + s
    }
}

/// `s` repeated `count` times.
pub fn repeat(s: &str, count: usize) -> (r: String)
    ensures
        r@ == repeat_spec(s@, count as nat),
{
    let mut r = String::new();
    for i in 0..count
        invariant
            r@ =~= repeat_spec(s@, i as nat),
    {
        r.append(s);
    }
    r
}

// ---------------------------------------------------------------------------
// Integer parsing
// ---------------------------------------------------------------------------

pub open spec fn is_ascii_digit(c: char) -> bool {
    '0' as u32 <= c as u32 <= '9' as u32
}

pub open spec fn digit_value(c: char) -> int {
    c as u32 - '0' as u32
}

/// The value of an all-digit string read in base ten.
pub open spec fn digits_value(s: Seq<char>) -> int
    decreases s.len(),
{
    if s.len() == 0 {
        0
    } else {
        digits_value(s.drop_last()) * 10 + digit_value(s.last())
    }
}

/// Whether every character of `s` is an ASCII decimal digit.
pub open spec fn all_ascii_digits(s: Seq<char>) -> bool {
    forall|j: int| 0 <= j < s.len() ==> is_ascii_digit(s[j])
}

/// What parsing a trimmed string as a 32-bit signed decimal integer gives:
/// an optional sign followed by at least one digit, with the value in
/// range; anything else is `None`.
pub open spec fn parse_i32_spec(s: Seq<char>) -> Option<i32> {
    let negative = s.len() > 0 && s[0] == '-';
    let body = if s.len() > 0 && (s[0] == '-' || s[0] == '+') {
        s.drop_first()
    } else {
        s
    };
    if body.len() == 0 || !all_ascii_digits(body) {
        None
    } else {
        let v = if negative {
            -digits_value(body)
        } else {
            digits_value(body)
        };
        if i32::MIN <= v <= i32::MAX {
            Some(v as i32)
        } else {
            None
        }
    }
}

/// Appending digits never decreases the magnitude of an all-digit string.
proof fn lemma_digits_value_monotonic(s: Seq<char>, i: int)
    requires
        0 <= i <= s.len(),
        forall|j: int| 0 <= j < s.len() ==> is_ascii_digit(s[j]),
    ensures
        digits_value(s) >= digits_value(s.take(i)),
        digits_value(s.take(i)) >= 0,
    decreases s.len() - i,
{
    if i == s.len() {
        assert(s.take(i) =~= s);
        lemma_digits_value_nonneg(s);
    } else {
        lemma_digits_value_monotonic(s, i + 1);
        assert(s.take(i + 1).drop_last() =~= s.take(i));
        lemma_digits_value_nonneg(s.take(i));
    }
}

proof fn lemma_digits_value_nonneg(s: Seq<char>)
    requires
        forall|j: int| 0 <= j < s.len() ==> is_ascii_digit(s[j]),
    ensures
        digits_value(s) >= 0,
    decreases s.len(),
{
    if s.len() > 0 {
        lemma_digits_value_nonneg(s.drop_last());
    }
}

/// Parses `s`, after trimming whitespace, as a 32-bit signed decimal
/// integer; `None` on empty or malformed input and on overflow.
#[verifier::loop_isolation(false)]
pub fn try_parse_int(s: &str) -> (r: Option<i32>)
    ensures
        r == parse_i32_spec(trim_spec(s@)),
{
    let trimmed = trim(s);
    let t = trimmed.as_str();
    let n = t.unicode_len();
    let ghost tv = t@;
    if n == 0 {
        return None;
    }
    let first = t.get_char(0);
    let negative = first == '-';
    let has_sign = first == '-' || first == '+';
    let start: usize = if has_sign {
        1
    } else {
        0
    };
    let ghost body = if has_sign {
        tv.drop_first()
    } else {
        tv
    };
    proof {
        assert(body =~= tv.subrange(start as int, n as int));
    }
    if n == start {
        return None;
    }
    // Accumulate the magnitude; bail out as soon as it can no longer fit,
    // which is correct whatever follows: more digits keep it out of range,
    // and a non-digit makes the whole string malformed.
    let limit: u64 = if negative {
        2147483648
    } else {
        2147483647
    };
    let mut acc: u64 = 0;
    let mut i: usize = start;
    while i < n
        invariant
            n == tv.len(),
            start <= i <= n,
            start <= 1,
            body == tv.subrange(start as int, n as int),
            limit <= 2147483648,
            acc <= limit,
            acc == digits_value(body.take(i - start)),
            forall|j: int| 0 <= j < i - start ==> is_ascii_digit(body[j]),
        decreases n - i,
    {
        let c = t.get_char(i);
        let u = c as u32;
        if u < 48 || u > 57 {
            proof {
                assert(tv == trim_spec(s@));
                let sv = trim_spec(s@);
                let sbody = if sv.len() > 0 && (sv[0] == '-' || sv[0] == '+') {
                    sv.drop_first()
                } else {
                    sv
                };
                assert(sbody == body);
                assert(body[i - start] == tv[i as int]);
                assert(!is_ascii_digit(body[i - start]));
                assert(!all_ascii_digits(body)) by {
                    assert(0 <= i - start < body.len() && !is_ascii_digit(body[i - start]));
                };
                assert(parse_i32_spec(sv) is None);
            }
            return None;
        }
        let d = (u - 48) as u64;
        proof {
            assert(body.take(i + 1 - start).drop_last() =~= body.take(i - start));
            assert(body.take(i + 1 - start).last() == body[i - start]);
        }
        if acc > (limit - d) / 10 {
            // The magnitude already exceeds the range of the target type.
            proof {
                assert(tv == trim_spec(s@));
                let sv = trim_spec(s@);
                let sneg = sv.len() > 0 && sv[0] == '-';
                let sbody = if sv.len() > 0 && (sv[0] == '-' || sv[0] == '+') {
                    sv.drop_first()
                } else {
                    sv
                };
                assert(sbody == body);
                assert(sneg == negative);
                let k = i + 1 - start;
                assert(is_ascii_digit(body[i - start]));
                assert(digits_value(body.take(k)) == acc * 10 + d);
                assert(digits_value(body.take(k)) > limit);
                if all_ascii_digits(body) {
                    lemma_digits_value_monotonic(body, k);
                    assert(digits_value(body) > limit);
                    if sneg {
                        assert(-digits_value(sbody) < i32::MIN);
                    } else {
                        assert(digits_value(sbody) > i32::MAX);
                    }
                }
                assert(parse_i32_spec(sv) is None);
            }
            return None;
        }
        acc = acc * 10 + d;
        i = i + 1;
    }
    proof {
        assert(body.take(n - start) =~= body);
        assert(acc == digits_value(body));
    }
    if negative {
        let v = -(acc as i64);
        proof {
            assert(v == -digits_value(body));
        }
        Some((v as i32))
    } else {
        Some((acc as i32))
    }
}

// ---------------------------------------------------------------------------
// Vectors of strings
// ---------------------------------------------------------------------------

/// Clones a list of strings, keeping its contents.
pub fn clone_string_vec(v: &Vec<String>) -> (r: Vec<String>)
    ensures
        r@.map_values(|s: String| s@) == v@.map_values(|s: String| s@),
{
    let mut r: Vec<String> = Vec::new();
    let n = v.len();
    for i in 0..n
        invariant
            n == v@.len(),
            r@.map_values(|s: String| s@)
                =~= v@.take(i as int).map_values(|s: String| s@),
    {
        let ghost prev = r@;
        r.push(v[i].clone());
        proof {
            assert(r@.map_values(|s: String| s@)
                =~= prev.map_values(|s: String| s@).push(v@[i as int]@));
            assert(v@.take(i + 1).map_values(|s: String| s@)
                =~= v@.take(i as int).map_values(|s: String| s@).push(v@[i as int]@));
        }
    }
    proof {
        assert(v@.take(n as int) =~= v@);
    }
    r
}

} // verus!

