//! The order in which places in manifests are listed: by path, one directory
//! level after the other, then by offset.

use crate::location::{Location, LocationView};
use crate::text::chars_of;
use vstd::prelude::*;

verus! {

/// How one of two things stands to the other in an order.
#[derive(Clone, Copy, Debug, PartialEq, Eq)]
pub enum Rank {
    Before,
    Same,
    After,
}

/// The weight of a character in a path. The separator weighs least, so that
/// a directory's own entries stay together: `a/b` goes before `a-b`.
pub open spec fn path_weight(c: char) -> int {
    if c == '/' {
        0
    } else {
        c as u32 as int + 1
    }
}

/// Whether `a` and `b` agree on their first `k` characters and part there,
/// with `a` the lesser: `a` ends while `b` goes on, or `a` has the lighter
/// character.
pub open spec fn parts_before(a: Seq<char>, b: Seq<char>, k: int) -> bool {
    &&& 0 <= k <= a.len()
    &&& k <= b.len()
    &&& a.take(k) == b.take(k)
    &&& k < b.len()
    &&& k < a.len() ==> path_weight(a[k]) < path_weight(b[k])
}

/// Whether path `a` is listed before path `b`.
pub open spec fn path_before(a: Seq<char>, b: Seq<char>) -> bool {
    exists|k: int| parts_before(a, b, k)
}

/// Whether place `a` is listed before place `b`: by path, then by where the
/// span starts, then by where it ends.
pub open spec fn location_before(a: LocationView, b: LocationView) -> bool {
    ||| path_before(a.file, b.file)
    ||| a.file == b.file && a.start < b.start
    ||| a.file == b.file && a.start == b.start && a.end < b.end
}

/// No path is listed before itself, and of two paths at most one is listed
/// before the other.
pub proof fn lemma_path_before_asymmetric(a: Seq<char>, b: Seq<char>)
    ensures
        !(path_before(a, b) && path_before(b, a)),
        a == b ==> !path_before(a, b),
{
    if path_before(a, b) && path_before(b, a) {
        let i = choose|k: int| parts_before(a, b, k);
        let j = choose|k: int| parts_before(b, a, k);
        if i < j {
            assert(b.take(j)[i] == a.take(j)[i]);
        } else if j < i {
            assert(a.take(i)[j] == b.take(i)[j]);
        }
    }
}

/// Listing paths before one another is transitive.
pub proof fn lemma_path_before_transitive(a: Seq<char>, b: Seq<char>, c: Seq<char>)
    requires
        path_before(a, b),
        path_before(b, c),
    ensures
        path_before(a, c),
{
    let i = choose|k: int| parts_before(a, b, k);
    let j = choose|k: int| parts_before(b, c, k);
    let k = if i <= j {
        i
    } else {
        j
    };
    assert(a.take(k) =~= a.take(i).take(k));
    assert(b.take(k) =~= b.take(i).take(k));
    assert(b.take(k) =~= b.take(j).take(k));
    assert(c.take(k) =~= c.take(j).take(k));
    if i < j {
        assert(b.take(j)[i] == c.take(j)[i]);
    } else if j < i {
        assert(a.take(i)[j] == b.take(i)[j]);
    }
    assert(parts_before(a, c, k));
}

/// Characters of one weight are one character.
pub proof fn lemma_weight_tells(c: char, d: char)
    requires
        path_weight(c) == path_weight(d),
    ensures
        c == d,
{
    vstd::utf8::char_u32_cast(c, c as u32);
    vstd::utf8::char_u32_cast(d, d as u32);
}

/// Of two different paths one is listed before the other.
pub proof fn lemma_path_before_total(a: Seq<char>, b: Seq<char>)
    ensures
        a == b || path_before(a, b) || path_before(b, a),
{
    assert(a.take(0) =~= b.take(0));
    lemma_paths_part(a, b, 0);
}

proof fn lemma_paths_part(a: Seq<char>, b: Seq<char>, k: int)
    requires
        0 <= k <= a.len(),
        k <= b.len(),
        a.take(k) == b.take(k),
    ensures
        a == b || path_before(a, b) || path_before(b, a),
    decreases a.len() - k,
{
    if k == a.len() {
        if k == b.len() {
            assert(a.take(k) =~= a);
        } else {
            assert(parts_before(a, b, k));
        }
    } else if k == b.len() {
        assert(parts_before(b, a, k));
    } else if path_weight(a[k]) < path_weight(b[k]) {
        assert(parts_before(a, b, k));
    } else if path_weight(b[k]) < path_weight(a[k]) {
        assert(parts_before(b, a, k));
    } else {
        assert(a[k] == b[k]) by {
            lemma_weight_tells(a[k], b[k]);
        }
        assert(a.take(k + 1) =~= a.take(k).push(a[k]));
        assert(b.take(k + 1) =~= b.take(k).push(b[k]));
        lemma_paths_part(a, b, k + 1);
    }
}

/// Listing places before one another is a strict order: nothing goes before
/// itself, and what goes before a place goes before all that the place goes
/// before.
pub proof fn lemma_location_before_strict(a: LocationView, b: LocationView, c: LocationView)
    ensures
        !location_before(a, a),
        !(location_before(a, b) && location_before(b, a)),
        location_before(a, b) && location_before(b, c) ==> location_before(a, c),
{
    lemma_path_before_asymmetric(a.file, a.file);
    lemma_path_before_asymmetric(a.file, b.file);
    lemma_path_before_asymmetric(b.file, c.file);
    if path_before(a.file, b.file) && path_before(b.file, c.file) {
        lemma_path_before_transitive(a.file, b.file, c.file);
    }
}

/// Of two different places one is listed before the other.
pub proof fn lemma_location_before_total(a: LocationView, b: LocationView)
    ensures
        a == b || location_before(a, b) || location_before(b, a),
{
    lemma_path_before_total(a.file, b.file);
}

fn weight_of(c: char) -> (w: u32)
    ensures
        w == path_weight(c),
{
    if c == '/' {
        0
    } else {
        c as u32 + 1
    }
}

/// How path `a` stands to path `b`.
pub fn rank_paths(a: &str, b: &str) -> (r: Rank)
    ensures
        r == Rank::Before <==> path_before(a@, b@),
        r == Rank::Same <==> a@ == b@,
        r == Rank::After <==> path_before(b@, a@),
{
    let x = chars_of(a);
    let y = chars_of(b);
    proof {
        lemma_path_before_asymmetric(a@, b@);
        lemma_path_before_asymmetric(b@, a@);
    }
    let mut k: usize = 0;
    while k < x.len() && k < y.len()
        invariant
            k <= x.len(),
            k <= y.len(),
            x@ == a@,
            y@ == b@,
            x@.take(k as int) == y@.take(k as int),
            !(path_before(a@, b@) && path_before(b@, a@)),
            a@ == b@ ==> !path_before(a@, b@) && !path_before(b@, a@),
        decreases x.len() - k,
    {
        let p = weight_of(x[k]);
        let q = weight_of(y[k]);
        proof {
            if p == q {
                lemma_weight_tells(x@[k as int], y@[k as int]);
            }
        }
        if p < q {
            assert(parts_before(x@, y@, k as int));
            return Rank::Before;
        }
        if q < p {
            assert(parts_before(y@, x@, k as int));
            return Rank::After;
        }
        k += 1;
    }
    if k < y.len() {
        assert(parts_before(x@, y@, k as int));
        Rank::Before
    } else if k < x.len() {
        assert(parts_before(y@, x@, k as int));
        Rank::After
    } else {
        assert(x@.take(k as int) =~= x@);
        assert(y@.take(k as int) =~= y@);
        Rank::Same
    }
}

/// How place `a` stands to place `b`.
pub fn rank_locations(a: &Location, b: &Location) -> (r: Rank)
    ensures
        r == Rank::Before <==> location_before(a.deep_view(), b.deep_view()),
        r == Rank::Same <==> a.deep_view() == b.deep_view(),
        r == Rank::After <==> location_before(b.deep_view(), a.deep_view()),
{
    proof {
        lemma_location_before_strict(a.deep_view(), b.deep_view(), a.deep_view());
        lemma_location_before_strict(b.deep_view(), a.deep_view(), b.deep_view());
        lemma_path_before_asymmetric(a.file@, b.file@);
        lemma_path_before_asymmetric(b.file@, a.file@);
    }
    match rank_paths(a.file.as_str(), b.file.as_str()) {
        Rank::Before => Rank::Before,
        Rank::After => Rank::After,
        Rank::Same => {
            if a.span.start < b.span.start {
                Rank::Before
            } else if a.span.start > b.span.start {
                Rank::After
            } else if a.span.end < b.span.end {
                Rank::Before
            } else if a.span.end > b.span.end {
                Rank::After
            } else {
                Rank::Same
            }
        },
    }
}

} // verus!
