//! The order in which the search panel lists its matches: grouped by file,
//! ordered by position, without repeated ranges.

use vstd::prelude::*;
use crate::location::{LocationMatch, match_le, same_place, same_location, match_precedes_or_ties, is_same_location};

verus! {

/// `x` placed into `s` after the last element, counted from the end, that
/// comes before `x` or ties with it.
pub open spec fn insert_in_order(s: Seq<LocationMatch>, x: LocationMatch) -> Seq<LocationMatch>
    decreases s.len(),
{
    if s.len() == 0 {
        seq![x]
    } else if match_le(s.last(), x) {
        s.push(x)
    } else {
        insert_in_order(s.drop_last(), x).push(s.last())
    }
}

/// `s` sorted by file, then by the start of the range; matches that tie keep
/// the order they had in `s` (a stable sort).
pub open spec fn sorted_in_order(s: Seq<LocationMatch>) -> Seq<LocationMatch>
    decreases s.len(),
{
    if s.len() == 0 {
        s
    } else {
        insert_in_order(sorted_in_order(s.drop_last()), s.last())
    }
}

/// Some match of `s` names the same range of the same file as `x`.
pub open spec fn has_location(s: Seq<LocationMatch>, x: LocationMatch) -> bool {
    exists|k: int| 0 <= k < s.len() && same_location(#[trigger] s[k], x)
}

/// `s` with every match dropped whose range and file an earlier kept match
/// names already: each exact-duplicate range is kept once, at its first
/// occurrence.
pub open spec fn without_repeats(s: Seq<LocationMatch>) -> Seq<LocationMatch>
    decreases s.len(),
{
    if s.len() == 0 {
        s
    } else {
        let kept = without_repeats(s.drop_last());
        if has_location(kept, s.last()) {
            kept
        } else {
            kept.push(s.last())
        }
    }
}

/// The matches of a search as the panel lists them.
pub open spec fn grouped_matches(s: Seq<LocationMatch>) -> Seq<LocationMatch> {
    without_repeats(sorted_in_order(s))
}

/// The elements of `s` that share their place (file and start) with `a`, in
/// the order of `s`.
pub open spec fn at_place(s: Seq<LocationMatch>, a: LocationMatch) -> Seq<LocationMatch>
    decreases s.len(),
{
    if s.len() == 0 {
        s
    } else if same_place(s.last(), a) {
        at_place(s.drop_last(), a).push(s.last())
    } else {
        at_place(s.drop_last(), a)
    }
}

/// `s` is in the panel's order.
pub open spec fn is_in_order(s: Seq<LocationMatch>) -> bool {
    forall|i: int, j: int| 0 <= i < j < s.len() ==> match_le(#[trigger] s[i], #[trigger] s[j])
}

/// No two matches name the same range of the same file.
pub open spec fn no_repeated_locations(s: Seq<LocationMatch>) -> bool {
    forall|i: int, j: int| 0 <= i < s.len() && 0 <= j < s.len() && i != j
        ==> !same_location(#[trigger] s[i], #[trigger] s[j])
}

/// Inserts `x` into `out` as `insert_in_order` does.
fn insert_match(out: &mut Vec<LocationMatch>, x: LocationMatch)
    ensures
        final(out)@ == insert_in_order(old(out)@, x),
{
    let ghost s = out@;
    let mut j: usize = out.len();
    assert(s.take(j as int) == s);
    assert(s.skip(j as int) =~= Seq::<LocationMatch>::empty());
    assert(insert_in_order(s, x) + s.skip(j as int) =~= insert_in_order(s, x));
    while j > 0 && !match_precedes_or_ties(&out[j - 1], &x)
        invariant
            out@ == s,
            j <= s.len(),
            insert_in_order(s, x) == insert_in_order(s.take(j as int), x) + s.skip(j as int),
        decreases j,
    {
        proof {
            let t = s.take(j as int);
            assert(t.last() == s[j - 1]);
            assert(t.drop_last() == s.take(j - 1));
            assert(insert_in_order(t, x) == insert_in_order(s.take(j - 1), x).push(s[j - 1]));
            assert(insert_in_order(s.take(j - 1), x).push(s[j - 1]) + s.skip(j as int)
                =~= insert_in_order(s.take(j - 1), x) + s.skip(j - 1));
        }
        j -= 1;
    }
    proof {
        let t = s.take(j as int);
        if j == 0 {
            assert(t.len() == 0);
            assert(insert_in_order(t, x) == seq![x]);
        } else {
            assert(t.last() == s[j - 1]);
            assert(insert_in_order(t, x) == t.push(x));
        }
        assert(insert_in_order(t, x) + s.skip(j as int) =~= s.insert(j as int, x));
    }
    out.insert(j, x);
}

/// Sorts `matches` by file, then by the start of the range, keeping ties in
/// their order.
pub fn sort_matches(matches: &Vec<LocationMatch>) -> (sorted: Vec<LocationMatch>)
    ensures
        sorted@ == sorted_in_order(matches@),
{
    let mut sorted: Vec<LocationMatch> = Vec::new();
    let mut i: usize = 0;
    while i < matches.len()
        invariant
            i <= matches@.len(),
            sorted@ == sorted_in_order(matches@.take(i as int)),
        decreases matches@.len() - i,
    {
        proof {
            let t = matches@.take(i + 1);
            assert(t.drop_last() == matches@.take(i as int));
            assert(t.last() == matches@[i as int]);
        }
        insert_match(&mut sorted, matches[i]);
        i += 1;
    }
    assert(matches@.take(matches@.len() as int) == matches@);
    sorted
}

/// Whether some match of `kept` names the same range and file as `x`.
fn holds_location(kept: &Vec<LocationMatch>, x: &LocationMatch) -> (r: bool)
    ensures
        r == has_location(kept@, *x),
{
    let mut k: usize = 0;
    while k < kept.len()
        invariant
            k <= kept@.len(),
            forall|j: int| 0 <= j < k ==> !same_location(#[trigger] kept@[j], *x),
        decreases kept@.len() - k,
    {
        if is_same_location(&kept[k], x) {
            return true;
        }
        k += 1;
    }
    false
}

/// Drops every match whose range and file an earlier kept match names
/// already.
pub fn drop_repeats(matches: &Vec<LocationMatch>) -> (kept: Vec<LocationMatch>)
    ensures
        kept@ == without_repeats(matches@),
{
    let mut kept: Vec<LocationMatch> = Vec::new();
    let mut i: usize = 0;
    while i < matches.len()
        invariant
            i <= matches@.len(),
            kept@ == without_repeats(matches@.take(i as int)),
        decreases matches@.len() - i,
    {
        proof {
            let t = matches@.take(i + 1);
            assert(t.drop_last() == matches@.take(i as int));
            assert(t.last() == matches@[i as int]);
        }
        if !holds_location(&kept, &matches[i]) {
            kept.push(matches[i]);
        }
        i += 1;
    }
    assert(matches@.take(matches@.len() as int) == matches@);
    kept
}

/// Groups the matches of a search by file and orders them by position, then
/// drops exact-duplicate ranges.
pub fn group_matches(matches: &Vec<LocationMatch>) -> (grouped: Vec<LocationMatch>)
    ensures
        grouped@ == grouped_matches(matches@),
{
    let sorted = sort_matches(matches);
    drop_repeats(&sorted)
}

/// The panel's order is total.
pub proof fn lemma_match_le_total(a: LocationMatch, b: LocationMatch)
    ensures
        match_le(a, b) || match_le(b, a),
{
}

/// The panel's order is transitive.
pub proof fn lemma_match_le_transitive(a: LocationMatch, b: LocationMatch, c: LocationMatch)
    requires
        match_le(a, b),
        match_le(b, c),
    ensures
        match_le(a, c),
{
}

proof fn lemma_insert_in_order_contents(t: Seq<LocationMatch>, x: LocationMatch)
    ensures
        insert_in_order(t, x).len() == t.len() + 1,
        forall|y: LocationMatch| #[trigger] insert_in_order(t, x).contains(y) ==> y == x || t.contains(y),
    decreases t.len(),
{
    if t.len() == 0 {
    } else if match_le(t.last(), x) {
        assert forall|y: LocationMatch| #[trigger] insert_in_order(t, x).contains(y) implies y == x || t.contains(y) by {
            let k = choose|k: int| 0 <= k < t.len() + 1 && t.push(x)[k] == y;
            if k < t.len() {
                assert(t[k] == y);
            }
        }
    } else {
        let r = insert_in_order(t.drop_last(), x);
        lemma_insert_in_order_contents(t.drop_last(), x);
        assert forall|y: LocationMatch| #[trigger] insert_in_order(t, x).contains(y) implies y == x || t.contains(y) by {
            let k = choose|k: int| 0 <= k < r.len() + 1 && r.push(t.last())[k] == y;
            if k < r.len() {
                assert(r.contains(y));
                if y != x {
                    let m = choose|m: int| 0 <= m < t.drop_last().len() && t.drop_last()[m] == y;
                    assert(t[m] == y);
                }
            } else {
                assert(t[t.len() - 1] == y);
            }
        }
    }
}

proof fn lemma_insert_in_order_keeps_order(t: Seq<LocationMatch>, x: LocationMatch)
    requires
        is_in_order(t),
    ensures
        is_in_order(insert_in_order(t, x)),
    decreases t.len(),
{
    if t.len() == 0 {
    } else if match_le(t.last(), x) {
        assert forall|i: int, j: int| 0 <= i < j < t.len() + 1 implies match_le(#[trigger] t.push(x)[i], #[trigger] t.push(x)[j]) by {
            if j == t.len() {
                if i < t.len() - 1 {
                    assert(match_le(t[i], t[t.len() - 1]));
                    lemma_match_le_transitive(t[i], t.last(), x);
                }
            }
        }
    } else {
        let u = t.drop_last();
        assert(is_in_order(u)) by {
            assert forall|i: int, j: int| 0 <= i < j < u.len() implies match_le(#[trigger] u[i], #[trigger] u[j]) by {
                assert(match_le(t[i], t[j]));
            }
        }
        lemma_insert_in_order_keeps_order(u, x);
        lemma_insert_in_order_contents(u, x);
        lemma_match_le_total(t.last(), x);
        let r = insert_in_order(u, x);
        assert forall|i: int, j: int| 0 <= i < j < r.len() + 1 implies match_le(#[trigger] r.push(t.last())[i], #[trigger] r.push(t.last())[j]) by {
            if j == r.len() {
                let y = r[i];
                assert(r.contains(y));
                if y != x {
                    let m = choose|m: int| 0 <= m < u.len() && u[m] == y;
                    assert(match_le(t[m], t[t.len() - 1]));
                }
            }
        }
    }
}

/// The sorted matches are in the panel's order.
pub proof fn lemma_sorted_in_order_is_in_order(s: Seq<LocationMatch>)
    ensures
        is_in_order(sorted_in_order(s)),
        sorted_in_order(s).len() == s.len(),
    decreases s.len(),
{
    if s.len() > 0 {
        lemma_sorted_in_order_is_in_order(s.drop_last());
        lemma_insert_in_order_keeps_order(sorted_in_order(s.drop_last()), s.last());
        lemma_insert_in_order_contents(sorted_in_order(s.drop_last()), s.last());
    }
}

proof fn lemma_insert_in_order_at_place(t: Seq<LocationMatch>, x: LocationMatch, a: LocationMatch)
    ensures
        at_place(insert_in_order(t, x), a) == if same_place(x, a) {
            at_place(t, a).push(x)
        } else {
            at_place(t, a)
        },
    decreases t.len(),
{
    if t.len() == 0 {
        assert(seq![x].drop_last() =~= t);
    } else if match_le(t.last(), x) {
        assert(t.push(x).drop_last() == t);
    } else {
        let u = t.drop_last();
        lemma_insert_in_order_at_place(u, x, a);
        let r = insert_in_order(u, x);
        assert(r.push(t.last()).drop_last() == r);
        assert(!(same_place(x, a) && same_place(t.last(), a)));
        if same_place(x, a) {
            assert(at_place(u, a).push(x) == at_place(t, a).push(x));
        } else if same_place(t.last(), a) {
            assert(at_place(r, a).push(t.last()) =~= at_place(t, a));
        }
    }
}

/// Sorting keeps, for every place, the matches at that place in the order
/// they came in: the sort is stable, and it neither drops nor adds a match.
pub proof fn lemma_sorted_in_order_is_stable(s: Seq<LocationMatch>, a: LocationMatch)
    ensures
        at_place(sorted_in_order(s), a) == at_place(s, a),
    decreases s.len(),
{
    if s.len() > 0 {
        lemma_sorted_in_order_is_stable(s.drop_last(), a);
        lemma_insert_in_order_at_place(sorted_in_order(s.drop_last()), s.last(), a);
    }
}

proof fn lemma_without_repeats_contents(s: Seq<LocationMatch>)
    ensures
        forall|y: LocationMatch| #[trigger] without_repeats(s).contains(y) ==> s.contains(y),
    decreases s.len(),
{
    if s.len() > 0 {
        let u = s.drop_last();
        lemma_without_repeats_contents(u);
        let kept = without_repeats(u);
        assert forall|y: LocationMatch| #[trigger] without_repeats(s).contains(y) implies s.contains(y) by {
            if kept.contains(y) {
                let m = choose|m: int| 0 <= m < u.len() && u[m] == y;
                assert(s[m] == y);
            } else {
                let k = choose|k: int| 0 <= k < without_repeats(s).len() && without_repeats(s)[k] == y;
                assert(k == kept.len());
                assert(s[s.len() - 1] == y);
            }
        }
    }
}

/// Dropping repeats leaves every range of every file at most once, and
/// keeps an ordered list ordered.
pub proof fn lemma_without_repeats_properties(s: Seq<LocationMatch>)
    ensures
        no_repeated_locations(without_repeats(s)),
        is_in_order(s) ==> is_in_order(without_repeats(s)),
    decreases s.len(),
{
    if s.len() > 0 {
        let u = s.drop_last();
        lemma_without_repeats_properties(u);
        lemma_without_repeats_contents(u);
        let kept = without_repeats(u);
        if is_in_order(s) {
            assert(is_in_order(u)) by {
                assert forall|i: int, j: int| 0 <= i < j < u.len() implies match_le(#[trigger] u[i], #[trigger] u[j]) by {
                    assert(match_le(s[i], s[j]));
                }
            }
        }
        if !has_location(kept, s.last()) {
            let r = kept.push(s.last());
            assert forall|i: int, j: int| 0 <= i < r.len() && 0 <= j < r.len() && i != j
                implies !same_location(#[trigger] r[i], #[trigger] r[j]) by {
                if i == r.len() - 1 {
                    assert(kept[j] == r[j]);
                } else if j == r.len() - 1 {
                    assert(kept[i] == r[i]);
                } else {
                    assert(kept[i] == r[i] && kept[j] == r[j]);
                }
            }
            if is_in_order(s) {
                assert forall|i: int, j: int| 0 <= i < j < r.len() implies match_le(#[trigger] r[i], #[trigger] r[j]) by {
                    if j == r.len() - 1 {
                        assert(kept.contains(r[i]));
                        let m = choose|m: int| 0 <= m < u.len() && u[m] == r[i];
                        assert(match_le(s[m], s[s.len() - 1]));
                    } else {
                        assert(kept[i] == r[i] && kept[j] == r[j]);
                    }
                }
            }
        }
    }
}

/// The listed matches of a search are in the panel's order and hold each
/// range of each file once.
pub proof fn lemma_grouped_matches_properties(s: Seq<LocationMatch>)
    ensures
        is_in_order(grouped_matches(s)),
        no_repeated_locations(grouped_matches(s)),
{
    lemma_sorted_in_order_is_in_order(s);
    lemma_without_repeats_properties(sorted_in_order(s));
}

proof fn lemma_insert_in_order_keeps(t: Seq<LocationMatch>, x: LocationMatch)
    ensures
        insert_in_order(t, x).contains(x),
        forall|y: LocationMatch| t.contains(y) ==> #[trigger] insert_in_order(t, x).contains(y),
    decreases t.len(),
{
    if t.len() == 0 {
        assert(seq![x][0] == x);
    } else if match_le(t.last(), x) {
        let r = t.push(x);
        assert(r[t.len() as int] == x);
        assert forall|y: LocationMatch| t.contains(y) implies #[trigger] r.contains(y) by {
            let k = choose|k: int| 0 <= k < t.len() && t[k] == y;
            assert(r[k] == y);
        }
    } else {
        let u = t.drop_last();
        lemma_insert_in_order_keeps(u, x);
        let r = insert_in_order(u, x);
        let full = r.push(t.last());
        let kx = choose|k: int| 0 <= k < r.len() && r[k] == x;
        assert(full[kx] == x);
        assert forall|y: LocationMatch| t.contains(y) implies #[trigger] full.contains(y) by {
            let k = choose|k: int| 0 <= k < t.len() && t[k] == y;
            if k == t.len() - 1 {
                assert(full[r.len() as int] == y);
            } else {
                assert(u[k] == y);
                assert(u.contains(y));
                assert(r.contains(y));
                let m = choose|m: int| 0 <= m < r.len() && r[m] == y;
                assert(full[m] == y);
            }
        }
    }
}

proof fn lemma_sorted_in_order_contents(s: Seq<LocationMatch>)
    ensures
        forall|y: LocationMatch| s.contains(y) ==> #[trigger] sorted_in_order(s).contains(y),
        forall|y: LocationMatch| #[trigger] sorted_in_order(s).contains(y) ==> s.contains(y),
    decreases s.len(),
{
    if s.len() > 0 {
        let u = s.drop_last();
        lemma_sorted_in_order_contents(u);
        lemma_insert_in_order_keeps(sorted_in_order(u), s.last());
        lemma_insert_in_order_contents(sorted_in_order(u), s.last());
        assert forall|y: LocationMatch| s.contains(y) implies #[trigger] sorted_in_order(s).contains(y) by {
            let k = choose|k: int| 0 <= k < s.len() && s[k] == y;
            if k < s.len() - 1 {
                assert(u[k] == y);
                assert(u.contains(y));
            }
        }
        assert forall|y: LocationMatch| #[trigger] sorted_in_order(s).contains(y) implies s.contains(y) by {
            if y != s.last() {
                assert(sorted_in_order(u).contains(y));
                let k = choose|k: int| 0 <= k < u.len() && u[k] == y;
                assert(s[k] == y);
            } else {
                assert(s[s.len() - 1] == y);
            }
        }
    }
}

proof fn lemma_without_repeats_covers(s: Seq<LocationMatch>)
    ensures
        forall|i: int| 0 <= i < s.len() ==> exists|k: int| 0 <= k < without_repeats(s).len()
            && (#[trigger] without_repeats(s)[k]).path == (#[trigger] s[i]).path
            && without_repeats(s)[k].range == s[i].range,
    decreases s.len(),
{
    if s.len() > 0 {
        let u = s.drop_last();
        lemma_without_repeats_covers(u);
        let kept = without_repeats(u);
        let r = without_repeats(s);
        assert forall|i: int| 0 <= i < s.len() implies exists|k: int| 0 <= k < r.len()
            && (#[trigger] r[k]).path == (#[trigger] s[i]).path && r[k].range == s[i].range by {
            if i < s.len() - 1 {
                assert(u[i] == s[i]);
                let k = choose|k: int| 0 <= k < kept.len() && (#[trigger] kept[k]).path == u[i].path
                    && kept[k].range == u[i].range;
                assert(r[k] == kept[k]);
            } else if has_location(kept, s.last()) {
                let k = choose|k: int| 0 <= k < kept.len() && same_location(#[trigger] kept[k], s.last());
                assert(r[k] == kept[k]);
            } else {
                assert(r[kept.len() as int] == s[i]);
            }
        }
    }
}

/// Listing a search's matches loses no location and repeats none: every
/// match found has a listed match with its file and range, every listed
/// match is one that was found, and no two listed matches share both file
/// and range.
pub proof fn grouped_matches_keep_every_location(s: Seq<LocationMatch>)
    ensures
        forall|i: int| 0 <= i < s.len() ==> exists|k: int| 0 <= k < grouped_matches(s).len()
            && (#[trigger] grouped_matches(s)[k]).path == (#[trigger] s[i]).path
            && grouped_matches(s)[k].range == s[i].range,
        forall|k: int| 0 <= k < grouped_matches(s).len() ==> s.contains(#[trigger] grouped_matches(s)[k]),
        forall|i: int, j: int| 0 <= i < grouped_matches(s).len() && 0 <= j < grouped_matches(s).len() && i != j
            ==> !((#[trigger] grouped_matches(s)[i]).path == (#[trigger] grouped_matches(s)[j]).path
                && grouped_matches(s)[i].range == grouped_matches(s)[j].range),
{
    let t = sorted_in_order(s);
    let g = grouped_matches(s);
    lemma_sorted_in_order_contents(s);
    lemma_without_repeats_covers(t);
    lemma_without_repeats_contents(t);
    lemma_without_repeats_properties(t);
    assert forall|i: int| 0 <= i < s.len() implies exists|k: int| 0 <= k < g.len()
        && (#[trigger] g[k]).path == (#[trigger] s[i]).path && g[k].range == s[i].range by {
        assert(s.contains(s[i]));
        assert(t.contains(s[i]));
        let m = choose|m: int| 0 <= m < t.len() && t[m] == s[i];
        let k = choose|k: int| 0 <= k < g.len() && (#[trigger] g[k]).path == t[m].path && g[k].range == t[m].range;
    }
    assert forall|k: int| 0 <= k < g.len() implies s.contains(#[trigger] g[k]) by {
        assert(g.contains(g[k]));
        assert(t.contains(g[k]));
    }
    assert forall|i: int, j: int| 0 <= i < g.len() && 0 <= j < g.len() && i != j
        implies !((#[trigger] g[i]).path == (#[trigger] g[j]).path && g[i].range == g[j].range) by {
        assert(!same_location(g[i], g[j]));
    }
}

} // verus!
