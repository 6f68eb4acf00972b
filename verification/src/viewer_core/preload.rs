//! Which neighbours of the current image to decode ahead of time.
use crate::utils::text::str_eq;
use crate::viewer_core::navigation::{views, Navigation};
use vstd::arithmetic::div_mod::{lemma_mod_add_multiples_vanish, lemma_sub_mod_noop};
use vstd::prelude::*;

verus! {

/// How many images on each side of the current one are preloaded.
pub const PRELOAD_DEPTH: isize = 1;

/// The indices worth preloading for depth `depth`, in priority order: for
/// each distance `d` from 1 to `depth`, the image `d` steps ahead and then
/// the one `d` steps back (both wrapping around), skipping the current one.
pub open spec fn candidates(current: int, len: int, depth: int) -> Seq<int>
    decreases depth,
{
    if depth <= 0 {
        Seq::empty()
    } else {
        let prev = candidates(current, len, depth - 1);
        let ahead = (current + depth) % len;
        let back = (current - depth) % len;
        let with_ahead = if ahead == current {
            prev
        } else {
            prev.push(ahead)
        };
        if back == current {
            with_ahead
        } else {
            with_ahead.push(back)
        }
    }
}

/// The paths in `ps` whose verdict in `v` is `true`, each kept at its first
/// occurrence only.
pub open spec fn select(ps: Seq<Seq<char>>, v: Seq<bool>) -> Seq<Seq<char>>
    decreases ps.len(),
{
    if ps.len() == 0 {
        Seq::empty()
    } else {
        let rest = select(ps.drop_last(), v.take(ps.len() - 1));
        if v[ps.len() - 1] && !rest.contains(ps.last()) {
            rest.push(ps.last())
        } else {
            rest
        }
    }
}

/// `true` when `v` holds, for each candidate, what the two predicates
/// answered for its path: `true` when neither said yes.
pub open spec fn verdicts<C: Fn(&String) -> bool, F: Fn(&String) -> bool>(
    images: Seq<String>,
    cand: Seq<int>,
    v: Seq<bool>,
    is_cached: C,
    is_in_flight: F,
) -> bool {
    &&& v.len() == cand.len()
    &&& forall|i: int|
        #![trigger cand[i]]
        0 <= i < cand.len() ==> (v[i] ==> is_cached.ensures((&images[cand[i]],), false)
            && is_in_flight.ensures((&images[cand[i]],), false)) && (!v[i] ==> is_cached.ensures(
            (&images[cand[i]],),
            true,
        ) || is_in_flight.ensures((&images[cand[i]],), true))
}

/// The paths at the indices `cand`.
pub open spec fn paths_at(images: Seq<String>, cand: Seq<int>) -> Seq<Seq<char>> {
    cand.map_values(|i: int| images[i]@)
}

fn contains_path(v: &Vec<String>, p: &String) -> (r: bool)
    ensures
        r == views(v@).contains(p@),
{
    let mut i: usize = 0;
    while i < v.len()
        invariant
            i <= v@.len(),
            forall|k: int| 0 <= k < i ==> views(v@)[k] != p@,
        decreases v@.len() - i,
    {
        if str_eq(v[i].as_str(), p.as_str()) {
            assert(views(v@)[i as int] == p@);
            return true;
        }
        i = i + 1;
    }
    false
}

proof fn lemma_candidates_in_range(current: int, len: int, depth: int)
    requires
        len > 0,
    ensures
        forall|i: int|
            0 <= i < candidates(current, len, depth).len() ==> 0 <= #[trigger] candidates(
                current,
                len,
                depth,
            )[i] < len,
    decreases depth,
{
    if depth > 0 {
        lemma_candidates_in_range(current, len, depth - 1);
        let prev = candidates(current, len, depth - 1);
        let ahead = (current + depth) % len;
        let back = (current - depth) % len;
        assert(0 <= ahead < len);
        assert(0 <= back < len);
        let with_ahead = if ahead == current {
            prev
        } else {
            prev.push(ahead)
        };
        assert(forall|i: int| 0 <= i < with_ahead.len() ==> 0 <= #[trigger] with_ahead[i] < len);
        let all = if back == current {
            with_ahead
        } else {
            with_ahead.push(back)
        };
        assert(all == candidates(current, len, depth));
        assert(forall|i: int| 0 <= i < all.len() ==> 0 <= #[trigger] all[i] < len);
    }
}

/// The neighbours of the current image to preload, in priority order: the
/// candidates (see `candidates`) that are neither cached nor being decoded,
/// each once.
pub fn preload_targets<C: Fn(&String) -> bool, F: Fn(&String) -> bool>(
    nav: &Navigation,
    depth: isize,
    is_cached: C,
    is_in_flight: F,
) -> (r: Vec<String>)
    requires
        nav.images@.len() <= isize::MAX,
        depth >= 1 ==> nav.current + depth <= isize::MAX,
        forall|p: &String| #[trigger] is_cached.requires((p,)),
        forall|p: &String| #[trigger] is_in_flight.requires((p,)),
    ensures
        nav.images@.len() == 0 ==> r@.len() == 0,
        nav.images@.len() > 0 ==> exists|v: Seq<bool>|
            verdicts(
                nav.images@,
                candidates(nav.current as int, nav.images@.len() as int, depth as int),
                v,
                is_cached,
                is_in_flight,
            ) && views(r@) == select(
                paths_at(
                    nav.images@,
                    candidates(nav.current as int, nav.images@.len() as int, depth as int),
                ),
                v,
            ),
{
    let mut targets: Vec<String> = Vec::new();
    let len = nav.images.len();
    if len == 0 {
        return targets;
    }
    let ghost images = nav.images@;
    let ghost cur = nav.current as int;
    let ghost mut v: Seq<bool> = Seq::empty();
    let mut d: i128 = 1;
    while d <= depth as i128
        invariant
            len == images.len(),
            images == nav.images@,
            cur == nav.current,
            len > 0,
            len <= isize::MAX,
            1 <= d,
            d <= depth + 1 || d == 1,
            depth >= 1 ==> nav.current + depth <= isize::MAX,
            forall|p: &String| #[trigger] is_cached.requires((p,)),
            forall|p: &String| #[trigger] is_in_flight.requires((p,)),
            verdicts(images, candidates(cur, len as int, d - 1), v, is_cached, is_in_flight),
            views(targets@) == select(paths_at(images, candidates(cur, len as int, d - 1)), v),
        decreases depth - d + 1,
    {
        let ghost c0 = candidates(cur, len as int, d - 1);
        proof {
            lemma_candidates_in_range(cur, len as int, d - 1);
        }
        let du = d as usize;
        let ahead = (nav.current + du) % len;
        let back_step = du % len;
        let back = ((nav.current % len) + len - back_step) % len;
        proof {
            let li = len as int;
            let di = d as int;
            let b = back as int;
            assert(du as int == di);
            assert(b == ((cur % li) + li - (di % li)) % li);
            lemma_mod_add_multiples_vanish((cur % li) - (di % li), li);
            lemma_sub_mod_noop(cur, di, li);
            assert(li + ((cur % li) - (di % li)) == (cur % li) + li - (di % li));
            assert(ahead as int == (cur + di) % li);
        }
        let ghost mut c1 = c0;
        if ahead != nav.current {
            let p = &nav.images[ahead];
            let fresh = !is_cached(p) && !is_in_flight(p);
            let ghost ok = fresh;
            let seen = contains_path(&targets, p);
            proof {
                let ps0 = paths_at(images, c0);
                c1 = c0.push(ahead as int);
                let ps1 = paths_at(images, c1);
                assert(ps1.drop_last() =~= ps0);
                assert(ps1.last() == p@);
                let nv = v.push(ok);
                assert(nv.take(ps1.len() - 1) =~= v);
                v = nv;
            }
            if fresh && !seen {
                targets.push(p.clone());
            }
            proof {
                assert(views(targets@) =~= select(paths_at(images, c1), v));
            }
        }
        let ghost mut c2 = c1;
        if back != nav.current {
            let p = &nav.images[back];
            let fresh = !is_cached(p) && !is_in_flight(p);
            let ghost ok = fresh;
            let seen = contains_path(&targets, p);
            proof {
                let ps0 = paths_at(images, c1);
                c2 = c1.push(back as int);
                let ps1 = paths_at(images, c2);
                assert(ps1.drop_last() =~= ps0);
                assert(ps1.last() == p@);
                let nv = v.push(ok);
                assert(nv.take(ps1.len() - 1) =~= v);
                v = nv;
            }
            if fresh && !seen {
                targets.push(p.clone());
            }
            proof {
                assert(views(targets@) =~= select(paths_at(images, c2), v));
            }
        }
        proof {
            assert(c2 == candidates(cur, len as int, d as int));
        }
        d = d + 1;
    }
    proof {
        if depth < 1 {
            assert(candidates(cur, len as int, depth as int) == candidates(cur, len as int, 0));
        }
    }
    targets
}


/// Law: the current image is never a candidate for preloading.
pub proof fn law_candidates_skip_current(current: int, len: int, depth: int)
    ensures
        forall|i: int|
            0 <= i < candidates(current, len, depth).len() ==> #[trigger] candidates(
                current,
                len,
                depth,
            )[i] != current,
    decreases depth,
{
    if depth > 0 {
        law_candidates_skip_current(current, len, depth - 1);
        let prev = candidates(current, len, depth - 1);
        let ahead = (current + depth) % len;
        let back = (current - depth) % len;
        let with_ahead = if ahead == current {
            prev
        } else {
            prev.push(ahead)
        };
        assert forall|i: int| 0 <= i < with_ahead.len() implies with_ahead[i] != current by {
            if i < prev.len() {
                assert(with_ahead[i] == prev[i]);
            }
        }
        let all = candidates(current, len, depth);
        assert forall|i: int| 0 <= i < all.len() implies all[i] != current by {
            if i < with_ahead.len() {
                assert(all[i] == with_ahead[i]);
            }
        }
    }
}

/// Law: no path is preloaded twice.
pub proof fn law_select_lists_each_path_once(ps: Seq<Seq<char>>, v: Seq<bool>)
    ensures
        forall|i: int, j: int|
            0 <= i < j < select(ps, v).len() ==> #[trigger] select(ps, v)[i] != #[trigger] select(
                ps,
                v,
            )[j],
    decreases ps.len(),
{
    if ps.len() > 0 {
        let rest = select(ps.drop_last(), v.take(ps.len() - 1));
        law_select_lists_each_path_once(ps.drop_last(), v.take(ps.len() - 1));
        if v[ps.len() - 1] && !rest.contains(ps.last()) {
            let r = rest.push(ps.last());
            assert forall|i: int, j: int| 0 <= i < j < r.len() implies r[i] != r[j] by {
                if j == rest.len() {
                    assert(r[i] == rest[i]);
                    assert(rest.contains(rest[i]));
                } else {
                    assert(r[i] == rest[i] && r[j] == rest[j]);
                }
            }
        }
    }
}

/// `c` is the index `d` steps ahead of or back from `current` (wrapping
/// around `len` images).
pub open spec fn steps_away(current: int, len: int, d: int, c: int) -> bool {
    c == (current + d) % len || c == (current - d) % len
}

/// Law: the candidates are exactly the images at most `depth` steps ahead
/// or back (wrapping around), other than the current one.
pub proof fn law_candidates_are_the_neighbours(current: int, len: int, depth: int, c: int)
    requires
        len > 0,
    ensures
        candidates(current, len, depth).contains(c) <==> (c != current && exists|d: int|
            1 <= d <= depth && #[trigger] steps_away(current, len, d, c)),
    decreases depth,
{
    law_candidates_skip_current(current, len, depth);
    if depth <= 0 {
        assert(candidates(current, len, depth).len() == 0);
    } else {
        law_candidates_are_the_neighbours(current, len, depth - 1, c);
        let prev = candidates(current, len, depth - 1);
        let ahead = (current + depth) % len;
        let back = (current - depth) % len;
        let with_ahead = if ahead == current {
            prev
        } else {
            prev.push(ahead)
        };
        let all = candidates(current, len, depth);
        vstd::seq_lib::lemma_seq_contains_after_push(prev, ahead, c);
        vstd::seq_lib::lemma_seq_contains_after_push(with_ahead, back, c);
        assert(with_ahead.contains(c) <==> prev.contains(c) || (ahead != current && c == ahead));
        assert(all.contains(c) <==> with_ahead.contains(c) || (back != current && c == back));
        if all.contains(c) {
            let i = choose|i: int| 0 <= i < all.len() && all[i] == c;
            assert(all[i] != current);
            if prev.contains(c) {
                let d = choose|d: int| 1 <= d <= depth - 1 && #[trigger] steps_away(current, len, d, c);
                assert(steps_away(current, len, d, c));
            } else {
                assert(steps_away(current, len, depth, c));
            }
        }
        if c != current && exists|d: int| 1 <= d <= depth && #[trigger] steps_away(current, len, d, c) {
            let d = choose|d: int| 1 <= d <= depth && #[trigger] steps_away(current, len, d, c);
            if d < depth {
                assert(steps_away(current, len, d, c));
                assert(prev.contains(c));
            }
        }
    }
}

/// Law: a path is selected exactly when some position holds it with a
/// `true` verdict.
pub proof fn law_select_keeps_accepted_paths(ps: Seq<Seq<char>>, v: Seq<bool>, x: Seq<char>)
    requires
        v.len() == ps.len(),
    ensures
        select(ps, v).contains(x) <==> exists|i: int| 0 <= i < ps.len() && v[i] && #[trigger] ps[i] == x,
    decreases ps.len(),
{
    if ps.len() == 0 {
        assert(select(ps, v).len() == 0);
    } else {
        let n = ps.len() - 1;
        let p1 = ps.drop_last();
        let v1 = v.take(n);
        law_select_keeps_accepted_paths(p1, v1, x);
        let rest = select(p1, v1);
        vstd::seq_lib::lemma_seq_contains_after_push(rest, ps.last(), x);
        if exists|i: int| 0 <= i < ps.len() && v[i] && #[trigger] ps[i] == x {
            let i = choose|i: int| 0 <= i < ps.len() && v[i] && #[trigger] ps[i] == x;
            if i < n {
                assert(p1[i] == x && v1[i]);
            }
        }
        if rest.contains(x) {
            let i = choose|i: int| 0 <= i < p1.len() && v1[i] && #[trigger] p1[i] == x;
            assert(ps[i] == x && v[i]);
        }
    }
}

} // verus!
