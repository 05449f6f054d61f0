//! Particle-identifier bookkeeping of the evolution of a grid into an FK-table: which slices of
//! an evolution kernel operator take part, which channels the evolved grid has, and which
//! operator slice contributes to which of them.

use crate::text::str_equals;
use itertools::Itertools;
use vstd::prelude::*;

verus! {

/// Errors that the evolution of a grid reports.
#[derive(Debug)]
pub enum GridError {
    /// The evolution cannot be carried out; the message says why.
    EvolutionFailure(String),
}

/// Whether some channel entry holds the identifier 0.
pub open spec fn has_pid_zero(entries: Seq<(i32, i32)>) -> bool {
    exists|k: int| 0 <= k < entries.len() && ((#[trigger] entries[k]).0 == 0 || entries[k].1 == 0)
}

/// Decides whether the gluon of a grid is written as identifier 0 rather than 21: that is the
/// case when the grid's channels use PDG Monte Carlo identifiers (its `lumi_id_types` is
/// `pdg_mc_ids`, or missing, which means the same) and one of its channel `entries` holds a 0.
pub fn gluon_has_pid_zero(lumi_id_types: Option<&str>, entries: &[(i32, i32)]) -> (r: bool)
    ensures
        r == ((lumi_id_types is None || (lumi_id_types matches Some(t) && t@ == "pdg_mc_ids"@))
            && has_pid_zero(entries@)),
{
    match lumi_id_types {
        Some(t) => str_equals(t, "pdg_mc_ids") && any_pid_zero(entries),
        None => any_pid_zero(entries),
    }
}

/// Whether some channel entry holds the identifier 0.
fn any_pid_zero(entries: &[(i32, i32)]) -> (r: bool)
    ensures
        r == has_pid_zero(entries@),
{
    let mut k: usize = 0;
    while k < entries.len()
        invariant
            k <= entries@.len(),
            forall|j: int| 0 <= j < k ==> !(entries@[j].0 == 0 || entries@[j].1 == 0),
        decreases entries@.len() - k,
    {
        if entries[k].0 == 0 || entries[k].1 == 0 {
            assert(entries@[k as int].0 == 0 || entries@[k as int].1 == 0);
            return true;
        }
        k = k + 1;
    }
    false
}

/// The identifier under which the grid knows the process-basis identifier `pid1`: the gluon 21 is
/// 0 when the grid writes it so.
pub open spec fn grid_pid(gluon_has_pid_zero: bool, pid1: i32) -> i32 {
    if gluon_has_pid_zero && pid1 == 21 {
        0
    } else {
        pid1
    }
}

/// Whether the operator slice of fitting-basis index `i0` and process-basis index `i1` takes part:
/// it has a non-zero entry and its process-basis identifier occurs in the grid's channels.
pub open spec fn slice_kept(
    nonzero: Seq<Seq<bool>>,
    pids1: Seq<i32>,
    gluon_has_pid_zero: bool,
    lumi_pids: Seq<i32>,
    i0: int,
    i1: int,
) -> bool {
    nonzero[i1][i0] && lumi_pids.contains(grid_pid(gluon_has_pid_zero, pids1[i1]))
}

/// The kept index pairs `(i0, i1)` of row `i0` with `i1 < j`, by increasing `i1`.
pub open spec fn kept_in_row(
    nonzero: Seq<Seq<bool>>,
    pids1: Seq<i32>,
    gluon_has_pid_zero: bool,
    lumi_pids: Seq<i32>,
    i0: int,
    j: int,
) -> Seq<(usize, usize)>
    decreases j,
{
    if j <= 0 {
        seq![]
    } else {
        let prev = kept_in_row(nonzero, pids1, gluon_has_pid_zero, lumi_pids, i0, j - 1);
        if slice_kept(nonzero, pids1, gluon_has_pid_zero, lumi_pids, i0, j - 1) {
            prev.push((i0 as usize, (j - 1) as usize))
        } else {
            prev
        }
    }
}

/// The kept index pairs `(i0, i1)` with `i0 < i`, row by row.
pub open spec fn kept_upto(
    nonzero: Seq<Seq<bool>>,
    pids1: Seq<i32>,
    gluon_has_pid_zero: bool,
    lumi_pids: Seq<i32>,
    i: int,
) -> Seq<(usize, usize)>
    decreases i,
{
    if i <= 0 {
        seq![]
    } else {
        kept_upto(nonzero, pids1, gluon_has_pid_zero, lumi_pids, i - 1) + kept_in_row(
            nonzero,
            pids1,
            gluon_has_pid_zero,
            lumi_pids,
            i - 1,
            pids1.len() as int,
        )
    }
}

/// Selects the slices of an evolution kernel operator that take part in an evolution.
/// `nonzero[i1][i0]` says whether the operator slice for the process-basis identifier `pids1[i1]`
/// and the fitting-basis identifier `pids0[i0]` has a non-zero entry; `lumi_pids` are the
/// identifiers that the grid's channels hold on the evolved side. Returns the kept index pairs
/// `(i0, i1)`, ordered by `i0` and then `i1`, and for each of them the pair of identifiers
/// `(pids0[i0], pid1)`, where `pid1` is written as the grid writes it. Fails when no slice is kept.
pub fn pid_slices(
    nonzero: &Vec<Vec<bool>>,
    pids0: &[i32],
    pids1: &[i32],
    gluon_has_pid_zero: bool,
    lumi_pids: &[i32],
) -> (r: Result<(Vec<(usize, usize)>, Vec<(i32, i32)>), GridError>)
    requires
        nonzero@.len() == pids1@.len(),
        forall|i1: int| 0 <= i1 < nonzero@.len() ==> #[trigger] nonzero@[i1]@.len() == pids0@.len(),
    ensures
        ({
            let kept = kept_upto(
                nonzero@.map_values(|row: Vec<bool>| row@),
                pids1@,
                gluon_has_pid_zero,
                lumi_pids@,
                pids0@.len() as int,
            );
            &&& kept.len() == 0 ==> (r matches Err(GridError::EvolutionFailure(m))
                && m@ == "no non-zero operator found; result would be an empty FkTable"@)
            &&& kept.len() > 0 ==> (r matches Ok((indices, pids)) && indices@ == kept
                && pids@.len() == kept.len()
                && forall|k: int| 0 <= k < kept.len() ==> #[trigger] pids@[k] == (
                    pids0@[kept[k].0 as int],
                    grid_pid(gluon_has_pid_zero, pids1@[kept[k].1 as int]),
                ))
        }),
{
    let ghost nz = nonzero@.map_values(|row: Vec<bool>| row@);
    let n0 = pids0.len();
    let n1 = pids1.len();
    let mut indices: Vec<(usize, usize)> = Vec::new();
    let mut pids: Vec<(i32, i32)> = Vec::new();
    let mut i0: usize = 0;
    while i0 < n0
        invariant
            n0 == pids0@.len(),
            n1 == pids1@.len(),
            nz == nonzero@.map_values(|row: Vec<bool>| row@),
            nonzero@.len() == n1,
            forall|i1: int| 0 <= i1 < n1 ==> #[trigger] nonzero@[i1]@.len() == n0,
            i0 <= n0,
            indices@ == kept_upto(nz, pids1@, gluon_has_pid_zero, lumi_pids@, i0 as int),
            pids@.len() == indices@.len(),
            forall|k: int| 0 <= k < indices@.len() ==> #[trigger] pids@[k] == (
                pids0@[indices@[k].0 as int],
                grid_pid(gluon_has_pid_zero, pids1@[indices@[k].1 as int]),
            ),
            forall|k: int|
                0 <= k < indices@.len() ==> #[trigger] indices@[k].0 < n0 && indices@[k].1 < n1,
        decreases n0 - i0,
    {
        let ghost before = indices@;
        let mut i1: usize = 0;
        while i1 < n1
            invariant
                n0 == pids0@.len(),
                n1 == pids1@.len(),
                nz == nonzero@.map_values(|row: Vec<bool>| row@),
                nonzero@.len() == n1,
                forall|i1: int| 0 <= i1 < n1 ==> #[trigger] nonzero@[i1]@.len() == n0,
                i0 < n0,
                i1 <= n1,
                before == kept_upto(nz, pids1@, gluon_has_pid_zero, lumi_pids@, i0 as int),
                indices@ == before + kept_in_row(
                    nz,
                    pids1@,
                    gluon_has_pid_zero,
                    lumi_pids@,
                    i0 as int,
                    i1 as int,
                ),
                pids@.len() == indices@.len(),
                forall|k: int| 0 <= k < indices@.len() ==> #[trigger] pids@[k] == (
                    pids0@[indices@[k].0 as int],
                    grid_pid(gluon_has_pid_zero, pids1@[indices@[k].1 as int]),
                ),
                forall|k: int|
                    0 <= k < indices@.len() ==> #[trigger] indices@[k].0 < n0 && indices@[k].1
                        < n1,
            decreases n1 - i1,
        {
            let pid1 = if gluon_has_pid_zero && pids1[i1] == 21 {
                0
            } else {
                pids1[i1]
            };
            let in_lumi = contains_pid(lumi_pids, pid1);
            assert(nz[i1 as int] == nonzero@[i1 as int]@);
            if nonzero[i1][i0] && in_lumi {
                indices.push((i0, i1));
                pids.push((pids0[i0], pid1));
            }
            i1 = i1 + 1;
        }
        i0 = i0 + 1;
    }
    if indices.len() == 0 {
        return Err(
            GridError::EvolutionFailure(
                String::from_str("no non-zero operator found; result would be an empty FkTable"),
            ),
        );
    }
    Ok((indices, pids))
}

/// Whether `pids` holds `pid`.
pub fn contains_pid(pids: &[i32], pid: i32) -> (r: bool)
    ensures
        r == pids@.contains(pid),
{
    let mut k: usize = 0;
    while k < pids.len()
        invariant
            k <= pids@.len(),
            forall|j: int| 0 <= j < k ==> pids@[j] != pid,
        decreases pids@.len() - k,
    {
        if pids[k] == pid {
            return true;
        }
        k = k + 1;
    }
    false
}

/// Whether `s` is strictly increasing.
pub open spec fn strictly_increasing(s: Seq<i32>) -> bool {
    forall|i: int, j: int| 0 <= i < j < s.len() ==> s[i] < s[j]
}

/// Whether `pid0` is the first member of some pair of `pids`.
pub open spec fn is_pid0_of(pids: Seq<(i32, i32)>, pid0: i32) -> bool {
    exists|k: int| 0 <= k < pids.len() && (#[trigger] pids[k]).0 == pid0
}

/// Whether `s` lists, in increasing order and once each, the first members of the pairs `pids`.
pub open spec fn is_sorted_pid0s(s: Seq<i32>, pids: Seq<(i32, i32)>) -> bool {
    &&& strictly_increasing(s)
    &&& forall|x: i32| s.contains(x) <==> is_pid0_of(pids, x)
}

/// Whether `r` holds all pairs of a member of `a` and a member of `b`, with the member of `a`
/// varying slowest.
pub open spec fn is_product(r: Seq<(i32, i32)>, a: Seq<i32>, b: Seq<i32>) -> bool {
    &&& r.len() == a.len() * b.len()
    &&& forall|i: int, j: int|
        0 <= i < a.len() && 0 <= j < b.len() ==> #[trigger] r[i * b.len() + j] == (a[i], b[j])
}

/// Inserts `x` into the strictly increasing `v`, unless it is there already.
fn insert_sorted(v: &mut Vec<i32>, x: i32)
    requires
        strictly_increasing(old(v)@),
    ensures
        strictly_increasing(final(v)@),
        forall|y: i32| final(v)@.contains(y) <==> (old(v)@.contains(y) || y == x),
{
    let mut p: usize = 0;
    while p < v.len() && v[p] < x
        invariant
            p <= v@.len(),
            v@ == old(v)@,
            strictly_increasing(v@),
            forall|j: int| 0 <= j < p ==> v@[j] < x,
        decreases v@.len() - p,
    {
        p = p + 1;
    }
    if p < v.len() && v[p] == x {
        return;
    }
    let ghost before = v@;
    v.insert(p, x);
    proof {
        assert(v@ =~= before.subrange(0, p as int).push(x) + before.subrange(p as int, before.len() as int));
        assert forall|y: i32| v@.contains(y) <==> (before.contains(y) || y == x) by {
            if v@.contains(y) {
                let k = choose|k: int| 0 <= k < v@.len() && v@[k] == y;
                if k < p {
                    assert(before[k] == y);
                } else if k > p {
                    assert(before[k - 1] == y);
                }
            }
            if before.contains(y) {
                let k = choose|k: int| 0 <= k < before.len() && before[k] == y;
                if k < p {
                    assert(v@[k] == y);
                } else {
                    assert(v@[k + 1] == y);
                }
            }
            if y == x {
                assert(v@[p as int] == y);
            }
        }
    }
    assert(forall|y: i32| v@.contains(y) <==> (old(v)@.contains(y) || y == x));
}

/// The fitting-basis identifiers of the pairs `pids`, sorted and without duplicates.
pub fn lumi0_with_one(pids: &[(i32, i32)]) -> (r: Vec<i32>)
    ensures
        is_sorted_pid0s(r@, pids@),
{
    let mut pids0: Vec<i32> = Vec::new();
    let mut k: usize = 0;
    while k < pids.len()
        invariant
            k <= pids@.len(),
            strictly_increasing(pids0@),
            forall|x: i32|
                pids0@.contains(x) <==> exists|j: int| 0 <= j < k && (#[trigger] pids@[j]).0 == x,
        decreases pids@.len() - k,
    {
        insert_sorted(&mut pids0, pids[k].0);
        assert forall|x: i32|
            pids0@.contains(x) <==> exists|j: int| 0 <= j < k + 1 && (#[trigger] pids@[j]).0 == x by {
            if x == pids@[k as int].0 {
                assert(pids@[k as int].0 == x);
            }
        }
        k = k + 1;
    }
    pids0
}

/// Relies on itertools' `cartesian_product`: every pair of an element of `a` and one of `b`, the
/// element of `a` varying slowest.
#[verifier::external_body]
fn cartesian_product(a: &Vec<i32>, b: &Vec<i32>) -> (r: Vec<(i32, i32)>)
    ensures
        is_product(r@, a@, b@),
{
    a.iter().copied().cartesian_product(b.iter().copied()).collect()
}

/// The channels of a grid evolved on both sides: every pair of a fitting-basis identifier of
/// `pids_a` and one of `pids_b`, each side sorted and without duplicates.
pub fn lumi0_with_two(pids_a: &[(i32, i32)], pids_b: &[(i32, i32)]) -> (r: Vec<(i32, i32)>)
    ensures
        exists|a: Seq<i32>, b: Seq<i32>|
            is_sorted_pid0s(a, pids_a@) && is_sorted_pid0s(b, pids_b@) && is_product(r@, a, b),
{
    let pids0_a = lumi0_with_one(pids_a);
    let pids0_b = lumi0_with_one(pids_b);
    let r = cartesian_product(&pids0_a, &pids0_b);
    assert(is_sorted_pid0s(pids0_a@, pids_a@) && is_sorted_pid0s(pids0_b@, pids_b@) && is_product(
        r@,
        pids0_a@,
        pids0_b@,
    ));
    r
}

/// The first position from `i` on at which `s` holds `key`.
pub open spec fn first_match_from(s: Seq<(i32, i32)>, key: (i32, i32), i: int) -> Option<int>
    decreases s.len() - i,
{
    if i < 0 || i >= s.len() {
        None
    } else if s[i] == key {
        Some(i)
    } else {
        first_match_from(s, key, i + 1)
    }
}

/// A match that `first_match_from` finds holds the key, and lies at or after the start.
pub proof fn lemma_first_match_holds_key(s: Seq<(i32, i32)>, key: (i32, i32), i: int)
    ensures
        first_match_from(s, key, i) matches Some(k) ==> i <= k < s.len() && s[k] == key,
    decreases s.len() - i,
{
    if 0 <= i < s.len() && s[i] != key {
        lemma_first_match_holds_key(s, key, i + 1);
    }
}

/// The index of the first operator slice whose identifier pair `(pid0, pid1)` is `key`.
pub fn operator_index(pids: &[(i32, i32)], key: (i32, i32)) -> (r: Option<usize>)
    ensures
        match first_match_from(pids@, key, 0) {
            Some(k) => r == Some(k as usize),
            None => r is None,
        },
{
    let mut k: usize = 0;
    while k < pids.len()
        invariant
            k <= pids@.len(),
            first_match_from(pids@, key, 0) == first_match_from(pids@, key, k as int),
        decreases pids@.len() - k,
    {
        if pids[k].0 == key.0 && pids[k].1 == key.1 {
            return Some(k);
        }
        k = k + 1;
    }
    None
}

/// For the channel entry whose evolved side holds `pid1`: the pairs `(t, o)` of an output channel
/// `t < n`, whose fitting-basis identifier is `lumi0[t]`, and the first operator slice `o` that maps
/// `pid1` onto it, for the `t` that have one, by increasing `t`.
pub open spec fn targets_with_one(
    lumi0: Seq<i32>,
    pids: Seq<(i32, i32)>,
    pid1: i32,
    n: int,
) -> Seq<(usize, usize)>
    decreases n,
{
    if n <= 0 {
        seq![]
    } else {
        let prev = targets_with_one(lumi0, pids, pid1, n - 1);
        match first_match_from(pids, (lumi0[n - 1], pid1), 0) {
            Some(o) => prev.push(((n - 1) as usize, o as usize)),
            None => prev,
        }
    }
}

/// Every contribution of a channel entry in a one-sided evolution goes through an operator slice
/// that maps the entry's identifier `pid1` onto the identifier of its output channel.
pub proof fn lemma_targets_with_one_match(
    lumi0: Seq<i32>,
    pids: Seq<(i32, i32)>,
    pid1: i32,
    n: int,
)
    requires
        0 <= n <= lumi0.len(),
        lumi0.len() <= usize::MAX,
        pids.len() <= usize::MAX,
    ensures
        forall|j: int|
            0 <= j < targets_with_one(lumi0, pids, pid1, n).len() ==> {
                let (t, o) = #[trigger] targets_with_one(lumi0, pids, pid1, n)[j];
                &&& t < n
                &&& o < pids.len()
                &&& pids[o as int] == (lumi0[t as int], pid1)
            },
    decreases n,
{
    if n > 0 {
        lemma_targets_with_one_match(lumi0, pids, pid1, n - 1);
        lemma_first_match_holds_key(pids, (lumi0[n - 1], pid1), 0);
        let prev = targets_with_one(lumi0, pids, pid1, n - 1);
        let all = targets_with_one(lumi0, pids, pid1, n);
        assert forall|j: int| 0 <= j < all.len() implies {
            let (t, o) = #[trigger] all[j];
            &&& t < n
            &&& o < pids.len()
            &&& pids[o as int] == (lumi0[t as int], pid1)
        } by {
            if j < prev.len() {
                assert(all[j] == prev[j]);
            }
        }
    }
}

/// Every contribution of a channel entry `(pida1, pidb1)` in a two-sided evolution goes through
/// operator slices that map `pida1` and `pidb1` onto the two identifiers of its output channel.
pub proof fn lemma_targets_with_two_match(
    lumi0: Seq<(i32, i32)>,
    pids_a: Seq<(i32, i32)>,
    pids_b: Seq<(i32, i32)>,
    pida1: i32,
    pidb1: i32,
    n: int,
)
    requires
        0 <= n <= lumi0.len(),
        lumi0.len() <= usize::MAX,
        pids_a.len() <= usize::MAX,
        pids_b.len() <= usize::MAX,
    ensures
        forall|j: int|
            0 <= j < targets_with_two(lumi0, pids_a, pids_b, pida1, pidb1, n).len() ==> {
                let (t, oa, ob) = #[trigger] targets_with_two(
                    lumi0,
                    pids_a,
                    pids_b,
                    pida1,
                    pidb1,
                    n,
                )[j];
                &&& t < n
                &&& oa < pids_a.len()
                &&& ob < pids_b.len()
                &&& pids_a[oa as int] == (lumi0[t as int].0, pida1)
                &&& pids_b[ob as int] == (lumi0[t as int].1, pidb1)
            },
    decreases n,
{
    if n > 0 {
        lemma_targets_with_two_match(lumi0, pids_a, pids_b, pida1, pidb1, n - 1);
        lemma_first_match_holds_key(pids_a, (lumi0[n - 1].0, pida1), 0);
        lemma_first_match_holds_key(pids_b, (lumi0[n - 1].1, pidb1), 0);
        let prev = targets_with_two(lumi0, pids_a, pids_b, pida1, pidb1, n - 1);
        let all = targets_with_two(lumi0, pids_a, pids_b, pida1, pidb1, n);
        assert forall|j: int| 0 <= j < all.len() implies {
            let (t, oa, ob) = #[trigger] all[j];
            &&& t < n
            &&& oa < pids_a.len()
            &&& ob < pids_b.len()
            &&& pids_a[oa as int] == (lumi0[t as int].0, pida1)
            &&& pids_b[ob as int] == (lumi0[t as int].1, pidb1)
        } by {
            if j < prev.len() {
                assert(all[j] == prev[j]);
            }
        }
    }
}

/// In a one-sided evolution, the output channels that the channel entry with process-basis
/// identifier `pid1` contributes to, each with the operator slice that carries the contribution:
/// pairs `(t, o)` where `lumi0[t]` is an output channel and `o` the first slice in `pids` that
/// maps `pid1` onto `lumi0[t]`.
pub fn contraction_targets_with_one(lumi0: &[i32], pids: &[(i32, i32)], pid1: i32) -> (r: Vec<
    (usize, usize),
>)
    ensures
        r@ == targets_with_one(lumi0@, pids@, pid1, lumi0@.len() as int),
{
    let mut targets: Vec<(usize, usize)> = Vec::new();
    let mut t: usize = 0;
    while t < lumi0.len()
        invariant
            t <= lumi0@.len(),
            targets@ == targets_with_one(lumi0@, pids@, pid1, t as int),
        decreases lumi0@.len() - t,
    {
        match operator_index(pids, (lumi0[t], pid1)) {
            Some(o) => targets.push((t, o)),
            None => {},
        }
        t = t + 1;
    }
    targets
}

/// For the channel entry `(pida1, pidb1)`: the triples `(t, oa, ob)` of an output channel `t < n`
/// and the first operator slices `oa` of `pids_a` and `ob` of `pids_b` that map `pida1` and
/// `pidb1` onto the two identifiers of `lumi0[t]`, for the `t` that have both, by increasing `t`.
pub open spec fn targets_with_two(
    lumi0: Seq<(i32, i32)>,
    pids_a: Seq<(i32, i32)>,
    pids_b: Seq<(i32, i32)>,
    pida1: i32,
    pidb1: i32,
    n: int,
) -> Seq<(usize, usize, usize)>
    decreases n,
{
    if n <= 0 {
        seq![]
    } else {
        let prev = targets_with_two(lumi0, pids_a, pids_b, pida1, pidb1, n - 1);
        match (
            first_match_from(pids_a, (lumi0[n - 1].0, pida1), 0),
            first_match_from(pids_b, (lumi0[n - 1].1, pidb1), 0),
        ) {
            (Some(oa), Some(ob)) => prev.push(((n - 1) as usize, oa as usize, ob as usize)),
            _ => prev,
        }
    }
}

/// In a two-sided evolution, the output channels that the channel entry `(pida1, pidb1)`
/// contributes to, each with the two operator slices that carry the contribution: triples
/// `(t, oa, ob)` where `oa` is the first slice in `pids_a` that maps `pida1` onto the first
/// identifier of `lumi0[t]`, and `ob` the first in `pids_b` that maps `pidb1` onto the second.
pub fn contraction_targets_with_two(
    lumi0: &[(i32, i32)],
    pids_a: &[(i32, i32)],
    pids_b: &[(i32, i32)],
    pida1: i32,
    pidb1: i32,
) -> (r: Vec<(usize, usize, usize)>)
    ensures
        r@ == targets_with_two(lumi0@, pids_a@, pids_b@, pida1, pidb1, lumi0@.len() as int),
{
    let mut targets: Vec<(usize, usize, usize)> = Vec::new();
    let mut t: usize = 0;
    while t < lumi0.len()
        invariant
            t <= lumi0@.len(),
            targets@ == targets_with_two(lumi0@, pids_a@, pids_b@, pida1, pidb1, t as int),
        decreases lumi0@.len() - t,
    {
        let (pida0, pidb0) = lumi0[t];
        match (operator_index(pids_a, (pida0, pida1)), operator_index(pids_b, (pidb0, pidb1))) {
            (Some(oa), Some(ob)) => targets.push((t, oa, ob)),
            _ => {},
        }
        t = t + 1;
    }
    targets
}

/// The channels of a grid evolved on one side: each fitting-basis identifier of `lumi0` paired with
/// the identifier `pid` of the side that is not evolved, on the first side when `has_pdf1` holds
/// and on the second otherwise.
pub fn evolved_channels_with_one(lumi0: &[i32], has_pdf1: bool, pid: i32) -> (r: Vec<(i32, i32)>)
    ensures
        r@.len() == lumi0@.len(),
        forall|t: int|
            0 <= t < lumi0@.len() ==> #[trigger] r@[t] == if has_pdf1 {
                (lumi0@[t], pid)
            } else {
                (pid, lumi0@[t])
            },
{
    let mut channels: Vec<(i32, i32)> = Vec::new();
    let mut t: usize = 0;
    while t < lumi0.len()
        invariant
            t <= lumi0@.len(),
            channels@.len() == t,
            forall|k: int|
                0 <= k < t ==> #[trigger] channels@[k] == if has_pdf1 {
                    (lumi0@[k], pid)
                } else {
                    (pid, lumi0@[k])
                },
        decreases lumi0@.len() - t,
    {
        let a = lumi0[t];
        channels.push(
            if has_pdf1 {
                (a, pid)
            } else {
                (pid, a)
            },
        );
        t = t + 1;
    }
    channels
}

} // verus!
