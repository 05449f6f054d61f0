//! Particle identifiers: charge conjugation and the conversion of evolution-basis identifiers
//! into PDG Monte Carlo identifiers.

use crate::text::str_equals;
use vstd::prelude::*;

verus! {

/// The particle-identifier convention of a grid's channels, stored under the key
/// `lumi_id_types` of the grid's metadata.
#[derive(Clone, Copy, Debug, PartialEq, Eq, Structural)]
pub enum Basis {
    /// PDG Monte Carlo identifiers (`pdg_mc_ids`).
    PdgMcIds,
    /// Evolution-basis identifiers (`evol`).
    Evol,
}

/// Charge conjugation of a PDG Monte Carlo identifier: the gluon (21) and the photon (22) are
/// their own antiparticles, every other particle changes sign.
pub open spec fn cc_pdg(pid: int) -> int {
    if pid == 21 || pid == 22 {
        pid
    } else {
        -pid
    }
}

/// Evolution-basis singlet-like combinations, which are even under charge conjugation.
pub open spec fn is_evol_even(pid: int) -> bool {
    pid == 100 || pid == 103 || pid == 108 || pid == 115 || pid == 124 || pid == 135
}

/// Evolution-basis valence-like combinations, which are odd under charge conjugation.
pub open spec fn is_evol_odd(pid: int) -> bool {
    pid == 200 || pid == 203 || pid == 208 || pid == 215 || pid == 224 || pid == 235
}

/// The charge-conjugated identifier of `pid` in `basis`, together with the sign that the
/// conjugation introduces.
pub open spec fn cc_spec(basis: Basis, pid: int) -> (int, int) {
    match basis {
        Basis::PdgMcIds => (cc_pdg(pid), 1),
        Basis::Evol => if is_evol_even(pid) {
            (pid, 1)
        } else if is_evol_odd(pid) {
            (pid, -1)
        } else {
            (cc_pdg(pid), 1)
        },
    }
}

impl Basis {
    /// The basis named by the metadata value `lumi_id_types`: `pdg_mc_ids` or `evol`.
    pub fn from_lumi_id_types(lumi_id_types: &str) -> (r: Option<Basis>)
        ensures
            r == (if lumi_id_types@ == "pdg_mc_ids"@ {
                Some(Basis::PdgMcIds)
            } else if lumi_id_types@ == "evol"@ {
                Some(Basis::Evol)
            } else {
                None
            }),
    {
        if str_equals(lumi_id_types, "pdg_mc_ids") {
            Some(Basis::PdgMcIds)
        } else if str_equals(lumi_id_types, "evol") {
            Some(Basis::Evol)
        } else {
            None
        }
    }

    /// The value of the metadata key `lumi_id_types` that names this basis.
    pub fn lumi_id_types(&self) -> (r: &'static str)
        ensures
            r@ == match self {
                Basis::PdgMcIds => "pdg_mc_ids"@,
                Basis::Evol => "evol"@,
            },
    {
        match self {
            Basis::PdgMcIds => "pdg_mc_ids",
            Basis::Evol => "evol",
        }
    }

    /// The basis of a grid whose metadata holds `lumi_id_types` under that key, if any: a grid
    /// without the key uses PDG Monte Carlo identifiers.
    pub fn of_grid(lumi_id_types: Option<&str>) -> (r: Option<Basis>)
        ensures
            r == match lumi_id_types {
                None => Some(Basis::PdgMcIds),
                Some(t) => if t@ == "pdg_mc_ids"@ {
                    Some(Basis::PdgMcIds)
                } else if t@ == "evol"@ {
                    Some(Basis::Evol)
                } else {
                    None
                },
            },
    {
        match lumi_id_types {
            None => Some(Basis::PdgMcIds),
            Some(t) => Basis::from_lumi_id_types(t),
        }
    }
}

/// Return the charge-conjugated PDG ID of `pid`.
pub fn charge_conjugate_pdg_pid(pid: i32) -> (r: i32)
    requires
        pid != i32::MIN,
    ensures
        r == cc_pdg(pid as int),
{
    match pid {
        21 | 22 => pid,
        _ => -pid,
    }
}

/// Return the charge-conjugated particle ID of `pid` for the basis `lumi_id_types`, which must be
/// `pdg_mc_ids` or `evol`. The second member of the returned pair is the sign (`1` or `-1`) that
/// arises during the charge conjugation.
pub fn charge_conjugate(lumi_id_types: &str, pid: i32) -> (r: (i32, i32))
    requires
        lumi_id_types@ == "pdg_mc_ids"@ || lumi_id_types@ == "evol"@,
        pid != i32::MIN,
    ensures
        (r.0 as int, r.1 as int) == cc_spec(
            if lumi_id_types@ == "pdg_mc_ids"@ {
                Basis::PdgMcIds
            } else {
                Basis::Evol
            },
            pid as int,
        ),
{
    match Basis::from_lumi_id_types(lumi_id_types) {
        Some(basis) => charge_conjugate_in(basis, pid),
        None => (pid, 1),
    }
}

/// Charge conjugation of `pid` in `basis`, with the sign that it introduces.
pub fn charge_conjugate_in(basis: Basis, pid: i32) -> (r: (i32, i32))
    requires
        pid != i32::MIN,
    ensures
        (r.0 as int, r.1 as int) == cc_spec(basis, pid as int),
{
    match basis {
        Basis::PdgMcIds => (charge_conjugate_pdg_pid(pid), 1),
        Basis::Evol => match pid {
            100 | 103 | 108 | 115 | 124 | 135 => (pid, 1),
            200 | 203 | 208 | 215 | 224 | 235 => (pid, -1),
            _ => (charge_conjugate_pdg_pid(pid), 1),
        },
    }
}

/// The PDG Monte Carlo content of the evolution-basis identifier `id`: pairs of a PDG
/// identifier and its integer weight. An identifier outside the evolution basis stands for
/// itself with weight one.
pub open spec fn evol_to_pdg_spec(id: int) -> Seq<(int, int)> {
    if id == 100 {
        seq![(2, 1), (-2, 1), (1, 1), (-1, 1), (3, 1), (-3, 1), (4, 1), (-4, 1), (5, 1), (-5, 1), (6, 1), (-6, 1)]
    } else if id == 103 {
        seq![(2, 1), (-2, 1), (1, -1), (-1, -1)]
    } else if id == 108 {
        seq![(2, 1), (-2, 1), (1, 1), (-1, 1), (3, -2), (-3, -2)]
    } else if id == 115 {
        seq![(2, 1), (-2, 1), (1, 1), (-1, 1), (3, 1), (-3, 1), (4, -3), (-4, -3)]
    } else if id == 124 {
        seq![(2, 1), (-2, 1), (1, 1), (-1, 1), (3, 1), (-3, 1), (4, 1), (-4, 1), (5, -4), (-5, -4)]
    } else if id == 135 {
        seq![(2, 1), (-2, 1), (1, 1), (-1, 1), (3, 1), (-3, 1), (4, 1), (-4, 1), (5, 1), (-5, 1), (6, -5), (-6, -5)]
    } else if id == 200 {
        seq![(1, 1), (-1, -1), (2, 1), (-2, -1), (3, 1), (-3, -1), (4, 1), (-4, -1), (5, 1), (-5, -1), (6, 1), (-6, -1)]
    } else if id == 203 {
        seq![(2, 1), (-2, -1), (1, -1), (-1, 1)]
    } else if id == 208 {
        seq![(2, 1), (-2, -1), (1, 1), (-1, -1), (3, -2), (-3, 2)]
    } else if id == 215 {
        seq![(2, 1), (-2, -1), (1, 1), (-1, -1), (3, 1), (-3, -1), (4, -3), (-4, 3)]
    } else if id == 224 {
        seq![(2, 1), (-2, -1), (1, 1), (-1, -1), (3, 1), (-3, -1), (4, 1), (-4, -1), (5, -4), (-5, 4)]
    } else if id == 235 {
        seq![(2, 1), (-2, -1), (1, 1), (-1, -1), (3, 1), (-3, -1), (4, 1), (-4, -1), (5, 1), (-5, -1), (6, -5), (-6, 5)]
    } else {
        seq![(id, 1)]
    }
}

/// Converts IDs from the evolution basis into IDs using PDG Monte Carlo IDs. Each pair holds
/// a PDG Monte Carlo ID and its (integer) weight in the linear combination.
pub fn evol_to_pdg_mc_ids(id: i32) -> (r: Vec<(i32, i32)>)
    ensures
        r@.len() == evol_to_pdg_spec(id as int).len(),
        forall|i: int|
            0 <= i < r@.len() ==> (r@[i].0 as int, r@[i].1 as int) == #[trigger] evol_to_pdg_spec(
                id as int,
            )[i],
{
    let r = match id {
        100 => vec![(2, 1), (-2, 1), (1, 1), (-1, 1), (3, 1), (-3, 1), (4, 1), (-4, 1), (5, 1), (-5, 1), (6, 1), (-6, 1)],
        103 => vec![(2, 1), (-2, 1), (1, -1), (-1, -1)],
        108 => vec![(2, 1), (-2, 1), (1, 1), (-1, 1), (3, -2), (-3, -2)],
        115 => vec![(2, 1), (-2, 1), (1, 1), (-1, 1), (3, 1), (-3, 1), (4, -3), (-4, -3)],
        124 => vec![(2, 1), (-2, 1), (1, 1), (-1, 1), (3, 1), (-3, 1), (4, 1), (-4, 1), (5, -4), (-5, -4)],
        135 => vec![(2, 1), (-2, 1), (1, 1), (-1, 1), (3, 1), (-3, 1), (4, 1), (-4, 1), (5, 1), (-5, 1), (6, -5), (-6, -5)],
        200 => vec![(1, 1), (-1, -1), (2, 1), (-2, -1), (3, 1), (-3, -1), (4, 1), (-4, -1), (5, 1), (-5, -1), (6, 1), (-6, -1)],
        203 => vec![(2, 1), (-2, -1), (1, -1), (-1, 1)],
        208 => vec![(2, 1), (-2, -1), (1, 1), (-1, -1), (3, -2), (-3, 2)],
        215 => vec![(2, 1), (-2, -1), (1, 1), (-1, -1), (3, 1), (-3, -1), (4, -3), (-4, 3)],
        224 => vec![(2, 1), (-2, -1), (1, 1), (-1, -1), (3, 1), (-3, -1), (4, 1), (-4, -1), (5, -4), (-5, 4)],
        235 => vec![(2, 1), (-2, -1), (1, 1), (-1, -1), (3, 1), (-3, -1), (4, 1), (-4, -1), (5, 1), (-5, -1), (6, -5), (-6, 5)],
        _ => vec![(id, 1)],
    };
    r
}

/// A channel entry `(pid_a, pid_b, weight)` after charge-conjugating its first side when `cc1`
/// holds and its second when `cc2` holds; the weight takes up the signs that arise.
pub open spec fn cc_entry(basis: Basis, e: (int, int, int), cc1: bool, cc2: bool) -> (int, int, int) {
    let (a, f1) = if cc1 {
        cc_spec(basis, e.0)
    } else {
        (e.0, 1)
    };
    let (b, f2) = if cc2 {
        cc_spec(basis, e.1)
    } else {
        (e.1, 1)
    };
    (a, b, e.2 * f1 * f2)
}

/// A list of channels, each a list of entries, after charge conjugation.
pub open spec fn cc_channels(
    basis: Basis,
    channels: Seq<Seq<(int, int, int)>>,
    cc1: bool,
    cc2: bool,
) -> Seq<Seq<(int, int, int)>> {
    channels.map_values(|ch: Seq<(int, int, int)>| ch.map_values(|e| cc_entry(basis, e, cc1, cc2)))
}

/// Charge-conjugates the entries `(pid_a, pid_b)` of one channel on the first side when `cc1`
/// holds and on the second when `cc2` holds. Each result holds the new identifiers and the sign
/// (`1` or `-1`) by which the entry's factor is to be multiplied.
pub fn charge_conjugate_channel(basis: Basis, entries: &[(i32, i32)], cc1: bool, cc2: bool) -> (r: Vec<
    (i32, i32, i32),
>)
    requires
        forall|k: int|
            0 <= k < entries@.len() ==> (#[trigger] entries@[k]).0 != i32::MIN && entries@[k].1
                != i32::MIN,
    ensures
        r@.len() == entries@.len(),
        forall|k: int|
            0 <= k < entries@.len() ==> (r@[k].0 as int, r@[k].1 as int, r@[k].2 as int)
                == cc_entry(basis, (entries@[k].0 as int, entries@[k].1 as int, 1), cc1, cc2),
{
    let mut out: Vec<(i32, i32, i32)> = Vec::new();
    let mut k: usize = 0;
    while k < entries.len()
        invariant
            k <= entries@.len(),
            out@.len() == k,
            forall|k: int|
                0 <= k < entries@.len() ==> (#[trigger] entries@[k]).0 != i32::MIN && entries@[k].1
                    != i32::MIN,
            forall|j: int|
                0 <= j < k ==> (out@[j].0 as int, out@[j].1 as int, out@[j].2 as int) == cc_entry(
                    basis,
                    (entries@[j].0 as int, entries@[j].1 as int, 1),
                    cc1,
                    cc2,
                ),
        decreases entries@.len() - k,
    {
        let (a, b) = entries[k];
        let (ap, f1) = if cc1 {
            charge_conjugate_in(basis, a)
        } else {
            (a, 1)
        };
        let (bp, f2) = if cc2 {
            charge_conjugate_in(basis, b)
        } else {
            (b, 1)
        };
        assert(f1 == 1 || f1 == -1);
        assert(f2 == 1 || f2 == -1);
        assert(cc_entry(basis, (a as int, b as int, 1), cc1, cc2) == (
            ap as int,
            bp as int,
            1 * (f1 as int) * (f2 as int),
        ));
        out.push((ap, bp, f1 * f2));
        k = k + 1;
    }
    out
}

/// Charge-conjugating the first initial state twice in the PDG Monte Carlo basis gives back the
/// channels and the initial state. The identifiers `-21` and `-22` are left out on the first side
/// and for the initial state: the first conjugation maps them onto the gluon and the photon.
pub proof fn lemma_cc1_twice(channels: Seq<Seq<(int, int, int)>>, initial_state: int)
    requires
        forall|c: int, k: int|
            0 <= c < channels.len() && 0 <= k < channels[c].len() ==> (#[trigger] channels[c][k]).0
                != -21 && channels[c][k].0 != -22,
        initial_state != -21,
        initial_state != -22,
    ensures
        cc_channels(
            Basis::PdgMcIds,
            cc_channels(Basis::PdgMcIds, channels, true, false),
            true,
            false,
        ) == channels,
        cc_pdg(cc_pdg(initial_state)) == initial_state,
{
    let once = cc_channels(Basis::PdgMcIds, channels, true, false);
    let twice = cc_channels(Basis::PdgMcIds, once, true, false);
    assert forall|c: int| 0 <= c < channels.len() implies twice[c] == channels[c] by {
        assert(twice[c] =~= channels[c]);
    }
    assert(twice =~= channels);
}

/// Charge conjugation in the PDG Monte Carlo basis undoes itself, for every identifier but
/// `-21` and `-22`, which the first conjugation maps onto the gluon and the photon.
pub proof fn lemma_cc_pdg_involution(pid: int)
    requires
        pid != -21,
        pid != -22,
    ensures
        cc_pdg(cc_pdg(pid)) == pid,
{
}

} // verus!
