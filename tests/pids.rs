use pineappl::pids::{
    charge_conjugate, charge_conjugate_channel, charge_conjugate_in, charge_conjugate_pdg_pid,
    evol_to_pdg_mc_ids, Basis,
};

#[test]
fn test() {
    // check photon
    assert_eq!(evol_to_pdg_mc_ids(21), [(21, 1)]);

    // check gluon
    assert_eq!(evol_to_pdg_mc_ids(22), [(22, 1)]);

    // check singlet
    assert_eq!(
        evol_to_pdg_mc_ids(100),
        [
            (2, 1),
            (-2, 1),
            (1, 1),
            (-1, 1),
            (3, 1),
            (-3, 1),
            (4, 1),
            (-4, 1),
            (5, 1),
            (-5, 1),
            (6, 1),
            (-6, 1),
        ]
    );

    // check T3
    assert_eq!(
        evol_to_pdg_mc_ids(103),
        [(2, 1), (-2, 1), (1, -1), (-1, -1)]
    );

    // check T8
    assert_eq!(
        evol_to_pdg_mc_ids(108),
        [(2, 1), (-2, 1), (1, 1), (-1, 1), (3, -2), (-3, -2)],
    );

    // check T15
    assert_eq!(
        evol_to_pdg_mc_ids(115),
        [
            (2, 1),
            (-2, 1),
            (1, 1),
            (-1, 1),
            (3, 1),
            (-3, 1),
            (4, -3),
            (-4, -3),
        ],
    );

    // check T24
    assert_eq!(
        evol_to_pdg_mc_ids(124),
        [
            (2, 1),
            (-2, 1),
            (1, 1),
            (-1, 1),
            (3, 1),
            (-3, 1),
            (4, 1),
            (-4, 1),
            (5, -4),
            (-5, -4),
        ],
    );

    // check T35
    assert_eq!(
        evol_to_pdg_mc_ids(135),
        [
            (2, 1),
            (-2, 1),
            (1, 1),
            (-1, 1),
            (3, 1),
            (-3, 1),
            (4, 1),
            (-4, 1),
            (5, 1),
            (-5, 1),
            (6, -5),
            (-6, -5),
        ],
    );

    // check valence
    assert_eq!(
        evol_to_pdg_mc_ids(200),
        [
            (1, 1),
            (-1, -1),
            (2, 1),
            (-2, -1),
            (3, 1),
            (-3, -1),
            (4, 1),
            (-4, -1),
            (5, 1),
            (-5, -1),
            (6, 1),
            (-6, -1),
        ],
    );

    // check V3
    assert_eq!(
        evol_to_pdg_mc_ids(203),
        [(2, 1), (-2, -1), (1, -1), (-1, 1)],
    );

    // check V8
    assert_eq!(
        evol_to_pdg_mc_ids(208),
        [(2, 1), (-2, -1), (1, 1), (-1, -1), (3, -2), (-3, 2)],
    );

    // check V15
    assert_eq!(
        evol_to_pdg_mc_ids(215),
        [
            (2, 1),
            (-2, -1),
            (1, 1),
            (-1, -1),
            (3, 1),
            (-3, -1),
            (4, -3),
            (-4, 3),
        ],
    );

    // check V24
    assert_eq!(
        evol_to_pdg_mc_ids(224),
        [
            (2, 1),
            (-2, -1),
            (1, 1),
            (-1, -1),
            (3, 1),
            (-3, -1),
            (4, 1),
            (-4, -1),
            (5, -4),
            (-5, 4),
        ],
    );

    // check V35
    assert_eq!(
        evol_to_pdg_mc_ids(235),
        [
            (2, 1),
            (-2, -1),
            (1, 1),
            (-1, -1),
            (3, 1),
            (-3, -1),
            (4, 1),
            (-4, -1),
            (5, 1),
            (-5, -1),
            (6, -5),
            (-6, 5),
        ],
    );
}

#[test]
fn evol_ids_outside_basis_stand_for_themselves() {
    assert_eq!(evol_to_pdg_mc_ids(11), [(11, 1)]);
    assert_eq!(evol_to_pdg_mc_ids(-3), [(-3, 1)]);
}

#[test]
fn pdg_charge_conjugation() {
    assert_eq!(charge_conjugate_pdg_pid(21), 21);
    assert_eq!(charge_conjugate_pdg_pid(22), 22);
    assert_eq!(charge_conjugate_pdg_pid(2), -2);
    assert_eq!(charge_conjugate_pdg_pid(-5), 5);
    assert_eq!(charge_conjugate_pdg_pid(2212), -2212);
    assert_eq!(charge_conjugate_pdg_pid(0), 0);
}

#[test]
fn charge_conjugation_by_basis() {
    assert_eq!(charge_conjugate("pdg_mc_ids", 2), (-2, 1));
    assert_eq!(charge_conjugate("pdg_mc_ids", 21), (21, 1));
    assert_eq!(charge_conjugate("evol", 100), (100, 1));
    assert_eq!(charge_conjugate("evol", 135), (135, 1));
    assert_eq!(charge_conjugate("evol", 203), (203, -1));
    assert_eq!(charge_conjugate("evol", 235), (235, -1));
    assert_eq!(charge_conjugate("evol", 21), (21, 1));
    assert_eq!(charge_conjugate("evol", 11), (-11, 1));
    assert_eq!(charge_conjugate_in(Basis::Evol, 208), (208, -1));
}

#[test]
fn basis_from_metadata() {
    assert_eq!(Basis::from_lumi_id_types("pdg_mc_ids"), Some(Basis::PdgMcIds));
    assert_eq!(Basis::from_lumi_id_types("evol"), Some(Basis::Evol));
    assert_eq!(Basis::from_lumi_id_types("evolution"), None);
    assert_eq!(Basis::of_grid(None), Some(Basis::PdgMcIds));
    assert_eq!(Basis::of_grid(Some("evol")), Some(Basis::Evol));
    assert_eq!(Basis::of_grid(Some("")), None);
    assert_eq!(Basis::PdgMcIds.lumi_id_types(), "pdg_mc_ids");
    assert_eq!(Basis::Evol.lumi_id_types(), "evol");
}

#[test]
fn channel_charge_conjugation_on_each_side() {
    let entries = vec![(2, -2), (21, 1), (-3, 22)];
    assert_eq!(
        charge_conjugate_channel(Basis::PdgMcIds, &entries, true, false),
        vec![(-2, -2, 1), (21, 1, 1), (3, 22, 1)]
    );
    assert_eq!(
        charge_conjugate_channel(Basis::PdgMcIds, &entries, false, true),
        vec![(2, 2, 1), (21, -1, 1), (-3, 22, 1)]
    );
    let evol = vec![(200, 100), (203, 203), (21, 2)];
    assert_eq!(
        charge_conjugate_channel(Basis::Evol, &evol, true, true),
        vec![(200, 100, -1), (203, 203, 1), (21, -2, 1)]
    );
}

#[test]
fn cc1_twice_restores_channels_and_initial_state() {
    let channels = vec![vec![(2, -2), (1, -1)], vec![(21, 21)], vec![(-5, 0), (22, 3)]];
    for channel in &channels {
        let once = charge_conjugate_channel(Basis::PdgMcIds, channel, true, false);
        let pids: Vec<(i32, i32)> = once.iter().map(|&(a, b, _)| (a, b)).collect();
        let twice = charge_conjugate_channel(Basis::PdgMcIds, &pids, true, false);
        for ((a, b), (c, d, s2)) in channel.iter().zip(twice.iter()) {
            assert_eq!((*a, *b), (*c, *d));
            assert_eq!(*s2, 1);
        }
        assert!(once.iter().all(|&(_, _, s)| s == 1));
    }
    let initial_state = 2212;
    assert_eq!(
        charge_conjugate_pdg_pid(charge_conjugate_pdg_pid(initial_state)),
        initial_state
    );
}
