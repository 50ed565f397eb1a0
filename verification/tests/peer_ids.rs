use netmerge::peer_id::{peer_id_ext_to_int, peer_id_int_to_ext, InternalPeerId};

const HALF: usize = usize::MAX / 2;

#[test]
fn lower_half_belongs_to_devp2p() {
    assert_eq!(peer_id_ext_to_int(0), InternalPeerId::Devp2p(0));
    assert_eq!(peer_id_ext_to_int(17), InternalPeerId::Devp2p(17));
    assert_eq!(peer_id_ext_to_int(HALF - 1), InternalPeerId::Devp2p(HALF - 1));
}

#[test]
fn upper_half_belongs_to_libp2p() {
    assert_eq!(peer_id_ext_to_int(HALF), InternalPeerId::Libp2p(!HALF));
    assert_eq!(peer_id_ext_to_int(HALF + 1), InternalPeerId::Libp2p(HALF));
    assert_eq!(peer_id_ext_to_int(usize::MAX), InternalPeerId::Libp2p(0));
    assert_eq!(peer_id_ext_to_int(usize::MAX - 5), InternalPeerId::Libp2p(5));
}

#[test]
fn backend_ids_become_exposed_ids() {
    assert_eq!(peer_id_int_to_ext(InternalPeerId::Devp2p(3)), 3);
    assert_eq!(peer_id_int_to_ext(InternalPeerId::Devp2p(HALF - 1)), HALF - 1);
    assert_eq!(peer_id_int_to_ext(InternalPeerId::Libp2p(0)), usize::MAX);
    assert_eq!(peer_id_int_to_ext(InternalPeerId::Libp2p(3)), usize::MAX - 3);
    assert_eq!(peer_id_int_to_ext(InternalPeerId::Libp2p(!HALF)), HALF);
}

#[test]
fn exposed_ids_round_trip() {
    for id in [0, 1, HALF - 1, HALF, HALF + 1, usize::MAX - 1, usize::MAX] {
        assert_eq!(peer_id_int_to_ext(peer_id_ext_to_int(id)), id);
    }
}

#[test]
fn backend_ids_round_trip() {
    for id in [0, 1, 1000, HALF - 1] {
        let devp2p = InternalPeerId::Devp2p(id);
        let libp2p = InternalPeerId::Libp2p(id);
        assert_eq!(peer_id_ext_to_int(peer_id_int_to_ext(devp2p)), devp2p);
        assert_eq!(peer_id_ext_to_int(peer_id_int_to_ext(libp2p)), libp2p);
        assert_ne!(peer_id_int_to_ext(devp2p), peer_id_int_to_ext(libp2p));
    }
}
