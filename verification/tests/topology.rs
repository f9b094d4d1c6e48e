use sub_tracker::topology::Topology;
use sub_tracker::{BlockNumber, Config, Error, Event, Origin, Pallet, Seed};

struct Quiet;

impl Config for Quiet {
    fn random(&mut self, _subject: &[u8]) -> (Seed, BlockNumber) {
        ([0u8; 32], 0)
    }

    fn extrinsic_index(&self) -> Option<u32> {
        None
    }

    fn block_number(&self) -> BlockNumber {
        0
    }
}

fn pallet_with(nodes: &[u64]) -> Pallet<Quiet> {
    let mut pallet = Pallet::new(Quiet);
    for node in nodes {
        assert_eq!(
            pallet.create_new_transit_node(Origin::Root, *node, vec![]),
            Ok(Event::TransitPointCreated(*node))
        );
    }
    pallet
}

#[test]
fn it_creates_transit_node() {
    let mut pallet = Pallet::new(Quiet);
    //Check number of transit nodes. should be 0
    assert_eq!(pallet.count_for_transit_point(), 0);
    // Create Transit Node
    assert!(pallet.create_new_transit_node(Origin::Root, 1, vec![]).is_ok());
    // Check number of transit nodes. should be 1
    assert_eq!(pallet.count_for_transit_point(), 1);
    // Try to create the same transit node again. Should fail
    assert_eq!(
        pallet.create_new_transit_node(Origin::Root, 1, vec![]),
        Err(Error::TransitPointAlreadyExists)
    );
    assert_eq!(pallet.count_for_transit_point(), 1);
    assert_eq!(pallet.transit_nodes(), &vec![1]);
}

#[test]
fn it_removes_transit_node() {
    let mut pallet = Pallet::new(Quiet);
    // Check number of transit nodes. should be 0
    assert_eq!(pallet.count_for_transit_point(), 0);
    // Create Transit Node 1
    assert!(pallet.create_new_transit_node(Origin::Root, 1, vec![]).is_ok());
    // Check number of transit nodes. should be 1
    assert_eq!(pallet.count_for_transit_point(), 1);
    // Remove Transit Node 1
    assert!(pallet.remove_transit_node(Origin::Root, 1).is_ok());
    // Check number of transit nodes. should be 0
    assert_eq!(pallet.count_for_transit_point(), 0);
    // Try to remove node 2. Should fail
    assert_eq!(pallet.remove_transit_node(Origin::Root, 2), Err(Error::TransitPointNotFound));
    assert_eq!(pallet.count_for_transit_point(), 0);
    assert!(pallet.transit_nodes().is_empty());
}

#[test]
fn topology_changes_need_the_root_origin() {
    let mut pallet = pallet_with(&[1, 2]);
    for origin in [Origin::Signed(1), Origin::Unsigned] {
        assert_eq!(pallet.create_new_transit_node(origin, 3, vec![]), Err(Error::Unauthorized));
        assert_eq!(pallet.update_neighbour(origin, 1, 2, 5), Err(Error::Unauthorized));
        assert_eq!(pallet.remove_transit_node(origin, 1), Err(Error::Unauthorized));
    }
    assert_eq!(pallet.transit_nodes(), &vec![1, 2]);
    assert_eq!(pallet.count_for_transit_point(), 2);
    assert_eq!(pallet.route_costs(1, 2), None);
}

#[test]
fn the_origin_is_checked_before_anything_else() {
    let mut pallet = pallet_with(&[1]);
    // node 1 exists, node 9 does not: a signed origin sees neither error
    assert_eq!(pallet.create_new_transit_node(Origin::Signed(1), 1, vec![]), Err(Error::Unauthorized));
    assert_eq!(pallet.update_neighbour(Origin::Signed(1), 1, 9, 5), Err(Error::Unauthorized));
    assert_eq!(pallet.remove_transit_node(Origin::Signed(1), 9), Err(Error::Unauthorized));
}

#[test]
fn a_new_node_is_linked_to_its_neighbours_in_both_directions() {
    let mut pallet = pallet_with(&[1, 2]);
    assert_eq!(
        pallet.create_new_transit_node(Origin::Root, 3, vec![(1, 10), (2, 20)]),
        Ok(Event::TransitPointCreated(3))
    );
    assert_eq!(pallet.transit_nodes(), &vec![1, 2, 3]);
    assert_eq!(pallet.count_for_transit_point(), 3);
    assert_eq!(pallet.route_costs(3, 1), Some(10));
    assert_eq!(pallet.route_costs(1, 3), Some(10));
    assert_eq!(pallet.route_costs(3, 2), Some(20));
    assert_eq!(pallet.route_costs(2, 3), Some(20));
    assert_eq!(pallet.route_costs(1, 2), None);
    assert_eq!(pallet.route_costs(2, 1), None);
}

#[test]
fn the_later_entry_for_a_neighbour_stands() {
    let mut pallet = pallet_with(&[1]);
    assert!(pallet.create_new_transit_node(Origin::Root, 2, vec![(1, 10), (1, 30)]).is_ok());
    assert_eq!(pallet.route_costs(1, 2), Some(30));
    assert_eq!(pallet.route_costs(2, 1), Some(30));
}

#[test]
fn a_neighbour_must_be_registered() {
    let mut pallet = pallet_with(&[1]);
    assert_eq!(
        pallet.create_new_transit_node(Origin::Root, 2, vec![(1, 10), (7, 1)]),
        Err(Error::InvalidRoute)
    );
    // nothing was applied, not even the edge to node 1
    assert_eq!(pallet.transit_nodes(), &vec![1]);
    assert_eq!(pallet.count_for_transit_point(), 1);
    assert_eq!(pallet.route_costs(1, 2), None);
    assert_eq!(pallet.route_costs(2, 1), None);
}

#[test]
fn a_node_cannot_be_its_own_neighbour() {
    let mut pallet = pallet_with(&[1]);
    assert_eq!(
        pallet.create_new_transit_node(Origin::Root, 2, vec![(2, 10)]),
        Err(Error::InvalidRoute)
    );
    assert_eq!(pallet.transit_nodes(), &vec![1]);
    assert_eq!(pallet.route_costs(2, 2), None);
}

#[test]
fn an_existing_node_is_reported_before_a_bad_neighbour() {
    let mut pallet = pallet_with(&[1]);
    assert_eq!(
        pallet.create_new_transit_node(Origin::Root, 1, vec![(9, 10)]),
        Err(Error::TransitPointAlreadyExists)
    );
}

#[test]
fn update_neighbour_reads_back_from_both_directions() {
    let mut pallet = pallet_with(&[1, 2, 3]);
    assert_eq!(pallet.update_neighbour(Origin::Root, 1, 2, 5), Ok(Event::NeighbourUpdated(1, 2)));
    assert_eq!(pallet.route_costs(1, 2), Some(5));
    assert_eq!(pallet.route_costs(2, 1), Some(5));
    // overwriting from the other side
    assert_eq!(pallet.update_neighbour(Origin::Root, 2, 1, 9), Ok(Event::NeighbourUpdated(2, 1)));
    assert_eq!(pallet.route_costs(1, 2), Some(9));
    assert_eq!(pallet.route_costs(2, 1), Some(9));
    // the same update again changes nothing
    assert_eq!(pallet.update_neighbour(Origin::Root, 2, 1, 9), Ok(Event::NeighbourUpdated(2, 1)));
    assert_eq!(pallet.route_costs(1, 2), Some(9));
    assert_eq!(pallet.route_costs(2, 1), Some(9));
    assert_eq!(pallet.route_costs(1, 3), None);
    assert_eq!(pallet.route_costs(2, 3), None);
}

#[test]
fn update_neighbour_needs_both_nodes() {
    let mut pallet = pallet_with(&[1, 2]);
    assert_eq!(pallet.update_neighbour(Origin::Root, 1, 3, 5), Err(Error::TransitPointNotFound));
    assert_eq!(pallet.update_neighbour(Origin::Root, 3, 1, 5), Err(Error::TransitPointNotFound));
    assert_eq!(pallet.update_neighbour(Origin::Root, 3, 4, 5), Err(Error::TransitPointNotFound));
    assert_eq!(pallet.route_costs(1, 3), None);
    assert_eq!(pallet.route_costs(3, 1), None);
}

#[test]
fn large_node_identities_keep_their_edges_apart() {
    let big = u64::MAX;
    let mut pallet = pallet_with(&[0, 1, big, big - 1]);
    assert!(pallet.update_neighbour(Origin::Root, 0, big, 1).is_ok());
    assert!(pallet.update_neighbour(Origin::Root, big - 1, 1, 2).is_ok());
    assert!(pallet.update_neighbour(Origin::Root, big, big - 1, 3).is_ok());
    assert!(pallet.update_neighbour(Origin::Root, 0, 1, 4).is_ok());
    assert_eq!(pallet.route_costs(big, 0), Some(1));
    assert_eq!(pallet.route_costs(1, big - 1), Some(2));
    assert_eq!(pallet.route_costs(big - 1, big), Some(3));
    assert_eq!(pallet.route_costs(1, 0), Some(4));
    assert_eq!(pallet.route_costs(0, big - 1), None);
    assert_eq!(pallet.route_costs(1, big), None);
}

#[test]
fn removing_a_node_removes_its_edges_and_no_others() {
    let mut pallet = pallet_with(&[1, 2, 3, 4]);
    for (a, b, cost) in [(1, 2, 12), (1, 3, 13), (1, 4, 14), (2, 3, 23), (2, 4, 24), (3, 4, 34)] {
        assert!(pallet.update_neighbour(Origin::Root, a, b, cost).is_ok());
    }
    assert_eq!(pallet.remove_transit_node(Origin::Root, 2), Ok(Event::TransitPointRemoved(2)));
    assert_eq!(pallet.transit_nodes(), &vec![1, 3, 4]);
    assert_eq!(pallet.count_for_transit_point(), 3);
    for other in [1, 2, 3, 4, 5] {
        assert_eq!(pallet.route_costs(2, other), None);
        assert_eq!(pallet.route_costs(other, 2), None);
    }
    assert_eq!(pallet.route_costs(1, 3), Some(13));
    assert_eq!(pallet.route_costs(3, 1), Some(13));
    assert_eq!(pallet.route_costs(1, 4), Some(14));
    assert_eq!(pallet.route_costs(4, 3), Some(34));
}

#[test]
fn removing_a_node_removes_its_edge_to_itself() {
    let mut pallet = pallet_with(&[1, 2]);
    assert!(pallet.update_neighbour(Origin::Root, 1, 1, 5).is_ok());
    assert_eq!(pallet.route_costs(1, 1), Some(5));
    assert!(pallet.remove_transit_node(Origin::Root, 1).is_ok());
    assert_eq!(pallet.route_costs(1, 1), None);
    assert_eq!(pallet.transit_nodes(), &vec![2]);
}

#[test]
fn a_removed_node_can_be_registered_again_without_its_old_edges() {
    let mut pallet = pallet_with(&[1, 2]);
    assert!(pallet.update_neighbour(Origin::Root, 1, 2, 5).is_ok());
    assert!(pallet.remove_transit_node(Origin::Root, 1).is_ok());
    assert_eq!(pallet.remove_transit_node(Origin::Root, 1), Err(Error::TransitPointNotFound));
    assert!(pallet.create_new_transit_node(Origin::Root, 1, vec![]).is_ok());
    assert_eq!(pallet.transit_nodes(), &vec![2, 1]);
    assert_eq!(pallet.route_costs(1, 2), None);
    assert_eq!(pallet.route_costs(2, 1), None);
}

#[test]
fn the_store_works_on_its_own() {
    let mut store = Topology::new();
    assert_eq!(store.node_count(), 0);
    assert_eq!(store.add_node(5, &vec![]), Ok(()));
    assert_eq!(store.add_node(6, &vec![(5, 2)]), Ok(()));
    assert_eq!(store.add_node(6, &vec![]), Err(Error::TransitPointAlreadyExists));
    assert_eq!(store.add_node(7, &vec![(8, 1)]), Err(Error::InvalidRoute));
    assert_eq!(store.nodes(), &vec![5, 6]);
    assert_eq!(store.position(6), Some(1));
    assert_eq!(store.position(7), None);
    assert!(store.contains(5));
    assert!(!store.contains(7));
    assert_eq!(store.cost(5, 6), Some(2));
    assert_eq!(store.update_edge(6, 5, 3), Ok(()));
    assert_eq!(store.cost(5, 6), Some(3));
    assert_eq!(store.update_edge(6, 9, 3), Err(Error::TransitPointNotFound));
    assert_eq!(store.remove_node(9), Err(Error::TransitPointNotFound));
    assert_eq!(store.remove_node(5), Ok(()));
    assert_eq!(store.node_count(), 1);
    assert_eq!(store.cost(5, 6), None);
    assert_eq!(store.cost(6, 5), None);
}
