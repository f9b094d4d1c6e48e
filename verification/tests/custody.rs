use std::cell::{Cell, RefCell};
use std::rc::Rc;
use sub_tracker::encoding::{draw_from_seed, key_from_seed};
use sub_tracker::registry::Registry;
use sub_tracker::{
    BlockNumber, Config, Error, Event, Hop, Key, Origin, Pallet, Plan, Seed, ShipmentStatus,
};

/// BLAKE2b-128 of thirty-two bytes 7, then 0u32 and 1u64, little-endian.
const KEY_BLOCK_1: Key = [19, 235, 141, 201, 180, 142, 242, 120, 164, 24, 226, 220, 9, 44, 209, 158];

/// The same with block number 2.
const KEY_BLOCK_2: Key = [31, 232, 132, 10, 123, 167, 102, 2, 97, 21, 19, 191, 101, 156, 100, 51];

/// The same with extrinsic index 3 and block number 1.
const KEY_INDEX_3: Key = [200, 71, 43, 86, 4, 165, 122, 143, 46, 254, 137, 212, 60, 194, 38, 64];

/// A runtime whose answers are written down beforehand: the draw for the
/// subject that encodes `n` is `draws[n]` (cyclically), the seed for any
/// other subject is thirty-two bytes 7.
struct Scripted {
    draws: Vec<u64>,
    index: Option<u32>,
    block: Rc<Cell<u64>>,
    subjects: Rc<RefCell<Vec<Vec<u8>>>>,
}

impl Scripted {
    fn new(draws: Vec<u64>) -> Scripted {
        Scripted {
            draws,
            index: Some(0),
            block: Rc::new(Cell::new(1)),
            subjects: Rc::new(RefCell::new(Vec::new())),
        }
    }
}

impl Config for Scripted {
    fn random(&mut self, subject: &[u8]) -> (Seed, BlockNumber) {
        self.subjects.borrow_mut().push(subject.to_vec());
        if subject.len() == 4 && !self.draws.is_empty() {
            let n = u32::from_le_bytes([subject[0], subject[1], subject[2], subject[3]]) as usize;
            let mut seed = [0xffu8; 32];
            seed[..8].copy_from_slice(&self.draws[n % self.draws.len()].to_le_bytes());
            (seed, 99)
        } else {
            ([7u8; 32], 0)
        }
    }

    fn extrinsic_index(&self) -> Option<u32> {
        self.index
    }

    fn block_number(&self) -> BlockNumber {
        self.block.get()
    }
}

fn network(nodes: &[u64], runtime: Scripted) -> Pallet<Scripted> {
    let mut pallet = Pallet::new(runtime);
    for node in nodes {
        assert!(pallet.create_new_transit_node(Origin::Root, *node, vec![]).is_ok());
    }
    pallet
}

#[test]
fn a_draw_is_the_little_endian_start_of_the_seed() {
    let mut seed = [0u8; 32];
    for i in 0..32 {
        seed[i] = (i + 1) as u8;
    }
    assert_eq!(draw_from_seed(&seed, 0), 0x0807_0605_0403_0201);
    assert_eq!(draw_from_seed(&seed, u64::MAX), 0x0807_0605_0403_0201);
    assert_eq!(draw_from_seed(&[0u8; 32], 5), 0);
    assert_eq!(draw_from_seed(&[0xffu8; 32], 5), u64::MAX);
}

#[test]
fn a_key_is_the_digest_of_seed_index_and_block() {
    assert_eq!(key_from_seed(&[7u8; 32], 0, 1), KEY_BLOCK_1);
    assert_eq!(key_from_seed(&[7u8; 32], 0, 2), KEY_BLOCK_2);
    assert_eq!(key_from_seed(&[7u8; 32], 3, 1), KEY_INDEX_3);
    let mut seed = [0u8; 32];
    for i in 0..32 {
        seed[i] = i as u8;
    }
    assert_eq!(
        key_from_seed(&seed, 5, 0x0102_0304_0506_0708),
        [233, 148, 130, 27, 170, 142, 12, 98, 47, 180, 182, 228, 189, 3, 188, 63]
    );
}

#[test]
fn gen_key_asks_the_runtime_for_the_subject_key() {
    let runtime = Scripted::new(vec![]);
    let subjects = runtime.subjects.clone();
    let block = runtime.block.clone();
    let mut pallet = Pallet::new(runtime);
    assert_eq!(pallet.gen_key(), KEY_BLOCK_1);
    block.set(2);
    assert_eq!(pallet.gen_key(), KEY_BLOCK_2);
    assert_eq!(*subjects.borrow(), vec![b"key".to_vec(), b"key".to_vec()]);
    // minting a key is no draw
    assert_eq!(pallet.get_and_increment_nonce(), vec![0, 0, 0, 0]);
}

#[test]
fn outside_an_extrinsic_the_index_counts_as_zero() {
    let mut runtime = Scripted::new(vec![]);
    runtime.index = None;
    let mut pallet = Pallet::new(runtime);
    assert_eq!(pallet.gen_key(), KEY_BLOCK_1);
    let mut runtime = Scripted::new(vec![]);
    runtime.index = Some(3);
    let mut pallet = Pallet::new(runtime);
    assert_eq!(pallet.gen_key(), KEY_INDEX_3);
}

#[test]
fn the_nonce_is_handed_out_little_endian_and_counts_up() {
    let mut pallet = Pallet::new(Scripted::new(vec![]));
    assert_eq!(pallet.get_and_increment_nonce(), vec![0, 0, 0, 0]);
    assert_eq!(pallet.get_and_increment_nonce(), vec![1, 0, 0, 0]);
    for _ in 2..258 {
        pallet.get_and_increment_nonce();
    }
    assert_eq!(pallet.get_and_increment_nonce(), vec![2, 1, 0, 0]);
}

#[test]
fn create_then_lookup() {
    let runtime = Scripted::new(vec![7, 0, 5]);
    let mut pallet = network(&[1, 2, 3, 4], runtime);
    assert_eq!(pallet.shipment_uid(), 0);
    assert!(pallet.uid_to_shipment(1).is_none());
    assert_eq!(pallet.create_shipment(Origin::Signed(1), 4), Ok(Event::ShipmentCreated(1)));
    assert_eq!(pallet.shipment_uid(), 1);
    let shipment = pallet.uid_to_shipment(1).unwrap();
    assert_eq!(shipment.status, ShipmentStatus::InTransit);
    assert_eq!(shipment.owner_index, 1);
    assert_eq!(shipment.route[0], 1);
    assert_eq!(shipment.route[shipment.route.len() - 1], 4);
    assert_eq!(shipment.route.to_vec(), vec![1, 2, 4]);
    assert_eq!(shipment.creator, 1);
    assert_eq!(shipment.destination, 4);
    assert_eq!(shipment.uid, 1);
    assert_eq!(shipment.fees, None);
    assert_eq!(pallet.shipment_uid_to_key(1), Some(KEY_BLOCK_1));
    assert!(pallet.uid_to_shipment(0).is_none());
    assert!(pallet.uid_to_shipment(2).is_none());
    assert_eq!(pallet.shipment_uid_to_key(2), None);
}

#[test]
fn creation_draws_with_the_nonce_as_subject_and_only_as_long_as_needed() {
    let runtime = Scripted::new(vec![7, 0, 5, 1, 1, 1]);
    let subjects = runtime.subjects.clone();
    let mut pallet = network(&[1, 2, 3, 4], runtime);
    assert!(pallet.create_shipment(Origin::Signed(1), 4).is_ok());
    assert_eq!(
        *subjects.borrow(),
        vec![vec![0, 0, 0, 0], vec![1, 0, 0, 0], vec![2, 0, 0, 0], b"key".to_vec()]
    );
    assert_eq!(pallet.get_and_increment_nonce(), vec![3, 0, 0, 0]);
}

#[test]
fn identifiers_count_up_from_one() {
    let mut pallet = network(&[1, 2], Scripted::new(vec![]));
    for uid in 1..=5u64 {
        assert_eq!(pallet.create_shipment(Origin::Signed(uid + 10), 2), Ok(Event::ShipmentCreated(uid + 10)));
        assert_eq!(pallet.shipment_uid(), uid);
        let shipment = pallet.uid_to_shipment(uid).unwrap();
        assert_eq!(shipment.uid, uid);
        assert_eq!(shipment.creator, uid + 10);
        assert_eq!(shipment.route.to_vec(), vec![uid + 10, 2]);
    }
    // with fewer than three nodes nothing was drawn
    assert_eq!(pallet.get_and_increment_nonce(), vec![0, 0, 0, 0]);
}

#[test]
fn creation_needs_a_signed_origin() {
    let runtime = Scripted::new(vec![7, 0, 5]);
    let subjects = runtime.subjects.clone();
    let mut pallet = network(&[1, 2, 3, 4], runtime);
    assert_eq!(pallet.create_shipment(Origin::Root, 4), Err(Error::Unauthorized));
    assert_eq!(pallet.create_shipment(Origin::Unsigned, 4), Err(Error::Unauthorized));
    assert_eq!(pallet.shipment_uid(), 0);
    assert!(pallet.uid_to_shipment(1).is_none());
    assert!(subjects.borrow().is_empty());
    assert_eq!(pallet.get_and_increment_nonce(), vec![0, 0, 0, 0]);
}

#[test]
fn an_exhausted_route_construction_fails_the_creation() {
    // every draw is 1: odd, then always node 2, the destination
    let runtime = Scripted::new(vec![1]);
    let subjects = runtime.subjects.clone();
    let mut pallet = network(&[1, 2, 3], runtime);
    assert_eq!(pallet.create_shipment(Origin::Signed(1), 2), Err(Error::RouteGenerationExhausted));
    assert_eq!(pallet.shipment_uid(), 0);
    assert!(pallet.uid_to_shipment(1).is_none());
    assert_eq!(pallet.shipment_uid_to_key(1), None);
    // one draw for the branch and sixty-four candidates, no key
    assert_eq!(subjects.borrow().len(), 65);
    // the same again: the draws differ in nothing but their subjects
    assert_eq!(pallet.create_shipment(Origin::Signed(1), 2), Err(Error::RouteGenerationExhausted));
    assert_eq!(subjects.borrow().len(), 130);
    assert_eq!(subjects.borrow()[65], vec![65, 0, 0, 0]);
    // the next creation gets the identifier that was not used
    assert_eq!(pallet.remove_transit_node(Origin::Root, 3), Ok(Event::TransitPointRemoved(3)));
    assert_eq!(pallet.create_shipment(Origin::Signed(1), 2), Ok(Event::ShipmentCreated(1)));
    assert_eq!(pallet.shipment_uid(), 1);
    assert_eq!(pallet.uid_to_shipment(1).unwrap().route.to_vec(), vec![1, 2]);
}

#[test]
fn get_random_route_lays_out_the_constructed_route() {
    let mut pallet = network(&[1, 2, 3, 4, 5, 6, 7], Scripted::new(vec![5, 0, 9, 9, 7, 13, 4]));
    let route = pallet.get_random_route(1, 7).unwrap();
    assert_eq!(route.to_vec(), vec![1, 3, 5, 7]);
    assert_eq!(pallet.get_and_increment_nonce(), vec![7, 0, 0, 0]);
    let mut pallet = network(&[1, 2, 3, 4, 5, 6, 7], Scripted::new(vec![2, 0]));
    assert_eq!(pallet.get_random_route(1, 7), Err(Error::RouteGenerationExhausted));
    let mut pallet = network(&[1, 2, 3, 4, 5, 6, 7], Scripted::new(vec![4, 0, 6, 8]));
    assert_eq!(pallet.plan_route(1, 7), Ok(Plan::Via(2)));
    let mut pallet = network(&[1, 2], Scripted::new(vec![1]));
    assert_eq!(pallet.plan_route(1, 2), Ok(Plan::Direct));
}

#[test]
fn four_nodes_scenario() {
    let runtime = Scripted::new(vec![7, 0, 5]);
    let block = runtime.block.clone();
    let mut pallet = Pallet::new(runtime);
    let (a, b, c, d) = (1u64, 2u64, 3u64, 4u64);
    assert!(pallet.create_new_transit_node(Origin::Root, a, vec![]).is_ok());
    assert!(pallet.create_new_transit_node(Origin::Root, b, vec![(a, 1)]).is_ok());
    assert!(pallet.create_new_transit_node(Origin::Root, c, vec![(a, 1), (b, 1)]).is_ok());
    assert!(pallet.create_new_transit_node(Origin::Root, d, vec![(a, 1), (b, 1), (c, 1)]).is_ok());
    assert_eq!(pallet.count_for_transit_point(), 4);
    for x in [a, b, c, d] {
        for y in [a, b, c, d] {
            assert_eq!(pallet.route_costs(x, y), if x == y { None } else { Some(1) });
        }
    }

    assert_eq!(pallet.create_shipment(Origin::Signed(a), d), Ok(Event::ShipmentCreated(a)));
    let shipment = pallet.uid_to_shipment(1).unwrap();
    let route = shipment.route.to_vec();
    assert!(route.len() == 2 || route.len() == 3);
    if route.len() == 3 {
        assert!(route[1] == b || route[1] == c);
    }
    assert_eq!(route, vec![a, b, d]);
    let first_key = pallet.shipment_uid_to_key(1).unwrap();
    assert_eq!(first_key, KEY_BLOCK_1);

    // the wrong caller
    assert_eq!(pallet.update_shipment(Origin::Signed(c), 1, first_key), Err(Error::UnauthorizedCaller));
    assert_eq!(pallet.update_shipment(Origin::Signed(d), 1, first_key), Err(Error::UnauthorizedCaller));
    assert_eq!(pallet.update_shipment(Origin::Signed(a), 1, first_key), Err(Error::UnauthorizedCaller));
    // the right caller with a token that is not the resident one
    assert_eq!(pallet.update_shipment(Origin::Signed(b), 1, KEY_BLOCK_2), Err(Error::InvalidKey));
    let untouched = pallet.uid_to_shipment(1).unwrap();
    assert_eq!(untouched, shipment);
    assert_eq!(pallet.shipment_uid_to_key(1), Some(first_key));

    block.set(2);
    assert_eq!(pallet.update_shipment(Origin::Signed(b), 1, first_key), Ok(Event::ShipmentUpdated(b)));
    let shipment = pallet.uid_to_shipment(1).unwrap();
    assert_eq!(shipment.owner_index, 2);
    assert_eq!(shipment.status, ShipmentStatus::InTransit);
    assert_eq!(shipment.route.to_vec(), vec![a, b, d]);
    let second_key = pallet.shipment_uid_to_key(1).unwrap();
    assert_eq!(second_key, KEY_BLOCK_2);

    // the right caller with the stale token
    assert_eq!(pallet.update_shipment(Origin::Signed(d), 1, first_key), Err(Error::InvalidKey));
    assert_eq!(pallet.update_shipment(Origin::Signed(b), 1, second_key), Err(Error::UnauthorizedCaller));

    block.set(3);
    assert_eq!(pallet.update_shipment(Origin::Signed(d), 1, second_key), Ok(Event::ShipmentReceived(d)));
    let shipment = pallet.uid_to_shipment(1).unwrap();
    assert_eq!(shipment.status, ShipmentStatus::Delivered);
    assert_eq!(shipment.owner_index, 0);
    assert_eq!(shipment.route.to_vec(), vec![a, b, d]);
    assert_eq!(pallet.shipment_uid_to_key(1), None);
}

#[test]
fn a_delivered_shipment_cannot_be_advanced() {
    let runtime = Scripted::new(vec![]);
    let mut pallet = network(&[1, 2], runtime);
    assert!(pallet.create_shipment(Origin::Signed(1), 2).is_ok());
    assert_eq!(pallet.update_shipment(Origin::Signed(2), 1, KEY_BLOCK_1), Ok(Event::ShipmentReceived(2)));
    let delivered = pallet.uid_to_shipment(1).unwrap();
    assert_eq!(delivered.status, ShipmentStatus::Delivered);
    assert_eq!(delivered.owner_index, 0);
    for caller in [1, 2, 3] {
        for key in [KEY_BLOCK_1, KEY_BLOCK_2, [0u8; 16]] {
            assert_eq!(pallet.update_shipment(Origin::Signed(caller), 1, key), Err(Error::UIDNotFound));
        }
    }
    assert_eq!(pallet.uid_to_shipment(1).unwrap(), delivered);
    assert_eq!(pallet.shipment_uid_to_key(1), None);
}

#[test]
fn a_token_pays_for_one_hop_only() {
    let runtime = Scripted::new(vec![5, 0, 9, 9, 7, 13, 4]);
    let block = runtime.block.clone();
    let mut pallet = network(&[1, 2, 3, 4, 5, 6, 7], runtime);
    assert!(pallet.create_shipment(Origin::Signed(1), 7).is_ok());
    assert_eq!(pallet.uid_to_shipment(1).unwrap().route.to_vec(), vec![1, 3, 5, 7]);
    block.set(2);
    assert_eq!(pallet.update_shipment(Origin::Signed(3), 1, KEY_BLOCK_1), Ok(Event::ShipmentUpdated(3)));
    // presented again, by the old holder and by the new one
    assert_eq!(pallet.update_shipment(Origin::Signed(3), 1, KEY_BLOCK_1), Err(Error::InvalidKey));
    assert_eq!(pallet.update_shipment(Origin::Signed(5), 1, KEY_BLOCK_1), Err(Error::InvalidKey));
    assert_eq!(pallet.uid_to_shipment(1).unwrap().owner_index, 2);
    assert_eq!(pallet.shipment_uid_to_key(1), Some(KEY_BLOCK_2));
}

#[test]
fn the_owner_index_moves_on_by_one_until_delivery() {
    let runtime = Scripted::new(vec![5, 0, 9, 9, 7, 13, 4]);
    let block = runtime.block.clone();
    let mut pallet = network(&[1, 2, 3, 4, 5, 6, 7], runtime);
    assert!(pallet.create_shipment(Origin::Signed(1), 7).is_ok());
    let mut seen = vec![pallet.uid_to_shipment(1).unwrap().owner_index];
    for (hop, caller) in [3u64, 5, 7].into_iter().enumerate() {
        let key = pallet.shipment_uid_to_key(1).unwrap();
        block.set(10 + hop as u64);
        let shipment = pallet.uid_to_shipment(1).unwrap();
        assert!((shipment.owner_index as usize) < shipment.route.len());
        assert_eq!(shipment.route[shipment.owner_index as usize], caller);
        let event = pallet.update_shipment(Origin::Signed(caller), 1, key).unwrap();
        if caller == 7 {
            assert_eq!(event, Event::ShipmentReceived(7));
        } else {
            assert_eq!(event, Event::ShipmentUpdated(caller));
            assert_ne!(pallet.shipment_uid_to_key(1), Some(key));
        }
        seen.push(pallet.uid_to_shipment(1).unwrap().owner_index);
    }
    assert_eq!(seen, vec![1, 2, 3, 0]);
    assert_eq!(pallet.uid_to_shipment(1).unwrap().status, ShipmentStatus::Delivered);
}

#[test]
fn hops_are_refused_in_a_fixed_order() {
    let runtime = Scripted::new(vec![]);
    let mut pallet = network(&[1, 2], runtime);
    assert!(pallet.create_shipment(Origin::Signed(1), 2).is_ok());
    let wrong: Key = [1; 16];
    // no signer: before anything else
    assert_eq!(pallet.update_shipment(Origin::Root, 9, wrong), Err(Error::Unauthorized));
    assert_eq!(pallet.update_shipment(Origin::Unsigned, 1, KEY_BLOCK_1), Err(Error::Unauthorized));
    // unknown shipment: before the token and the caller
    assert_eq!(pallet.update_shipment(Origin::Signed(5), 9, wrong), Err(Error::ShipmentNotFound));
    assert_eq!(pallet.update_shipment(Origin::Signed(2), 0, KEY_BLOCK_1), Err(Error::ShipmentNotFound));
    // wrong token: before the caller
    assert_eq!(pallet.update_shipment(Origin::Signed(5), 1, wrong), Err(Error::InvalidKey));
    // wrong caller
    assert_eq!(pallet.update_shipment(Origin::Signed(5), 1, KEY_BLOCK_1), Err(Error::UnauthorizedCaller));
    let shipment = pallet.uid_to_shipment(1).unwrap();
    assert_eq!(shipment.owner_index, 1);
    assert_eq!(shipment.status, ShipmentStatus::InTransit);
    assert_eq!(pallet.shipment_uid_to_key(1), Some(KEY_BLOCK_1));
}

#[test]
fn a_shipment_to_its_own_creator_is_delivered_by_the_creator() {
    let mut pallet = network(&[1, 2], Scripted::new(vec![]));
    assert!(pallet.create_shipment(Origin::Signed(1), 1).is_ok());
    assert_eq!(pallet.uid_to_shipment(1).unwrap().route.to_vec(), vec![1, 1]);
    assert_eq!(pallet.update_shipment(Origin::Signed(1), 1, KEY_BLOCK_1), Ok(Event::ShipmentReceived(1)));
    assert_eq!(pallet.uid_to_shipment(1).unwrap().status, ShipmentStatus::Delivered);
}

#[test]
fn shipments_do_not_disturb_each_other() {
    let runtime = Scripted::new(vec![]);
    let block = runtime.block.clone();
    let mut pallet = network(&[1, 2], runtime);
    assert!(pallet.create_shipment(Origin::Signed(1), 2).is_ok());
    block.set(2);
    assert!(pallet.create_shipment(Origin::Signed(2), 1).is_ok());
    assert_eq!(pallet.shipment_uid_to_key(1), Some(KEY_BLOCK_1));
    assert_eq!(pallet.shipment_uid_to_key(2), Some(KEY_BLOCK_2));
    // the token of one shipment does not open the other
    assert_eq!(pallet.update_shipment(Origin::Signed(1), 2, KEY_BLOCK_1), Err(Error::InvalidKey));
    assert_eq!(pallet.update_shipment(Origin::Signed(1), 2, KEY_BLOCK_2), Ok(Event::ShipmentReceived(1)));
    let first = pallet.uid_to_shipment(1).unwrap();
    assert_eq!(first.status, ShipmentStatus::InTransit);
    assert_eq!(first.owner_index, 1);
    assert_eq!(pallet.shipment_uid_to_key(1), Some(KEY_BLOCK_1));
}

#[test]
fn removing_a_node_leaves_shipments_through_it_untouched() {
    let runtime = Scripted::new(vec![7, 0, 5]);
    let block = runtime.block.clone();
    let mut pallet = network(&[1, 2, 3, 4], runtime);
    assert!(pallet.update_neighbour(Origin::Root, 1, 2, 3).is_ok());
    assert!(pallet.create_shipment(Origin::Signed(1), 4).is_ok());
    let before = pallet.uid_to_shipment(1).unwrap();
    assert_eq!(before.route.to_vec(), vec![1, 2, 4]);

    // the intermediate, the destination and the creator leave the network
    assert_eq!(pallet.remove_transit_node(Origin::Root, 2), Ok(Event::TransitPointRemoved(2)));
    assert_eq!(pallet.uid_to_shipment(1).unwrap(), before);
    assert_eq!(pallet.remove_transit_node(Origin::Root, 4), Ok(Event::TransitPointRemoved(4)));
    assert_eq!(pallet.remove_transit_node(Origin::Root, 1), Ok(Event::TransitPointRemoved(1)));
    assert!(pallet.update_neighbour(Origin::Root, 3, 3, 8).is_ok());
    assert_eq!(pallet.transit_nodes(), &vec![3]);
    assert_eq!(pallet.uid_to_shipment(1).unwrap(), before);
    assert_eq!(pallet.shipment_uid_to_key(1), Some(KEY_BLOCK_1));
    assert_eq!(pallet.shipment_uid(), 1);

    // custody still moves along the route as it was fixed
    block.set(2);
    assert_eq!(pallet.update_shipment(Origin::Signed(2), 1, KEY_BLOCK_1), Ok(Event::ShipmentUpdated(2)));
    assert_eq!(pallet.update_shipment(Origin::Signed(4), 1, KEY_BLOCK_2), Ok(Event::ShipmentReceived(4)));
    assert_eq!(pallet.uid_to_shipment(1).unwrap().route.to_vec(), vec![1, 2, 4]);
}

#[test]
fn the_registry_works_on_its_own() {
    let mut registry = Registry::new();
    assert_eq!(registry.last_uid(), 0);
    assert_eq!(registry.next_uid(), Ok(1));
    let first: Key = [1; 16];
    let second: Key = [2; 16];
    assert_eq!(registry.register(10, 30, Plan::Via(20), first), Ok(1));
    assert_eq!(registry.last_uid(), 1);
    assert_eq!(registry.next_uid(), Ok(2));
    assert_eq!(registry.key(1), Some(first));
    assert_eq!(registry.key(2), None);
    let shipment = registry.shipment(1).unwrap();
    assert_eq!(shipment.route.to_vec(), vec![10, 20, 30]);
    assert_eq!(shipment.owner_index, 1);

    assert_eq!(registry.hop(2, 20, &first), Err(Error::ShipmentNotFound));
    assert_eq!(registry.hop(1, 20, &second), Err(Error::InvalidKey));
    assert_eq!(registry.hop(1, 30, &first), Err(Error::UnauthorizedCaller));
    assert_eq!(registry.hop(1, 20, &first), Ok(Hop::Forward));
    // asking does not change anything
    assert_eq!(registry.key(1), Some(first));

    assert_eq!(registry.advance(1, 20, &first, second), Ok(Hop::Forward));
    assert_eq!(registry.key(1), Some(second));
    assert_eq!(registry.shipment(1).unwrap().owner_index, 2);
    assert_eq!(registry.hop(1, 30, &second), Ok(Hop::Deliver));
    assert_eq!(registry.advance(1, 30, &second, first), Ok(Hop::Deliver));
    // the token offered for a further hop is not kept after a delivery
    assert_eq!(registry.key(1), None);
    assert_eq!(registry.hop(1, 30, &first), Err(Error::UIDNotFound));
    assert_eq!(registry.shipment(1).unwrap().status, ShipmentStatus::Delivered);
    assert_eq!(registry.shipment(1).unwrap().owner_index, 0);
}

#[test]
fn a_fresh_token_equal_to_the_old_one_opens_the_next_hop() {
    // the runtime hands out the same seed in the same block for both hops
    let mut pallet = network(&[1, 2, 3, 4, 5, 6, 7], Scripted::new(vec![5, 0, 9, 9, 7, 13, 4]));
    assert!(pallet.create_shipment(Origin::Signed(1), 7).is_ok());
    assert_eq!(pallet.update_shipment(Origin::Signed(3), 1, KEY_BLOCK_1), Ok(Event::ShipmentUpdated(3)));
    assert_eq!(pallet.shipment_uid_to_key(1), Some(KEY_BLOCK_1));
    assert_eq!(pallet.update_shipment(Origin::Signed(5), 1, KEY_BLOCK_1), Ok(Event::ShipmentUpdated(5)));
}
