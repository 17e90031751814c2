use firedeck::cards::{
    load_card_infos, CardStatus, ContentID, Deck, Grid, Hand, Offset, Rotation, TileTarget,
};
use firedeck::stats::{GameDirection, GamePosition};

fn pos(x: i32, y: i32, d: GameDirection) -> GamePosition {
    GamePosition { x, y, d }
}

#[test]
fn rotation_reverse_twice_returns() {
    for d in [
        GameDirection::Up,
        GameDirection::Down,
        GameDirection::Left,
        GameDirection::Right,
    ] {
        let p = pos(4, 7, d);
        assert_eq!(p.rotated(&Rotation::Reverse).rotated(&Rotation::Reverse), p);
    }
}

#[test]
fn rotation_right_four_times_returns() {
    let p = pos(0, 0, GameDirection::Left);
    let r = p
        .rotated(&Rotation::Right)
        .rotated(&Rotation::Right)
        .rotated(&Rotation::Right)
        .rotated(&Rotation::Right);
    assert_eq!(r, p);
}

#[test]
fn rotation_table_matches_spec() {
    let p = pos(0, 0, GameDirection::Up);
    assert_eq!(p.rotated(&Rotation::Right).d, GameDirection::Right);
    assert_eq!(p.rotated(&Rotation::Left).d, GameDirection::Left);
    assert_eq!(p.rotated(&Rotation::Reverse).d, GameDirection::Down);
    assert_eq!(p.rotated(&Rotation::Identity).d, GameDirection::Up);
}

#[test]
fn offset_round_trip() {
    for d in [
        GameDirection::Up,
        GameDirection::Down,
        GameDirection::Left,
        GameDirection::Right,
    ] {
        for dist in [-3i32, -1, 0, 1, 5] {
            let p = pos(10, 20, d);
            assert_eq!(p.offset((dist, 0)).offset((-dist, 0)), p);
        }
    }
}

#[test]
fn offset_facing_table() {
    // Up maps forward to +y and tangent to +x; Down is the negation;
    // Left/Right swap the axes.
    assert_eq!(pos(1, 1, GameDirection::Up).offset((2, 3)), pos(4, 3, GameDirection::Up));
    assert_eq!(pos(1, 1, GameDirection::Down).offset((2, 3)), pos(-2, -1, GameDirection::Down));
    assert_eq!(pos(1, 1, GameDirection::Left).offset((2, 3)), pos(-1, 4, GameDirection::Left));
    assert_eq!(pos(1, 1, GameDirection::Right).offset((2, 3)), pos(3, -2, GameDirection::Right));
}

#[test]
fn deck_draw_pops_top() {
    let mut deck = Deck::new();
    deck.add(1);
    deck.add(2);
    deck.add(3);
    assert_eq!(deck.draw(), Some(3));
    assert_eq!(deck.cards, vec![1, 2]);
}

#[test]
fn deck_draw_refills_from_recycled() {
    let mut deck = Deck::new();
    deck.recycled = vec![7, 8];
    deck.discarded = vec![9];
    let drawn = deck.draw();
    let c = drawn.expect("refill draw must succeed");
    assert!(c == 7 || c == 8);
    assert_ne!(c, 9);
    assert!(deck.recycled.is_empty());
    assert_eq!(deck.discarded, vec![9]);
    assert_eq!(deck.cards.len(), 1);
}

#[test]
fn deck_draw_empty_is_none() {
    let mut deck = Deck::new();
    assert_eq!(deck.draw(), None);
}

#[test]
fn deck_recycle_and_discard() {
    let mut deck = Deck::new();
    deck.add(1);
    deck.add(2);
    deck.recycle(1);
    assert_eq!(deck.cards, vec![2]);
    assert_eq!(deck.recycled, vec![1]);
    deck.discard(1);
    assert_eq!(deck.recycled, Vec::<usize>::new());
    assert_eq!(deck.discarded, vec![1]);
    deck.discard(2);
    assert_eq!(deck.cards, Vec::<usize>::new());
    assert_eq!(deck.discarded, vec![1, 2]);
}

#[test]
fn recycle_and_discard_remove_every_occurrence() {
    let mut deck = Deck::new();
    deck.cards = vec![7, 3, 7, 7, 5];
    deck.recycle(7);
    assert_eq!(deck.cards, vec![3, 5]);
    assert_eq!(deck.recycled, vec![7]);

    let mut deck2 = Deck::new();
    deck2.cards = vec![9, 2, 9];
    deck2.recycled = vec![9, 4];
    deck2.discard(9);
    assert_eq!(deck2.cards, vec![2]);
    assert_eq!(deck2.recycled, vec![4]);
    assert_eq!(deck2.discarded, vec![9]);
}

#[test]
fn deck_shuffle_keeps_the_same_cards() {
    let mut deck = Deck::new();
    for c in 0..10usize {
        deck.add(c);
    }
    deck.shuffle();
    let mut sorted = deck.cards.clone();
    sorted.sort();
    assert_eq!(sorted, (0..10usize).collect::<Vec<usize>>());
}

#[test]
fn hand_add_fills_first_empty_slot() {
    let mut hand = Hand::new();
    hand.add(4);
    hand.add(5);
    assert_eq!(hand.0, vec![Some(4), Some(5), None, None, None]);
    hand.remove(4);
    hand.add(6);
    assert_eq!(hand.0, vec![Some(6), Some(5), None, None, None]);
}

#[test]
fn hand_full_add_is_noop() {
    let mut hand = Hand::new();
    for c in 0..5usize {
        hand.add(c);
    }
    hand.add(99);
    assert_eq!(hand.0, vec![Some(0), Some(1), Some(2), Some(3), Some(4)]);
    assert_eq!(hand.empty_slots(), 0);
}

#[test]
fn hand_remove_missing_is_noop() {
    let mut hand = Hand::new();
    hand.add(1);
    hand.remove(2);
    assert_eq!(hand.0, vec![Some(1), None, None, None, None]);
    assert_eq!(hand.empty_slots(), 4);
    assert!(hand.contains(1));
    assert!(!hand.contains(2));
}

#[test]
fn grid_get_and_bounds() {
    let grid = Grid(vec![vec![0, 1], vec![2, 3], vec![4, 5]]);
    assert_eq!(grid.get(&pos(1, 2, GameDirection::Up)), Some(5));
    assert_eq!(grid.get(&pos(0, 0, GameDirection::Up)), Some(0));
    assert_eq!(grid.get(&pos(2, 0, GameDirection::Up)), None);
    assert_eq!(grid.get(&pos(0, 3, GameDirection::Up)), None);
    assert_eq!(grid.get(&pos(-1, 0, GameDirection::Up)), None);
}

#[test]
fn grid_neighbors_corner_and_center() {
    let grid = Grid(vec![vec![0, 1, 2], vec![3, 4, 5], vec![6, 7, 8]]);
    let corner = grid.neighbors(&pos(0, 0, GameDirection::Up));
    assert_eq!(corner, vec![3, 1]);
    let center = grid.neighbors(&pos(1, 1, GameDirection::Up));
    assert_eq!(center, vec![3, 1, 7, 5]);
}

#[test]
fn tile_target_positions_single_distance() {
    let target = TileTarget::FacingDist(2);
    let ps = target.get_positions(&pos(1, 1, GameDirection::Up));
    assert_eq!(ps, vec![pos(1, 3, GameDirection::Up)]);
}

#[test]
fn tile_target_positions_offset_list() {
    let target = TileTarget::FacingOffsets(vec![
        Offset { facing: 1, tangent: 0 },
        Offset { facing: 0, tangent: -1 },
    ]);
    let ps = target.get_positions(&pos(2, 2, GameDirection::Right));
    assert_eq!(ps, vec![pos(3, 2, GameDirection::Right), pos(2, 3, GameDirection::Right)]);
}

#[test]
fn catalog_has_twenty_entries() {
    let map = load_card_infos();
    assert_eq!(map.0.len(), 20);
}

#[test]
fn catalog_forward_card() {
    let map = load_card_infos();
    let info = map.get(&ContentID(1)).expect("card 1 exists");
    assert_eq!(info.name, "Forward");
    assert_eq!(info.resource_cost.energy, 1);
    assert_eq!(info.resource_cost.water, 0);
    assert!(matches!(info.position_change.position, TileTarget::FacingDist(1)));
    assert!(matches!(info.position_change.rotation, Rotation::Identity));
    assert_eq!(info.water_damage.amount, 0);
}

#[test]
fn catalog_squirt_card() {
    let map = load_card_infos();
    let info = map.get(&ContentID(5)).expect("card 5 exists");
    assert_eq!(info.name, "Squirt");
    assert_eq!(info.resource_cost.energy, 0);
    assert_eq!(info.resource_cost.water, 1);
    assert!(matches!(info.water_damage.damage_target, TileTarget::FacingDist(1)));
    assert_eq!(info.water_damage.amount, 1);
}

#[test]
fn catalog_lookup_out_of_range() {
    let map = load_card_infos();
    assert!(map.get(&ContentID(0)).is_none());
    assert!(map.get(&ContentID(21)).is_none());
}

#[test]
fn card_status_playable_check() {
    assert!(CardStatus::Playable.is_playable());
    assert!(!CardStatus::Unplayable.is_playable());
    assert!(!CardStatus::Unknown.is_playable());
}
