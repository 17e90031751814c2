use firedeck::actions::CardActionType;
use firedeck::cards::{CardStatus, ContentID};
use firedeck::game::{GameState, StateTransition, TurnState};
use firedeck::items::Item;
use firedeck::puzzles::get_puzzle;
use firedeck::sim::{DeckList, GameMode, Simulation, TransitionMarker};
use firedeck::stats::{Energy, GameDirection, GamePosition, Water};
use firedeck::tiles::{
    count_tiles, grow_flames, propagate_flames, put_flames_out, Intensity, MapParameters, Spawner,
    Tile,
};

fn pos(x: i32, y: i32, d: GameDirection) -> GamePosition {
    GamePosition { x, y, d }
}

/// A simulation with the catalog loaded and a static board of the given
/// playable size, with flames at the listed positions.
fn level(columns: i32, rows: i32, flames: Vec<(i32, i32)>) -> Simulation {
    let mut sim = Simulation::new();
    sim.load_card_infos();
    sim.map = MapParameters {
        columns,
        rows,
        flame_spawner: Spawner::Static(flames),
        item_spawner: Spawner::Static(Vec::new()),
    };
    sim.spawn_tiles();
    sim
}

fn tile_at(sim: &Simulation, x: i32, y: i32) -> Tile {
    let id = sim.grid.get(&pos(x, y, GameDirection::Up)).expect("tile exists");
    sim.tiles[id]
}

/// Bring the cards of `ids` into the hand: spawn them into the deck and
/// resolve one draw per card.
fn deal(sim: &mut Simulation, ids: Vec<usize>) {
    sim.deck_list = DeckList(ids.iter().map(|i| ContentID(*i)).collect());
    sim.spawn_cards();
    sim.fill_hand_with_cards();
    sim.apply_card_actions();
}

#[test]
fn spawn_tiles_builds_wall_ring() {
    let sim = level(2, 2, vec![]);
    assert_eq!(sim.grid.0.len(), 4);
    assert_eq!(sim.grid.0[0].len(), 4);
    for x in 0..4 {
        assert_eq!(tile_at(&sim, x, 0), Tile::Wall);
        assert_eq!(tile_at(&sim, x, 3), Tile::Wall);
        assert_eq!(tile_at(&sim, 0, x), Tile::Wall);
        assert_eq!(tile_at(&sim, 3, x), Tile::Wall);
    }
    assert_eq!(tile_at(&sim, 1, 1), Tile::Empty);
}

#[test]
fn spawn_tiles_places_static_flames() {
    let sim = level(2, 2, vec![(2, 2)]);
    assert_eq!(tile_at(&sim, 2, 2), Tile::Fire(Intensity::Low));
    assert_eq!(tile_at(&sim, 1, 1), Tile::Empty);
    assert_eq!(tile_at(&sim, 1, 2), Tile::Empty);
}

#[test]
fn grow_flames_escalates_one_step() {
    let mut tiles = vec![
        Tile::Empty,
        Tile::Wall,
        Tile::Fire(Intensity::Low),
        Tile::Fire(Intensity::Medium),
        Tile::Fire(Intensity::High),
    ];
    grow_flames(&mut tiles);
    assert_eq!(
        tiles,
        vec![
            Tile::Empty,
            Tile::Wall,
            Tile::Fire(Intensity::Medium),
            Tile::Fire(Intensity::High),
            Tile::Fire(Intensity::High),
        ]
    );
}

#[test]
fn propagate_ignites_empty_neighbors_of_high_fire() {
    let mut sim = level(3, 3, vec![(2, 2)]);
    let center = sim.grid.get(&pos(2, 2, GameDirection::Up)).unwrap();
    sim.tiles[center] = Tile::Fire(Intensity::High);
    propagate_flames(&mut sim.tiles, &sim.grid);
    assert_eq!(tile_at(&sim, 2, 2), Tile::Fire(Intensity::High));
    assert_eq!(tile_at(&sim, 1, 2), Tile::Fire(Intensity::Low));
    assert_eq!(tile_at(&sim, 3, 2), Tile::Fire(Intensity::Low));
    assert_eq!(tile_at(&sim, 2, 1), Tile::Fire(Intensity::Low));
    assert_eq!(tile_at(&sim, 2, 3), Tile::Fire(Intensity::Low));
    // diagonal stays empty
    assert_eq!(tile_at(&sim, 1, 1), Tile::Empty);
}

#[test]
fn propagate_leaves_low_fire_neighbors_alone() {
    let mut sim = level(3, 3, vec![(2, 2)]);
    propagate_flames(&mut sim.tiles, &sim.grid);
    assert_eq!(tile_at(&sim, 2, 2), Tile::Fire(Intensity::Low));
    assert_eq!(tile_at(&sim, 1, 2), Tile::Empty);
}

#[test]
fn put_flames_out_clears_player_tile() {
    let mut sim = level(2, 2, vec![(1, 1)]);
    put_flames_out(&mut sim.tiles, &sim.grid, &pos(1, 1, GameDirection::Up));
    assert_eq!(tile_at(&sim, 1, 1), Tile::Empty);
    // out of bounds is a no-op
    let before = sim.tiles.clone();
    put_flames_out(&mut sim.tiles, &sim.grid, &pos(40, 40, GameDirection::Up));
    assert_eq!(sim.tiles, before);
}

#[test]
fn count_tiles_formula() {
    let tiles = vec![
        Tile::Empty,
        Tile::Fire(Intensity::Low),
        Tile::Wall,
        Tile::Fire(Intensity::High),
        Tile::Empty,
    ];
    let (fire, empty) = count_tiles(&tiles);
    assert_eq!(fire, 2);
    assert_eq!(empty, 2);
}

#[test]
fn state_machine_tables() {
    assert_eq!(GameState::Idle.next(), GameState::Loading);
    assert_eq!(GameState::Loading.next(), GameState::Loaded);
    assert_eq!(GameState::Loaded.next(), GameState::Playing);
    assert_eq!(GameState::Playing.next(), GameState::Loaded);
    assert_eq!(TurnState::Idle.next(), TurnState::Starting);
    assert_eq!(TurnState::Starting.next(), TurnState::Started);
    assert_eq!(TurnState::Started.next(), TurnState::WaitingForInput);
    assert_eq!(TurnState::WaitingForInput.next(), TurnState::Ended);
    assert_eq!(TurnState::Animating.next(), TurnState::Started);
    assert_eq!(TurnState::Ended.next(), TurnState::Starting);
}

#[test]
fn scheduled_transitions_are_buffered() {
    let mut sim = Simulation::new();
    sim.schedule_transition(TransitionMarker::Game(firedeck::game::NextGameState));
    sim.transition(TransitionMarker::Game(firedeck::game::NextGameState));
    assert_eq!(sim.game_state, GameState::Idle);
    assert_eq!(sim.next_game_state, Some(GameState::Loading));
    sim.apply_state_transitions();
    assert_eq!(sim.game_state, GameState::Loading);
    assert_eq!(sim.next_game_state, None);
}

#[test]
fn deck_invariant_across_card_flow() {
    let mut sim = level(3, 3, vec![]);
    deal(&mut sim, vec![1, 1, 2, 3, 4, 1, 2]);
    // 7 cards spawned: 5 drawn into the hand, 2 left in the deck
    assert_eq!(sim.player.hand.empty_slots(), 0);
    assert_eq!(sim.player.deck.cards.len(), 2);
    // every instance is in exactly one zone
    for id in 0..sim.card_instances.len() {
        let mut count = 0;
        count += sim.player.deck.cards.iter().filter(|c| **c == id).count();
        count += sim.player.deck.recycled.iter().filter(|c| **c == id).count();
        count += sim.player.deck.discarded.iter().filter(|c| **c == id).count();
        count += sim.player.hand.0.iter().filter(|s| **s == Some(id)).count();
        assert_eq!(count, 1);
    }
}

#[test]
fn sync_tags_follow_zones() {
    let mut sim = level(3, 3, vec![]);
    deal(&mut sim, vec![1, 2, 3, 4, 1, 2, 3]);
    firedeck::cards::sync_hand(&mut sim.card_instances, &sim.player.hand);
    firedeck::cards::sync_deck(&mut sim.card_instances, &sim.player.deck);
    for id in 0..sim.card_instances.len() {
        assert_eq!(sim.card_instances[id].in_hand, sim.player.hand.contains(id));
        assert_eq!(sim.card_instances[id].in_deck, sim.player.deck.cards.contains(&id));
    }
    // a card that leaves the draw pile loses its tag on the next sync
    let drawn = sim.player.deck.draw().expect("a card is left");
    firedeck::cards::sync_deck(&mut sim.card_instances, &sim.player.deck);
    assert!(!sim.card_instances[drawn].in_deck);
}

#[test]
fn playability_gate_rules() {
    let mut sim = level(3, 3, vec![]);
    // Forward costs 1 energy; facing up from (1,1) the destination (1,2) is free
    deal(&mut sim, vec![1]);
    let card = sim.player.hand.0[0].expect("card in hand");

    sim.player.energy = Energy { current: 0, maximum: 10 };
    sim.update_playability();
    assert_eq!(sim.card_instances[card].status, CardStatus::Unplayable);

    sim.player.energy = Energy { current: 5, maximum: 10 };
    sim.update_playability();
    assert_eq!(sim.card_instances[card].status, CardStatus::Playable);

    // facing the wall makes the destination blocking
    sim.player.game_position = pos(1, 1, GameDirection::Down);
    sim.update_playability();
    assert_eq!(sim.card_instances[card].status, CardStatus::Unplayable);
}

#[test]
fn scenario_basic_play() {
    let mut sim = level(3, 3, vec![]);
    deal(&mut sim, vec![1, 2, 3, 4, 1]);
    assert_eq!(sim.player.hand.empty_slots(), 0);
    sim.player.game_position = pos(1, 1, GameDirection::Up);
    sim.player.energy = Energy { current: 5, maximum: 10 };
    sim.update_playability();
    // find the "Forward" card in hand
    let card = (0..5)
        .filter_map(|s| sim.player.hand.0[s])
        .find(|c| sim.card_instances[*c].content == ContentID(1))
        .expect("a forward card in hand");
    assert_eq!(sim.card_instances[card].status, CardStatus::Playable);

    sim.play_clicked_card(card);
    assert_eq!(sim.actions.len(), 1);
    sim.apply_card_actions();
    assert_eq!(sim.played.len(), 1);
    sim.apply_card();
    sim.apply_change();

    assert_eq!(sim.player.game_position, pos(1, 2, GameDirection::Up));
    assert_eq!(sim.player.energy.current, 4);
    assert_eq!(sim.player.hand.empty_slots(), 1);
    assert!(!sim.player.hand.contains(card));
    // the played card went back to the pool, not to the discarded pile
    assert!(sim.player.deck.recycled.contains(&card));
    assert!(!sim.player.deck.discarded.contains(&card));
    // the turn moved into the animating phase
    assert_eq!(sim.next_turn_state, Some(TurnState::Animating));

    // a hand refill queues exactly one draw for the one empty slot
    sim.fill_hand_with_cards();
    assert_eq!(sim.actions.len(), 1);
    assert!(matches!(sim.actions[0], CardActionType::Draw(_)));
}

#[test]
fn scenario_extinguish() {
    let mut sim = level(3, 3, vec![(2, 2)]);
    deal(&mut sim, vec![5]);
    let card = sim.player.hand.0[0].expect("card in hand");
    sim.player.game_position = pos(2, 1, GameDirection::Up);
    sim.player.water = Water { current: 3, maximum: 10 };
    sim.update_playability();
    assert_eq!(sim.card_instances[card].status, CardStatus::Playable);

    sim.play_clicked_card(card);
    sim.apply_card_actions();
    sim.apply_card();
    sim.apply_change();

    assert_eq!(tile_at(&sim, 2, 2), Tile::Empty);
    assert_eq!(sim.player.water.current, 2);
    assert_eq!(sim.player.game_position, pos(2, 1, GameDirection::Up));
}

#[test]
fn scenario_level_loss() {
    // every non-wall tile burns: the empty-tile count is zero
    let mut sim = level(2, 2, vec![(1, 1), (1, 2), (2, 1), (2, 2)]);
    let (_, empty) = count_tiles(&sim.tiles);
    assert_eq!(empty, 0);
    sim.check_for_level_end();
    assert_eq!(sim.next_game_state, Some(GameState::Idle));
    assert_eq!(sim.next_turn_state, Some(TurnState::Idle));
    assert_eq!(sim.level_index.0, 0);
}

#[test]
fn scenario_level_win() {
    let mut sim = level(2, 2, vec![]);
    sim.check_for_level_end();
    assert_eq!(sim.next_game_state, Some(GameState::Loaded));
    assert_eq!(sim.next_turn_state, Some(TurnState::Idle));
    assert_eq!(sim.level_index.0, 1);
}

#[test]
fn ended_phase_grows_and_propagates() {
    let mut sim = level(3, 3, vec![(2, 2)]);
    let center = sim.grid.get(&pos(2, 2, GameDirection::Up)).unwrap();
    sim.tiles[center] = Tile::Fire(Intensity::High);
    sim.run_ended_phase();
    // the ignited neighbors grow to medium within the same tick
    assert_eq!(tile_at(&sim, 1, 2), Tile::Fire(Intensity::Medium));
    assert_eq!(tile_at(&sim, 2, 2), Tile::Fire(Intensity::High));
    assert_eq!(sim.next_turn_state, Some(TurnState::Starting));
}

#[test]
fn fire_never_decreases_across_ended_phase() {
    let mut sim = level(3, 3, vec![(1, 1), (3, 3)]);
    let before = sim.tiles.clone();
    sim.run_ended_phase();
    for (i, t) in before.iter().enumerate() {
        if let Tile::Fire(level_before) = t {
            match sim.tiles[i] {
                Tile::Fire(level_after) => {
                    let rank = |l: &Intensity| match l {
                        Intensity::Low => 1,
                        Intensity::Medium => 2,
                        Intensity::High => 3,
                    };
                    assert!(rank(&level_after) >= rank(level_before));
                }
                _ => panic!("fire vanished from growth alone"),
            }
        }
    }
}

#[test]
fn check_for_turn_over_ends_turn_without_playable_cards() {
    let mut sim = level(3, 3, vec![]);
    deal(&mut sim, vec![1]);
    sim.player.energy = Energy { current: 0, maximum: 10 };
    sim.update_playability();
    sim.check_for_turn_over();
    assert_eq!(sim.next_turn_state, Some(TurnState::Ended));

    sim.player.energy = Energy { current: 5, maximum: 10 };
    sim.update_playability();
    sim.turn_state = TurnState::Started;
    sim.check_for_turn_over();
    assert_eq!(sim.next_turn_state, Some(TurnState::WaitingForInput));
}

#[test]
fn start_turn_waits_for_pending_actions() {
    let mut sim = level(3, 3, vec![]);
    deal(&mut sim, vec![1]);
    sim.fill_hand_with_cards();
    let buffered = sim.next_turn_state;
    sim.start_turn();
    assert_eq!(sim.next_turn_state, buffered);
    sim.apply_card_actions();
    sim.start_turn();
    assert_eq!(sim.next_turn_state, Some(TurnState::Started));
}

#[test]
fn restore_resources_gives_half_of_maximum() {
    let mut sim = Simulation::new();
    sim.player.energy = Energy { current: 0, maximum: 10 };
    sim.player.water = Water { current: 1, maximum: 7 };
    sim.restore_resources();
    assert_eq!(sim.player.energy.current, 5);
    assert_eq!(sim.player.water.current, 3);
}

#[test]
fn end_turn_click_ends_turn() {
    let mut sim = Simulation::new();
    sim.end_turn_clicked(false);
    assert_eq!(sim.next_turn_state, None);
    sim.end_turn_clicked(true);
    assert_eq!(sim.next_turn_state, Some(TurnState::Ended));
}

#[test]
fn apply_item_water_and_card() {
    let mut sim = level(3, 3, vec![]);
    sim.player.game_position = pos(1, 1, GameDirection::Up);
    sim.player.water = Water { current: 4, maximum: 10 };
    sim.items = vec![
        (Item::Water, pos(1, 1, GameDirection::Up)),
        (Item::Card(ContentID(2)), pos(1, 1, GameDirection::Up)),
        (Item::Energy, pos(2, 2, GameDirection::Up)),
    ];
    let arena_before = sim.card_instances.len();
    sim.apply_item();
    // the remote item stays; the two local ones are consumed
    assert_eq!(sim.items.len(), 1);
    assert!(matches!(sim.items[0].0, Item::Energy));
    assert_eq!(sim.water_changes.len(), 1);
    assert_eq!(sim.water_changes[0].updated_value.current, 5);
    // the card item spawned an instance straight into the draw pile
    assert_eq!(sim.card_instances.len(), arena_before + 1);
    assert_eq!(sim.card_instances[arena_before].content, ContentID(2));
    assert!(sim.player.deck.cards.contains(&arena_before));
    assert_eq!(*sim.deck_list.0.last().unwrap(), ContentID(2));
    sim.apply_change();
    assert_eq!(sim.player.water.current, 5);
}

#[test]
fn apply_item_clamps_to_maximum() {
    let mut sim = level(2, 2, vec![]);
    sim.player.game_position = pos(1, 1, GameDirection::Up);
    sim.player.water = Water { current: 10, maximum: 10 };
    sim.items = vec![(Item::Water, pos(1, 1, GameDirection::Up))];
    sim.apply_item();
    sim.apply_change();
    assert_eq!(sim.player.water.current, 10);
}

#[test]
fn random_item_card_range() {
    for _ in 0..32 {
        if let Item::Card(cid) = Item::random(1) {
            assert_eq!(cid.0, 1);
        }
    }
}

#[test]
fn prepare_for_new_level_puzzle_tables() {
    let mut sim = Simulation::new();
    sim.load_card_infos();
    sim.mode = GameMode::Puzzle;
    sim.level_index = firedeck::sim::LevelIndex(0);
    sim.prepare_for_new_level();
    assert_eq!(sim.map.columns, 1);
    assert_eq!(sim.map.rows, 3);
    assert_eq!(sim.player.game_position, pos(1, 1, GameDirection::Up));
    assert_eq!(sim.deck_list.0, vec![ContentID(1), ContentID(5)]);
    match &sim.map.flame_spawner {
        Spawner::Static(ps) => assert_eq!(*ps, vec![(1, 3)]),
        _ => panic!("puzzle levels use static flames"),
    }
}

#[test]
fn default_deck_list() {
    let list = DeckList::default();
    assert_eq!(list.0.len(), 16);
    assert_eq!(list.0.iter().filter(|c| c.0 == 1).count(), 4);
    assert_eq!(list.0.iter().filter(|c| c.0 == 4).count(), 4);
}

#[test]
fn get_puzzle_values() {
    let p0 = get_puzzle(0);
    assert_eq!(p0.map_size, (1, 3));
    assert_eq!(p0.flames, vec![(1, 3)]);
    assert_eq!(p0.deck_list, vec![1]);
    let p3 = get_puzzle(3);
    assert_eq!(p3.map_size, (1, 3));
    assert!(matches!(p3.items[0].2, Item::Water));
    let far = get_puzzle(99);
    assert_eq!(far.map_size, (1, 1));
    assert!(far.flames.is_empty());
}

#[test]
fn despawn_cards_clears_everything() {
    let mut sim = level(2, 2, vec![]);
    deal(&mut sim, vec![1, 2, 3]);
    sim.despawn_cards();
    assert!(sim.card_instances.is_empty());
    assert!(sim.player.deck.cards.is_empty());
    assert_eq!(sim.player.hand.empty_slots(), 5);
}

#[test]
fn tick_runs_a_whole_turn_start() {
    let mut sim = level(3, 3, vec![(3, 3)]);
    sim.deck_list = DeckList(vec![ContentID(1), ContentID(5)].into_iter().collect());
    sim.spawn_cards();
    sim.turn_state = TurnState::Idle;
    sim.next_turn_state = Some(TurnState::Starting);
    // entering the starting phase refills the hand and restores resources
    sim.tick(None, false);
    assert_eq!(sim.turn_state, TurnState::Starting);
    assert_eq!(sim.player.hand.empty_slots(), 3);
    assert_eq!(sim.player.energy.current, 5);
    assert_eq!(sim.actions.len(), 0);
    assert_eq!(sim.next_turn_state, Some(TurnState::Started));
    // once started, playability decides whether input is awaited
    sim.tick(None, false);
    assert_eq!(sim.turn_state, TurnState::Started);
    assert_eq!(sim.next_turn_state, Some(TurnState::WaitingForInput));
    sim.tick(None, false);
    assert_eq!(sim.turn_state, TurnState::WaitingForInput);
}

#[test]
fn tick_resolves_a_play() {
    let mut sim = level(3, 3, vec![(3, 3)]);
    deal(&mut sim, vec![1]);
    sim.player.energy = Energy { current: 5, maximum: 10 };
    sim.turn_state = TurnState::WaitingForInput;
    sim.update_playability();
    let card = sim.player.hand.0[0].expect("card in hand");
    sim.tick(Some(card), false);
    assert_eq!(sim.player.game_position, pos(1, 2, GameDirection::Up));
    assert_eq!(sim.player.energy.current, 4);
    assert_eq!(sim.next_turn_state, Some(TurnState::Animating));
}

#[test]
fn tick_completes_the_animating_phase() {
    let mut sim = level(3, 3, vec![(3, 3)]);
    deal(&mut sim, vec![1]);
    sim.player.energy = Energy { current: 5, maximum: 10 };
    sim.turn_state = TurnState::WaitingForInput;
    sim.update_playability();
    let card = sim.player.hand.0[0].expect("card in hand");
    sim.tick(Some(card), false);
    assert_eq!(sim.next_turn_state, Some(TurnState::Animating));
    // the rendering layer finishes the scheduled animations
    sim.animations.clear();
    sim.tick(None, false);
    assert_eq!(sim.turn_state, TurnState::Animating);
    assert_eq!(sim.next_turn_state, Some(TurnState::Started));
    sim.tick(None, false);
    assert_eq!(sim.turn_state, TurnState::Started);
}
