//! The simulation: one value holding the whole core state — player, card
//! arena, board, pending records and both state machines — with the pipeline
//! passes that resolve actions, commit changes, recompute playability and
//! advance the turn.

use vstd::multiset::Multiset;
use vstd::prelude::*;

use crate::actions::{AnimationType, CardActionType, Change, Draw, Play, WasPlayed};
use crate::cards::{
    hand_cards_multiset, CardInfoMap, CardInstance, CardStatus, ContentID, Grid, Hand,
};
use crate::game::{GameState, NextGameState, NextTurnState, StateTransition, TurnState};
use crate::items::Item;
use crate::player::PlayerBundle;
use crate::stats::{Energy, GamePosition, Water};
use crate::tiles::{canonical_grid, MapParameters, Tile};

verus! {

/// The entity id under which the single player's components are addressed in
/// change records.
pub const PLAYER_ENTITY: usize = 0;

/// The deck composition a new level is built from.
#[derive(Debug)]
pub struct DeckList(pub Vec<ContentID>);

impl Default for DeckList {
    /// Four copies each of the four basic movement and rotation cards.
    fn default() -> (r: Self)
        ensures
            r.0@.len() == 16,
            forall|i: int| 0 <= i < 4 ==> (#[trigger] r.0@[i]) == ContentID(1),
            forall|i: int| 4 <= i < 8 ==> (#[trigger] r.0@[i]) == ContentID(2),
            forall|i: int| 8 <= i < 12 ==> (#[trigger] r.0@[i]) == ContentID(3),
            forall|i: int| 12 <= i < 16 ==> (#[trigger] r.0@[i]) == ContentID(4),
    {
        let v: Vec<ContentID> = vec![
            ContentID(1),
            ContentID(1),
            ContentID(1),
            ContentID(1),
            ContentID(2),
            ContentID(2),
            ContentID(2),
            ContentID(2),
            ContentID(3),
            ContentID(3),
            ContentID(3),
            ContentID(3),
            ContentID(4),
            ContentID(4),
            ContentID(4),
            ContentID(4),
        ];
        DeckList(v)
    }
}

/// Whether levels follow the fixed puzzle list or grow endlessly.
#[derive(Clone, Copy, Debug, PartialEq, Eq, Structural)]
pub enum GameMode {
    Puzzle,
    Rogue,
}

impl Default for GameMode {
    fn default() -> (r: Self)
        ensures
            r == GameMode::Puzzle,
    {
        GameMode::Puzzle
    }
}

/// The index of the level being played.
#[derive(Clone, Copy, Debug, PartialEq, Eq, Structural)]
pub struct LevelIndex(pub i32);

impl Default for LevelIndex {
    fn default() -> (r: Self)
        ensures
            r.0 == 0,
    {
        LevelIndex(0)
    }
}

/// The whole core state. The single player, deck, grid and catalog are plain
/// named fields, so their cardinality can never be violated.
#[derive(Debug)]
pub struct Simulation {
    pub game_state: GameState,
    pub next_game_state: Option<GameState>,
    pub turn_state: TurnState,
    pub next_turn_state: Option<TurnState>,
    pub pending_game_transition: Option<NextGameState>,
    pub pending_turn_transition: Option<NextTurnState>,
    pub catalog: CardInfoMap,
    pub card_instances: Vec<CardInstance>,
    pub player: PlayerBundle,
    pub tiles: Vec<Tile>,
    pub grid: Grid,
    pub items: Vec<(Item, GamePosition)>,
    pub actions: Vec<CardActionType>,
    pub played: Vec<WasPlayed>,
    pub position_changes: Vec<Change<GamePosition>>,
    pub energy_changes: Vec<Change<Energy>>,
    pub water_changes: Vec<Change<Water>>,
    pub tile_changes: Vec<Change<Tile>>,
    pub animations: Vec<AnimationType>,
    pub deck_list: DeckList,
    pub map: MapParameters,
    pub mode: GameMode,
    pub level_index: LevelIndex,
}

impl Simulation {
    /// The multiset of card ids over every zone: draw pile, recycled pile,
    /// discarded pile and hand.
    pub open spec fn zone_multiset(self) -> Multiset<usize> {
        self.player.deck.cards@.to_multiset().add(self.player.deck.recycled@.to_multiset()).add(
            self.player.deck.discarded@.to_multiset(),
        ).add(hand_cards_multiset(self.player.hand.slots()))
    }

    /// The deck invariant: every card instance sits in at most one zone, at
    /// most once.
    pub open spec fn cards_unique(self) -> bool {
        forall|c: usize| #[trigger] self.zone_multiset().count(c) <= 1
    }

    /// Every id a zone holds points into the card arena.
    pub open spec fn ids_bounded(self) -> bool {
        forall|c: usize|
            #[trigger] self.zone_multiset().count(c) > 0 ==> c < self.card_instances@.len()
    }

    /// Every card instance references an existing catalog entry.
    pub open spec fn instances_valid(self) -> bool {
        forall|k: int|
            0 <= k < self.card_instances@.len() ==> self.catalog.contains_id(
                (#[trigger] self.card_instances@[k]).content,
            )
    }

    /// The catalog's numbers are small: costs and damage within a hundred,
    /// targeting offsets within eight tiles, and a movement offset list never
    /// empty.
    pub open spec fn catalog_wf(self) -> bool {
        forall|k: int|
            0 <= k < self.catalog.0@.len() ==> card_info_wf(#[trigger] self.catalog.0@[k])
    }

    /// Resource pools are non-negative, clamped to their maximum, and the
    /// maximum is bounded.
    pub open spec fn resources_wf(self) -> bool {
        &&& 0 <= self.player.energy.current <= self.player.energy.maximum <= 1000000
        &&& 0 <= self.player.water.current <= self.player.water.maximum <= 1000000
    }

    /// The player's coordinates stay within a generous machine bound.
    pub open spec fn position_wf(self) -> bool {
        &&& -1000000 <= self.player.game_position.x <= 1000000
        &&& -1000000 <= self.player.game_position.y <= 1000000
    }

    /// Pending change records address existing entities and carry values that
    /// keep the component invariants.
    pub open spec fn queues_wf(self) -> bool {
        &&& forall|k: int|
            0 <= k < self.position_changes@.len() ==> {
                &&& (#[trigger] self.position_changes@[k]).entity == PLAYER_ENTITY
                &&& -1000000 <= self.position_changes@[k].updated_value.x <= 1000000
                &&& -1000000 <= self.position_changes@[k].updated_value.y <= 1000000
            }
        &&& forall|k: int|
            0 <= k < self.energy_changes@.len() ==> {
                &&& (#[trigger] self.energy_changes@[k]).entity == PLAYER_ENTITY
                &&& 0 <= self.energy_changes@[k].updated_value.current
                    <= self.energy_changes@[k].updated_value.maximum <= 1000000
            }
        &&& forall|k: int|
            0 <= k < self.water_changes@.len() ==> {
                &&& (#[trigger] self.water_changes@[k]).entity == PLAYER_ENTITY
                &&& 0 <= self.water_changes@[k].updated_value.current
                    <= self.water_changes@[k].updated_value.maximum <= 1000000
            }
        &&& forall|k: int|
            0 <= k < self.tile_changes@.len() ==> (#[trigger] self.tile_changes@[k]).entity
                < self.tiles@.len()
    }

    /// Pending actions are legal: a non-draw action names a card that is in
    /// the hand, and no two pending actions name the same card.
    pub open spec fn actions_wf(self) -> bool {
        &&& forall|k: int|
            0 <= k < self.actions@.len() ==> match #[trigger] self.actions@[k] {
                CardActionType::Draw(_) => true,
                CardActionType::Recycle(a) => self.player.hand.contains_card(a.card),
                CardActionType::Discard(a) => self.player.hand.contains_card(a.card),
                CardActionType::Play(a) => self.player.hand.contains_card(a.card),
            }
        &&& forall|k1: int, k2: int|
            0 <= k1 < k2 < self.actions@.len() ==> match (
                #[trigger] self.actions@[k1],
                #[trigger] self.actions@[k2],
            ) {
                (CardActionType::Draw(_), _) => true,
                (_, CardActionType::Draw(_)) => true,
                (a1, a2) => action_card(a1) != action_card(a2),
            }
    }

    /// Every card item lying on the board names an existing catalog entry.
    pub open spec fn items_valid(self) -> bool {
        forall|k: int|
            0 <= k < self.items@.len() ==> match (#[trigger] self.items@[k]).0 {
                Item::Card(cid) => self.catalog.contains_id(cid),
                _ => true,
            }
    }

    /// Played markers name cards inside the arena.
    pub open spec fn played_wf(self) -> bool {
        forall|k: int|
            0 <= k < self.played@.len() ==> (#[trigger] self.played@[k]).0
                < self.card_instances@.len()
    }

    /// The well-formedness of the whole simulation: what construction
    /// establishes and every pipeline pass preserves.
    pub open spec fn wf(self) -> bool {
        &&& self.player.hand.wf()
        &&& self.cards_unique()
        &&& self.ids_bounded()
        &&& self.instances_valid()
        &&& self.catalog_wf()
        &&& canonical_grid(self.grid, self.tiles@)
        &&& self.grid.rows() <= 4096
        &&& self.grid.cols() <= 4096
        &&& self.resources_wf()
        &&& self.position_wf()
        &&& self.queues_wf()
        &&& self.actions_wf()
        &&& self.played_wf()
        &&& self.items_valid()
    }

    /// A fresh simulation: everything idle and empty, the player in place.
    pub fn new() -> (r: Self)
        ensures
            r.wf(),
            r.game_state == GameState::Idle,
            r.turn_state == TurnState::Idle,
            r.next_game_state is None,
            r.next_turn_state is None,
            r.catalog.0@.len() == 0,
            r.card_instances@.len() == 0,
            r.tiles@.len() == 0,
            r.actions@.len() == 0,
            r.played@.len() == 0,
            r.items@.len() == 0,
            r.mode == GameMode::Puzzle,
            r.level_index.0 == 0,
    {
        let r = Simulation {
            game_state: GameState::Idle,
            next_game_state: None,
            turn_state: TurnState::Idle,
            next_turn_state: None,
            pending_game_transition: None,
            pending_turn_transition: None,
            catalog: CardInfoMap::new(),
            card_instances: Vec::new(),
            player: PlayerBundle::new(),
            tiles: Vec::new(),
            grid: Grid(Vec::new()),
            items: Vec::new(),
            actions: Vec::new(),
            played: Vec::new(),
            position_changes: Vec::new(),
            energy_changes: Vec::new(),
            water_changes: Vec::new(),
            tile_changes: Vec::new(),
            animations: Vec::new(),
            deck_list: DeckList::default(),
            map: MapParameters::default(),
            mode: GameMode::Puzzle,
            level_index: LevelIndex(0),
        };
        proof {
            broadcast use vstd::seq_lib::group_to_multiset_ensures;

            assert forall|c: usize| #[trigger] r.zone_multiset().count(c) == 0 by {
                crate::cards::lemma_hand_ms_absent(r.player.hand.slots(), c);
                assert(!r.player.deck.cards@.contains(c));
                assert(r.player.deck.cards@.to_multiset().count(c) == 0);
                assert(r.player.deck.recycled@.to_multiset().count(c) == 0);
                assert(r.player.deck.discarded@.to_multiset().count(c) == 0);
            }
        }
        r
    }

    /// Reset the player entity to its fresh state.
    pub fn spawn_player(&mut self)
        ensures
            final(self).player.game_position == (GamePosition {
                x: 1,
                y: 1,
                d: crate::stats::GameDirection::Up,
            }),
            final(self).player.energy == (Energy { current: 0, maximum: 10 }),
            final(self).player.water == (Water { current: 0, maximum: 10 }),
            final(self).player.deck.cards@.len() == 0,
            final(self).player.deck.recycled@.len() == 0,
            final(self).player.deck.discarded@.len() == 0,
            final(self).player.hand.wf(),
            final(self).player.hand.slots() == seq![None::<usize>, None, None, None, None],
            unchanged_but_player(*old(self), *final(self)),
    {
        self.player = PlayerBundle::new();
    }

    /// Randomly permute the player's draw pile.
    pub fn shuffle_deck(&mut self)
        requires
            old(self).wf(),
        ensures
            final(self).wf(),
            final(self).player.deck.cards@.to_multiset() == old(self).player.deck.cards@.to_multiset(),
            final(self).player.deck.recycled == old(self).player.deck.recycled,
            final(self).player.deck.discarded == old(self).player.deck.discarded,
            final(self).player.hand == old(self).player.hand,
            unchanged_but_player(*old(self), *final(self)),
            final(self).player.game_position == old(self).player.game_position,
            final(self).player.energy == old(self).player.energy,
            final(self).player.water == old(self).player.water,
    {
        self.player.deck.shuffle();
        proof {
            assert(final(self).zone_multiset() =~= old(self).zone_multiset());
        }
    }

    /// Advance the turn into `Started` once no actions are pending; polled
    /// every tick while the turn is starting.
    pub fn start_turn(&mut self)
        ensures
            old(self).actions@.len() == 0 ==> final(self).next_turn_state == Some(
                TurnState::Started,
            ),
            old(self).actions@.len() > 0 ==> final(self).next_turn_state == old(self).next_turn_state,
            unchanged_but_next_turn(*old(self), *final(self)),
            final(self).wf() == old(self).wf(),
    {
        if self.actions.len() == 0 {
            self.next_turn_state = Some(TurnState::Started);
        }
        proof {
            lemma_wf_unchanged(*old(self), *self);
        }
    }

    /// Restore both pools to half of their maximum (turn start).
    pub fn restore_resources(&mut self)
        requires
            old(self).wf(),
        ensures
            final(self).wf(),
            final(self).player.energy == (Energy {
                current: (old(self).player.energy.maximum / 2) as i32,
                maximum: old(self).player.energy.maximum,
            }),
            final(self).player.water == (Water {
                current: (old(self).player.water.maximum / 2) as i32,
                maximum: old(self).player.water.maximum,
            }),
            final(self).player.deck == old(self).player.deck,
            final(self).player.hand == old(self).player.hand,
            final(self).player.game_position == old(self).player.game_position,
            unchanged_but_player(*old(self), *final(self)),
    {
        self.player.energy.current = self.player.energy.maximum / 2;
        self.player.water.current = self.player.water.maximum / 2;
        proof {
            assert(final(self).zone_multiset() =~= old(self).zone_multiset());
        }
    }

    /// End the turn when the player asked for it.
    pub fn end_turn_clicked(&mut self, clicked: bool)
        ensures
            clicked ==> final(self).next_turn_state == Some(TurnState::Ended),
            !clicked ==> final(self).next_turn_state == old(self).next_turn_state,
            unchanged_but_next_turn(*old(self), *final(self)),
            final(self).wf() == old(self).wf(),
    {
        if clicked {
            self.next_turn_state = Some(TurnState::Ended);
        }
        proof {
            lemma_wf_unchanged(*old(self), *self);
        }
    }
}

/// The id a non-draw action names.
pub open spec fn action_card(a: CardActionType) -> usize {
    match a {
        CardActionType::Draw(_) => 0,
        CardActionType::Recycle(r) => r.card,
        CardActionType::Discard(d) => d.card,
        CardActionType::Play(p) => p.card,
    }
}

/// The card definition's numbers are small enough for all arithmetic: costs
/// and damage within a hundred, offsets within eight tiles, and a movement
/// offset list never empty.
pub open spec fn card_info_wf(c: crate::cards::CardInfo) -> bool {
    &&& 0 <= c.resource_cost.energy <= 100
    &&& 0 <= c.resource_cost.water <= 100
    &&& target_wf(c.position_change.position)
    &&& target_wf(c.water_damage.damage_target)
    &&& c.position_change.position matches crate::cards::TileTarget::FacingOffsets(v) ==> v@.len()
        > 0
}

/// Every offset of a targeting expression is within eight tiles.
pub open spec fn target_wf(t: crate::cards::TileTarget) -> bool {
    match t {
        crate::cards::TileTarget::FacingDist(d) => -8 <= d <= 8,
        crate::cards::TileTarget::FacingOffsets(v) => forall|i: int|
            0 <= i < v@.len() ==> -8 <= (#[trigger] v@[i]).facing <= 8 && -8 <= v@[i].tangent <= 8,
    }
}

/// Well-formedness reads only the fields this lemma fixes, so two states
/// agreeing on them are equally well-formed.
pub proof fn lemma_wf_unchanged(a: Simulation, b: Simulation)
    requires
        b.player == a.player,
        b.card_instances == a.card_instances,
        b.catalog == a.catalog,
        b.grid == a.grid,
        b.tiles == a.tiles,
        b.position_changes == a.position_changes,
        b.energy_changes == a.energy_changes,
        b.water_changes == a.water_changes,
        b.tile_changes == a.tile_changes,
        b.actions == a.actions,
        b.played == a.played,
        b.items == a.items,
    ensures
        b.wf() == a.wf(),
{
    assert(b.zone_multiset() == a.zone_multiset());
    assert(b.cards_unique() == a.cards_unique());
    assert(b.ids_bounded() == a.ids_bounded());
    assert(b.instances_valid() == a.instances_valid());
    assert(b.catalog_wf() == a.catalog_wf());
    assert(b.queues_wf() == a.queues_wf());
    assert(b.actions_wf() == a.actions_wf());
    assert(b.played_wf() == a.played_wf());
    assert(b.items_valid() == a.items_valid());
}

/// Everything outside the player is the same in both states.
pub open spec fn unchanged_but_player(a: Simulation, b: Simulation) -> bool {
    &&& b.game_state == a.game_state
    &&& b.next_game_state == a.next_game_state
    &&& b.turn_state == a.turn_state
    &&& b.next_turn_state == a.next_turn_state
    &&& b.pending_game_transition == a.pending_game_transition
    &&& b.pending_turn_transition == a.pending_turn_transition
    &&& b.catalog == a.catalog
    &&& b.card_instances == a.card_instances
    &&& b.tiles == a.tiles
    &&& b.grid == a.grid
    &&& b.items == a.items
    &&& b.actions == a.actions
    &&& b.played == a.played
    &&& b.position_changes == a.position_changes
    &&& b.energy_changes == a.energy_changes
    &&& b.water_changes == a.water_changes
    &&& b.tile_changes == a.tile_changes
    &&& b.animations == a.animations
    &&& b.deck_list == a.deck_list
    &&& b.map == a.map
    &&& b.mode == a.mode
    &&& b.level_index == a.level_index
}

/// Everything but the buffered next turn state is the same in both states.
pub open spec fn unchanged_but_next_turn(a: Simulation, b: Simulation) -> bool {
    &&& b.game_state == a.game_state
    &&& b.next_game_state == a.next_game_state
    &&& b.turn_state == a.turn_state
    &&& b.pending_game_transition == a.pending_game_transition
    &&& b.pending_turn_transition == a.pending_turn_transition
    &&& b.catalog == a.catalog
    &&& b.card_instances == a.card_instances
    &&& b.player == a.player
    &&& b.tiles == a.tiles
    &&& b.grid == a.grid
    &&& b.items == a.items
    &&& b.actions == a.actions
    &&& b.played == a.played
    &&& b.position_changes == a.position_changes
    &&& b.energy_changes == a.energy_changes
    &&& b.water_changes == a.water_changes
    &&& b.tile_changes == a.tile_changes
    &&& b.animations == a.animations
    &&& b.deck_list == a.deck_list
    &&& b.map == a.map
    &&& b.mode == a.mode
    &&& b.level_index == a.level_index
}


/// Whether a pending non-draw action already names `c`.
pub open spec fn action_queued(acts: Seq<CardActionType>, c: usize) -> bool {
    exists|k: int|
        0 <= k < acts.len() && !((#[trigger] acts[k]) is Draw) && action_card(acts[k]) == c
}

/// Which of the two global state machines a scheduled transition advances.
#[derive(Clone, Copy, Debug, PartialEq, Eq, Structural)]
pub enum TransitionMarker {
    Game(NextGameState),
    Turn(NextTurnState),
}

impl Simulation {
    /// Whether some card in the hand is currently marked playable.
    pub open spec fn any_playable_in_hand(self) -> bool {
        exists|s: int|
            0 <= s < self.player.hand.slots().len() && match #[trigger] self.player.hand.slots()[s] {
                Some(c) => c < self.card_instances@.len() && self.card_instances@[c as int].status
                    is Playable,
                None => false,
            }
    }

    /// A card id in some hand slot points into the arena.
    proof fn lemma_hand_card_bounded(self, c: usize)
        requires
            self.wf(),
            self.player.hand.contains_card(c),
        ensures
            c < self.card_instances@.len(),
            self.zone_multiset().count(c) > 0,
    {
        let s = choose|s: int|
            0 <= s < self.player.hand.slots().len() && self.player.hand.slots()[s] == Some(c);
        crate::cards::lemma_hand_ms_count_pos(self.player.hand.slots(), s, c);
        assert(self.zone_multiset().count(c) > 0);
    }

    /// Spawn one card instance per entry of the deck list and put each into
    /// the draw pile, in list order.
    pub fn spawn_cards(&mut self)
        requires
            old(self).wf(),
            forall|k: int|
                0 <= k < old(self).deck_list.0@.len() ==> old(self).catalog.contains_id(
                    #[trigger] old(self).deck_list.0@[k],
                ),
        ensures
            final(self).wf(),
            final(self).card_instances@.len() == old(self).card_instances@.len() + old(self).deck_list.0@.len(),
            forall|k: int|
                0 <= k < old(self).card_instances@.len() ==> final(self).card_instances@[k] == old(self).card_instances@[k],
            forall|k: int|
                0 <= k < old(self).deck_list.0@.len() ==> final(self).card_instances@[old(self).card_instances@.len() + k] == (CardInstance {
                    content: old(self).deck_list.0@[k],
                    status: CardStatus::Unknown,
                    in_hand: false,
                    in_deck: true,
                }),
            final(self).player.deck.cards@.len() == old(self).player.deck.cards@.len() + old(self).deck_list.0@.len(),
            forall|k: int|
                0 <= k < old(self).player.deck.cards@.len() ==> final(self).player.deck.cards@[k]
                    == old(self).player.deck.cards@[k],
            forall|k: int|
                0 <= k < old(self).deck_list.0@.len() ==> (#[trigger] final(self).player.deck.cards@[old(self).player.deck.cards@.len() + k]) as int == old(self).card_instances@.len() + k,
            final(self).player.deck.recycled == old(self).player.deck.recycled,
            final(self).player.deck.discarded == old(self).player.deck.discarded,
            final(self).player.hand == old(self).player.hand,
            final(self).player.game_position == old(self).player.game_position,
            final(self).player.energy == old(self).player.energy,
            final(self).player.water == old(self).player.water,
            final(self).actions == old(self).actions,
            final(self).played == old(self).played,
            final(self).tiles == old(self).tiles,
            final(self).grid == old(self).grid,
            final(self).catalog == old(self).catalog,
            final(self).turn_state == old(self).turn_state,
            final(self).game_state == old(self).game_state,
            final(self).next_turn_state == old(self).next_turn_state,
            final(self).next_game_state == old(self).next_game_state,
    {
        proof {
            broadcast use vstd::seq_lib::group_to_multiset_ensures;

        }
        let n = self.deck_list.0.len();
        for i in 0..n
            invariant
                n == self.deck_list.0@.len(),
                self.wf(),
                self.deck_list == old(self).deck_list,
                self.catalog == old(self).catalog,
                forall|k: int|
                    0 <= k < old(self).deck_list.0@.len() ==> old(self).catalog.contains_id(
                        #[trigger] old(self).deck_list.0@[k],
                    ),
                self.card_instances@.len() == old(self).card_instances@.len() + i,
                forall|k: int|
                    0 <= k < old(self).card_instances@.len() ==> self.card_instances@[k] == old(self).card_instances@[k],
                forall|k: int|
                    0 <= k < i ==> self.card_instances@[old(self).card_instances@.len() + k] == (
                    CardInstance {
                        content: old(self).deck_list.0@[k],
                        status: CardStatus::Unknown,
                        in_hand: false,
                        in_deck: true,
                    }),
                self.player.deck.cards@.len() == old(self).player.deck.cards@.len() + i,
                forall|k: int|
                    0 <= k < old(self).player.deck.cards@.len() ==> self.player.deck.cards@[k]
                        == old(self).player.deck.cards@[k],
                forall|k: int|
                    0 <= k < i ==> (#[trigger] self.player.deck.cards@[old(self).player.deck.cards@.len() + k]) as int == old(self).card_instances@.len() + k,
                self.player.deck.recycled == old(self).player.deck.recycled,
                self.player.deck.discarded == old(self).player.deck.discarded,
                self.player.hand == old(self).player.hand,
                self.player.game_position == old(self).player.game_position,
                self.player.energy == old(self).player.energy,
                self.player.water == old(self).player.water,
                self.actions == old(self).actions,
                self.played == old(self).played,
                self.tiles == old(self).tiles,
                self.grid == old(self).grid,
                self.turn_state == old(self).turn_state,
                self.game_state == old(self).game_state,
                self.next_turn_state == old(self).next_turn_state,
                self.next_game_state == old(self).next_game_state,
                self.position_changes == old(self).position_changes,
                self.energy_changes == old(self).energy_changes,
                self.water_changes == old(self).water_changes,
                self.tile_changes == old(self).tile_changes,
                self.animations == old(self).animations,
                self.items == old(self).items,
                self.map == old(self).map,
                self.mode == old(self).mode,
                self.level_index == old(self).level_index,
                self.pending_game_transition == old(self).pending_game_transition,
                self.pending_turn_transition == old(self).pending_turn_transition,
        {
            proof {
                broadcast use vstd::seq_lib::group_to_multiset_ensures;

            }
            let ghost pre = *self;
            let content = self.deck_list.0[i];
            let id = self.card_instances.len();
            let inst = CardInstance {
                content,
                status: CardStatus::Unknown,
                in_hand: false,
                in_deck: true,
            };
            self.card_instances.push(inst);
            self.player.deck.add(id);
            proof {
                assert(pre.zone_multiset().count(id) == 0) by {
                    if pre.zone_multiset().count(id) > 0 {
                        assert(id < pre.card_instances@.len());
                    }
                }
                assert(self.player.deck.cards@ == pre.player.deck.cards@.push(id));
                assert(self.zone_multiset() =~= pre.zone_multiset().insert(id));
                assert forall|c: usize| #[trigger] self.zone_multiset().count(c) <= 1 by {
                    assert(pre.zone_multiset().count(c) <= 1);
                }
                assert forall|c: usize| #[trigger] self.zone_multiset().count(c) > 0 implies c
                    < self.card_instances@.len() by {
                    if c != id {
                        assert(pre.zone_multiset().count(c) > 0);
                    }
                }
                assert forall|k: int| 0 <= k < self.card_instances@.len() implies self.catalog.contains_id(
                    (#[trigger] self.card_instances@[k]).content,
                ) by {
                    if k < pre.card_instances@.len() {
                        assert(self.card_instances@[k] == pre.card_instances@[k]);
                    } else {
                        assert(self.card_instances@[k] == inst);
                        assert(inst.content == old(self).deck_list.0@[i as int]);
                    }
                }
                assert(self.actions_wf()) by {
                    assert(self.actions == pre.actions);
                    assert(self.player.hand == pre.player.hand);
                }
                assert(self.wf());
            }
        }
    }

    /// Tear the level's cards down: empty the arena, every deck pile, the
    /// hand, and the pending card records that reference them.
    pub fn despawn_cards(&mut self)
        requires
            old(self).wf(),
        ensures
            final(self).wf(),
            final(self).card_instances@.len() == 0,
            final(self).player.deck.cards@.len() == 0,
            final(self).player.deck.recycled@.len() == 0,
            final(self).player.deck.discarded@.len() == 0,
            final(self).player.hand.slots() == seq![None::<usize>, None, None, None, None],
            final(self).actions@.len() == 0,
            final(self).played@.len() == 0,
            final(self).position_changes@.len() == 0,
            final(self).energy_changes@.len() == 0,
            final(self).water_changes@.len() == 0,
            final(self).tile_changes@.len() == 0,
            final(self).player.energy == old(self).player.energy,
            final(self).player.water == old(self).player.water,
            final(self).player.game_position == old(self).player.game_position,
            final(self).catalog == old(self).catalog,
            final(self).tiles == old(self).tiles,
            final(self).grid == old(self).grid,
            final(self).turn_state == old(self).turn_state,
            final(self).game_state == old(self).game_state,
    {
        proof {
            broadcast use vstd::seq_lib::group_to_multiset_ensures;

        }
        self.card_instances.clear();
        self.player.deck.reset();
        self.player.hand.reset();
        self.actions.clear();
        self.played.clear();
        self.position_changes.clear();
        self.energy_changes.clear();
        self.water_changes.clear();
        self.tile_changes.clear();
        proof {
            assert forall|c: usize| #[trigger] self.zone_multiset().count(c) == 0 by {
                crate::cards::lemma_hand_ms_absent(self.player.hand.slots(), c);
            }
        }
    }

    /// Queue one draw action per empty hand slot (turn start refill).
    pub fn fill_hand_with_cards(&mut self)
        requires
            old(self).wf(),
        ensures
            final(self).wf(),
            final(self).actions@ == old(self).actions@ + Seq::new(
                crate::cards::count_empty(old(self).player.hand.slots()) as nat,
                |k: int| CardActionType::Draw(Draw),
            ),
            unchanged_but_actions(*old(self), *final(self)),
    {
        let n = self.player.hand.empty_slots();
        proof {
            crate::cards::lemma_count_empty_bounded(self.player.hand.slots());
        }
        for i in 0..n
            invariant
                old(self).wf(),
                n == crate::cards::count_empty(old(self).player.hand.slots()),
                self.actions@ == old(self).actions@ + Seq::new(
                    i as nat,
                    |k: int| CardActionType::Draw(Draw),
                ),
                unchanged_but_actions(*old(self), *self),
        {
            self.actions.push(CardActionType::Draw(Draw));
            proof {
                assert(self.actions@ =~= old(self).actions@ + Seq::new(
                    (i + 1) as nat,
                    |k: int| CardActionType::Draw(Draw),
                ));
            }
        }
        proof {
            assert(self.zone_multiset() == old(self).zone_multiset());
            assert forall|k: int| 0 <= k < self.actions@.len() implies match #[trigger] self.actions@[k] {
                CardActionType::Draw(_) => true,
                CardActionType::Recycle(a) => self.player.hand.contains_card(a.card),
                CardActionType::Discard(a) => self.player.hand.contains_card(a.card),
                CardActionType::Play(a) => self.player.hand.contains_card(a.card),
            } by {
                if k < old(self).actions@.len() {
                    assert(old(self).actions@[k] == self.actions@[k]);
                }
            }
            assert forall|k1: int, k2: int| 0 <= k1 < k2 < self.actions@.len() implies match (
                #[trigger] self.actions@[k1],
                #[trigger] self.actions@[k2],
            ) {
                (CardActionType::Draw(_), _) => true,
                (_, CardActionType::Draw(_)) => true,
                (a1, a2) => action_card(a1) != action_card(a2),
            } by {
                if k2 < old(self).actions@.len() {
                    assert(old(self).actions@[k1] == self.actions@[k1]);
                    assert(old(self).actions@[k2] == self.actions@[k2]);
                }
            }
        }
    }

    /// Queue a play of `card` if its status is playable, it sits in the hand,
    /// and no pending action already names it: the sole gate before a card's
    /// effects run.
    pub fn play_clicked_card(&mut self, card: usize)
        requires
            old(self).wf(),
            card < old(self).card_instances@.len(),
        ensures
            final(self).wf(),
            final(self).actions@ == if old(self).card_instances@[card as int].status is Playable
                && old(self).player.hand.contains_card(card) && !action_queued(
                old(self).actions@,
                card,
            ) {
                old(self).actions@.push(CardActionType::Play(Play { card }))
            } else {
                old(self).actions@
            },
            unchanged_but_actions(*old(self), *final(self)),
    {
        let status_playable = self.card_instances[card].status.is_playable();
        if !status_playable {
            return ;
        }
        if !self.player.hand.contains(card) {
            return ;
        }
        // refuse a second action for the same card within one tick
        let n = self.actions.len();
        for k in 0..n
            invariant
                old(self).wf(),
                n == self.actions@.len(),
                *self == *old(self),
                forall|j: int|
                    0 <= j < k ==> !(!((#[trigger] self.actions@[j]) is Draw) && action_card(
                        self.actions@[j],
                    ) == card),
        {
            let queued = match self.actions[k] {
                CardActionType::Draw(_) => false,
                CardActionType::Recycle(a) => a.card == card,
                CardActionType::Discard(a) => a.card == card,
                CardActionType::Play(a) => a.card == card,
            };
            if queued {
                return ;
            }
        }
        assert(!action_queued(self.actions@, card));
        let ghost pre = *self;
        self.actions.push(CardActionType::Play(Play { card }));
        proof {
            assert(self.zone_multiset() == old(self).zone_multiset());
            assert forall|k: int| 0 <= k < self.actions@.len() implies match #[trigger] self.actions@[k] {
                CardActionType::Draw(_) => true,
                CardActionType::Recycle(a) => self.player.hand.contains_card(a.card),
                CardActionType::Discard(a) => self.player.hand.contains_card(a.card),
                CardActionType::Play(a) => self.player.hand.contains_card(a.card),
            } by {
                if k < pre.actions@.len() {
                    assert(self.actions@[k] == pre.actions@[k]);
                }
            }
            assert forall|k1: int, k2: int| 0 <= k1 < k2 < self.actions@.len() implies match (
                #[trigger] self.actions@[k1],
                #[trigger] self.actions@[k2],
            ) {
                (CardActionType::Draw(_), _) => true,
                (_, CardActionType::Draw(_)) => true,
                (a1, a2) => action_card(a1) != action_card(a2),
            } by {
                if k2 == self.actions@.len() - 1 {
                    assert(self.actions@[k1] == old(self).actions@[k1]);
                    if !(self.actions@[k1] is Draw) {
                        assert(action_queued(old(self).actions@, card) || action_card(
                            self.actions@[k1],
                        ) != card);
                    }
                }
            }
        }
    }

    /// Leave a marker asking the addressed state machine to advance one step.
    pub fn schedule_transition(&mut self, marker: TransitionMarker)
        ensures
            marker is Game ==> final(self).pending_game_transition == Some(NextGameState)
                && final(self).pending_turn_transition == old(self).pending_turn_transition,
            marker is Turn ==> final(self).pending_turn_transition == Some(NextTurnState)
                && final(self).pending_game_transition == old(self).pending_game_transition,
            unchanged_but_pending(*old(self), *final(self)),
            final(self).wf() == old(self).wf(),
    {
        match marker {
            TransitionMarker::Game(_) => {
                self.pending_game_transition = Some(NextGameState);
            },
            TransitionMarker::Turn(_) => {
                self.pending_turn_transition = Some(NextTurnState);
            },
        }
        proof {
            lemma_wf_unchanged(*old(self), *self);
        }
    }

    /// Consume a pending marker: buffer the addressed machine's next state.
    pub fn transition(&mut self, marker: TransitionMarker)
        ensures
            marker is Game && old(self).pending_game_transition is Some ==> {
                &&& final(self).next_game_state == Some(old(self).game_state.next_spec())
                &&& final(self).pending_game_transition is None
                &&& final(self).next_turn_state == old(self).next_turn_state
                &&& final(self).pending_turn_transition == old(self).pending_turn_transition
            },
            marker is Turn && old(self).pending_turn_transition is Some ==> {
                &&& final(self).next_turn_state == Some(old(self).turn_state.next_spec())
                &&& final(self).pending_turn_transition is None
                &&& final(self).next_game_state == old(self).next_game_state
                &&& final(self).pending_game_transition == old(self).pending_game_transition
            },
            marker is Game && old(self).pending_game_transition is None ==> *final(self) == *old(self),
            marker is Turn && old(self).pending_turn_transition is None ==> *final(self) == *old(self),
            unchanged_but_pending(*old(self), *final(self)),
            final(self).wf() == old(self).wf(),
    {
        match marker {
            TransitionMarker::Game(_) => {
                if self.pending_game_transition.is_some() {
                    self.next_game_state = Some(self.game_state.next());
                    self.pending_game_transition = None;
                }
            },
            TransitionMarker::Turn(_) => {
                if self.pending_turn_transition.is_some() {
                    self.next_turn_state = Some(self.turn_state.next());
                    self.pending_turn_transition = None;
                }
            },
        }
        proof {
            lemma_wf_unchanged(*old(self), *self);
        }
    }

    /// Commit the buffered next states: the fixed point of the tick at which
    /// every later reader observes the new states.
    pub fn apply_state_transitions(&mut self)
        ensures
            final(self).game_state == match old(self).next_game_state {
                Some(g) => g,
                None => old(self).game_state,
            },
            final(self).turn_state == match old(self).next_turn_state {
                Some(t) => t,
                None => old(self).turn_state,
            },
            final(self).next_game_state is None,
            final(self).next_turn_state is None,
            unchanged_but_states(*old(self), *final(self)),
            final(self).wf() == old(self).wf(),
    {
        if let Some(g) = self.next_game_state {
            self.game_state = g;
        }
        self.next_game_state = None;
        if let Some(t) = self.next_turn_state {
            self.turn_state = t;
        }
        self.next_turn_state = None;
        proof {
            lemma_wf_unchanged(*old(self), *self);
        }
    }

    /// After playability was recomputed: advance the turn machine one step
    /// while a playable card remains; with nothing playable the turn is over
    /// at once, without waiting for the player.
    pub fn check_for_turn_over(&mut self)
        requires
            old(self).wf(),
        ensures
            final(self).wf(),
            !old(self).any_playable_in_hand() ==> final(self).next_turn_state == Some(
                TurnState::Ended,
            ),
            old(self).any_playable_in_hand() ==> final(self).next_turn_state == Some(
                old(self).turn_state.next_spec(),
            ),
            unchanged_but_next_turn(*old(self), *final(self)),
    {
        let mut playable_count: usize = 0;
        let n = self.player.hand.0.len();
        for s in 0..n
            invariant
                self.wf(),
                n == self.player.hand.slots().len(),
                playable_count <= s,
                (playable_count > 0) == (exists|j: int|
                    0 <= j < s && match #[trigger] self.player.hand.slots()[j] {
                        Some(c) => c < self.card_instances@.len() && self.card_instances@[c as int].status
                            is Playable,
                        None => false,
                    }),
        {
            let slot = self.player.hand.0[s];
            if let Some(c) = slot {
                proof {
                    self.lemma_hand_card_bounded(c);
                }
                if self.card_instances[c].status.is_playable() {
                    playable_count = playable_count + 1;
                }
            }
        }
        if playable_count < 1 {
            self.next_turn_state = Some(TurnState::Ended);
        } else {
            self.next_turn_state = Some(self.turn_state.next());
        }
        proof {
            lemma_wf_unchanged(*old(self), *self);
        }
    }

    /// Reset the persistent configuration to its defaults.
    pub fn reset_game(&mut self)
        ensures
            final(self).deck_list.0@.len() == 16,
            forall|i: int| 0 <= i < 4 ==> (#[trigger] final(self).deck_list.0@[i]) == ContentID(1),
            forall|i: int| 4 <= i < 8 ==> (#[trigger] final(self).deck_list.0@[i]) == ContentID(2),
            forall|i: int|
                8 <= i < 12 ==> (#[trigger] final(self).deck_list.0@[i]) == ContentID(3),
            forall|i: int|
                12 <= i < 16 ==> (#[trigger] final(self).deck_list.0@[i]) == ContentID(4),
            final(self).level_index.0 == 0,
            final(self).map.columns == 0,
            final(self).map.rows == 0,
            final(self).wf() == old(self).wf(),
            unchanged_but_config(*old(self), *final(self)),
    {
        self.deck_list = DeckList::default();
        self.level_index = LevelIndex::default();
        self.map = MapParameters::default();
        proof {
            lemma_wf_unchanged(*old(self), *self);
        }
    }
}

/// Everything but the action queue is the same in both states.
pub open spec fn unchanged_but_actions(a: Simulation, b: Simulation) -> bool {
    &&& b.game_state == a.game_state
    &&& b.next_game_state == a.next_game_state
    &&& b.turn_state == a.turn_state
    &&& b.next_turn_state == a.next_turn_state
    &&& b.pending_game_transition == a.pending_game_transition
    &&& b.pending_turn_transition == a.pending_turn_transition
    &&& b.catalog == a.catalog
    &&& b.card_instances == a.card_instances
    &&& b.player == a.player
    &&& b.tiles == a.tiles
    &&& b.grid == a.grid
    &&& b.items == a.items
    &&& b.played == a.played
    &&& b.position_changes == a.position_changes
    &&& b.energy_changes == a.energy_changes
    &&& b.water_changes == a.water_changes
    &&& b.tile_changes == a.tile_changes
    &&& b.animations == a.animations
    &&& b.deck_list == a.deck_list
    &&& b.map == a.map
    &&& b.mode == a.mode
    &&& b.level_index == a.level_index
}

/// Everything but the transition markers and buffered next states is the same
/// in both states.
pub open spec fn unchanged_but_pending(a: Simulation, b: Simulation) -> bool {
    &&& b.game_state == a.game_state
    &&& b.turn_state == a.turn_state
    &&& b.catalog == a.catalog
    &&& b.card_instances == a.card_instances
    &&& b.player == a.player
    &&& b.tiles == a.tiles
    &&& b.grid == a.grid
    &&& b.items == a.items
    &&& b.actions == a.actions
    &&& b.played == a.played
    &&& b.position_changes == a.position_changes
    &&& b.energy_changes == a.energy_changes
    &&& b.water_changes == a.water_changes
    &&& b.tile_changes == a.tile_changes
    &&& b.animations == a.animations
    &&& b.deck_list == a.deck_list
    &&& b.map == a.map
    &&& b.mode == a.mode
    &&& b.level_index == a.level_index
}

/// Everything but the two state machines' current and buffered values is the
/// same in both states.
pub open spec fn unchanged_but_states(a: Simulation, b: Simulation) -> bool {
    &&& b.pending_game_transition == a.pending_game_transition
    &&& b.pending_turn_transition == a.pending_turn_transition
    &&& b.catalog == a.catalog
    &&& b.card_instances == a.card_instances
    &&& b.player == a.player
    &&& b.tiles == a.tiles
    &&& b.grid == a.grid
    &&& b.items == a.items
    &&& b.actions == a.actions
    &&& b.played == a.played
    &&& b.position_changes == a.position_changes
    &&& b.energy_changes == a.energy_changes
    &&& b.water_changes == a.water_changes
    &&& b.tile_changes == a.tile_changes
    &&& b.animations == a.animations
    &&& b.deck_list == a.deck_list
    &&& b.map == a.map
    &&& b.mode == a.mode
    &&& b.level_index == a.level_index
}

/// Everything but the persistent configuration is the same in both states.
pub open spec fn unchanged_but_config(a: Simulation, b: Simulation) -> bool {
    &&& b.game_state == a.game_state
    &&& b.next_game_state == a.next_game_state
    &&& b.turn_state == a.turn_state
    &&& b.next_turn_state == a.next_turn_state
    &&& b.pending_game_transition == a.pending_game_transition
    &&& b.pending_turn_transition == a.pending_turn_transition
    &&& b.catalog == a.catalog
    &&& b.card_instances == a.card_instances
    &&& b.player == a.player
    &&& b.tiles == a.tiles
    &&& b.grid == a.grid
    &&& b.items == a.items
    &&& b.actions == a.actions
    &&& b.played == a.played
    &&& b.position_changes == a.position_changes
    &&& b.energy_changes == a.energy_changes
    &&& b.water_changes == a.water_changes
    &&& b.tile_changes == a.tile_changes
    &&& b.animations == a.animations
}


/// The turn state after the tick's opening commit of the buffered value.
pub open spec fn committed_turn(s: Simulation) -> TurnState {
    match s.next_turn_state {
        Some(t) => t,
        None => s.turn_state,
    }
}

/// The game state after the tick's opening commit of the buffered value.
pub open spec fn committed_game(s: Simulation) -> GameState {
    match s.next_game_state {
        Some(g) => g,
        None => s.game_state,
    }
}

/// How many pending actions of the queue are draws.
pub open spec fn count_draws(s: Seq<CardActionType>) -> int
    decreases s.len(),
{
    if s.len() == 0 {
        0
    } else {
        (if s.first() is Draw {
            1int
        } else {
            0int
        }) + count_draws(s.drop_first())
    }
}

/// Where the resolution of a pending queue leaves each non-draw action's
/// card: out of the hand and the draw pile, in the discarded pile for a
/// discard and in the recycled pile otherwise. Stated only for actions with
/// no later draw in the queue, since a later refill may pull the card back
/// into play.
#[verifier::opaque]
pub open spec fn actions_settled(pre: Simulation, post: Simulation) -> bool {
    forall|k: int|
        0 <= k < pre.actions@.len() && !((#[trigger] pre.actions@[k]) is Draw) && (forall|j: int|
            k < j < pre.actions@.len() ==> !((#[trigger] pre.actions@[j]) is Draw)) ==> {
            let c = action_card(pre.actions@[k]);
            &&& !post.player.hand.contains_card(c)
            &&& !post.player.deck.cards@.contains(c)
            &&& post.player.deck.recycled@.contains(c) == !(pre.actions@[k] is Discard)
            &&& post.player.deck.discarded@.contains(c) == (pre.actions@[k] is Discard)
        }
}

/// When every queued draw has a free slot waiting, resolving the queue moves
/// cards between zones without creating or dropping any: the zone multiset is
/// preserved exactly.
#[verifier::opaque]
pub open spec fn zones_conserved(pre: Simulation, post: Simulation) -> bool {
    count_draws(pre.actions@) <= crate::cards::count_empty(pre.player.hand.slots())
        ==> forall|c: usize|
        #[trigger] post.zone_multiset().count(c) == pre.zone_multiset().count(c)
}

/// A queue of draw actions alone leaves no played marker.
pub proof fn lemma_played_of_draws(s: Seq<CardActionType>)
    requires
        forall|k: int| 0 <= k < s.len() ==> (#[trigger] s[k]) is Draw,
    ensures
        played_of(s) == Seq::<WasPlayed>::empty(),
    decreases s.len(),
{
    if s.len() > 0 {
        assert(forall|k: int|
            0 <= k < s.drop_last().len() ==> (#[trigger] s.drop_last()[k]) == s[k]);
        lemma_played_of_draws(s.drop_last());
        assert(s[s.len() - 1] is Draw);
        assert(played_of(s) =~= Seq::<WasPlayed>::empty());
    } else {
        assert(played_of(s) =~= Seq::<WasPlayed>::empty());
    }
}

/// A queue never holds a negative number of draws.
pub proof fn lemma_count_draws_nonneg(s: Seq<CardActionType>)
    ensures
        count_draws(s) >= 0,
    decreases s.len(),
{
    if s.len() > 0 {
        lemma_count_draws_nonneg(s.drop_first());
    }
}

/// The played markers that resolving a queue of actions emits, in order.
pub open spec fn played_of(acts: Seq<CardActionType>) -> Seq<WasPlayed>
    decreases acts.len(),
{
    if acts.len() == 0 {
        Seq::empty()
    } else {
        played_of(acts.drop_last()) + match acts.last() {
            CardActionType::Play(p) => seq![WasPlayed(p.card)],
            _ => Seq::<WasPlayed>::empty(),
        }
    }
}

/// Removing one occurrence of a present element and putting it back leaves a
/// multiset unchanged.
proof fn lemma_ms_remove_insert(m: Multiset<usize>, c: usize)
    requires
        m.count(c) >= 1,
    ensures
        m.remove(c).insert(c) == m,
{
    assert(m.remove(c).insert(c) =~= m);
}

/// Dropping the last element removes one occurrence of it from the sequence's
/// multiset.
proof fn lemma_drop_last_ms(s: Seq<usize>)
    requires
        s.len() > 0,
    ensures
        s.drop_last().to_multiset() == s.to_multiset().remove(s.last()),
{
    broadcast use vstd::seq_lib::group_to_multiset_ensures;

    assert(s.remove(s.len() - 1) =~= s.drop_last());
}

impl Simulation {
    /// Resolve every pending card-flow action, in queue order: draws move the
    /// deck's top card into the hand, recycles and discards move the named
    /// card out of the hand into the matching pile, and plays additionally
    /// leave a played marker for effect resolution. No card is ever created:
    /// every zone count can only stay or shrink (it shrinks only when a draw
    /// meets a full hand), and the deck invariant is preserved.
    pub fn apply_card_actions(&mut self)
        requires
            old(self).wf(),
        ensures
            final(self).wf(),
            final(self).actions@.len() == 0,
            final(self).played@ == old(self).played@ + played_of(old(self).actions@),
            forall|c: usize|
                #[trigger] final(self).zone_multiset().count(c) <= old(self).zone_multiset().count(
                    c,
                ),
            actions_settled(*old(self), *final(self)),
            zones_conserved(*old(self), *final(self)),
            final(self).card_instances == old(self).card_instances,
            final(self).catalog == old(self).catalog,
            final(self).tiles == old(self).tiles,
            final(self).grid == old(self).grid,
            final(self).items == old(self).items,
            final(self).player.game_position == old(self).player.game_position,
            final(self).player.energy == old(self).player.energy,
            final(self).player.water == old(self).player.water,
            final(self).position_changes == old(self).position_changes,
            final(self).energy_changes == old(self).energy_changes,
            final(self).water_changes == old(self).water_changes,
            final(self).tile_changes == old(self).tile_changes,
            final(self).animations == old(self).animations,
            final(self).game_state == old(self).game_state,
            final(self).turn_state == old(self).turn_state,
            final(self).next_game_state == old(self).next_game_state,
            final(self).next_turn_state == old(self).next_turn_state,
            final(self).deck_list == old(self).deck_list,
            final(self).map == old(self).map,
            final(self).mode == old(self).mode,
            final(self).level_index == old(self).level_index,
    {
        proof {
            broadcast use vstd::seq_lib::group_to_multiset_ensures;

        }
        let ghost q = self.actions@;
        let ghost mut done: int = 0;
        proof {
            assert(q.skip(0) =~= q);
        }
        while self.actions.len() > 0
            invariant
                old(self).wf(),
                self.wf(),
                q == old(self).actions@,
                0 <= done <= q.len(),
                self.actions@ == q.skip(done),
                self.played@ == old(self).played@ + played_of(q.take(done)),
                forall|c: usize|
                    #[trigger] self.zone_multiset().count(c) <= old(self).zone_multiset().count(c),
                forall|k: int|
                    0 <= k < done && !((#[trigger] q[k]) is Draw) && (forall|j: int|
                        k < j < q.len() ==> !((#[trigger] q[j]) is Draw)) ==> {
                        let c = action_card(q[k]);
                        &&& !self.player.hand.contains_card(c)
                        &&& !self.player.deck.cards@.contains(c)
                        &&& self.player.deck.recycled@.contains(c) == !(q[k] is Discard)
                        &&& self.player.deck.discarded@.contains(c) == (q[k] is Discard)
                    },
                count_draws(q) <= crate::cards::count_empty(old(self).player.hand.slots()) ==> {
                    &&& count_draws(q.skip(done)) <= crate::cards::count_empty(
                        self.player.hand.slots(),
                    )
                    &&& forall|c: usize|
                        #[trigger] self.zone_multiset().count(c) == old(
                            self,
                        ).zone_multiset().count(c)
                },
                self.card_instances == old(self).card_instances,
                self.catalog == old(self).catalog,
                self.tiles == old(self).tiles,
                self.grid == old(self).grid,
                self.items == old(self).items,
                self.player.game_position == old(self).player.game_position,
                self.player.energy == old(self).player.energy,
                self.player.water == old(self).player.water,
                self.position_changes == old(self).position_changes,
                self.energy_changes == old(self).energy_changes,
                self.water_changes == old(self).water_changes,
                self.tile_changes == old(self).tile_changes,
                self.animations == old(self).animations,
                self.game_state == old(self).game_state,
                self.turn_state == old(self).turn_state,
                self.next_game_state == old(self).next_game_state,
                self.next_turn_state == old(self).next_turn_state,
                self.deck_list == old(self).deck_list,
                self.map == old(self).map,
                self.mode == old(self).mode,
                self.level_index == old(self).level_index,
            decreases self.actions@.len(),
        {
            proof {
                broadcast use vstd::seq_lib::group_to_multiset_ensures;

            }
            let ghost pre = *self;
            let action = self.actions.remove(0);
            proof {
                assert(action == q[done]);
                assert(self.actions@ =~= q.skip(done + 1));
                assert(q.take(done + 1).drop_last() =~= q.take(done));
                assert(q.take(done + 1).last() == q[done]);
                assert(q.skip(done).drop_first() =~= q.skip(done + 1));
                assert(q.skip(done).first() == q[done]);
            }
            proof {
                assert forall|k: int|
                    0 <= k < self.actions@.len() implies match #[trigger] self.actions@[k] {
                    CardActionType::Draw(_) => true,
                    CardActionType::Recycle(a) => self.player.hand.contains_card(a.card) && (
                    !(action is Draw) ==> a.card != action_card(action)),
                    CardActionType::Discard(a) => self.player.hand.contains_card(a.card) && (
                    !(action is Draw) ==> a.card != action_card(action)),
                    CardActionType::Play(a) => self.player.hand.contains_card(a.card) && (!(
                    action is Draw) ==> a.card != action_card(action)),
                } by {
                    assert(self.actions@[k] == pre.actions@[k + 1]);
                    assert(pre.actions@[0] == action);
                }
                assert forall|k1: int, k2: int|
                    0 <= k1 < k2 < self.actions@.len() implies match (
                    #[trigger] self.actions@[k1],
                    #[trigger] self.actions@[k2],
                ) {
                    (CardActionType::Draw(_), _) => true,
                    (_, CardActionType::Draw(_)) => true,
                    (a1, a2) => action_card(a1) != action_card(a2),
                } by {
                    assert(self.actions@[k1] == pre.actions@[k1 + 1]);
                    assert(self.actions@[k2] == pre.actions@[k2 + 1]);
                }
                assert(self.zone_multiset() =~= pre.zone_multiset());
                assert(self.wf());
            }
            let ghost dequeued = *self;
            match action {
                CardActionType::Draw(_) => {
                    let ghost mid0 = *self;
                    let drawn = self.player.deck.draw();
                    let ghost mid = *self;
                    if let Some(card) = drawn {
                        proof {
                            // the drawn card came out of the deck: one
                            // occurrence left the zones
                            if mid0.player.deck.cards@.len() > 0 {
                                lemma_drop_last_ms(mid0.player.deck.cards@);
                            }
                            assert(mid.zone_multiset() =~= mid0.zone_multiset().remove(card));
                            assert(mid0.zone_multiset().count(card) >= 1);
                        }
                        self.player.hand.add(card);
                        proof {
                            if mid.player.hand.has_empty_slot() {
                                let i = choose|i: int|
                                    {
                                        &&& 0 <= i < mid.player.hand.slots().len()
                                        &&& mid.player.hand.slots()[i] is None
                                        &&& forall|j: int|
                                            0 <= j < i ==> mid.player.hand.slots()[j] is Some
                                        &&& self.player.hand.slots() == mid.player.hand.slots()
                                            .update(i, Some(card))
                                    };
                                crate::cards::lemma_hand_ms_fill(mid.player.hand.slots(), i, card);
                                crate::cards::lemma_count_empty_fill(
                                    mid.player.hand.slots(),
                                    i,
                                    card,
                                );
                                assert(mid.player.hand == pre.player.hand);
                                assert(crate::cards::count_empty(self.player.hand.slots())
                                    == crate::cards::count_empty(pre.player.hand.slots()) - 1);
                                assert(self.zone_multiset() =~= mid.zone_multiset().insert(card));
                                lemma_ms_remove_insert(mid0.zone_multiset(), card);
                                assert(self.zone_multiset() =~= mid0.zone_multiset());
                                assert(mid0.zone_multiset() =~= pre.zone_multiset());
                                assert(forall|c: usize|
                                    #[trigger] self.zone_multiset().count(c)
                                        <= pre.zone_multiset().count(c));
                                // remaining actions still name cards in the hand
                                assert forall|k: int|
                                    0 <= k < self.actions@.len() && !((#[trigger] self.actions@[k])
                                        is Draw) implies self.player.hand.contains_card(
                                    action_card(self.actions@[k]),
                                ) by {
                                    let c2 = action_card(self.actions@[k]);
                                    assert(pre.actions@[k + 1] == self.actions@[k]);
                                    assert(pre.player.hand.contains_card(c2));
                                    let j = choose|j: int|
                                        0 <= j < pre.player.hand.slots().len()
                                            && pre.player.hand.slots()[j] == Some(c2);
                                    assert(self.player.hand.slots()[j] == Some(c2));
                                }
                            } else {
                                assert(self.player.hand == mid.player.hand);
                                if count_draws(q) <= crate::cards::count_empty(
                                    old(self).player.hand.slots(),
                                ) {
                                    assert(mid.player.hand == pre.player.hand);
                                    lemma_count_draws_nonneg(q.skip(done + 1));
                                    assert(count_draws(q.skip(done)) >= 1);
                                    assert(crate::cards::count_empty(mid.player.hand.slots())
                                        >= 1);
                                    crate::cards::lemma_count_empty_pos(mid.player.hand.slots());
                                    assert(false);
                                }
                                assert(self.zone_multiset() =~= mid.zone_multiset());
                                assert(mid0.zone_multiset() =~= pre.zone_multiset());
                                assert(forall|c: usize|
                                    #[trigger] self.zone_multiset().count(c)
                                        <= pre.zone_multiset().count(c));
                                assert forall|k: int|
                                    0 <= k < self.actions@.len() && !((#[trigger] self.actions@[k])
                                        is Draw) implies self.player.hand.contains_card(
                                    action_card(self.actions@[k]),
                                ) by {
                                    assert(pre.actions@[k + 1] == self.actions@[k]);
                                }
                            }
                        }
                    } else {
                        proof {
                            assert(self.player.hand == pre.player.hand);
                            assert(mid.zone_multiset() =~= mid0.zone_multiset());
                            assert(mid0.zone_multiset() =~= pre.zone_multiset());
                            assert(forall|c: usize|
                                #[trigger] self.zone_multiset().count(c)
                                    <= pre.zone_multiset().count(c));
                            assert forall|k: int|
                                0 <= k < self.actions@.len() && !((#[trigger] self.actions@[k])
                                    is Draw) implies self.player.hand.contains_card(
                                action_card(self.actions@[k]),
                            ) by {
                                assert(pre.actions@[k + 1] == self.actions@[k]);
                            }
                        }
                    }
                },
                CardActionType::Recycle(a) => {
                    self.resolve_to_pile(a.card, Ghost(pre), false);
                    proof {
                        assert(self.zone_multiset() == dequeued.zone_multiset());
                        assert(dequeued.zone_multiset() =~= pre.zone_multiset());
                    }
                },
                CardActionType::Discard(a) => {
                    self.resolve_to_pile(a.card, Ghost(pre), true);
                    proof {
                        assert(self.zone_multiset() == dequeued.zone_multiset());
                        assert(dequeued.zone_multiset() =~= pre.zone_multiset());
                    }
                },
                CardActionType::Play(a) => {
                    self.resolve_to_pile(a.card, Ghost(pre), false);
                    proof {
                        assert(self.zone_multiset() == dequeued.zone_multiset());
                        assert(dequeued.zone_multiset() =~= pre.zone_multiset());
                    }
                    self.played.push(WasPlayed(a.card));
                    proof {
                        assert(self.zone_multiset() =~= pre.zone_multiset());
                        dequeued.lemma_hand_card_bounded(a.card);
                        assert forall|k: int|
                            0 <= k < self.played@.len() implies (#[trigger] self.played@[k]).0
                            < self.card_instances@.len() by {
                            if k < self.played@.len() - 1 {
                                assert(self.played@[k] == dequeued.played@[k]);
                            }
                        }
                    }
                },
            }
            proof {
                // the queue's remaining pairwise distinctness
                assert forall|k1: int, k2: int|
                    0 <= k1 < k2 < self.actions@.len() implies match (
                    #[trigger] self.actions@[k1],
                    #[trigger] self.actions@[k2],
                ) {
                    (CardActionType::Draw(_), _) => true,
                    (_, CardActionType::Draw(_)) => true,
                    (a1, a2) => action_card(a1) != action_card(a2),
                } by {
                    assert(self.actions@[k1] == q.skip(done)[k1 + 1]);
                    assert(self.actions@[k2] == q.skip(done)[k2 + 1]);
                    assert(pre.actions@[k1 + 1] == self.actions@[k1]);
                    assert(pre.actions@[k2 + 1] == self.actions@[k2]);
                }
                assert(self.played@ == old(self).played@ + played_of(q.take(done + 1)));
                assert forall|c: usize| #[trigger] self.zone_multiset().count(c) <= old(self).zone_multiset().count(c) by {
                    assert(self.zone_multiset().count(c) <= pre.zone_multiset().count(c));
                    assert(pre.zone_multiset().count(c) <= old(self).zone_multiset().count(c));
                }
                assert(dequeued.player == pre.player);
                assert forall|k: int|
                    0 <= k < done + 1 && !((#[trigger] q[k]) is Draw) && (forall|j: int|
                        k < j < q.len() ==> !((#[trigger] q[j]) is Draw)) implies {
                    let c = action_card(q[k]);
                    &&& !self.player.hand.contains_card(c)
                    &&& !self.player.deck.cards@.contains(c)
                    &&& self.player.deck.recycled@.contains(c) == !(q[k] is Discard)
                    &&& self.player.deck.discarded@.contains(c) == (q[k] is Discard)
                } by {
                    if action is Draw {
                        assert(k != done);
                        assert(k < done && k < done && done < q.len());
                        assert(!(q[done] is Draw));
                    } else {
                        let c0 = action_card(action);
                        if k < done {
                            assert(old(self).actions@[k] == q[k]);
                            assert(old(self).actions@[done] == action);
                            assert(action_card(q[k]) != c0);
                        }
                    }
                }
                if count_draws(q) <= crate::cards::count_empty(old(self).player.hand.slots()) {
                    assert(count_draws(q.skip(done + 1)) <= crate::cards::count_empty(
                        self.player.hand.slots(),
                    ));
                    assert(forall|c: usize|
                        #[trigger] self.zone_multiset().count(c) == old(
                            self,
                        ).zone_multiset().count(c));
                }
                done = done + 1;
                assert(self.wf());
            }
        }
        proof {
            assert(q.take(q.len() as int) =~= q);
            reveal(actions_settled);
            reveal(zones_conserved);
            assert(actions_settled(*old(self), *self));
            assert(zones_conserved(*old(self), *self));
        }
    }

    /// Move `card` out of the hand and into the recycled pile (or, when
    /// `discard` is set, the discarded pile). Shared step of recycle, discard
    /// and play resolution: the zone multiset is unchanged.
    fn resolve_to_pile(&mut self, card: usize, Ghost(pre): Ghost<Simulation>, discard: bool)
        requires
            old(self).wf(),
            old(self).player.hand.contains_card(card),
            forall|k: int|
                0 <= k < old(self).actions@.len() ==> match #[trigger] old(self).actions@[k] {
                    CardActionType::Draw(_) => true,
                    CardActionType::Recycle(a) => old(self).player.hand.contains_card(a.card)
                        && a.card != card,
                    CardActionType::Discard(a) => old(self).player.hand.contains_card(a.card)
                        && a.card != card,
                    CardActionType::Play(a) => old(self).player.hand.contains_card(a.card)
                        && a.card != card,
                },
        ensures
            final(self).wf(),
            final(self).zone_multiset() == old(self).zone_multiset(),
            !final(self).player.hand.contains_card(card),
            !final(self).player.deck.cards@.contains(card),
            final(self).player.deck.recycled@.contains(card) == !discard,
            final(self).player.deck.discarded@.contains(card) == discard,
            crate::cards::count_empty(final(self).player.hand.slots()) == crate::cards::count_empty(
                old(self).player.hand.slots(),
            ) + 1,
            forall|c2: usize|
                c2 != card ==> (final(self).player.hand.contains_card(c2) == old(
                    self,
                ).player.hand.contains_card(c2)),
            forall|c2: usize|
                c2 != card ==> (final(self).player.deck.cards@.contains(c2) == old(
                    self,
                ).player.deck.cards@.contains(c2)),
            forall|c2: usize|
                c2 != card ==> (final(self).player.deck.recycled@.contains(c2) == old(
                    self,
                ).player.deck.recycled@.contains(c2)),
            forall|c2: usize|
                c2 != card ==> (final(self).player.deck.discarded@.contains(c2) == old(
                    self,
                ).player.deck.discarded@.contains(c2)),
            final(self).actions == old(self).actions,
            final(self).played == old(self).played,
            final(self).card_instances == old(self).card_instances,
            final(self).catalog == old(self).catalog,
            final(self).tiles == old(self).tiles,
            final(self).grid == old(self).grid,
            final(self).items == old(self).items,
            final(self).player.game_position == old(self).player.game_position,
            final(self).player.energy == old(self).player.energy,
            final(self).player.water == old(self).player.water,
            final(self).position_changes == old(self).position_changes,
            final(self).energy_changes == old(self).energy_changes,
            final(self).water_changes == old(self).water_changes,
            final(self).tile_changes == old(self).tile_changes,
            final(self).animations == old(self).animations,
            final(self).game_state == old(self).game_state,
            final(self).turn_state == old(self).turn_state,
            final(self).next_game_state == old(self).next_game_state,
            final(self).next_turn_state == old(self).next_turn_state,
            final(self).deck_list == old(self).deck_list,
            final(self).map == old(self).map,
            final(self).mode == old(self).mode,
            final(self).level_index == old(self).level_index,
    {
        proof {
            broadcast use vstd::seq_lib::group_to_multiset_ensures;

        }
        let ghost s0 = *self;
        proof {
            // under the invariant, the card sits in the hand only: every pile
            // count of it is zero
            let i = choose|i: int|
                0 <= i < s0.player.hand.slots().len() && s0.player.hand.slots()[i] == Some(card);
            crate::cards::lemma_hand_ms_count_pos(s0.player.hand.slots(), i, card);
            assert(s0.zone_multiset().count(card) <= 1);
            assert(s0.player.deck.cards@.to_multiset().count(card) == 0);
            assert(s0.player.deck.recycled@.to_multiset().count(card) == 0);
            assert(s0.player.deck.discarded@.to_multiset().count(card) == 0);
            assert(!s0.player.deck.cards@.contains(card));
            assert(!s0.player.deck.recycled@.contains(card));
        }
        self.player.hand.remove(card);
        let ghost mid = *self;
        proof {
            let i = choose|i: int|
                {
                    &&& 0 <= i < s0.player.hand.slots().len()
                    &&& s0.player.hand.slots()[i] == Some(card)
                    &&& forall|j: int| 0 <= j < i ==> s0.player.hand.slots()[j] != Some(card)
                    &&& mid.player.hand.slots() == s0.player.hand.slots().update(
                        i,
                        None::<usize>,
                    )
                };
            crate::cards::lemma_hand_ms_clear(s0.player.hand.slots(), i, card);
            crate::cards::lemma_count_empty_clear(s0.player.hand.slots(), i);
            assert(mid.zone_multiset() =~= s0.zone_multiset().remove(card));
        }
        if discard {
            self.player.deck.discard(card);
        } else {
            self.player.deck.recycle(card);
        }
        proof {
            assert(self.zone_multiset() =~= mid.zone_multiset().insert(card));
            lemma_ms_remove_insert(s0.zone_multiset(), card);
            assert(self.zone_multiset() =~= s0.zone_multiset());
            // the other queued actions' cards keep their hand slots
            assert forall|k: int|
                0 <= k < self.actions@.len() && !((#[trigger] self.actions@[k]) is Draw) implies
                self.player.hand.contains_card(action_card(self.actions@[k])) by {
                let c2 = action_card(self.actions@[k]);
                assert(s0.player.hand.contains_card(c2) && c2 != card);
                let j = choose|j: int|
                    0 <= j < s0.player.hand.slots().len() && s0.player.hand.slots()[j] == Some(
                        c2,
                    );
                assert(self.player.hand.slots()[j] == Some(c2));
            }
            assert(self.wf());
            // membership of the resolved card after the move
            let i0 = choose|i: int|
                {
                    &&& 0 <= i < s0.player.hand.slots().len()
                    &&& s0.player.hand.slots()[i] == Some(card)
                    &&& mid.player.hand.slots() == s0.player.hand.slots().update(
                        i,
                        None::<usize>,
                    )
                };
            assert(!self.player.hand.contains_card(card)) by {
                if self.player.hand.contains_card(card) {
                    let j = choose|j: int|
                        0 <= j < self.player.hand.slots().len() && self.player.hand.slots()[j]
                            == Some(card);
                    assert(j != i0);
                    assert(s0.player.hand.slots()[j] == Some(card));
                    if j < i0 {
                        crate::cards::lemma_hand_ms_two(s0.player.hand.slots(), j, i0, card);
                    } else {
                        crate::cards::lemma_hand_ms_two(s0.player.hand.slots(), i0, j, card);
                    }
                }
            }
            assert(!self.player.deck.cards@.contains(card)) by {
                assert(self.player.deck.cards@.to_multiset().count(card) == 0);
            }
            if discard {
                assert(!self.player.deck.recycled@.contains(card)) by {
                    assert(self.player.deck.recycled@.to_multiset().count(card) == 0);
                }
                assert(self.player.deck.discarded@.contains(card)) by {
                    assert(self.player.deck.discarded@.last() == card);
                }
            } else {
                assert(self.player.deck.recycled@.contains(card)) by {
                    assert(self.player.deck.recycled@.last() == card);
                }
                assert(!self.player.deck.discarded@.contains(card));
            }
            // every other card keeps its memberships
            assert forall|c2: usize| c2 != card implies (self.player.hand.contains_card(c2)
                == s0.player.hand.contains_card(c2)) by {
                if s0.player.hand.contains_card(c2) {
                    let j = choose|j: int|
                        0 <= j < s0.player.hand.slots().len() && s0.player.hand.slots()[j] == Some(
                            c2,
                        );
                    assert(self.player.hand.slots()[j] == Some(c2));
                }
                if self.player.hand.contains_card(c2) {
                    let j = choose|j: int|
                        0 <= j < self.player.hand.slots().len() && self.player.hand.slots()[j]
                            == Some(c2);
                    assert(s0.player.hand.slots()[j] == Some(c2));
                }
            }
            assert forall|c2: usize| c2 != card implies (self.player.deck.cards@.contains(c2)
                == s0.player.deck.cards@.contains(c2)) by {
                assert(self.player.deck.cards@.to_multiset().count(c2)
                    == s0.player.deck.cards@.to_multiset().count(c2));
            }
            assert forall|c2: usize| c2 != card implies (self.player.deck.recycled@.contains(c2)
                == s0.player.deck.recycled@.contains(c2)) by {
                if discard {
                    assert(self.player.deck.recycled@.to_multiset().count(c2)
                        == s0.player.deck.recycled@.to_multiset().count(c2));
                } else {
                    broadcast use vstd::seq_lib::lemma_seq_contains_after_push;

                    assert(self.player.deck.recycled@ == s0.player.deck.recycled@.push(card));
                }
            }
            assert forall|c2: usize| c2 != card implies (self.player.deck.discarded@.contains(c2)
                == s0.player.deck.discarded@.contains(c2)) by {
                if discard {
                    broadcast use vstd::seq_lib::lemma_seq_contains_after_push;

                    assert(self.player.deck.discarded@ == s0.player.deck.discarded@.push(card));
                }
            }
        }
    }
}


/// The last value a queue of player-addressed changes assigns, or the default
/// when none addresses the player.
pub open spec fn last_change<T>(cs: Seq<Change<T>>, default: T) -> T
    decreases cs.len(),
{
    if cs.len() == 0 {
        default
    } else if cs.last().entity == PLAYER_ENTITY {
        cs.last().updated_value
    } else {
        last_change(cs.drop_last(), default)
    }
}

/// The board after committing a queue of tile changes in order; a change
/// addressing no existing tile is dropped.
pub open spec fn apply_tile_changes(tiles: Seq<Tile>, cs: Seq<Change<Tile>>) -> Seq<Tile>
    decreases cs.len(),
{
    if cs.len() == 0 {
        tiles
    } else {
        let prev = apply_tile_changes(tiles, cs.drop_last());
        let c = cs.last();
        if c.entity < tiles.len() {
            prev.update(c.entity as int, c.updated_value)
        } else {
            prev
        }
    }
}

/// Committing tile changes never changes the board's size.
pub proof fn lemma_apply_tile_changes_len(tiles: Seq<Tile>, cs: Seq<Change<Tile>>)
    ensures
        apply_tile_changes(tiles, cs).len() == tiles.len(),
    decreases cs.len(),
{
    if cs.len() > 0 {
        lemma_apply_tile_changes_len(tiles, cs.drop_last());
    }
}

impl Simulation {
    /// Commit every pending change record, in queue order per component:
    /// position, energy, water, then tiles. All readers before this pass saw
    /// pre-mutation state; all readers after it see the committed values.
    pub fn apply_change(&mut self)
        requires
            old(self).wf(),
        ensures
            final(self).wf(),
            final(self).player.game_position == last_change(
                old(self).position_changes@,
                old(self).player.game_position,
            ),
            final(self).player.energy == last_change(
                old(self).energy_changes@,
                old(self).player.energy,
            ),
            final(self).player.water == last_change(
                old(self).water_changes@,
                old(self).player.water,
            ),
            final(self).tiles@ == apply_tile_changes(old(self).tiles@, old(self).tile_changes@),
            final(self).position_changes@.len() == 0,
            final(self).energy_changes@.len() == 0,
            final(self).water_changes@.len() == 0,
            final(self).tile_changes@.len() == 0,
            final(self).player.deck == old(self).player.deck,
            final(self).player.hand == old(self).player.hand,
            final(self).card_instances == old(self).card_instances,
            final(self).catalog == old(self).catalog,
            final(self).grid == old(self).grid,
            final(self).items == old(self).items,
            final(self).actions == old(self).actions,
            final(self).played == old(self).played,
            final(self).animations == old(self).animations,
            final(self).game_state == old(self).game_state,
            final(self).turn_state == old(self).turn_state,
            final(self).next_game_state == old(self).next_game_state,
            final(self).next_turn_state == old(self).next_turn_state,
            final(self).deck_list == old(self).deck_list,
            final(self).map == old(self).map,
            final(self).mode == old(self).mode,
            final(self).level_index == old(self).level_index,
    {
        let n1 = self.position_changes.len();
        for i in 0..n1
            invariant
                old(self).wf(),
                n1 == self.position_changes@.len(),
                self.position_changes == old(self).position_changes,
                self.player.game_position == last_change(
                    old(self).position_changes@.take(i as int),
                    old(self).player.game_position,
                ),
                -1000000 <= self.player.game_position.x <= 1000000,
                -1000000 <= self.player.game_position.y <= 1000000,
                self.player.deck == old(self).player.deck,
                self.player.hand == old(self).player.hand,
                self.player.energy == old(self).player.energy,
                self.player.water == old(self).player.water,
                unchanged_but_player(*old(self), *self),
        {
            proof {
                assert(old(self).position_changes@.take(i + 1).drop_last() =~= old(self).position_changes@.take(i as int));
            }
            let c = self.position_changes[i];
            if c.entity == PLAYER_ENTITY {
                self.player.game_position = c.updated_value;
            }
        }
        proof {
            assert(old(self).position_changes@.take(n1 as int) =~= old(self).position_changes@);
        }
        let n2 = self.energy_changes.len();
        for i in 0..n2
            invariant
                old(self).wf(),
                n2 == self.energy_changes@.len(),
                self.energy_changes == old(self).energy_changes,
                self.player.energy == last_change(
                    old(self).energy_changes@.take(i as int),
                    old(self).player.energy,
                ),
                0 <= self.player.energy.current <= self.player.energy.maximum <= 1000000,
                self.player.deck == old(self).player.deck,
                self.player.hand == old(self).player.hand,
                self.player.water == old(self).player.water,
                self.player.game_position == last_change(
                    old(self).position_changes@,
                    old(self).player.game_position,
                ),
                -1000000 <= self.player.game_position.x <= 1000000,
                -1000000 <= self.player.game_position.y <= 1000000,
                unchanged_but_player(*old(self), *self),
        {
            proof {
                assert(old(self).energy_changes@.take(i + 1).drop_last() =~= old(self).energy_changes@.take(i as int));
            }
            let c = self.energy_changes[i];
            if c.entity == PLAYER_ENTITY {
                self.player.energy = c.updated_value;
            }
        }
        proof {
            assert(old(self).energy_changes@.take(n2 as int) =~= old(self).energy_changes@);
        }
        let n3 = self.water_changes.len();
        for i in 0..n3
            invariant
                old(self).wf(),
                n3 == self.water_changes@.len(),
                self.water_changes == old(self).water_changes,
                self.player.water == last_change(
                    old(self).water_changes@.take(i as int),
                    old(self).player.water,
                ),
                0 <= self.player.water.current <= self.player.water.maximum <= 1000000,
                self.player.deck == old(self).player.deck,
                self.player.hand == old(self).player.hand,
                self.player.energy == last_change(
                    old(self).energy_changes@,
                    old(self).player.energy,
                ),
                0 <= self.player.energy.current <= self.player.energy.maximum <= 1000000,
                self.player.game_position == last_change(
                    old(self).position_changes@,
                    old(self).player.game_position,
                ),
                -1000000 <= self.player.game_position.x <= 1000000,
                -1000000 <= self.player.game_position.y <= 1000000,
                unchanged_but_player(*old(self), *self),
        {
            proof {
                assert(old(self).water_changes@.take(i + 1).drop_last() =~= old(self).water_changes@.take(i as int));
            }
            let c = self.water_changes[i];
            if c.entity == PLAYER_ENTITY {
                self.player.water = c.updated_value;
            }
        }
        proof {
            assert(old(self).water_changes@.take(n3 as int) =~= old(self).water_changes@);
        }
        let ghost after_player = *self;
        let n4 = self.tile_changes.len();
        for i in 0..n4
            invariant
                old(self).wf(),
                n4 == self.tile_changes@.len(),
                self.tile_changes == old(self).tile_changes,
                forall|k: int|
                    0 <= k < old(self).tile_changes@.len() ==> (#[trigger] old(self).tile_changes@[k]).entity < old(self).tiles@.len(),
                self.tiles@ == apply_tile_changes(
                    old(self).tiles@,
                    old(self).tile_changes@.take(i as int),
                ),
                self.tiles@.len() == old(self).tiles@.len(),
                self.player == after_player.player,
                self.grid == old(self).grid,
                self.card_instances == old(self).card_instances,
                self.catalog == old(self).catalog,
                self.items == old(self).items,
                self.actions == old(self).actions,
                self.played == old(self).played,
                self.animations == old(self).animations,
                self.game_state == old(self).game_state,
                self.turn_state == old(self).turn_state,
                self.next_game_state == old(self).next_game_state,
                self.next_turn_state == old(self).next_turn_state,
                self.deck_list == old(self).deck_list,
                self.map == old(self).map,
                self.mode == old(self).mode,
                self.level_index == old(self).level_index,
                self.position_changes == old(self).position_changes,
                self.energy_changes == old(self).energy_changes,
                self.water_changes == old(self).water_changes,
        {
            proof {
                assert(old(self).tile_changes@.take(i + 1).drop_last() =~= old(self).tile_changes@.take(i as int));
            }
            let c = self.tile_changes[i];
            if c.entity < self.tiles.len() {
                self.tiles.set(c.entity, c.updated_value);
            }
        }
        proof {
            assert(old(self).tile_changes@.take(n4 as int) =~= old(self).tile_changes@);
        }
        self.position_changes.clear();
        self.energy_changes.clear();
        self.water_changes.clear();
        self.tile_changes.clear();
        proof {
            assert(self.zone_multiset() =~= old(self).zone_multiset());
            assert(self.wf());
        }
    }
}


/// The tile a card's movement effect sends the player to, from `base`. A
/// plain distance is walked after the card's rotation is applied; an offset
/// list moves to its first offset and rotates afterwards.
pub open spec fn movement_dest(info: crate::cards::CardInfo, base: GamePosition) -> GamePosition {
    match info.position_change.position {
        crate::cards::TileTarget::FacingDist(d) => base.rotated_spec(
            info.position_change.rotation,
        ).offset_spec(d as int, 0),
        crate::cards::TileTarget::FacingOffsets(offs) => base.offset_spec(
            offs@[0].facing as int,
            offs@[0].tangent as int,
        ).rotated_spec(info.position_change.rotation),
    }
}

/// Resolve a card's movement destination, the single computation shared by
/// the playability gate and effect resolution.
fn movement_destination(info: &crate::cards::CardInfo, base: &GamePosition) -> (r: GamePosition)
    requires
        card_info_wf(*info),
        -1000000 <= base.x <= 1000000,
        -1000000 <= base.y <= 1000000,
    ensures
        r == movement_dest(*info, *base),
        -1000008 <= r.x <= 1000008,
        -1000008 <= r.y <= 1000008,
{
    match &info.position_change.position {
        crate::cards::TileTarget::FacingDist(d) => {
            let turned = base.rotated(&info.position_change.rotation);
            turned.offset((*d, 0))
        },
        crate::cards::TileTarget::FacingOffsets(offs) => {
            let o = offs[0];
            let moved = base.offset((o.facing, o.tangent));
            moved.rotated(&info.position_change.rotation)
        },
    }
}

impl Simulation {
    /// Whether a card with definition `info` is legal right now: affordable
    /// from both pools, and its movement destination is an existing,
    /// non-blocking tile.
    pub open spec fn card_playable(self, info: crate::cards::CardInfo) -> bool {
        &&& info.resource_cost.energy <= self.player.energy.current
        &&& info.resource_cost.water <= self.player.water.current
        &&& match self.grid.get_spec(movement_dest(info, self.player.game_position)) {
            Some(id) => !(self.tiles@[id as int] is Wall),
            None => false,
        }
    }

    /// The status the playability gate assigns to a card with content `cid`.
    pub open spec fn gate_status(self, cid: ContentID) -> CardStatus {
        if self.card_playable(self.catalog.info_spec(cid)) {
            CardStatus::Playable
        } else {
            CardStatus::Unplayable
        }
    }

    /// Recompute the status of every card in the hand from the current
    /// resources, position and board: the sole gate consulted before a play
    /// is enqueued.
    pub fn update_playability(&mut self)
        requires
            old(self).wf(),
        ensures
            final(self).wf(),
            final(self).card_instances@.len() == old(self).card_instances@.len(),
            forall|j: int|
                0 <= j < old(self).card_instances@.len() ==> final(self).card_instances@[j] == if
                    old(self).player.hand.contains_card(j as usize) {
                    CardInstance {
                        status: old(self).gate_status(old(self).card_instances@[j].content),
                        ..old(self).card_instances@[j]
                    }
                } else {
                    old(self).card_instances@[j]
                },
            final(self).player == old(self).player,
            unchanged_but_instances(*old(self), *final(self)),
    {
        let n = self.player.hand.0.len();
        let m = self.card_instances.len();
        for s in 0..n
            invariant
                old(self).wf(),
                self.wf(),
                n == self.player.hand.slots().len(),
                self.player == old(self).player,
                unchanged_but_instances(*old(self), *self),
                self.card_instances@.len() == old(self).card_instances@.len(),
                self.card_instances@.len() == m,
                forall|j: int|
                    0 <= j < old(self).card_instances@.len() ==> self.card_instances@[j] == if (
                    exists|s2: int|
                        0 <= s2 < s && old(self).player.hand.slots()[s2] == Some(j as usize)) {
                        CardInstance {
                            status: old(self).gate_status(old(self).card_instances@[j].content),
                            ..old(self).card_instances@[j]
                        }
                    } else {
                        old(self).card_instances@[j]
                    },
        {
            let slot = self.player.hand.0[s];
            if let Some(c) = slot {
                proof {
                    self.lemma_hand_card_bounded(c);
                }
                let ghost pre = *self;
                let content = self.card_instances[c].content;
                let info_opt = self.catalog.get(&content);
                let info = info_opt.unwrap();
                let affordable = info.resource_cost.energy <= self.player.energy.current
                    && info.resource_cost.water <= self.player.water.current;
                let status = if !affordable {
                    CardStatus::Unplayable
                } else {
                    let dest = movement_destination(info, &self.player.game_position);
                    let dest_ok = match self.grid.get(&dest) {
                        Some(id) => {
                            proof {
                                assert(self.grid.in_bounds(dest.x as int, dest.y as int));
                                crate::tiles::lemma_row_major_in_range(
                                    dest.x as int,
                                    dest.y as int,
                                    self.grid.cols(),
                                    self.grid.rows(),
                                );
                            }
                            !matches!(self.tiles[id], Tile::Wall)
                        },
                        None => false,
                    };
                    if dest_ok {
                        CardStatus::Playable
                    } else {
                        CardStatus::Unplayable
                    }
                };
                proof {
                    assert(status == old(self).gate_status(pre.card_instances@[c as int].content));
                    assert(pre.card_instances@[c as int].content == old(self).card_instances@[c as int].content);
                }
                let mut inst = self.card_instances[c];
                inst.status = status;
                self.card_instances.set(c, inst);
                proof {
                    assert(self.zone_multiset() =~= pre.zone_multiset());
                    assert forall|k: int|
                        0 <= k < self.card_instances@.len() implies self.catalog.contains_id(
                        (#[trigger] self.card_instances@[k]).content,
                    ) by {
                        if k != c {
                            assert(self.card_instances@[k] == pre.card_instances@[k]);
                        }
                    }
                    assert(self.wf());
                    assert(old(self).player.hand.slots()[s as int] == Some(c));
                    assert forall|j: int|
                        0 <= j < old(self).card_instances@.len() implies self.card_instances@[j]
                        == if (exists|s2: int|
                        0 <= s2 < s + 1 && old(self).player.hand.slots()[s2] == Some(
                            j as usize,
                        )) {
                        CardInstance {
                            status: old(self).gate_status(old(self).card_instances@[j].content),
                            ..old(self).card_instances@[j]
                        }
                    } else {
                        old(self).card_instances@[j]
                    } by {
                        if j == c {
                            assert(old(self).player.hand.slots()[s as int] == Some(j as usize));
                        } else {
                            assert(self.card_instances@[j] == pre.card_instances@[j]);
                            if exists|s2: int|
                                0 <= s2 < s + 1 && old(self).player.hand.slots()[s2] == Some(
                                    j as usize,
                                ) {
                                let s2 = choose|s2: int|
                                    0 <= s2 < s + 1 && old(self).player.hand.slots()[s2] == Some(
                                        j as usize,
                                    );
                                assert(s2 != s);
                            }
                        }
                    }
                }
            } else {
                proof {
                    assert forall|j: int|
                        0 <= j < old(self).card_instances@.len() implies self.card_instances@[j]
                        == if (exists|s2: int|
                        0 <= s2 < s + 1 && old(self).player.hand.slots()[s2] == Some(
                            j as usize,
                        )) {
                        CardInstance {
                            status: old(self).gate_status(old(self).card_instances@[j].content),
                            ..old(self).card_instances@[j]
                        }
                    } else {
                        old(self).card_instances@[j]
                    } by {
                        if exists|s2: int|
                            0 <= s2 < s + 1 && old(self).player.hand.slots()[s2] == Some(
                                j as usize,
                            ) {
                            let s2 = choose|s2: int|
                                0 <= s2 < s + 1 && old(self).player.hand.slots()[s2] == Some(
                                    j as usize,
                                );
                            assert(s2 != s);
                        }
                    }
                }
            }
        }
    }
}

/// Everything but the card arena is the same in both states.
pub open spec fn unchanged_but_instances(a: Simulation, b: Simulation) -> bool {
    &&& b.game_state == a.game_state
    &&& b.next_game_state == a.next_game_state
    &&& b.turn_state == a.turn_state
    &&& b.next_turn_state == a.next_turn_state
    &&& b.pending_game_transition == a.pending_game_transition
    &&& b.pending_turn_transition == a.pending_turn_transition
    &&& b.catalog == a.catalog
    &&& b.player == a.player
    &&& b.tiles == a.tiles
    &&& b.grid == a.grid
    &&& b.items == a.items
    &&& b.actions == a.actions
    &&& b.played == a.played
    &&& b.position_changes == a.position_changes
    &&& b.energy_changes == a.energy_changes
    &&& b.water_changes == a.water_changes
    &&& b.tile_changes == a.tile_changes
    &&& b.animations == a.animations
    &&& b.deck_list == a.deck_list
    &&& b.map == a.map
    &&& b.mode == a.mode
    &&& b.level_index == a.level_index
}


/// The definition of the card a played marker names.
pub open spec fn played_info(sim: Simulation, wp: WasPlayed) -> crate::cards::CardInfo {
    sim.catalog.info_spec(sim.card_instances@[wp.0 as int].content)
}

/// The tile changes that watering a list of resolved positions emits: one
/// change to `Empty` per position whose tile exists and burns, in order.
pub open spec fn damage_tile_changes(tiles: Seq<Tile>, grid: Grid, ps: Seq<GamePosition>) -> Seq<
    Change<Tile>,
>
    decreases ps.len(),
{
    if ps.len() == 0 {
        Seq::empty()
    } else {
        damage_tile_changes(tiles, grid, ps.drop_last()) + match grid.get_spec(ps.last()) {
            Some(id) => if tiles[id as int] is Fire {
                seq![Change { entity: id, updated_value: Tile::Empty }]
            } else {
                Seq::<Change<Tile>>::empty()
            },
            None => Seq::<Change<Tile>>::empty(),
        }
    }
}

/// The tile changes one played card emits from the snapshot `sim`.
pub open spec fn card_damage_changes(sim: Simulation, info: crate::cards::CardInfo) -> Seq<Change<
    Tile,
>> {
    if info.water_damage.amount > 0 {
        damage_tile_changes(
            sim.tiles@,
            sim.grid,
            info.water_damage.damage_target.positions_spec(sim.player.game_position),
        )
    } else {
        Seq::empty()
    }
}

/// The energy changes that resolving a queue of played markers emits, all
/// read against `sim`: one per marker whose card passes the playability gate.
pub open spec fn energy_emissions(sim: Simulation, played: Seq<WasPlayed>) -> Seq<Change<Energy>>
    decreases played.len(),
{
    if played.len() == 0 {
        Seq::empty()
    } else {
        let info = played_info(sim, played.last());
        energy_emissions(sim, played.drop_last()) + if sim.card_playable(info) {
            seq![
                Change {
                    entity: PLAYER_ENTITY,
                    updated_value: Energy {
                        current: (sim.player.energy.current - info.resource_cost.energy) as i32,
                        maximum: sim.player.energy.maximum,
                    },
                },
            ]
        } else {
            Seq::<Change<Energy>>::empty()
        }
    }
}

/// The water changes resolving a queue of played markers emits.
pub open spec fn water_emissions(sim: Simulation, played: Seq<WasPlayed>) -> Seq<Change<Water>>
    decreases played.len(),
{
    if played.len() == 0 {
        Seq::empty()
    } else {
        let info = played_info(sim, played.last());
        water_emissions(sim, played.drop_last()) + if sim.card_playable(info) {
            seq![
                Change {
                    entity: PLAYER_ENTITY,
                    updated_value: Water {
                        current: (sim.player.water.current - info.resource_cost.water) as i32,
                        maximum: sim.player.water.maximum,
                    },
                },
            ]
        } else {
            Seq::<Change<Water>>::empty()
        }
    }
}

/// The position changes resolving a queue of played markers emits.
pub open spec fn position_emissions(sim: Simulation, played: Seq<WasPlayed>) -> Seq<Change<
    GamePosition,
>>
    decreases played.len(),
{
    if played.len() == 0 {
        Seq::empty()
    } else {
        let info = played_info(sim, played.last());
        position_emissions(sim, played.drop_last()) + if sim.card_playable(info) {
            seq![
                Change {
                    entity: PLAYER_ENTITY,
                    updated_value: movement_dest(info, sim.player.game_position),
                },
            ]
        } else {
            Seq::<Change<GamePosition>>::empty()
        }
    }
}

/// The tile changes resolving a queue of played markers emits.
pub open spec fn tile_emissions(sim: Simulation, played: Seq<WasPlayed>) -> Seq<Change<Tile>>
    decreases played.len(),
{
    if played.len() == 0 {
        Seq::empty()
    } else {
        let info = played_info(sim, played.last());
        tile_emissions(sim, played.drop_last()) + if sim.card_playable(info) {
            card_damage_changes(sim, info)
        } else {
            Seq::<Change<Tile>>::empty()
        }
    }
}

impl Simulation {
    /// Resolve every played card against the current snapshot: emit the
    /// energy and water deductions, the movement change with its animations,
    /// and one extinguishing change per burning target tile, then enter the
    /// animating phase. Nothing is mutated directly: all effects go through
    /// change records. A card that no longer re-validates against the
    /// playability gate (a play that slipped past a stale status) emits no
    /// effects at all.
    pub fn apply_card(&mut self)
        requires
            old(self).wf(),
        ensures
            final(self).wf(),
            final(self).played@.len() == 0,
            final(self).energy_changes@ == old(self).energy_changes@ + energy_emissions(
                *old(self),
                old(self).played@,
            ),
            final(self).water_changes@ == old(self).water_changes@ + water_emissions(
                *old(self),
                old(self).played@,
            ),
            final(self).position_changes@ == old(self).position_changes@ + position_emissions(
                *old(self),
                old(self).played@,
            ),
            final(self).tile_changes@ == old(self).tile_changes@ + tile_emissions(
                *old(self),
                old(self).played@,
            ),
            final(self).next_turn_state == if old(self).played@.len() > 0 {
                Some(TurnState::Animating)
            } else {
                old(self).next_turn_state
            },
            final(self).player == old(self).player,
            final(self).card_instances == old(self).card_instances,
            final(self).catalog == old(self).catalog,
            final(self).tiles == old(self).tiles,
            final(self).grid == old(self).grid,
            final(self).items == old(self).items,
            final(self).actions == old(self).actions,
            final(self).game_state == old(self).game_state,
            final(self).turn_state == old(self).turn_state,
            final(self).next_game_state == old(self).next_game_state,
            final(self).deck_list == old(self).deck_list,
            final(self).map == old(self).map,
            final(self).mode == old(self).mode,
            final(self).level_index == old(self).level_index,
    {
        let ghost q = self.played@;
        let ghost mut done: int = 0;
        while self.played.len() > 0
            invariant
                old(self).wf(),
                self.wf(),
                q == old(self).played@,
                0 <= done <= q.len(),
                self.played@ == q.skip(done),
                self.energy_changes@ == old(self).energy_changes@ + energy_emissions(
                    *old(self),
                    q.take(done),
                ),
                self.water_changes@ == old(self).water_changes@ + water_emissions(
                    *old(self),
                    q.take(done),
                ),
                self.position_changes@ == old(self).position_changes@ + position_emissions(
                    *old(self),
                    q.take(done),
                ),
                self.tile_changes@ == old(self).tile_changes@ + tile_emissions(
                    *old(self),
                    q.take(done),
                ),
                self.next_turn_state == if done > 0 {
                    Some(TurnState::Animating)
                } else {
                    old(self).next_turn_state
                },
                self.player == old(self).player,
                self.card_instances == old(self).card_instances,
                self.catalog == old(self).catalog,
                self.tiles == old(self).tiles,
                self.grid == old(self).grid,
                self.items == old(self).items,
                self.actions == old(self).actions,
                self.game_state == old(self).game_state,
                self.turn_state == old(self).turn_state,
                self.next_game_state == old(self).next_game_state,
                self.deck_list == old(self).deck_list,
                self.map == old(self).map,
                self.mode == old(self).mode,
                self.level_index == old(self).level_index,
            decreases self.played@.len(),
        {
            let ghost pre = *self;
            let wp = self.played.remove(0);
            let card = wp.0;
            proof {
                assert(wp == q[done]);
                assert(self.played@ =~= q.skip(done + 1));
                assert(q.take(done + 1).drop_last() =~= q.take(done));
                assert(q.take(done + 1).last() == q[done]);
                assert(pre.played@[0] == wp);
                assert(pre.zone_multiset() =~= self.zone_multiset());
            }
            let content = self.card_instances[card].content;
            let info = self.catalog.get(&content).unwrap();
            proof {
                assert(*info == played_info(*old(self), wp));
            }
            let affordable = info.resource_cost.energy <= self.player.energy.current
                && info.resource_cost.water <= self.player.water.current;
            let dest = movement_destination(info, &self.player.game_position);
            let dest_tile = self.grid.get(&dest);
            let dest_ok = match dest_tile {
                Some(id) => {
                    proof {
                        assert(self.grid.in_bounds(dest.x as int, dest.y as int));
                        crate::tiles::lemma_row_major_in_range(
                            dest.x as int,
                            dest.y as int,
                            self.grid.cols(),
                            self.grid.rows(),
                        );
                    }
                    !matches!(self.tiles[id], Tile::Wall)
                },
                None => false,
            };
            if affordable && dest_ok {
                proof {
                    assert(old(self).card_playable(played_info(*old(self), wp)));
                }
                self.energy_changes.push(
                    Change {
                        entity: PLAYER_ENTITY,
                        updated_value: Energy {
                            current: self.player.energy.current - info.resource_cost.energy,
                            maximum: self.player.energy.maximum,
                        },
                    },
                );
                self.water_changes.push(
                    Change {
                        entity: PLAYER_ENTITY,
                        updated_value: Water {
                            current: self.player.water.current - info.resource_cost.water,
                            maximum: self.player.water.maximum,
                        },
                    },
                );
                self.animations.push(AnimationType::Move(PLAYER_ENTITY, dest));
                if !matches!(info.position_change.rotation, crate::cards::Rotation::Identity) {
                    self.animations.push(AnimationType::Rotate(PLAYER_ENTITY, dest.d));
                }
                self.position_changes.push(
                    Change { entity: PLAYER_ENTITY, updated_value: dest },
                );
                proof {
                    assert(-4096 <= dest.x <= 4096);
                    assert(-4096 <= dest.y <= 4096);
                }
                if info.water_damage.amount > 0 {
                    let ps = info.water_damage.damage_target.get_positions(
                        &self.player.game_position,
                    );
                    let ghost base_tc = self.tile_changes@;
                    let ghost mid = *self;
                    let ghost target = info.water_damage.damage_target.positions_spec(
                        old(self).player.game_position,
                    );
                    let np = ps.len();
                    for i in 0..np
                        invariant
                            old(self).wf(),
                            np == ps@.len(),
                            ps@ == target,
                            self.grid == old(self).grid,
                            self.tiles == old(self).tiles,
                            self.tile_changes@ == base_tc + damage_tile_changes(
                                old(self).tiles@,
                                old(self).grid,
                                target.take(i as int),
                            ),
                            forall|k: int|
                                0 <= k < self.tile_changes@.len() ==> (
                                #[trigger] self.tile_changes@[k]).entity < self.tiles@.len(),
                            self.player == mid.player,
                            self.card_instances == mid.card_instances,
                            self.catalog == mid.catalog,
                            self.items == mid.items,
                            self.actions == mid.actions,
                            self.played == mid.played,
                            self.energy_changes == mid.energy_changes,
                            self.water_changes == mid.water_changes,
                            self.position_changes == mid.position_changes,
                            self.game_state == mid.game_state,
                            self.turn_state == mid.turn_state,
                            self.next_game_state == mid.next_game_state,
                            self.next_turn_state == mid.next_turn_state,
                            self.pending_game_transition == mid.pending_game_transition,
                            self.pending_turn_transition == mid.pending_turn_transition,
                            self.deck_list == mid.deck_list,
                            self.map == mid.map,
                            self.mode == mid.mode,
                            self.level_index == mid.level_index,
                    {
                        proof {
                            assert(target.take(i + 1).drop_last() =~= target.take(i as int));
                            assert(target.take(i + 1).last() == target[i as int]);
                        }
                        let p = ps[i];
                        match self.grid.get(&p) {
                            Some(tid) => {
                                proof {
                                    assert(self.grid.in_bounds(p.x as int, p.y as int));
                                    crate::tiles::lemma_row_major_in_range(
                                        p.x as int,
                                        p.y as int,
                                        self.grid.cols(),
                                        self.grid.rows(),
                                    );
                                }
                                self.animations.push(AnimationType::Blue(tid));
                                if matches!(self.tiles[tid], Tile::Fire(_)) {
                                    self.tile_changes.push(
                                        Change { entity: tid, updated_value: Tile::Empty },
                                    );
                                    self.animations.push(AnimationType::Smoke(tid));
                                }
                            },
                            None => {},
                        }
                        proof {
                            assert(self.tile_changes@ =~= base_tc + damage_tile_changes(
                                old(self).tiles@,
                                old(self).grid,
                                target.take(i + 1),
                            ));
                        }
                    }
                    proof {
                        assert(target.take(np as int) =~= target);
                    }
                }
            } else {
                proof {
                    assert(!old(self).card_playable(played_info(*old(self), wp)));
                }
            }
            self.next_turn_state = Some(TurnState::Animating);
            proof {
                done = done + 1;
                assert(self.energy_changes@ =~= old(self).energy_changes@ + energy_emissions(
                    *old(self),
                    q.take(done),
                ));
                assert(self.water_changes@ =~= old(self).water_changes@ + water_emissions(
                    *old(self),
                    q.take(done),
                ));
                assert(self.position_changes@ =~= old(self).position_changes@
                    + position_emissions(*old(self), q.take(done)));
                assert(self.tile_changes@ =~= old(self).tile_changes@ + tile_emissions(
                    *old(self),
                    q.take(done),
                ));
                assert(self.zone_multiset() =~= old(self).zone_multiset());
                assert(self.wf());
            }
        }
        proof {
            assert(q.take(q.len() as int) =~= q);
        }
    }
}


/// Whether two positions address the same tile (facing ignored).
pub open spec fn same_tile(a: GamePosition, b: GamePosition) -> bool {
    a.x == b.x && a.y == b.y
}

/// The items lying on the player's tile, in board order.
pub open spec fn items_here(items: Seq<(Item, GamePosition)>, pos: GamePosition) -> Seq<(
    Item,
    GamePosition,
)>
    decreases items.len(),
{
    if items.len() == 0 {
        Seq::empty()
    } else {
        items_here(items.drop_last(), pos) + if same_tile(items.last().1, pos) {
            seq![items.last()]
        } else {
            Seq::<(Item, GamePosition)>::empty()
        }
    }
}

/// The items lying anywhere else, in board order.
pub open spec fn items_away(items: Seq<(Item, GamePosition)>, pos: GamePosition) -> Seq<(
    Item,
    GamePosition,
)>
    decreases items.len(),
{
    if items.len() == 0 {
        Seq::empty()
    } else {
        items_away(items.drop_last(), pos) + if !same_tile(items.last().1, pos) {
            seq![items.last()]
        } else {
            Seq::<(Item, GamePosition)>::empty()
        }
    }
}

/// One more point of water, clamped to the pool's maximum.
pub open spec fn bump_water(base: Water) -> Water {
    Water {
        current: if base.current + 1 > base.maximum {
            base.maximum
        } else {
            (base.current + 1) as i32
        },
        maximum: base.maximum,
    }
}

/// One more point of energy, clamped to the pool's maximum.
pub open spec fn bump_energy(base: Energy) -> Energy {
    Energy {
        current: if base.current + 1 > base.maximum {
            base.maximum
        } else {
            (base.current + 1) as i32
        },
        maximum: base.maximum,
    }
}

/// The water changes picking up a run of items emits, all computed from the
/// same pre-pickup snapshot.
pub open spec fn water_item_changes(picked: Seq<(Item, GamePosition)>, base: Water) -> Seq<Change<
    Water,
>>
    decreases picked.len(),
{
    if picked.len() == 0 {
        Seq::empty()
    } else {
        water_item_changes(picked.drop_last(), base) + match picked.last().0 {
            Item::Water => seq![
                Change { entity: PLAYER_ENTITY, updated_value: bump_water(base) },
            ],
            _ => Seq::<Change<Water>>::empty(),
        }
    }
}

/// The energy changes picking up a run of items emits.
pub open spec fn energy_item_changes(picked: Seq<(Item, GamePosition)>, base: Energy) -> Seq<
    Change<Energy>,
>
    decreases picked.len(),
{
    if picked.len() == 0 {
        Seq::empty()
    } else {
        energy_item_changes(picked.drop_last(), base) + match picked.last().0 {
            Item::Energy => seq![
                Change { entity: PLAYER_ENTITY, updated_value: bump_energy(base) },
            ],
            _ => Seq::<Change<Energy>>::empty(),
        }
    }
}

/// The instances spawned for a run of picked-up card contents, in order.
pub open spec fn spawned_instances(cc: Seq<ContentID>) -> Seq<CardInstance> {
    Seq::new(
        cc.len(),
        |k: int|
            CardInstance {
                content: cc[k],
                status: CardStatus::Unknown,
                in_hand: false,
                in_deck: true,
            },
    )
}

/// The `m` arena ids handed out from `base` on, in order.
pub open spec fn fresh_ids(base: int, m: nat) -> Seq<usize> {
    Seq::new(m, |k: int| (base + k) as usize)
}

/// The content ids of the card items in a run of picked items, in order.
pub open spec fn card_contents(picked: Seq<(Item, GamePosition)>) -> Seq<ContentID>
    decreases picked.len(),
{
    if picked.len() == 0 {
        Seq::empty()
    } else {
        card_contents(picked.drop_last()) + match picked.last().0 {
            Item::Card(cid) => seq![cid],
            _ => Seq::<ContentID>::empty(),
        }
    }
}

impl Simulation {
    /// Pick up every item on the player's tile: water and energy items queue
    /// a one-point (clamped) refill computed from the current pools; a card
    /// item spawns a new instance straight into the draw pile and extends the
    /// deck list. All other items stay on the board in order.
    pub fn apply_item(&mut self)
        requires
            old(self).wf(),
        ensures
            final(self).wf(),
            final(self).items@ == items_away(old(self).items@, old(self).player.game_position),
            final(self).water_changes@ == old(self).water_changes@ + water_item_changes(
                items_here(old(self).items@, old(self).player.game_position),
                old(self).player.water,
            ),
            final(self).energy_changes@ == old(self).energy_changes@ + energy_item_changes(
                items_here(old(self).items@, old(self).player.game_position),
                old(self).player.energy,
            ),
            final(self).card_instances@ == old(self).card_instances@ + spawned_instances(
                card_contents(items_here(old(self).items@, old(self).player.game_position)),
            ),
            final(self).player.deck.cards@ == old(self).player.deck.cards@ + fresh_ids(
                old(self).card_instances@.len() as int,
                card_contents(
                    items_here(old(self).items@, old(self).player.game_position),
                ).len(),
            ),
            final(self).deck_list.0@ == old(self).deck_list.0@ + card_contents(
                items_here(old(self).items@, old(self).player.game_position),
            ),
            final(self).player.deck.recycled == old(self).player.deck.recycled,
            final(self).player.deck.discarded == old(self).player.deck.discarded,
            final(self).player.hand == old(self).player.hand,
            final(self).player.game_position == old(self).player.game_position,
            final(self).player.energy == old(self).player.energy,
            final(self).player.water == old(self).player.water,
            final(self).tiles == old(self).tiles,
            final(self).grid == old(self).grid,
            final(self).catalog == old(self).catalog,
            final(self).actions == old(self).actions,
            final(self).played == old(self).played,
            final(self).position_changes == old(self).position_changes,
            final(self).tile_changes == old(self).tile_changes,
            final(self).animations == old(self).animations,
            final(self).game_state == old(self).game_state,
            final(self).turn_state == old(self).turn_state,
            final(self).next_game_state == old(self).next_game_state,
            final(self).next_turn_state == old(self).next_turn_state,
            final(self).map == old(self).map,
            final(self).mode == old(self).mode,
            final(self).level_index == old(self).level_index,
    {
        proof {
            broadcast use vstd::seq_lib::group_to_multiset_ensures;

        }
        let ghost pos0 = old(self).player.game_position;
        let ghost all = old(self).items@;
        let mut remaining: Vec<(Item, GamePosition)> = Vec::new();
        let n = self.items.len();
        for i in 0..n
            invariant
                old(self).wf(),
                self.wf(),
                n == all.len(),
                pos0 == old(self).player.game_position,
                self.items == old(self).items,
                self.items@ == all,
                remaining@ == items_away(all.take(i as int), pos0),
                self.water_changes@ == old(self).water_changes@ + water_item_changes(
                    items_here(all.take(i as int), pos0),
                    old(self).player.water,
                ),
                self.energy_changes@ == old(self).energy_changes@ + energy_item_changes(
                    items_here(all.take(i as int), pos0),
                    old(self).player.energy,
                ),
                self.card_instances@ == old(self).card_instances@ + spawned_instances(
                    card_contents(items_here(all.take(i as int), pos0)),
                ),
                self.player.deck.cards@ == old(self).player.deck.cards@ + fresh_ids(
                    old(self).card_instances@.len() as int,
                    card_contents(items_here(all.take(i as int), pos0)).len(),
                ),
                self.deck_list.0@ == old(self).deck_list.0@ + card_contents(
                    items_here(all.take(i as int), pos0),
                ),
                self.player.deck.recycled == old(self).player.deck.recycled,
                self.player.deck.discarded == old(self).player.deck.discarded,
                self.player.hand == old(self).player.hand,
                self.player.game_position == old(self).player.game_position,
                self.player.energy == old(self).player.energy,
                self.player.water == old(self).player.water,
                self.tiles == old(self).tiles,
                self.grid == old(self).grid,
                self.catalog == old(self).catalog,
                self.actions == old(self).actions,
                self.played == old(self).played,
                self.position_changes == old(self).position_changes,
                self.tile_changes == old(self).tile_changes,
                self.animations == old(self).animations,
                self.game_state == old(self).game_state,
                self.turn_state == old(self).turn_state,
                self.next_game_state == old(self).next_game_state,
                self.next_turn_state == old(self).next_turn_state,
                self.map == old(self).map,
                self.mode == old(self).mode,
                self.level_index == old(self).level_index,
                self.pending_game_transition == old(self).pending_game_transition,
                self.pending_turn_transition == old(self).pending_turn_transition,
        {
            proof {
                assert(all.take(i + 1).drop_last() =~= all.take(i as int));
                assert(all.take(i + 1).last() == all[i as int]);
                let ih0 = items_here(all.take(i as int), pos0);
                let ia0 = items_away(all.take(i as int), pos0);
                if same_tile(all[i as int].1, pos0) {
                    assert(items_here(all.take(i + 1), pos0) =~= ih0 + seq![all[i as int]]);
                    assert((ih0 + seq![all[i as int]]).drop_last() =~= ih0);
                    assert((ih0 + seq![all[i as int]]).last() == all[i as int]);
                    assert(items_away(all.take(i + 1), pos0) =~= ia0);
                } else {
                    assert(items_here(all.take(i + 1), pos0) =~= ih0);
                    assert(items_away(all.take(i + 1), pos0) =~= ia0 + seq![all[i as int]]);
                }
            }
            let ghost pre0 = *self;
            let it = self.items[i];
            if it.1.x == self.player.game_position.x && it.1.y == self.player.game_position.y {
                match it.0 {
                    Item::Water => {
                        let base = self.player.water;
                        let refill = if base.current + 1 > base.maximum {
                            base.maximum
                        } else {
                            base.current + 1
                        };
                        self.water_changes.push(
                            Change {
                                entity: PLAYER_ENTITY,
                                updated_value: Water { current: refill, maximum: base.maximum },
                            },
                        );
                        proof {
                            let ih1 = items_here(all.take(i + 1), pos0);
                            assert(self.water_changes@ =~= old(self).water_changes@
                                + water_item_changes(ih1, old(self).player.water));
                            assert(energy_item_changes(ih1, old(self).player.energy)
                                =~= energy_item_changes(
                                items_here(all.take(i as int), pos0),
                                old(self).player.energy,
                            ));
                            assert(card_contents(ih1) =~= card_contents(
                                items_here(all.take(i as int), pos0),
                            ));
                            assert(self.deck_list.0@ =~= old(self).deck_list.0@ + card_contents(
                                ih1,
                            ));
                            assert forall|k: int|
                                0 <= k < self.water_changes@.len() implies {
                                &&& (#[trigger] self.water_changes@[k]).entity == PLAYER_ENTITY
                                &&& 0 <= self.water_changes@[k].updated_value.current
                                    <= self.water_changes@[k].updated_value.maximum <= 1000000
                            } by {
                                if k < self.water_changes@.len() - 1 {
                                    assert(self.water_changes@[k] == pre0.water_changes@[k]);
                                }
                            }
                            lemma_wf_after_emissions(pre0, *self);
                        }
                    },
                    Item::Energy => {
                        let base = self.player.energy;
                        let refill = if base.current + 1 > base.maximum {
                            base.maximum
                        } else {
                            base.current + 1
                        };
                        self.energy_changes.push(
                            Change {
                                entity: PLAYER_ENTITY,
                                updated_value: Energy { current: refill, maximum: base.maximum },
                            },
                        );
                        proof {
                            let ih1 = items_here(all.take(i + 1), pos0);
                            assert(self.energy_changes@ =~= old(self).energy_changes@
                                + energy_item_changes(ih1, old(self).player.energy));
                            assert(water_item_changes(ih1, old(self).player.water)
                                =~= water_item_changes(
                                items_here(all.take(i as int), pos0),
                                old(self).player.water,
                            ));
                            assert(card_contents(ih1) =~= card_contents(
                                items_here(all.take(i as int), pos0),
                            ));
                            assert(self.deck_list.0@ =~= old(self).deck_list.0@ + card_contents(
                                ih1,
                            ));
                            assert forall|k: int|
                                0 <= k < self.energy_changes@.len() implies {
                                &&& (#[trigger] self.energy_changes@[k]).entity == PLAYER_ENTITY
                                &&& 0 <= self.energy_changes@[k].updated_value.current
                                    <= self.energy_changes@[k].updated_value.maximum <= 1000000
                            } by {
                                if k < self.energy_changes@.len() - 1 {
                                    assert(self.energy_changes@[k] == pre0.energy_changes@[k]);
                                }
                            }
                            lemma_wf_after_emissions(pre0, *self);
                        }
                    },
                    Item::Card(content) => {
                        let ghost pre = *self;
                        let id = self.card_instances.len();
                        self.card_instances.push(
                            CardInstance {
                                content,
                                status: CardStatus::Unknown,
                                in_hand: false,
                                in_deck: true,
                            },
                        );
                        self.player.deck.add(id);
                        self.deck_list.0.push(content);
                        proof {
                            broadcast use vstd::seq_lib::group_to_multiset_ensures;

                            assert(pre.zone_multiset().count(id) == 0) by {
                                if pre.zone_multiset().count(id) > 0 {
                                    assert(id < pre.card_instances@.len());
                                }
                            }
                            assert(self.player.deck.cards@ == pre.player.deck.cards@.push(id));
                            assert(self.zone_multiset() =~= pre.zone_multiset().insert(id));
                            assert forall|c: usize| #[trigger] self.zone_multiset().count(c)
                                <= 1 by {
                                assert(pre.zone_multiset().count(c) <= 1);
                            }
                            assert forall|c: usize| #[trigger] self.zone_multiset().count(c)
                                > 0 implies c < self.card_instances@.len() by {
                                if c != id {
                                    assert(pre.zone_multiset().count(c) > 0);
                                }
                            }
                            assert forall|k: int|
                                0 <= k < self.card_instances@.len() implies self.catalog
                                .contains_id((#[trigger] self.card_instances@[k]).content) by {
                                if k < pre.card_instances@.len() {
                                    assert(self.card_instances@[k] == pre.card_instances@[k]);
                                } else {
                                    assert(pre.items@[i as int].0 == Item::Card(content));
                                }
                            }
                            assert(self.actions_wf()) by {
                                assert(self.actions == pre.actions);
                                assert(self.player.hand == pre.player.hand);
                            }
                            assert(self.wf());
                            let ih1 = items_here(all.take(i + 1), pos0);
                            let cc0 = card_contents(items_here(all.take(i as int), pos0));
                            assert(card_contents(ih1) =~= cc0 + seq![content]);
                            assert(self.deck_list.0@ =~= old(self).deck_list.0@ + card_contents(
                                ih1,
                            ));
                            assert(self.card_instances@ =~= old(self).card_instances@
                                + spawned_instances(card_contents(ih1)));
                            assert(self.player.deck.cards@ =~= old(self).player.deck.cards@
                                + fresh_ids(
                                old(self).card_instances@.len() as int,
                                card_contents(ih1).len(),
                            ));
                            assert(water_item_changes(ih1, old(self).player.water)
                                =~= water_item_changes(
                                items_here(all.take(i as int), pos0),
                                old(self).player.water,
                            ));
                            assert(energy_item_changes(ih1, old(self).player.energy)
                                =~= energy_item_changes(
                                items_here(all.take(i as int), pos0),
                                old(self).player.energy,
                            ));
                        }
                    },
                }
            } else {
                remaining.push(it);
                proof {
                    assert(remaining@ =~= items_away(all.take(i + 1), pos0));
                }
            }
        }
        proof {
            assert(all.take(n as int) =~= all);
        }
        let ghost before_swap = *self;
        self.items = remaining;
        proof {
            assert forall|k: int|
                0 <= k < self.items@.len() implies match (#[trigger] self.items@[k]).0 {
                Item::Card(cid) => self.catalog.contains_id(cid),
                _ => true,
            } by {
                lemma_items_away_sub(all, pos0, k);
                let j = choose|j: int| 0 <= j < all.len() && all[j] == self.items@[k];
                assert(old(self).items@[j] == self.items@[k]);
            }
            lemma_wf_new_items(before_swap, *self);
        }
    }
}

/// A state differing from a well-formed one only in its pending change
/// queues is well-formed, provided the new queues are themselves valid.
pub proof fn lemma_wf_after_emissions(a: Simulation, b: Simulation)
    requires
        a.wf(),
        b.player == a.player,
        b.card_instances == a.card_instances,
        b.catalog == a.catalog,
        b.grid == a.grid,
        b.tiles == a.tiles,
        b.actions == a.actions,
        b.played == a.played,
        b.items == a.items,
        b.queues_wf(),
    ensures
        b.wf(),
{
    assert(b.zone_multiset() == a.zone_multiset());
    assert(b.cards_unique() == a.cards_unique());
    assert(b.ids_bounded() == a.ids_bounded());
    assert(b.instances_valid() == a.instances_valid());
    assert(b.catalog_wf() == a.catalog_wf());
    assert(b.actions_wf() == a.actions_wf());
    assert(b.played_wf() == a.played_wf());
    assert(b.items_valid() == a.items_valid());
}

/// A freshly installed board keeps the simulation well-formed: the new grid
/// is canonical over the new tiles, small enough, no tile change is pending,
/// and every new card item names a catalog entry.
pub proof fn lemma_wf_new_board(a: Simulation, b: Simulation)
    requires
        a.wf(),
        b.player == a.player,
        b.card_instances == a.card_instances,
        b.catalog == a.catalog,
        b.position_changes == a.position_changes,
        b.energy_changes == a.energy_changes,
        b.water_changes == a.water_changes,
        b.tile_changes == a.tile_changes,
        b.tile_changes@.len() == 0,
        b.actions == a.actions,
        b.played == a.played,
        canonical_grid(b.grid, b.tiles@),
        b.grid.rows() <= 4096,
        b.grid.cols() <= 4096,
        b.items_valid(),
    ensures
        b.wf(),
{
    assert(b.zone_multiset() == a.zone_multiset());
    assert(b.cards_unique() == a.cards_unique());
    assert(b.ids_bounded() == a.ids_bounded());
    assert(b.instances_valid() == a.instances_valid());
    assert(b.catalog_wf() == a.catalog_wf());
    assert(b.actions_wf() == a.actions_wf());
    assert(b.played_wf() == a.played_wf());
    assert(b.queues_wf()) by {
        assert(forall|k: int|
            0 <= k < b.position_changes@.len() ==> (#[trigger] b.position_changes@[k])
                == a.position_changes@[k]);
        assert(forall|k: int|
            0 <= k < b.energy_changes@.len() ==> (#[trigger] b.energy_changes@[k])
                == a.energy_changes@[k]);
        assert(forall|k: int|
            0 <= k < b.water_changes@.len() ==> (#[trigger] b.water_changes@[k])
                == a.water_changes@[k]);
    }
}

/// A state differing from a well-formed one only in its (still valid) items
/// is well-formed too.
pub proof fn lemma_wf_new_items(a: Simulation, b: Simulation)
    requires
        a.wf(),
        b.player == a.player,
        b.card_instances == a.card_instances,
        b.catalog == a.catalog,
        b.grid == a.grid,
        b.tiles == a.tiles,
        b.position_changes == a.position_changes,
        b.energy_changes == a.energy_changes,
        b.water_changes == a.water_changes,
        b.tile_changes == a.tile_changes,
        b.actions == a.actions,
        b.played == a.played,
        b.items_valid(),
    ensures
        b.wf(),
{
    assert(b.zone_multiset() == a.zone_multiset());
    assert(b.cards_unique() == a.cards_unique());
    assert(b.ids_bounded() == a.ids_bounded());
    assert(b.instances_valid() == a.instances_valid());
    assert(b.catalog_wf() == a.catalog_wf());
    assert(b.queues_wf() == a.queues_wf());
    assert(b.actions_wf() == a.actions_wf());
    assert(b.played_wf() == a.played_wf());
}

/// Every item that stays on the board was on the board before.
pub proof fn lemma_items_away_sub(items: Seq<(Item, GamePosition)>, pos: GamePosition, k: int)
    requires
        0 <= k < items_away(items, pos).len(),
    ensures
        exists|j: int| 0 <= j < items.len() && items[j] == items_away(items, pos)[k],
    decreases items.len(),
{
    if items.len() > 0 {
        let prev = items_away(items.drop_last(), pos);
        if k < prev.len() {
            lemma_items_away_sub(items.drop_last(), pos, k);
            let j = choose|j: int|
                0 <= j < items.drop_last().len() && items.drop_last()[j] == prev[k];
            assert(items[j] == items_away(items, pos)[k]);
        } else {
            assert(items[items.len() - 1] == items_away(items, pos)[k]);
        }
    }
}


/// Every catalog entry has small numbers and a non-empty movement offset
/// list, as `card_info_wf` asks.
pub proof fn lemma_catalog_entry_wf(id: int, c: crate::cards::CardInfo)
    requires
        1 <= id <= 20,
        crate::cards::catalog_entry(id, c),
    ensures
        card_info_wf(c),
{
}

/// The playable-area size of the puzzle with index `i`.
pub open spec fn puzzle_map_size(i: int) -> (i32, i32) {
    if i == 0 {
        (1i32, 3i32)
    } else if i == 1 {
        (3i32, 3i32)
    } else if i == 2 {
        (3i32, 3i32)
    } else if i == 3 {
        (5i32, 5i32)
    } else {
        (6i32, 6i32)
    }
}

/// The starting flame positions of the puzzle with index `i`.
pub open spec fn puzzle_flames(i: int) -> Seq<(i32, i32)> {
    if i == 0 {
        seq![(1i32, 3i32)]
    } else if i == 1 {
        seq![(2i32, 2i32)]
    } else if i == 2 {
        seq![(3i32, 3i32)]
    } else if i == 3 {
        seq![(4i32, 1i32), (3i32, 3i32)]
    } else {
        seq![(2i32, 2i32), (3i32, 2i32), (3i32, 1i32)]
    }
}

/// The deck the puzzle with index `i` is played with.
pub open spec fn puzzle_deck(i: int) -> Seq<ContentID> {
    if i == 0 {
        seq![ContentID(1), ContentID(5)]
    } else if i == 1 {
        seq![ContentID(1), ContentID(5), ContentID(3)]
    } else if i == 2 {
        seq![ContentID(1), ContentID(5), ContentID(3)]
    } else if i == 3 {
        seq![ContentID(1), ContentID(5), ContentID(3), ContentID(4)]
    } else {
        seq![ContentID(1), ContentID(5), ContentID(3), ContentID(4), ContentID(8)]
    }
}

impl Simulation {
    /// Load the fixed card catalog. Runs while the level's cards and items do
    /// not exist yet.
    pub fn load_card_infos(&mut self)
        requires
            old(self).wf(),
            old(self).card_instances@.len() == 0,
            old(self).items@.len() == 0,
        ensures
            final(self).wf(),
            final(self).catalog.0@.len() == 20,
            forall|i: int|
                0 <= i < 20 ==> crate::cards::catalog_entry(i + 1, #[trigger] final(self).catalog.0@[i]),
            final(self).player == old(self).player,
            final(self).card_instances == old(self).card_instances,
            final(self).tiles == old(self).tiles,
            final(self).grid == old(self).grid,
            final(self).items == old(self).items,
            final(self).actions == old(self).actions,
            final(self).played == old(self).played,
            final(self).game_state == old(self).game_state,
            final(self).turn_state == old(self).turn_state,
            final(self).next_game_state == old(self).next_game_state,
            final(self).next_turn_state == old(self).next_turn_state,
            final(self).deck_list == old(self).deck_list,
            final(self).map == old(self).map,
            final(self).mode == old(self).mode,
            final(self).level_index == old(self).level_index,
    {
        self.catalog = crate::cards::load_card_infos();
        proof {
            assert(self.zone_multiset() =~= old(self).zone_multiset());
            assert forall|k: int|
                0 <= k < self.catalog.0@.len() implies card_info_wf(
                #[trigger] self.catalog.0@[k],
            ) by {
                lemma_catalog_entry_wf(k + 1, self.catalog.0@[k]);
            }
            assert(self.wf());
        }
    }

    /// Build the level's board from the map parameters and install it,
    /// replacing any previous board and items.
    pub fn spawn_tiles(&mut self)
        requires
            old(self).wf(),
            0 <= old(self).map.columns <= 4094,
            0 <= old(self).map.rows <= 4094,
            old(self).catalog.0@.len() >= 20,
            old(self).tile_changes@.len() == 0,
        ensures
            final(self).wf(),
            canonical_grid(final(self).grid, final(self).tiles@),
            final(self).grid.rows() == old(self).map.rows + 2,
            final(self).grid.cols() == old(self).map.columns + 2,
            forall|x: int, y: int|
                final(self).grid.in_bounds(x, y) ==> ((#[trigger] final(self).tiles@[final(self).grid.id_at(x, y) as int]) == Tile::Wall <==> crate::tiles::tile_is_wall_spec(
                    x,
                    y,
                    old(self).map.columns as int,
                    old(self).map.rows as int,
                )),
            forall|x: int, y: int|
                final(self).grid.in_bounds(x, y) && !crate::tiles::tile_is_wall_spec(
                    x,
                    y,
                    old(self).map.columns as int,
                    old(self).map.rows as int,
                ) ==> ((#[trigger] final(self).tiles@[final(self).grid.id_at(x, y) as int])
                    is Empty || final(self).tiles@[final(self).grid.id_at(x, y) as int]
                    == Tile::Fire(crate::tiles::Intensity::Low)),
            old(self).map.flame_spawner matches crate::tiles::Spawner::Static(ps) ==> forall|
                x: int,
                y: int,
            |
                final(self).grid.in_bounds(x, y) && !crate::tiles::tile_is_wall_spec(
                    x,
                    y,
                    old(self).map.columns as int,
                    old(self).map.rows as int,
                ) ==> ((#[trigger] final(self).tiles@[final(self).grid.id_at(x, y) as int])
                    == Tile::Fire(crate::tiles::Intensity::Low) <==> ps@.contains(
                    (x as i32, y as i32),
                )),
            final(self).player == old(self).player,
            final(self).card_instances == old(self).card_instances,
            final(self).catalog == old(self).catalog,
            final(self).actions == old(self).actions,
            final(self).played == old(self).played,
            final(self).position_changes == old(self).position_changes,
            final(self).energy_changes == old(self).energy_changes,
            final(self).water_changes == old(self).water_changes,
            final(self).tile_changes == old(self).tile_changes,
            final(self).game_state == old(self).game_state,
            final(self).turn_state == old(self).turn_state,
            final(self).next_game_state == old(self).next_game_state,
            final(self).next_turn_state == old(self).next_turn_state,
            final(self).deck_list == old(self).deck_list,
            final(self).map == old(self).map,
            final(self).mode == old(self).mode,
            final(self).level_index == old(self).level_index,
    {
        let built = crate::tiles::spawn_tiles(&self.map);
        self.tiles = built.0;
        self.grid = built.1;
        self.items = built.2;
        proof {
            assert forall|k: int|
                0 <= k < self.items@.len() implies match (#[trigger] self.items@[k]).0 {
                Item::Card(cid) => self.catalog.contains_id(cid),
                _ => true,
            } by {
                assert(1 <= self.items@[k].1.x <= old(self).map.columns);
            }
            lemma_wf_new_board(*old(self), *self);
        }
    }

    /// Set the map, deck list and transitory player state up for the level
    /// about to load: puzzle mode follows the fixed tables keyed by the level
    /// index; rogue mode grows the previous map by one in each direction and
    /// switches to chance spawning.
    pub fn prepare_for_new_level(&mut self)
        requires
            old(self).wf(),
            old(self).actions@.len() == 0,
            old(self).played@.len() == 0,
            old(self).level_index.0 >= 0,
        ensures
            final(self).wf(),
            0 <= final(self).map.columns <= 4094,
            0 <= final(self).map.rows <= 4094,
            final(self).player.game_position == (GamePosition {
                x: 1,
                y: 1,
                d: crate::stats::GameDirection::Up,
            }),
            final(self).player.deck.cards@.len() == 0,
            final(self).player.deck.recycled@.len() == 0,
            final(self).player.deck.discarded@.len() == 0,
            final(self).player.hand.slots() == seq![None::<usize>, None, None, None, None],
            old(self).mode is Puzzle ==> {
                let i = old(self).level_index.0 as int % 5;
                &&& final(self).map.columns == puzzle_map_size(i).0
                &&& final(self).map.rows == puzzle_map_size(i).1
                &&& final(self).map.flame_spawner matches crate::tiles::Spawner::Static(v) && v@
                    == puzzle_flames(i)
                &&& final(self).map.item_spawner matches crate::tiles::Spawner::Static(v) && v@.len()
                    == 0
                &&& final(self).deck_list.0@ == puzzle_deck(i)
            },
            old(self).mode is Rogue ==> {
                let c = if old(self).map.columns < 1 {
                    1int
                } else {
                    old(self).map.columns as int
                };
                let r = if old(self).map.rows < 1 {
                    1int
                } else {
                    old(self).map.rows as int
                };
                &&& final(self).deck_list == old(self).deck_list
                &&& final(self).map.columns as int == if c >= 4094 {
                    4094int
                } else {
                    c + 1
                }
                &&& final(self).map.rows as int == if r >= 4094 {
                    4094int
                } else {
                    r + 1
                }
                &&& final(self).map.flame_spawner == crate::tiles::Spawner::Chance(
                    100u32,
                    1i32,
                    if old(self).level_index.0 < 1 {
                        1i32
                    } else {
                        old(self).level_index.0
                    },
                )
                &&& final(self).map.item_spawner == crate::tiles::Spawner::Chance(500u32, 1i32, 1i32)
            },
            final(self).player.energy == old(self).player.energy,
            final(self).player.water == old(self).player.water,
            final(self).card_instances == old(self).card_instances,
            final(self).catalog == old(self).catalog,
            final(self).tiles == old(self).tiles,
            final(self).grid == old(self).grid,
            final(self).items == old(self).items,
            final(self).actions == old(self).actions,
            final(self).played == old(self).played,
            final(self).game_state == old(self).game_state,
            final(self).turn_state == old(self).turn_state,
            final(self).mode == old(self).mode,
            final(self).level_index == old(self).level_index,
    {
        proof {
            broadcast use vstd::seq_lib::group_to_multiset_ensures;

        }
        match self.mode {
            GameMode::Puzzle => {
                let idx = (self.level_index.0 % 5) as usize;
                let size = if idx == 0 {
                    (1, 3)
                } else if idx == 1 {
                    (3, 3)
                } else if idx == 2 {
                    (3, 3)
                } else if idx == 3 {
                    (5, 5)
                } else {
                    (6, 6)
                };
                let flames: Vec<(i32, i32)> = if idx == 0 {
                    vec![(1, 3)]
                } else if idx == 1 {
                    vec![(2, 2)]
                } else if idx == 2 {
                    vec![(3, 3)]
                } else if idx == 3 {
                    vec![(4, 1), (3, 3)]
                } else {
                    vec![(2, 2), (3, 2), (3, 1)]
                };
                let deck: Vec<ContentID> = if idx == 0 {
                    vec![ContentID(1), ContentID(5)]
                } else if idx == 1 {
                    vec![ContentID(1), ContentID(5), ContentID(3)]
                } else if idx == 2 {
                    vec![ContentID(1), ContentID(5), ContentID(3)]
                } else if idx == 3 {
                    vec![ContentID(1), ContentID(5), ContentID(3), ContentID(4)]
                } else {
                    vec![ContentID(1), ContentID(5), ContentID(3), ContentID(4), ContentID(8)]
                };
                self.map = MapParameters {
                    columns: size.0,
                    rows: size.1,
                    flame_spawner: crate::tiles::Spawner::Static(flames),
                    item_spawner: crate::tiles::Spawner::Static(Vec::new()),
                };
                self.deck_list = DeckList(deck);
            },
            GameMode::Rogue => {
                let c = if self.map.columns < 1 {
                    1
                } else {
                    self.map.columns
                };
                let r = if self.map.rows < 1 {
                    1
                } else {
                    self.map.rows
                };
                let c2 = if c >= 4094 {
                    4094
                } else {
                    c + 1
                };
                let r2 = if r >= 4094 {
                    4094
                } else {
                    r + 1
                };
                let cap = if self.level_index.0 < 1 {
                    1
                } else {
                    self.level_index.0
                };
                self.map = MapParameters {
                    columns: c2,
                    rows: r2,
                    flame_spawner: crate::tiles::Spawner::Chance(100, 1, cap),
                    item_spawner: crate::tiles::Spawner::Chance(500, 1, 1),
                };
            },
        }
        self.player.game_position = GamePosition {
            x: 1,
            y: 1,
            d: crate::stats::GameDirection::Up,
        };
        self.player.deck.reset();
        self.player.hand.reset();
        proof {
            assert forall|c: usize| #[trigger] self.zone_multiset().count(c) == 0 by {
                crate::cards::lemma_hand_ms_absent(self.player.hand.slots(), c);
            }
            assert(self.wf());
        }
    }

    /// The level-end decision from the tile counts: a board with no empty
    /// tile is lost (back to the idle game state), a board with no fire is
    /// won (back to the loaded state, one level further); anything else keeps
    /// playing.
    pub fn check_for_level_end(&mut self)
        requires
            old(self).wf(),
            old(self).level_index.0 < i32::MAX,
        ensures
            final(self).wf(),
            crate::tiles::count_empty_tiles(old(self).tiles@) == 0 ==> {
                &&& final(self).next_game_state == Some(GameState::Idle)
                &&& final(self).next_turn_state == Some(TurnState::Idle)
                &&& final(self).level_index == old(self).level_index
            },
            crate::tiles::count_empty_tiles(old(self).tiles@) > 0 && crate::tiles::count_fire(
                old(self).tiles@,
            ) == 0 ==> {
                &&& final(self).next_game_state == Some(GameState::Loaded)
                &&& final(self).next_turn_state == Some(TurnState::Idle)
                &&& final(self).level_index.0 == old(self).level_index.0 + 1
            },
            crate::tiles::count_empty_tiles(old(self).tiles@) > 0 && crate::tiles::count_fire(
                old(self).tiles@,
            ) > 0 ==> *final(self) == *old(self),
            final(self).level_index == old(self).level_index || final(self).next_game_state
                == Some(GameState::Loaded),
            final(self).next_game_state == old(self).next_game_state || final(self).next_game_state
                is Some,
            final(self).player == old(self).player,
            final(self).tiles == old(self).tiles,
            final(self).grid == old(self).grid,
            final(self).card_instances == old(self).card_instances,
            final(self).catalog == old(self).catalog,
            final(self).items == old(self).items,
            final(self).actions == old(self).actions,
            final(self).played == old(self).played,
            final(self).game_state == old(self).game_state,
            final(self).turn_state == old(self).turn_state,
            final(self).position_changes == old(self).position_changes,
            final(self).energy_changes == old(self).energy_changes,
            final(self).water_changes == old(self).water_changes,
            final(self).tile_changes == old(self).tile_changes,
            final(self).animations == old(self).animations,
            final(self).deck_list == old(self).deck_list,
            final(self).map == old(self).map,
            final(self).mode == old(self).mode,
    {
        let counts = crate::tiles::count_tiles(&self.tiles);
        let fire_count = counts.0;
        let empty_count = counts.1;
        if empty_count == 0 {
            self.next_game_state = Some(GameState::Idle);
            self.next_turn_state = Some(TurnState::Idle);
        } else if fire_count == 0 {
            self.next_game_state = Some(GameState::Loaded);
            self.next_turn_state = Some(TurnState::Idle);
            self.level_index = LevelIndex(self.level_index.0 + 1);
        }
        proof {
            lemma_wf_unchanged(*old(self), *self);
        }
    }

    /// The end-of-turn board evolution: fully burning tiles ignite their
    /// empty orthogonal neighbors, every fire then grows one step, and the
    /// next turn is scheduled to start.
    pub fn run_ended_phase(&mut self)
        requires
            old(self).wf(),
        ensures
            final(self).wf(),
            final(self).tiles@.len() == old(self).tiles@.len(),
            forall|x: int, y: int|
                old(self).grid.in_bounds(x, y) ==> final(self).tiles@[old(self).grid.id_at(
                    x,
                    y,
                ) as int] == crate::tiles::grow_tile(
                    crate::tiles::propagate_tile(old(self).tiles@, old(self).grid, x, y),
                ),
            final(self).next_turn_state == Some(TurnState::Starting),
            final(self).player == old(self).player,
            final(self).grid == old(self).grid,
            final(self).card_instances == old(self).card_instances,
            final(self).catalog == old(self).catalog,
            final(self).items == old(self).items,
            final(self).actions == old(self).actions,
            final(self).played == old(self).played,
            final(self).position_changes == old(self).position_changes,
            final(self).energy_changes == old(self).energy_changes,
            final(self).water_changes == old(self).water_changes,
            final(self).tile_changes == old(self).tile_changes,
            final(self).animations == old(self).animations,
            final(self).game_state == old(self).game_state,
            final(self).turn_state == old(self).turn_state,
            final(self).next_game_state == old(self).next_game_state,
            final(self).deck_list == old(self).deck_list,
            final(self).map == old(self).map,
            final(self).mode == old(self).mode,
            final(self).level_index == old(self).level_index,
    {
        let ghost before = *self;
        crate::tiles::propagate_flames(&mut self.tiles, &self.grid);
        proof {
            assert forall|x: int, y: int| self.grid.in_bounds(x, y) implies #[trigger] self.grid
                .id_at(x, y) < self.tiles@.len() by {
                crate::tiles::lemma_row_major_in_range(x, y, self.grid.cols(), self.grid.rows());
            }
        }
        crate::tiles::grow_flames(&mut self.tiles);
        self.next_turn_state = Some(TurnState::Starting);
        proof {
            assert(self.zone_multiset() =~= old(self).zone_multiset());
            assert forall|x: int, y: int| old(self).grid.in_bounds(x, y) implies self.tiles@[old(self).grid.id_at(x, y) as int] == crate::tiles::grow_tile(
                crate::tiles::propagate_tile(old(self).tiles@, old(self).grid, x, y),
            ) by {
                crate::tiles::lemma_row_major_in_range(
                    x,
                    y,
                    old(self).grid.cols(),
                    old(self).grid.rows(),
                );
            }
            assert(self.wf());
        }
    }
}


/// Law (deck invariant): in a well-formed simulation, the multiset union of
/// the draw, recycled and discarded piles and the hand holds every card
/// instance at most once. Every pipeline pass of the simulation preserves
/// well-formedness, so this holds of all reachable states.
pub proof fn lemma_deck_invariant(s: Simulation, c: usize)
    requires
        s.wf(),
    ensures
        s.zone_multiset().count(c) <= 1,
{
}

/// Law (zones are disjoint): a card held by the hand sits in none of the
/// deck's piles.
pub proof fn lemma_card_in_one_zone(s: Simulation, c: usize)
    requires
        s.wf(),
        s.player.hand.contains_card(c),
    ensures
        !s.player.deck.cards@.contains(c),
        !s.player.deck.recycled@.contains(c),
        !s.player.deck.discarded@.contains(c),
{
    broadcast use vstd::seq_lib::group_to_multiset_ensures;

    let i = choose|i: int|
        0 <= i < s.player.hand.slots().len() && s.player.hand.slots()[i] == Some(c);
    crate::cards::lemma_hand_ms_count_pos(s.player.hand.slots(), i, c);
    assert(s.zone_multiset().count(c) <= 1);
}

/// Law (draw refill): a card of the recycled pile is never in the discarded
/// pile, so the refill a draw performs on an empty pile — which by
/// `Deck::draw`'s contract succeeds and returns a card of the recycled pile —
/// can never hand out a discarded card.
pub proof fn lemma_refill_not_discarded(s: Simulation, c: usize)
    requires
        s.wf(),
        s.player.deck.recycled@.to_multiset().contains(c),
    ensures
        !s.player.deck.discarded@.contains(c),
{
    broadcast use vstd::seq_lib::group_to_multiset_ensures;

    assert(s.zone_multiset().count(c) <= 1);
}

/// Law: whenever the legality check marks a card playable, that card's
/// destination tile is on the board and walkable, and resolving the card
/// queues precisely one movement, to that tile. Legality and effect
/// application therefore always agree.
pub proof fn lemma_playable_card_resolves(s: Simulation, wp: WasPlayed)
    requires
        s.wf(),
        wp.0 < s.card_instances@.len(),
        s.gate_status(s.card_instances@[wp.0 as int].content) is Playable,
    ensures
        ({
            let info = played_info(s, wp);
            let dest = movement_dest(info, s.player.game_position);
            &&& s.card_playable(info)
            &&& s.grid.get_spec(dest) is Some
            &&& !(s.tiles@[s.grid.get_spec(dest)->0 as int] is Wall)
            &&& position_emissions(s, seq![wp]) == seq![
                Change { entity: PLAYER_ENTITY, updated_value: dest },
            ]
        }),
{
    let info = played_info(s, wp);
    let dest = movement_dest(info, s.player.game_position);
    assert(seq![wp].drop_last() =~= Seq::<WasPlayed>::empty());
    assert(seq![wp].last() == wp);
    assert(position_emissions(s, Seq::<WasPlayed>::empty()) =~= Seq::<Change<
        GamePosition,
    >>::empty());
    assert(position_emissions(s, seq![wp]) =~= seq![
        Change { entity: PLAYER_ENTITY, updated_value: dest },
    ]);
}


impl Simulation {
    /// One simulation step, in the fixed pipeline order: commit buffered
    /// states; run the entered phase's work (hand refill and resource
    /// restoration on a turn start, playability and turn-over evaluation once
    /// started, board evolution on turn end); accept input while waiting for
    /// it; then resolve pending actions, resolve played cards, commit all
    /// changes, pick up items, extinguish under the player, re-tag and
    /// re-evaluate every card, poll the starting gate and check the level
    /// end. Every deferred record queued before the tick is resolved by it.
    #[verifier::rlimit(100)]
    pub fn tick(&mut self, clicked_card: Option<usize>, end_turn: bool)
        requires
            old(self).wf(),
            0 <= old(self).level_index.0 < i32::MAX,
        ensures
            final(self).wf(),
            final(self).actions@.len() == 0,
            final(self).played@.len() == 0,
            final(self).position_changes@.len() == 0,
            final(self).tile_changes@.len() == 0,
            final(self).next_game_state is None ==> final(self).level_index == old(self).level_index,
            // the buffered states commit first and hold for the whole tick
            final(self).turn_state == committed_turn(*old(self)),
            final(self).game_state == committed_game(*old(self)),
            // entering the starting phase restores both pools to half of
            // their maximum, before any new change is committed
            committed_turn(*old(self)) != old(self).turn_state && committed_turn(*old(self))
                == TurnState::Starting && old(self).actions@.len() == 0 && old(self).played@.len()
                == 0 && old(self).energy_changes@.len() == 0 && old(self).water_changes@.len() == 0
                ==> {
                &&& final(self).player.energy == (Energy {
                    current: (old(self).player.energy.maximum / 2) as i32,
                    maximum: old(self).player.energy.maximum,
                })
                &&& final(self).player.water == (Water {
                    current: (old(self).player.water.maximum / 2) as i32,
                    maximum: old(self).player.water.maximum,
                })
            },
            // once the refill draws resolve, a level still in play is
            // scheduled to move from starting into started
            committed_turn(*old(self)) == TurnState::Starting && old(self).actions@.len() == 0
                && old(self).played@.len() == 0 && crate::tiles::count_empty_tiles(
                final(self).tiles@,
            ) > 0 && crate::tiles::count_fire(final(self).tiles@) > 0 ==> final(self).next_turn_state
                == Some(TurnState::Started),
            // entering the started phase decides by playability whether to
            // await input or end the turn at once
            committed_turn(*old(self)) != old(self).turn_state && committed_turn(*old(self))
                == TurnState::Started && old(self).actions@.len() == 0 && old(self).played@.len()
                == 0 && crate::tiles::count_empty_tiles(final(self).tiles@) > 0
                && crate::tiles::count_fire(final(self).tiles@) > 0 ==> final(self).next_turn_state
                == Some(
                if old(self).any_playable_in_hand() {
                    TurnState::WaitingForInput
                } else {
                    TurnState::Ended
                },
            ),
            // the animating phase completes once nothing is pending
            committed_turn(*old(self)) == TurnState::Animating && old(self).animations@.len() == 0
                && old(self).actions@.len() == 0 && old(self).played@.len() == 0
                && crate::tiles::count_empty_tiles(final(self).tiles@) > 0
                && crate::tiles::count_fire(final(self).tiles@) > 0 ==> final(self).next_turn_state
                == Some(TurnState::Started),
            // entering the ended phase evolves the board: propagation, then
            // growth, then the extinguishing of the player's own tile
            committed_turn(*old(self)) != old(self).turn_state && committed_turn(*old(self))
                == TurnState::Ended && old(self).actions@.len() == 0 && old(self).played@.len() == 0
                && old(self).position_changes@.len() == 0 && old(self).tile_changes@.len() == 0
                ==> {
                &&& final(self).player.game_position == old(self).player.game_position
                &&& forall|x: int, y: int|
                    old(self).grid.in_bounds(x, y) && !(x == old(self).player.game_position.x && y
                        == old(self).player.game_position.y) ==> final(self).tiles@[old(
                        self,
                    ).grid.id_at(x, y) as int] == crate::tiles::grow_tile(
                        crate::tiles::propagate_tile(old(self).tiles@, old(self).grid, x, y),
                    )
                &&& (old(self).grid.get_spec(old(self).player.game_position) matches Some(pid)
                    ==> final(self).tiles@[pid as int] == Tile::Empty)
            },
    {
        let prev_turn = self.turn_state;
        self.apply_state_transitions();
        proof {
            assert(self.turn_state == committed_turn(*old(self)));
            assert(self.game_state == committed_game(*old(self)));
        }
        if self.turn_state != prev_turn {
            match self.turn_state {
                TurnState::Starting => {
                    self.fill_hand_with_cards();
                    self.restore_resources();
                },
                TurnState::Started => {
                    proof {
                        assert(self.player.hand.slots() == old(self).player.hand.slots());
                        assert(self.card_instances@ == old(self).card_instances@);
                        assert(self.any_playable_in_hand() == old(self).any_playable_in_hand());
                    }
                    self.check_for_turn_over();
                },
                TurnState::Ended => {
                    self.run_ended_phase();
                },
                _ => {},
            }
        }
        // the animating phase is polled, not entered: it completes once no
        // animation, action or played marker is pending
        let ghost before_anim = *self;
        if matches!(self.turn_state, TurnState::Animating) && self.animations.len() == 0
            && self.actions.len() == 0 && self.played.len() == 0 {
            self.next_turn_state = Some(TurnState::Started);
        }
        proof {
            lemma_wf_unchanged(before_anim, *self);
        }
        if matches!(self.turn_state, TurnState::WaitingForInput) {
            if let Some(card) = clicked_card {
                if card < self.card_instances.len() {
                    self.play_clicked_card(card);
                }
            }
            self.end_turn_clicked(end_turn);
        }
        let ghost before_drain = *self;
        self.apply_card_actions();
        proof {
            if forall|k: int|
                0 <= k < before_drain.actions@.len() ==> (#[trigger] before_drain.actions@[k])
                    is Draw {
                lemma_played_of_draws(before_drain.actions@);
            }
        }
        self.apply_card();
        self.apply_change();
        self.apply_item();
        match self.grid.get(&self.player.game_position) {
            Some(_) => {
                proof {
                    assert forall|x: int, y: int| self.grid.in_bounds(x, y) implies #[trigger] self
                        .grid.id_at(x, y) < self.tiles@.len() by {
                        crate::tiles::lemma_row_major_in_range(
                            x,
                            y,
                            self.grid.cols(),
                            self.grid.rows(),
                        );
                    }
                }
                let ghost before = *self;
                crate::tiles::put_flames_out(
                    &mut self.tiles,
                    &self.grid,
                    &self.player.game_position,
                );
                proof {
                    lemma_wf_after_board_update(before, *self);
                }
            },
            None => {},
        }
        let ghost before_sync = *self;
        crate::cards::sync_deck(&mut self.card_instances, &self.player.deck);
        crate::cards::sync_hand(&mut self.card_instances, &self.player.hand);
        proof {
            lemma_wf_after_retag(before_sync, *self);
        }
        self.update_playability();
        if matches!(self.turn_state, TurnState::Starting) {
            self.start_turn();
        }
        proof {
            assert(self.level_index == old(self).level_index);
            assert(self.next_game_state is None);
            assert(self.turn_state == committed_turn(*old(self)));
            assert(self.game_state == committed_game(*old(self)));
            let t1 = committed_turn(*old(self));
            if t1 != old(self).turn_state && t1 == TurnState::Starting && old(
                self,
            ).actions@.len() == 0 && old(self).played@.len() == 0 && old(
                self,
            ).energy_changes@.len() == 0 && old(self).water_changes@.len() == 0 {
                assert(self.player.energy == (Energy {
                    current: (old(self).player.energy.maximum / 2) as i32,
                    maximum: old(self).player.energy.maximum,
                }));
                assert(self.player.water == (Water {
                    current: (old(self).player.water.maximum / 2) as i32,
                    maximum: old(self).player.water.maximum,
                }));
            }
            if t1 == TurnState::Starting && old(self).actions@.len() == 0 && old(
                self,
            ).played@.len() == 0 {
                assert(self.next_turn_state == Some(TurnState::Started));
            }
            if t1 != old(self).turn_state && t1 == TurnState::Started && old(self).actions@.len()
                == 0 && old(self).played@.len() == 0 {
                assert(self.next_turn_state == Some(
                    if old(self).any_playable_in_hand() {
                        TurnState::WaitingForInput
                    } else {
                        TurnState::Ended
                    },
                ));
            }
            if t1 == TurnState::Animating && old(self).animations@.len() == 0 && old(
                self,
            ).actions@.len() == 0 && old(self).played@.len() == 0 {
                assert(self.next_turn_state == Some(TurnState::Started));
            }
            if t1 != old(self).turn_state && t1 == TurnState::Ended && old(self).actions@.len()
                == 0 && old(self).played@.len() == 0 && old(self).position_changes@.len() == 0
                && old(self).tile_changes@.len() == 0 {
                assert(self.player.game_position == old(self).player.game_position);
                assert forall|x: int, y: int|
                    old(self).grid.in_bounds(x, y) && !(x == old(self).player.game_position.x && y
                        == old(self).player.game_position.y) implies self.tiles@[old(
                    self,
                ).grid.id_at(x, y) as int] == crate::tiles::grow_tile(
                    crate::tiles::propagate_tile(old(self).tiles@, old(self).grid, x, y),
                ) by {
                    let p = old(self).player.game_position;
                    if old(self).grid.in_bounds(p.x as int, p.y as int) {
                        crate::tiles::lemma_row_major_in_range(
                            x,
                            y,
                            old(self).grid.cols(),
                            old(self).grid.rows(),
                        );
                        crate::tiles::lemma_row_major_in_range(
                            p.x as int,
                            p.y as int,
                            old(self).grid.cols(),
                            old(self).grid.rows(),
                        );
                        if old(self).grid.id_at(x, y) == old(self).grid.id_at(
                            p.x as int,
                            p.y as int,
                        ) {
                            crate::tiles::lemma_row_major_injective(
                                x,
                                y,
                                p.x as int,
                                p.y as int,
                                old(self).grid.cols(),
                            );
                        }
                    }
                }
                assert(old(self).grid.get_spec(old(self).player.game_position) matches Some(pid)
                    ==> self.tiles@[pid as int] == Tile::Empty);
            }
        }
        self.check_for_level_end();
    }
}

/// A board whose tiles changed in place (same length) under an unchanged grid
/// keeps the simulation well-formed.
proof fn lemma_wf_after_board_update(a: Simulation, b: Simulation)
    requires
        a.wf(),
        b.player == a.player,
        b.card_instances == a.card_instances,
        b.catalog == a.catalog,
        b.grid == a.grid,
        b.tiles@.len() == a.tiles@.len(),
        b.position_changes == a.position_changes,
        b.energy_changes == a.energy_changes,
        b.water_changes == a.water_changes,
        b.tile_changes == a.tile_changes,
        b.actions == a.actions,
        b.played == a.played,
        b.items == a.items,
    ensures
        b.wf(),
{
    assert(b.zone_multiset() == a.zone_multiset());
    assert(b.cards_unique() == a.cards_unique());
    assert(b.ids_bounded() == a.ids_bounded());
    assert(b.instances_valid() == a.instances_valid());
    assert(b.catalog_wf() == a.catalog_wf());
    assert(b.actions_wf() == a.actions_wf());
    assert(b.played_wf() == a.played_wf());
    assert(b.items_valid() == a.items_valid());
    assert(b.queues_wf()) by {
        assert(forall|k: int|
            0 <= k < b.tile_changes@.len() ==> (#[trigger] b.tile_changes@[k])
                == a.tile_changes@[k]);
    }
}

/// Re-tagging card instances (same contents, only the boolean tags and
/// statuses may differ) keeps the simulation well-formed.
proof fn lemma_wf_after_retag(a: Simulation, b: Simulation)
    requires
        a.wf(),
        b.player == a.player,
        b.card_instances@.len() == a.card_instances@.len(),
        forall|k: int|
            0 <= k < a.card_instances@.len() ==> (#[trigger] b.card_instances@[k]).content
                == a.card_instances@[k].content,
        b.catalog == a.catalog,
        b.grid == a.grid,
        b.tiles == a.tiles,
        b.position_changes == a.position_changes,
        b.energy_changes == a.energy_changes,
        b.water_changes == a.water_changes,
        b.tile_changes == a.tile_changes,
        b.actions == a.actions,
        b.played == a.played,
        b.items == a.items,
    ensures
        b.wf(),
{
    assert(b.zone_multiset() == a.zone_multiset());
    assert(b.cards_unique() == a.cards_unique());
    assert(b.ids_bounded() == a.ids_bounded());
    assert(b.catalog_wf() == a.catalog_wf());
    assert(b.actions_wf() == a.actions_wf());
    assert(b.played_wf() == a.played_wf());
    assert(b.items_valid() == a.items_valid());
    assert forall|k: int|
        0 <= k < b.card_instances@.len() implies b.catalog.contains_id(
        (#[trigger] b.card_instances@[k]).content,
    ) by {
        assert(a.catalog.contains_id(a.card_instances@[k].content));
    }
}

} // verus!
