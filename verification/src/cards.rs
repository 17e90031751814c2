//! Card-flow data: the catalog of card definitions, the deck and hand, and
//! the grid lookup structure that targeting resolves against.

use vstd::prelude::*;

use crate::stats::GamePosition;

verus! {

/// A facing rotation a card can apply to the player.
#[derive(Clone, Copy, Debug, PartialEq, Eq, Structural)]
pub enum Rotation {
    Identity,
    Left,
    Right,
    Reverse,
}

/// Identifier of a card definition in the immutable catalog. Runtime card
/// instances reference their definition through it.
#[derive(Clone, Copy, Debug, PartialEq, Eq, Hash, Structural)]
pub struct ContentID(pub usize);

/// Computed legality of a card instance given current resources, position and
/// board blocking.
#[derive(Clone, Copy, Debug, PartialEq, Eq, Structural)]
pub enum CardStatus {
    Playable,
    Unplayable,
    Unknown,
}

impl CardStatus {
    pub open spec fn is_playable_spec(&self) -> bool {
        *self is Playable
    }

    pub fn is_playable(&self) -> (r: bool)
        ensures
            r == self.is_playable_spec(),
    {
        match self {
            CardStatus::Playable => true,
            _ => false,
        }
    }
}

/// A runtime card: one physical card of the level, referencing its catalog
/// entry and carrying its transient status tags. Instances live in an arena;
/// a card id is the instance's index in it.
#[derive(Clone, Copy, Debug, PartialEq, Eq, Structural)]
pub struct CardInstance {
    pub content: ContentID,
    pub status: CardStatus,
    pub in_hand: bool,
    pub in_deck: bool,
}

/// The player's hand: five slots, slot order significant.
#[derive(Clone, Debug)]
pub struct Hand(pub Vec<Option<usize>>);

pub const HAND_SIZE: usize = 5;

/// How many of the first `n` slots hold no card.
pub open spec fn count_empty(s: Seq<Option<usize>>) -> int
    decreases s.len(),
{
    if s.len() == 0 {
        0
    } else {
        count_empty(s.drop_last()) + if s.last() is None {
            1int
        } else {
            0int
        }
    }
}

impl Hand {
    /// A hand always has exactly five slots.
    pub open spec fn wf(self) -> bool {
        self.0@.len() == HAND_SIZE
    }

    pub open spec fn slots(self) -> Seq<Option<usize>> {
        self.0@
    }

    /// Whether some slot is free.
    pub open spec fn has_empty_slot(self) -> bool {
        exists|i: int| 0 <= i < self.slots().len() && self.slots()[i] is None
    }

    /// Whether the hand holds the card with id `card`.
    pub open spec fn contains_card(self, card: usize) -> bool {
        self.slots().contains(Some(card))
    }

    /// An empty hand.
    pub fn new() -> (r: Self)
        ensures
            r.wf(),
            r.slots() == seq![None::<usize>, None, None, None, None],
    {
        let mut v: Vec<Option<usize>> = Vec::new();
        v.push(None);
        v.push(None);
        v.push(None);
        v.push(None);
        v.push(None);
        assert(v@ =~= seq![None::<usize>, None, None, None, None]);
        Hand(v)
    }

    /// Put `card` into the first empty slot; a no-op when the hand is full.
    pub fn add(&mut self, card: usize)
        requires
            old(self).wf(),
        ensures
            final(self).wf(),
            !old(self).has_empty_slot() ==> *final(self) == *old(self),
            old(self).has_empty_slot() ==> exists|i: int|
                {
                    &&& 0 <= i < old(self).slots().len()
                    &&& old(self).slots()[i] is None
                    &&& forall|j: int| 0 <= j < i ==> old(self).slots()[j] is Some
                    &&& final(self).slots() == old(self).slots().update(i, Some(card))
                },
    {
        let n = self.0.len();
        for i in 0..n
            invariant
                old(self).wf(),
                n == self.0.len(),
                *self == *old(self),
                forall|j: int| 0 <= j < i ==> self.slots()[j] is Some,
        {
            if self.0[i].is_none() {
                self.0.set(i, Some(card));
                return ;
            }
        }
    }

    /// Clear the slot holding `card`; a no-op when the card is not in hand.
    pub fn remove(&mut self, card: usize)
        ensures
            final(self).wf() == old(self).wf(),
            !old(self).contains_card(card) ==> *final(self) == *old(self),
            old(self).contains_card(card) ==> exists|i: int|
                {
                    &&& 0 <= i < old(self).slots().len()
                    &&& old(self).slots()[i] == Some(card)
                    &&& forall|j: int| 0 <= j < i ==> old(self).slots()[j] != Some(card)
                    &&& final(self).slots() == old(self).slots().update(i, None::<usize>)
                },
    {
        let n = self.0.len();
        for i in 0..n
            invariant
                n == self.0.len(),
                *self == *old(self),
                forall|j: int| 0 <= j < i ==> self.slots()[j] != Some(card),
        {
            let slot = self.0[i];
            if slot == Some(card) {
                self.0.set(i, None);
                return ;
            }
        }
    }

    /// The number of free slots.
    pub fn empty_slots(&self) -> (r: usize)
        ensures
            r == count_empty(self.slots()),
    {
        let mut count: usize = 0;
        let n = self.0.len();
        for i in 0..n
            invariant
                n == self.0.len(),
                count == count_empty(self.slots().take(i as int)),
                count <= i,
        {
            proof {
                assert(self.slots().take(i + 1).drop_last() =~= self.slots().take(i as int));
                assert(self.slots().take(i + 1).last() == self.slots()[i as int]);
            }
            if self.0[i].is_none() {
                count = count + 1;
            }
        }
        proof {
            assert(self.slots().take(n as int) =~= self.slots());
        }
        count
    }

    /// Clear every slot.
    pub fn reset(&mut self)
        ensures
            final(self).wf(),
            final(self).slots() == seq![None::<usize>, None, None, None, None],
    {
        *self = Hand::new();
    }

    /// Whether the hand holds `card`, as a runtime test.
    pub fn contains(&self, card: usize) -> (r: bool)
        ensures
            r == self.contains_card(card),
    {
        let n = self.0.len();
        for i in 0..n
            invariant
                n == self.0.len(),
                forall|j: int| 0 <= j < i ==> self.slots()[j] != Some(card),
        {
            let slot = self.0[i];
            if slot == Some(card) {
                return true;
            }
        }
        false
    }
}

/// Tag of a tile that permanently blocks movement: the wall ring carries it.
#[derive(Clone, Copy, Debug, PartialEq, Eq, Structural)]
pub struct BlockedTile;

/// Where a card's artwork lives: a sprite sheet and an index into it.
#[derive(Debug)]
pub struct AssetInfo {
    pub sprite_sheet_name: String,
    pub sprite_index: usize,
}

/// A requirement on another entity that must hold before an effect applies.
#[derive(Clone, Copy, Debug, PartialEq, Eq, Structural)]
pub struct PreCondition(pub usize);

/// An energy endowment a card or entity carries.
#[derive(Clone, Copy, Debug, PartialEq, Eq, Structural)]
pub struct HasEnergy(pub u32);

/// A water endowment a card or entity carries.
#[derive(Clone, Copy, Debug, PartialEq, Eq, Structural)]
pub struct HasWater(pub u32);

/// Tag of an entity that movement effects may displace.
#[derive(Clone, Copy, Debug, PartialEq, Eq, Structural)]
pub struct Moveable;

/// The tiles an area effect may damage, as tile ids.
#[derive(Debug)]
pub struct Damageable(pub Vec<usize>);

/// The sequence with every occurrence of `x` removed, order preserved.
pub open spec fn without(s: Seq<usize>, x: usize) -> Seq<usize>
    decreases s.len(),
{
    if s.len() == 0 {
        Seq::empty()
    } else {
        without(s.drop_last(), x) + if s.last() == x {
            Seq::<usize>::empty()
        } else {
            seq![s.last()]
        }
    }
}

/// Removing an absent element changes nothing.
pub proof fn lemma_without_absent(s: Seq<usize>, x: usize)
    requires
        !s.contains(x),
    ensures
        without(s, x) == s,
    decreases s.len(),
{
    if s.len() > 0 {
        assert(s[s.len() - 1] != x);
        assert(forall|j: int| 0 <= j < s.drop_last().len() ==> s.drop_last()[j] == s[j]);
        assert(!s.drop_last().contains(x));
        lemma_without_absent(s.drop_last(), x);
        assert(without(s, x) =~= s);
    } else {
        assert(without(s, x) =~= s);
    }
}

/// Removing every occurrence of `x` zeroes its count and keeps every other
/// element's count.
pub proof fn lemma_without_count(s: Seq<usize>, x: usize, c: usize)
    ensures
        without(s, x).to_multiset().count(c) == if c == x {
            0int
        } else {
            s.to_multiset().count(c) as int
        },
    decreases s.len(),
{
    broadcast use vstd::seq_lib::group_to_multiset_ensures;

    if s.len() > 0 {
        lemma_without_count(s.drop_last(), x, c);
        assert(s.drop_last().to_multiset() == s.to_multiset().remove(s.last())) by {
            assert(s.remove(s.len() - 1) =~= s.drop_last());
        }
        if s.last() != x {
            assert(without(s, x) =~= without(s.drop_last(), x).push(s.last()));
        } else {
            assert(without(s, x) =~= without(s.drop_last(), x));
        }
    }
}

/// Remove every occurrence of `x` from `v`, keeping the order of the rest.
fn remove_all(v: &mut Vec<usize>, x: usize)
    ensures
        final(v)@ == without(old(v)@, x),
{
    let n = v.len();
    let mut kept: Vec<usize> = Vec::new();
    for i in 0..n
        invariant
            n == v@.len(),
            *v == *old(v),
            kept@ == without(old(v)@.take(i as int), x),
    {
        proof {
            assert(old(v)@.take(i + 1).drop_last() =~= old(v)@.take(i as int));
            assert(old(v)@.take(i + 1).last() == old(v)@[i as int]);
        }
        let e = v[i];
        if e != x {
            kept.push(e);
        }
        proof {
            assert(kept@ =~= without(old(v)@.take(i + 1), x));
        }
    }
    proof {
        assert(old(v)@.take(n as int) =~= old(v)@);
    }
    *v = kept;
}

/// The deck: the draw pile (`cards`), the pile that re-enters play on the
/// next reshuffle (`recycled`), and the pile permanently out of the drawing
/// pool (`discarded`). All piles hold card ids.
#[derive(Clone, Debug)]
pub struct Deck {
    pub cards: Vec<usize>,
    pub recycled: Vec<usize>,
    pub discarded: Vec<usize>,
}

impl Deck {
    /// An empty deck.
    pub fn new() -> (r: Self)
        ensures
            r.cards@ == Seq::<usize>::empty(),
            r.recycled@ == Seq::<usize>::empty(),
            r.discarded@ == Seq::<usize>::empty(),
    {
        Deck { cards: Vec::new(), recycled: Vec::new(), discarded: Vec::new() }
    }

    /// Put `card` on top of the draw pile.
    pub fn add(&mut self, card: usize)
        ensures
            final(self).cards@ == old(self).cards@.push(card),
            final(self).recycled == old(self).recycled,
            final(self).discarded == old(self).discarded,
    {
        self.cards.push(card);
    }

    /// Permute the draw pile randomly; the other piles are untouched.
    pub fn shuffle(&mut self)
        ensures
            final(self).cards@.to_multiset() == old(self).cards@.to_multiset(),
            final(self).cards@.len() == old(self).cards@.len(),
            final(self).recycled == old(self).recycled,
            final(self).discarded == old(self).discarded,
    {
        crate::rng::shuffle_ids(&mut self.cards);
    }

    /// Draw the top card. When the draw pile is empty it is first refilled
    /// from `recycled` (clearing it) and reshuffled: the only point where
    /// recycled cards re-enter play. Returns nothing only when both piles are
    /// empty; the discarded pile is never consulted.
    pub fn draw(&mut self) -> (r: Option<usize>)
        ensures
            final(self).discarded == old(self).discarded,
            old(self).cards@.len() == 0 && old(self).recycled@.len() == 0 ==> r is None
                && final(self).cards@ == old(self).cards@
                && final(self).recycled@ == old(self).recycled@,
            old(self).cards@.len() > 0 ==> {
                &&& r == Some(old(self).cards@.last())
                &&& final(self).cards@ == old(self).cards@.drop_last()
                &&& final(self).recycled == old(self).recycled
            },
            old(self).cards@.len() == 0 && old(self).recycled@.len() > 0 ==> {
                &&& r is Some
                &&& old(self).recycled@.to_multiset().contains(r->0)
                &&& final(self).recycled@.len() == 0
                &&& final(self).cards@.push(r->0).to_multiset()
                    == old(self).recycled@.to_multiset()
                &&& final(self).cards@.len() == old(self).recycled@.len() - 1
            },
    {
        proof {
            broadcast use vstd::seq_lib::group_to_multiset_ensures;

    }
        if self.cards.len() == 0 {
            let ghost pre = *self;
            self.cards.append(&mut self.recycled);
            proof {
                assert(self.cards@ =~= pre.recycled@);
            }
            self.shuffle();
        }
        let ghost shuffled = self.cards@;
        let r = self.cards.pop();
        proof {
            if shuffled.len() > 0 {
                assert(self.cards@.push(r->0) =~= shuffled);
            }
            if old(self).cards@.len() == 0 && old(self).recycled@.len() == 0 {
                assert(self.cards@ =~= old(self).cards@);
                assert(self.recycled@ =~= old(self).recycled@);
            }
            if old(self).cards@.len() > 0 {
                assert(self.cards@ =~= old(self).cards@.drop_last());
            }
        }
        r
    }

    /// Move `card` from the draw pile to the recycled pile: every occurrence
    /// leaves the draw pile and one copy is appended to `recycled`.
    pub fn recycle(&mut self, card: usize)
        ensures
            final(self).cards@ == without(old(self).cards@, card),
            final(self).recycled@ == old(self).recycled@.push(card),
            final(self).discarded == old(self).discarded,
            !old(self).cards@.contains(card) ==> final(self).cards@ == old(self).cards@,
            forall|c: usize|
                #[trigger] final(self).cards@.to_multiset().count(c) == if c == card {
                    0int
                } else {
                    old(self).cards@.to_multiset().count(c) as int
                },
    {
        remove_all(&mut self.cards, card);
        self.recycled.push(card);
        proof {
            if !old(self).cards@.contains(card) {
                lemma_without_absent(old(self).cards@, card);
            }
            assert forall|c: usize|
                #[trigger] self.cards@.to_multiset().count(c) == if c == card {
                    0int
                } else {
                    old(self).cards@.to_multiset().count(c) as int
                } by {
                lemma_without_count(old(self).cards@, card, c);
            }
        }
    }

    /// Move `card` out of the drawing pool for good: every occurrence leaves
    /// the draw and recycled piles and one copy is appended to `discarded`.
    pub fn discard(&mut self, card: usize)
        ensures
            final(self).cards@ == without(old(self).cards@, card),
            final(self).recycled@ == without(old(self).recycled@, card),
            final(self).discarded@ == old(self).discarded@.push(card),
            !old(self).cards@.contains(card) ==> final(self).cards@ == old(self).cards@,
            !old(self).recycled@.contains(card) ==> final(self).recycled@ == old(self).recycled@,
            forall|c: usize|
                #[trigger] final(self).cards@.to_multiset().count(c) == if c == card {
                    0int
                } else {
                    old(self).cards@.to_multiset().count(c) as int
                },
            forall|c: usize|
                #[trigger] final(self).recycled@.to_multiset().count(c) == if c == card {
                    0int
                } else {
                    old(self).recycled@.to_multiset().count(c) as int
                },
    {
        remove_all(&mut self.cards, card);
        remove_all(&mut self.recycled, card);
        self.discarded.push(card);
        proof {
            if !old(self).cards@.contains(card) {
                lemma_without_absent(old(self).cards@, card);
            }
            if !old(self).recycled@.contains(card) {
                lemma_without_absent(old(self).recycled@, card);
            }
            assert forall|c: usize|
                #[trigger] self.cards@.to_multiset().count(c) == if c == card {
                    0int
                } else {
                    old(self).cards@.to_multiset().count(c) as int
                } by {
                lemma_without_count(old(self).cards@, card, c);
            }
            assert forall|c: usize|
                #[trigger] self.recycled@.to_multiset().count(c) == if c == card {
                    0int
                } else {
                    old(self).recycled@.to_multiset().count(c) as int
                } by {
                lemma_without_count(old(self).recycled@, card, c);
            }
        }
    }

    /// Empty all three piles (level restart).
    pub fn reset(&mut self)
        ensures
            final(self).cards@ == Seq::<usize>::empty(),
            final(self).recycled@ == Seq::<usize>::empty(),
            final(self).discarded@ == Seq::<usize>::empty(),
    {
        self.cards.clear();
        self.recycled.clear();
        self.discarded.clear();
    }
}


/// Re-tag every card instance's `in_hand` flag from the hand's slots, keeping
/// the positional membership and the boolean tag in lockstep.
pub fn sync_hand(cards: &mut Vec<CardInstance>, hand: &Hand)
    ensures
        final(cards)@.len() == old(cards)@.len(),
        forall|j: int|
            0 <= j < old(cards)@.len() ==> final(cards)@[j] == (CardInstance {
                in_hand: hand.contains_card(j as usize),
                ..old(cards)@[j]
            }),
{
    let n = cards.len();
    for k in 0..n
        invariant
            n == cards@.len(),
            forall|j: int|
                k <= j < n ==> cards@[j] == old(cards)@[j],
            forall|j: int|
                0 <= j < k ==> cards@[j] == (CardInstance {
                    in_hand: hand.contains_card(j as usize),
                    ..old(cards)@[j]
                }),
    {
        let mut c = cards[k];
        c.in_hand = hand.contains(k);
        cards.set(k, c);
    }
}

/// Whether the pile holds the card id `x`, as a runtime test.
fn pile_contains(pile: &Vec<usize>, x: usize) -> (r: bool)
    ensures
        r == pile@.contains(x),
{
    let n = pile.len();
    for i in 0..n
        invariant
            n == pile@.len(),
            forall|j: int| 0 <= j < i ==> pile@[j] != x,
    {
        if pile[i] == x {
            return true;
        }
    }
    false
}

/// Re-tag every card instance's `in_deck` flag from the deck's draw pile,
/// keeping the positional membership and the boolean tag in lockstep.
pub fn sync_deck(cards: &mut Vec<CardInstance>, deck: &Deck)
    ensures
        final(cards)@.len() == old(cards)@.len(),
        forall|j: int|
            0 <= j < old(cards)@.len() ==> final(cards)@[j] == (CardInstance {
                in_deck: deck.cards@.contains(j as usize),
                ..old(cards)@[j]
            }),
{
    let n = cards.len();
    for k in 0..n
        invariant
            n == cards@.len(),
            forall|j: int|
                k <= j < n ==> cards@[j] == old(cards)@[j],
            forall|j: int|
                0 <= j < k ==> cards@[j] == (CardInstance {
                    in_deck: deck.cards@.contains(j as usize),
                    ..old(cards)@[j]
                }),
    {
        let mut c = cards[k];
        c.in_deck = pile_contains(&deck.cards, k);
        cards.set(k, c);
    }
}

/// The level's tile lookup: a rectangular table from (x, y) to a tile id,
/// indexed row by row.
#[derive(Clone, Debug)]
pub struct Grid(pub Vec<Vec<usize>>);

impl Grid {
    /// Number of rows (the extent of the y coordinate).
    pub open spec fn rows(self) -> int {
        self.0@.len() as int
    }

    /// Number of columns (the extent of the x coordinate).
    pub open spec fn cols(self) -> int {
        if self.0@.len() > 0 {
            self.0@[0]@.len() as int
        } else {
            0
        }
    }

    /// The table is rectangular: every row has the same length.
    pub open spec fn wf(self) -> bool {
        forall|i: int| 0 <= i < self.0@.len() ==> (#[trigger] self.0@[i])@.len() == self.cols()
    }

    pub open spec fn in_bounds(self, x: int, y: int) -> bool {
        0 <= x < self.cols() && 0 <= y < self.rows()
    }

    /// The tile id stored at in-bounds coordinates.
    pub open spec fn id_at(self, x: int, y: int) -> usize {
        self.0@[y]@[x]
    }

    pub open spec fn get_spec(self, pos: GamePosition) -> Option<usize> {
        if self.in_bounds(pos.x as int, pos.y as int) {
            Some(self.id_at(pos.x as int, pos.y as int))
        } else {
            None
        }
    }

    /// Look a position up; out-of-bounds positions have no tile.
    pub fn get(&self, pos: &GamePosition) -> (r: Option<usize>)
        requires
            self.wf(),
        ensures
            r == self.get_spec(*pos),
    {
        if pos.y < 0 || pos.x < 0 {
            return None;
        }
        if pos.y as usize >= self.0.len() {
            return None;
        }
        let row = &self.0[pos.y as usize];
        if pos.x as usize >= row.len() {
            return None;
        }
        Some(row[pos.x as usize])
    }

    /// The single orthogonal step `(dx, dy)` from `pos`, as a sequence that is
    /// empty when the step leaves the table.
    pub open spec fn nb(self, pos: GamePosition, dx: int, dy: int) -> Seq<usize> {
        if self.in_bounds(pos.x + dx, pos.y + dy) {
            seq![self.id_at(pos.x + dx, pos.y + dy)]
        } else {
            Seq::<usize>::empty()
        }
    }

    /// All in-bounds orthogonal neighbors of `pos`, in a fixed order.
    pub open spec fn neighbor_seq(self, pos: GamePosition) -> Seq<usize> {
        self.nb(pos, -1, 0) + self.nb(pos, 0, -1) + self.nb(pos, 0, 1) + self.nb(pos, 1, 0)
    }

    /// The ids of the up-to-four orthogonal in-bounds neighbor tiles.
    pub fn neighbors(&self, pos: &GamePosition) -> (r: Vec<usize>)
        requires
            self.wf(),
            i32::MIN < pos.x < i32::MAX,
            i32::MIN < pos.y < i32::MAX,
        ensures
            r@ == self.neighbor_seq(*pos),
    {
        let mut out: Vec<usize> = Vec::new();
        let west = GamePosition { x: pos.x - 1, ..*pos };
        if let Some(id) = self.get(&west) {
            out.push(id);
        }
        let south = GamePosition { y: pos.y - 1, ..*pos };
        if let Some(id) = self.get(&south) {
            out.push(id);
        }
        let north = GamePosition { y: pos.y + 1, ..*pos };
        if let Some(id) = self.get(&north) {
            out.push(id);
        }
        let east = GamePosition { x: pos.x + 1, ..*pos };
        if let Some(id) = self.get(&east) {
            out.push(id);
        }
        proof {
            assert(out@ =~= self.neighbor_seq(*pos));
        }
        out
    }
}


/// A card's cost in player resources.
#[derive(Clone, Copy, Debug, PartialEq, Eq, Structural)]
pub struct ResourceInfo {
    pub energy: i32,
    pub water: i32,
}

/// One facing-relative step of a targeting pattern: `facing` tiles forward
/// and `tangent` tiles sideways.
#[derive(Clone, Copy, Debug, PartialEq, Eq, Structural)]
pub struct Offset {
    pub facing: i32,
    pub tangent: i32,
}

/// The declarative targeting expression shared by movement and area damage:
/// either a single distance along the facing, or a list of offsets.
#[derive(Clone, Debug)]
pub enum TileTarget {
    FacingDist(i32),
    FacingOffsets(Vec<Offset>),
}

impl TileTarget {
    /// The positions the target resolves to from `base`, in declaration order.
    pub open spec fn positions_spec(self, base: GamePosition) -> Seq<GamePosition> {
        match self {
            TileTarget::FacingDist(d) => seq![base.offset_spec(d as int, 0)],
            TileTarget::FacingOffsets(offs) => Seq::new(
                offs@.len(),
                |i: int| base.offset_spec(offs@[i].facing as int, offs@[i].tangent as int),
            ),
        }
    }

    /// Whether every resolved position fits in the coordinate type.
    pub open spec fn fits(self, base: GamePosition) -> bool {
        match self {
            TileTarget::FacingDist(d) => base.offset_fits(d as int, 0),
            TileTarget::FacingOffsets(offs) => forall|i: int|
                0 <= i < offs@.len() ==> #[trigger] base.offset_fits(
                    offs@[i].facing as int,
                    offs@[i].tangent as int,
                ),
        }
    }

    /// Resolve the target against `base`: the single source of truth for
    /// every card's movement destination and damage footprint.
    pub fn get_positions(&self, base: &GamePosition) -> (r: Vec<GamePosition>)
        requires
            self.fits(*base),
        ensures
            r@ == self.positions_spec(*base),
    {
        let mut positions: Vec<GamePosition> = Vec::new();
        match self {
            TileTarget::FacingDist(dist) => {
                positions.push(base.offset((*dist, 0)));
            },
            TileTarget::FacingOffsets(offsets) => {
                let n = offsets.len();
                for i in 0..n
                    invariant
                        n == offsets@.len(),
                        self matches TileTarget::FacingOffsets(o) && o@ == offsets@,
                        self.fits(*base),
                        positions@ == self.positions_spec(*base).take(i as int),
                {
                    let o = offsets[i];
                    positions.push(base.offset((o.facing, o.tangent)));
                    proof {
                        assert(positions@ =~= self.positions_spec(*base).take(i + 1));
                    }
                }
            },
        }
        proof {
            assert(positions@ =~= self.positions_spec(*base));
        }
        positions
    }
}

/// A card's movement effect: where the player goes and how the facing turns.
#[derive(Clone, Debug)]
pub struct MovementInfo {
    pub position: TileTarget,
    pub rotation: Rotation,
}

/// A card's extinguishing effect: which tiles are hit and how hard.
#[derive(Clone, Debug)]
pub struct DamageInfo {
    pub damage_target: TileTarget,
    pub amount: u32,
}

impl DamageInfo {
    /// The empty damage effect of a pure movement card.
    pub fn none() -> (r: Self)
        ensures
            r.damage_target == TileTarget::FacingDist(0),
            r.amount == 0,
    {
        Self { damage_target: TileTarget::FacingDist(0), amount: 0 }
    }
}

/// A catalog entry: the full immutable definition of one card.
#[derive(Debug)]
pub struct CardInfo {
    pub resource_cost: ResourceInfo,
    pub position_change: MovementInfo,
    pub water_damage: DamageInfo,
    pub texture_index: usize,
    pub name: String,
    pub description: String,
}

/// Exactly what the fixed catalog holds for the card definition `id`:
/// its name, resource cost, movement, rotation, water damage and sprite.
pub open spec fn catalog_entry(id: int, c: CardInfo) -> bool {
    if id == 1 {
            &&& c.name@ == "Forward"@
            &&& c.description@ == "Move forward 1 tile"@
            &&& c.resource_cost == (ResourceInfo { energy: 1, water: 0 })
            &&& c.position_change.position == TileTarget::FacingDist(1i32)
            &&& c.position_change.rotation == Rotation::Identity
            &&& c.water_damage.damage_target == TileTarget::FacingDist(0i32)
            &&& c.water_damage.amount == 0
            &&& c.texture_index == 0
        } else if id == 2 {
            &&& c.name@ == "Backward"@
            &&& c.description@ == "Move backward 1 tile"@
            &&& c.resource_cost == (ResourceInfo { energy: 1, water: 0 })
            &&& c.position_change.position == TileTarget::FacingDist(-1i32)
            &&& c.position_change.rotation == Rotation::Identity
            &&& c.water_damage.damage_target == TileTarget::FacingDist(0i32)
            &&& c.water_damage.amount == 0
            &&& c.texture_index == 1
        } else if id == 3 {
            &&& c.name@ == "Right"@
            &&& c.description@ == "Rotate facing direction to the right"@
            &&& c.resource_cost == (ResourceInfo { energy: 1, water: 0 })
            &&& c.position_change.position == TileTarget::FacingDist(0i32)
            &&& c.position_change.rotation == Rotation::Right
            &&& c.water_damage.damage_target == TileTarget::FacingDist(0i32)
            &&& c.water_damage.amount == 0
            &&& c.texture_index == 2
        } else if id == 4 {
            &&& c.name@ == "Left"@
            &&& c.description@ == "Rotate facing direction to the left"@
            &&& c.resource_cost == (ResourceInfo { energy: 1, water: 0 })
            &&& c.position_change.position == TileTarget::FacingDist(0i32)
            &&& c.position_change.rotation == Rotation::Left
            &&& c.water_damage.damage_target == TileTarget::FacingDist(0i32)
            &&& c.water_damage.amount == 0
            &&& c.texture_index == 3
        } else if id == 5 {
            &&& c.name@ == "Squirt"@
            &&& c.description@ == "Extinguish fire 1 tile away in facing direction"@
            &&& c.resource_cost == (ResourceInfo { energy: 0, water: 1 })
            &&& c.position_change.position == TileTarget::FacingDist(0i32)
            &&& c.position_change.rotation == Rotation::Identity
            &&& c.water_damage.damage_target == TileTarget::FacingDist(1i32)
            &&& c.water_damage.amount == 1
            &&& c.texture_index == 4
        } else if id == 6 {
            &&& c.name@ == "Splash"@
            &&& c.description@ == "Extinguish up to 3 fires in a row that are 2 tiles away in facing direction"@
            &&& c.resource_cost == (ResourceInfo { energy: 0, water: 1 })
            &&& c.position_change.position == TileTarget::FacingDist(0i32)
            &&& c.position_change.rotation == Rotation::Identity
            &&& c.water_damage.damage_target matches TileTarget::FacingOffsets(v) && v@ == seq![Offset { facing: 2i32, tangent: -1i32 }, Offset { facing: 2i32, tangent: 0i32 }, Offset { facing: 2i32, tangent: 1i32 }]
            &&& c.water_damage.amount == 1
            &&& c.texture_index == 5
        } else if id == 7 {
            &&& c.name@ == "Sprinkle"@
            &&& c.description@ == "Extinguish fire 1 tile away in each cardinal direction"@
            &&& c.resource_cost == (ResourceInfo { energy: 0, water: 2 })
            &&& c.position_change.position == TileTarget::FacingDist(0i32)
            &&& c.position_change.rotation == Rotation::Identity
            &&& c.water_damage.damage_target matches TileTarget::FacingOffsets(v) && v@ == seq![Offset { facing: 0i32, tangent: -1i32 }, Offset { facing: 1i32, tangent: 0i32 }, Offset { facing: 0i32, tangent: 1i32 }, Offset { facing: -1i32, tangent: 0i32 }]
            &&& c.water_damage.amount == 1
            &&& c.texture_index == 6
        } else if id == 8 {
            &&& c.name@ == "Spray"@
            &&& c.description@ == "Extinguish fire in a cone in the facing direction"@
            &&& c.resource_cost == (ResourceInfo { energy: 0, water: 3 })
            &&& c.position_change.position == TileTarget::FacingDist(0i32)
            &&& c.position_change.rotation == Rotation::Identity
            &&& c.water_damage.damage_target matches TileTarget::FacingOffsets(v) && v@ == seq![Offset { facing: 1i32, tangent: 0i32 }, Offset { facing: 2i32, tangent: -1i32 }, Offset { facing: 2i32, tangent: 0i32 }, Offset { facing: 2i32, tangent: 1i32 }, Offset { facing: 3i32, tangent: -2i32 }, Offset { facing: 3i32, tangent: 0i32 }, Offset { facing: 3i32, tangent: 2i32 }]
            &&& c.water_damage.amount == 1
            &&& c.texture_index == 7
        } else if id == 9 {
            &&& c.name@ == "Slosh"@
            &&& c.description@ == "Move forward and extinguish 2 tiles adjacent to the destination"@
            &&& c.resource_cost == (ResourceInfo { energy: 1, water: 1 })
            &&& c.position_change.position == TileTarget::FacingDist(1i32)
            &&& c.position_change.rotation == Rotation::Identity
            &&& c.water_damage.damage_target matches TileTarget::FacingOffsets(v) && v@ == seq![Offset { facing: 1i32, tangent: 1i32 }, Offset { facing: 1i32, tangent: -1i32 }]
            &&& c.water_damage.amount == 1
            &&& c.texture_index == 8
        } else if id == 10 {
            &&& c.name@ == "Water Jet"@
            &&& c.description@ == "Water propels you forward and extinguishes some trailing tiles"@
            &&& c.resource_cost == (ResourceInfo { energy: 0, water: 2 })
            &&& c.position_change.position == TileTarget::FacingDist(1i32)
            &&& c.position_change.rotation == Rotation::Identity
            &&& c.water_damage.damage_target matches TileTarget::FacingOffsets(v) && v@ == seq![Offset { facing: -1i32, tangent: 1i32 }, Offset { facing: -2i32, tangent: 2i32 }, Offset { facing: -1i32, tangent: -1i32 }, Offset { facing: -2i32, tangent: -2i32 }]
            &&& c.water_damage.amount == 1
            &&& c.texture_index == 9
        } else if id == 11 {
            &&& c.name@ == "Wave Turn Right"@
            &&& c.description@ == "Turn right and extinguish a row of tiles in your original facing direction"@
            &&& c.resource_cost == (ResourceInfo { energy: 1, water: 1 })
            &&& c.position_change.position == TileTarget::FacingDist(0i32)
            &&& c.position_change.rotation == Rotation::Right
            &&& c.water_damage.damage_target matches TileTarget::FacingOffsets(v) && v@ == seq![Offset { facing: 1i32, tangent: 1i32 }, Offset { facing: 1i32, tangent: 0i32 }, Offset { facing: 1i32, tangent: -1i32 }]
            &&& c.water_damage.amount == 1
            &&& c.texture_index == 10
        } else if id == 12 {
            &&& c.name@ == "Wave Turn Left"@
            &&& c.description@ == "Turn left and extinguish a row of tiles in your original facing direction"@
            &&& c.resource_cost == (ResourceInfo { energy: 1, water: 1 })
            &&& c.position_change.position == TileTarget::FacingDist(0i32)
            &&& c.position_change.rotation == Rotation::Left
            &&& c.water_damage.damage_target matches TileTarget::FacingOffsets(v) && v@ == seq![Offset { facing: 1i32, tangent: 1i32 }, Offset { facing: 1i32, tangent: 0i32 }, Offset { facing: 1i32, tangent: -1i32 }]
            &&& c.water_damage.amount == 1
            &&& c.texture_index == 11
        } else if id == 13 {
            &&& c.name@ == "Spin and Spray"@
            &&& c.description@ == "Reverse facing direction and extinguish tiles at each corner"@
            &&& c.resource_cost == (ResourceInfo { energy: 1, water: 1 })
            &&& c.position_change.position == TileTarget::FacingDist(0i32)
            &&& c.position_change.rotation == Rotation::Reverse
            &&& c.water_damage.damage_target matches TileTarget::FacingOffsets(v) && v@ == seq![Offset { facing: 1i32, tangent: 1i32 }, Offset { facing: -1i32, tangent: 1i32 }, Offset { facing: 1i32, tangent: -1i32 }, Offset { facing: -1i32, tangent: -1i32 }]
            &&& c.water_damage.amount == 1
            &&& c.texture_index == 12
        } else if id == 14 {
            &&& c.name@ == "Back Blast"@
            &&& c.description@ == "Extinguish 3 tiles in facing direction and move backward one tile"@
            &&& c.resource_cost == (ResourceInfo { energy: 0, water: 2 })
            &&& c.position_change.position == TileTarget::FacingDist(-1i32)
            &&& c.position_change.rotation == Rotation::Identity
            &&& c.water_damage.damage_target matches TileTarget::FacingOffsets(v) && v@ == seq![Offset { facing: 1i32, tangent: 0i32 }, Offset { facing: 2i32, tangent: 0i32 }, Offset { facing: 3i32, tangent: 0i32 }]
            &&& c.water_damage.amount == 1
            &&& c.texture_index == 13
        } else if id == 15 {
            &&& c.name@ == "Expell"@
            &&& c.description@ == "Extinguish 2 tiles from each diagonal"@
            &&& c.resource_cost == (ResourceInfo { energy: 0, water: 2 })
            &&& c.position_change.position == TileTarget::FacingDist(0i32)
            &&& c.position_change.rotation == Rotation::Identity
            &&& c.water_damage.damage_target matches TileTarget::FacingOffsets(v) && v@ == seq![Offset { facing: 1i32, tangent: 1i32 }, Offset { facing: 2i32, tangent: 2i32 }, Offset { facing: 1i32, tangent: -1i32 }, Offset { facing: 2i32, tangent: -2i32 }, Offset { facing: -1i32, tangent: 1i32 }, Offset { facing: -2i32, tangent: 2i32 }, Offset { facing: -1i32, tangent: -1i32 }, Offset { facing: -2i32, tangent: -2i32 }]
            &&& c.water_damage.amount == 1
            &&& c.texture_index == 14
        } else if id == 16 {
            &&& c.name@ == "Cross Crash"@
            &&& c.description@ == "Extinguish 2 tiles in each cardinal direction"@
            &&& c.resource_cost == (ResourceInfo { energy: 0, water: 3 })
            &&& c.position_change.position == TileTarget::FacingDist(0i32)
            &&& c.position_change.rotation == Rotation::Identity
            &&& c.water_damage.damage_target matches TileTarget::FacingOffsets(v) && v@ == seq![Offset { facing: 1i32, tangent: 0i32 }, Offset { facing: 2i32, tangent: 0i32 }, Offset { facing: 0i32, tangent: -1i32 }, Offset { facing: 0i32, tangent: -2i32 }, Offset { facing: 0i32, tangent: 1i32 }, Offset { facing: 0i32, tangent: 2i32 }, Offset { facing: -1i32, tangent: 0i32 }, Offset { facing: -2i32, tangent: 0i32 }]
            &&& c.water_damage.amount == 1
            &&& c.texture_index == 15
        } else if id == 17 {
            &&& c.name@ == "Forward Right"@
            &&& c.description@ == "Move forward and right"@
            &&& c.resource_cost == (ResourceInfo { energy: 1, water: 0 })
            &&& c.position_change.position matches TileTarget::FacingOffsets(v) && v@ == seq![Offset { facing: 1i32, tangent: 1i32 }]
            &&& c.position_change.rotation == Rotation::Identity
            &&& c.water_damage.damage_target == TileTarget::FacingDist(0i32)
            &&& c.water_damage.amount == 0
            &&& c.texture_index == 16
        } else if id == 18 {
            &&& c.name@ == "Forward Left"@
            &&& c.description@ == "Move forward and left"@
            &&& c.resource_cost == (ResourceInfo { energy: 1, water: 0 })
            &&& c.position_change.position matches TileTarget::FacingOffsets(v) && v@ == seq![Offset { facing: 1i32, tangent: -1i32 }]
            &&& c.position_change.rotation == Rotation::Identity
            &&& c.water_damage.damage_target == TileTarget::FacingDist(0i32)
            &&& c.water_damage.amount == 0
            &&& c.texture_index == 17
        } else if id == 19 {
            &&& c.name@ == "Back Left"@
            &&& c.description@ == "Move backward and left"@
            &&& c.resource_cost == (ResourceInfo { energy: 1, water: 0 })
            &&& c.position_change.position matches TileTarget::FacingOffsets(v) && v@ == seq![Offset { facing: -1i32, tangent: -1i32 }]
            &&& c.position_change.rotation == Rotation::Identity
            &&& c.water_damage.damage_target == TileTarget::FacingDist(0i32)
            &&& c.water_damage.amount == 0
            &&& c.texture_index == 18
        } else if id == 20 {
            &&& c.name@ == "Back Right"@
            &&& c.description@ == "Move backward and right"@
            &&& c.resource_cost == (ResourceInfo { energy: 1, water: 0 })
            &&& c.position_change.position matches TileTarget::FacingOffsets(v) && v@ == seq![Offset { facing: -1i32, tangent: 1i32 }]
            &&& c.position_change.rotation == Rotation::Identity
            &&& c.water_damage.damage_target == TileTarget::FacingDist(0i32)
            &&& c.water_damage.amount == 0
            &&& c.texture_index == 19
        } else {
        false
    }
}


/// The immutable catalog of card definitions, ordered by `ContentID` starting
/// at 1.
#[derive(Debug)]
pub struct CardInfoMap(pub Vec<CardInfo>);

impl CardInfoMap {
    /// Whether `id` names a catalog entry.
    pub open spec fn contains_id(self, id: ContentID) -> bool {
        1 <= id.0 <= self.0@.len()
    }

    /// The entry a valid `id` names.
    pub open spec fn info_spec(self, id: ContentID) -> CardInfo {
        self.0@[id.0 - 1]
    }

    /// An empty catalog, the state before a level loads one.
    pub fn new() -> (r: Self)
        ensures
            r.0@.len() == 0,
    {
        CardInfoMap(Vec::new())
    }

    /// Look a card definition up by its content id.
    pub fn get(&self, id: &ContentID) -> (r: Option<&CardInfo>)
        ensures
            r is Some <==> self.contains_id(*id),
            r matches Some(c) ==> *c == self.info_spec(*id),
    {
        if 1 <= id.0 && id.0 <= self.0.len() {
            Some(&self.0[id.0 - 1])
        } else {
            None
        }
    }
}

/// Build the fixed catalog of the twenty card definitions.
pub fn load_card_infos() -> (r: CardInfoMap)
    ensures
        r.0@.len() == 20,
        forall|i: int| 0 <= i < 20 ==> catalog_entry(i + 1, #[trigger] r.0@[i]),
{
    proof {
        broadcast use vstd::string::group_string_axioms;

    }
    let mut infos: Vec<CardInfo> = Vec::new();
    let c1 = CardInfo {
        name: "Forward".to_string(),
        description: "Move forward 1 tile".to_string(),
        resource_cost: ResourceInfo { energy: 1, water: 0 },
        position_change: MovementInfo { position: TileTarget::FacingDist(1), rotation: Rotation::Identity },
        water_damage: DamageInfo::none(),
        texture_index: 0,
    };
    infos.push(c1);
    let c2 = CardInfo {
        name: "Backward".to_string(),
        description: "Move backward 1 tile".to_string(),
        resource_cost: ResourceInfo { energy: 1, water: 0 },
        position_change: MovementInfo { position: TileTarget::FacingDist(-1), rotation: Rotation::Identity },
        water_damage: DamageInfo::none(),
        texture_index: 1,
    };
    infos.push(c2);
    let c3 = CardInfo {
        name: "Right".to_string(),
        description: "Rotate facing direction to the right".to_string(),
        resource_cost: ResourceInfo { energy: 1, water: 0 },
        position_change: MovementInfo { position: TileTarget::FacingDist(0), rotation: Rotation::Right },
        water_damage: DamageInfo::none(),
        texture_index: 2,
    };
    infos.push(c3);
    let c4 = CardInfo {
        name: "Left".to_string(),
        description: "Rotate facing direction to the left".to_string(),
        resource_cost: ResourceInfo { energy: 1, water: 0 },
        position_change: MovementInfo { position: TileTarget::FacingDist(0), rotation: Rotation::Left },
        water_damage: DamageInfo::none(),
        texture_index: 3,
    };
    infos.push(c4);
    let c5 = CardInfo {
        name: "Squirt".to_string(),
        description: "Extinguish fire 1 tile away in facing direction".to_string(),
        resource_cost: ResourceInfo { energy: 0, water: 1 },
        position_change: MovementInfo { position: TileTarget::FacingDist(0), rotation: Rotation::Identity },
        water_damage: DamageInfo { damage_target: TileTarget::FacingDist(1), amount: 1 },
        texture_index: 4,
    };
    infos.push(c5);
    let c6 = CardInfo {
        name: "Splash".to_string(),
        description: "Extinguish up to 3 fires in a row that are 2 tiles away in facing direction".to_string(),
        resource_cost: ResourceInfo { energy: 0, water: 1 },
        position_change: MovementInfo { position: TileTarget::FacingDist(0), rotation: Rotation::Identity },
        water_damage: DamageInfo { damage_target: TileTarget::FacingOffsets(vec![Offset { facing: 2, tangent: -1 }, Offset { facing: 2, tangent: 0 }, Offset { facing: 2, tangent: 1 }]), amount: 1 },
        texture_index: 5,
    };
    infos.push(c6);
    let c7 = CardInfo {
        name: "Sprinkle".to_string(),
        description: "Extinguish fire 1 tile away in each cardinal direction".to_string(),
        resource_cost: ResourceInfo { energy: 0, water: 2 },
        position_change: MovementInfo { position: TileTarget::FacingDist(0), rotation: Rotation::Identity },
        water_damage: DamageInfo { damage_target: TileTarget::FacingOffsets(vec![Offset { facing: 0, tangent: -1 }, Offset { facing: 1, tangent: 0 }, Offset { facing: 0, tangent: 1 }, Offset { facing: -1, tangent: 0 }]), amount: 1 },
        texture_index: 6,
    };
    infos.push(c7);
    let c8 = CardInfo {
        name: "Spray".to_string(),
        description: "Extinguish fire in a cone in the facing direction".to_string(),
        resource_cost: ResourceInfo { energy: 0, water: 3 },
        position_change: MovementInfo { position: TileTarget::FacingDist(0), rotation: Rotation::Identity },
        water_damage: DamageInfo { damage_target: TileTarget::FacingOffsets(vec![Offset { facing: 1, tangent: 0 }, Offset { facing: 2, tangent: -1 }, Offset { facing: 2, tangent: 0 }, Offset { facing: 2, tangent: 1 }, Offset { facing: 3, tangent: -2 }, Offset { facing: 3, tangent: 0 }, Offset { facing: 3, tangent: 2 }]), amount: 1 },
        texture_index: 7,
    };
    infos.push(c8);
    let c9 = CardInfo {
        name: "Slosh".to_string(),
        description: "Move forward and extinguish 2 tiles adjacent to the destination".to_string(),
        resource_cost: ResourceInfo { energy: 1, water: 1 },
        position_change: MovementInfo { position: TileTarget::FacingDist(1), rotation: Rotation::Identity },
        water_damage: DamageInfo { damage_target: TileTarget::FacingOffsets(vec![Offset { facing: 1, tangent: 1 }, Offset { facing: 1, tangent: -1 }]), amount: 1 },
        texture_index: 8,
    };
    infos.push(c9);
    let c10 = CardInfo {
        name: "Water Jet".to_string(),
        description: "Water propels you forward and extinguishes some trailing tiles".to_string(),
        resource_cost: ResourceInfo { energy: 0, water: 2 },
        position_change: MovementInfo { position: TileTarget::FacingDist(1), rotation: Rotation::Identity },
        water_damage: DamageInfo { damage_target: TileTarget::FacingOffsets(vec![Offset { facing: -1, tangent: 1 }, Offset { facing: -2, tangent: 2 }, Offset { facing: -1, tangent: -1 }, Offset { facing: -2, tangent: -2 }]), amount: 1 },
        texture_index: 9,
    };
    infos.push(c10);
    let c11 = CardInfo {
        name: "Wave Turn Right".to_string(),
        description: "Turn right and extinguish a row of tiles in your original facing direction".to_string(),
        resource_cost: ResourceInfo { energy: 1, water: 1 },
        position_change: MovementInfo { position: TileTarget::FacingDist(0), rotation: Rotation::Right },
        water_damage: DamageInfo { damage_target: TileTarget::FacingOffsets(vec![Offset { facing: 1, tangent: 1 }, Offset { facing: 1, tangent: 0 }, Offset { facing: 1, tangent: -1 }]), amount: 1 },
        texture_index: 10,
    };
    infos.push(c11);
    let c12 = CardInfo {
        name: "Wave Turn Left".to_string(),
        description: "Turn left and extinguish a row of tiles in your original facing direction".to_string(),
        resource_cost: ResourceInfo { energy: 1, water: 1 },
        position_change: MovementInfo { position: TileTarget::FacingDist(0), rotation: Rotation::Left },
        water_damage: DamageInfo { damage_target: TileTarget::FacingOffsets(vec![Offset { facing: 1, tangent: 1 }, Offset { facing: 1, tangent: 0 }, Offset { facing: 1, tangent: -1 }]), amount: 1 },
        texture_index: 11,
    };
    infos.push(c12);
    let c13 = CardInfo {
        name: "Spin and Spray".to_string(),
        description: "Reverse facing direction and extinguish tiles at each corner".to_string(),
        resource_cost: ResourceInfo { energy: 1, water: 1 },
        position_change: MovementInfo { position: TileTarget::FacingDist(0), rotation: Rotation::Reverse },
        water_damage: DamageInfo { damage_target: TileTarget::FacingOffsets(vec![Offset { facing: 1, tangent: 1 }, Offset { facing: -1, tangent: 1 }, Offset { facing: 1, tangent: -1 }, Offset { facing: -1, tangent: -1 }]), amount: 1 },
        texture_index: 12,
    };
    infos.push(c13);
    let c14 = CardInfo {
        name: "Back Blast".to_string(),
        description: "Extinguish 3 tiles in facing direction and move backward one tile".to_string(),
        resource_cost: ResourceInfo { energy: 0, water: 2 },
        position_change: MovementInfo { position: TileTarget::FacingDist(-1), rotation: Rotation::Identity },
        water_damage: DamageInfo { damage_target: TileTarget::FacingOffsets(vec![Offset { facing: 1, tangent: 0 }, Offset { facing: 2, tangent: 0 }, Offset { facing: 3, tangent: 0 }]), amount: 1 },
        texture_index: 13,
    };
    infos.push(c14);
    let c15 = CardInfo {
        name: "Expell".to_string(),
        description: "Extinguish 2 tiles from each diagonal".to_string(),
        resource_cost: ResourceInfo { energy: 0, water: 2 },
        position_change: MovementInfo { position: TileTarget::FacingDist(0), rotation: Rotation::Identity },
        water_damage: DamageInfo { damage_target: TileTarget::FacingOffsets(vec![Offset { facing: 1, tangent: 1 }, Offset { facing: 2, tangent: 2 }, Offset { facing: 1, tangent: -1 }, Offset { facing: 2, tangent: -2 }, Offset { facing: -1, tangent: 1 }, Offset { facing: -2, tangent: 2 }, Offset { facing: -1, tangent: -1 }, Offset { facing: -2, tangent: -2 }]), amount: 1 },
        texture_index: 14,
    };
    infos.push(c15);
    let c16 = CardInfo {
        name: "Cross Crash".to_string(),
        description: "Extinguish 2 tiles in each cardinal direction".to_string(),
        resource_cost: ResourceInfo { energy: 0, water: 3 },
        position_change: MovementInfo { position: TileTarget::FacingDist(0), rotation: Rotation::Identity },
        water_damage: DamageInfo { damage_target: TileTarget::FacingOffsets(vec![Offset { facing: 1, tangent: 0 }, Offset { facing: 2, tangent: 0 }, Offset { facing: 0, tangent: -1 }, Offset { facing: 0, tangent: -2 }, Offset { facing: 0, tangent: 1 }, Offset { facing: 0, tangent: 2 }, Offset { facing: -1, tangent: 0 }, Offset { facing: -2, tangent: 0 }]), amount: 1 },
        texture_index: 15,
    };
    infos.push(c16);
    let c17 = CardInfo {
        name: "Forward Right".to_string(),
        description: "Move forward and right".to_string(),
        resource_cost: ResourceInfo { energy: 1, water: 0 },
        position_change: MovementInfo { position: TileTarget::FacingOffsets(vec![Offset { facing: 1, tangent: 1 }]), rotation: Rotation::Identity },
        water_damage: DamageInfo::none(),
        texture_index: 16,
    };
    infos.push(c17);
    let c18 = CardInfo {
        name: "Forward Left".to_string(),
        description: "Move forward and left".to_string(),
        resource_cost: ResourceInfo { energy: 1, water: 0 },
        position_change: MovementInfo { position: TileTarget::FacingOffsets(vec![Offset { facing: 1, tangent: -1 }]), rotation: Rotation::Identity },
        water_damage: DamageInfo::none(),
        texture_index: 17,
    };
    infos.push(c18);
    let c19 = CardInfo {
        name: "Back Left".to_string(),
        description: "Move backward and left".to_string(),
        resource_cost: ResourceInfo { energy: 1, water: 0 },
        position_change: MovementInfo { position: TileTarget::FacingOffsets(vec![Offset { facing: -1, tangent: -1 }]), rotation: Rotation::Identity },
        water_damage: DamageInfo::none(),
        texture_index: 18,
    };
    infos.push(c19);
    let c20 = CardInfo {
        name: "Back Right".to_string(),
        description: "Move backward and right".to_string(),
        resource_cost: ResourceInfo { energy: 1, water: 0 },
        position_change: MovementInfo { position: TileTarget::FacingOffsets(vec![Offset { facing: -1, tangent: 1 }]), rotation: Rotation::Identity },
        water_damage: DamageInfo::none(),
        texture_index: 19,
    };
    infos.push(c20);
    proof {
        assert(c6.water_damage.damage_target->FacingOffsets_0@ =~= seq![Offset { facing: 2i32, tangent: -1i32 }, Offset { facing: 2i32, tangent: 0i32 }, Offset { facing: 2i32, tangent: 1i32 }]);
        assert(c7.water_damage.damage_target->FacingOffsets_0@ =~= seq![Offset { facing: 0i32, tangent: -1i32 }, Offset { facing: 1i32, tangent: 0i32 }, Offset { facing: 0i32, tangent: 1i32 }, Offset { facing: -1i32, tangent: 0i32 }]);
        assert(c8.water_damage.damage_target->FacingOffsets_0@ =~= seq![Offset { facing: 1i32, tangent: 0i32 }, Offset { facing: 2i32, tangent: -1i32 }, Offset { facing: 2i32, tangent: 0i32 }, Offset { facing: 2i32, tangent: 1i32 }, Offset { facing: 3i32, tangent: -2i32 }, Offset { facing: 3i32, tangent: 0i32 }, Offset { facing: 3i32, tangent: 2i32 }]);
        assert(c9.water_damage.damage_target->FacingOffsets_0@ =~= seq![Offset { facing: 1i32, tangent: 1i32 }, Offset { facing: 1i32, tangent: -1i32 }]);
        assert(c10.water_damage.damage_target->FacingOffsets_0@ =~= seq![Offset { facing: -1i32, tangent: 1i32 }, Offset { facing: -2i32, tangent: 2i32 }, Offset { facing: -1i32, tangent: -1i32 }, Offset { facing: -2i32, tangent: -2i32 }]);
        assert(c11.water_damage.damage_target->FacingOffsets_0@ =~= seq![Offset { facing: 1i32, tangent: 1i32 }, Offset { facing: 1i32, tangent: 0i32 }, Offset { facing: 1i32, tangent: -1i32 }]);
        assert(c12.water_damage.damage_target->FacingOffsets_0@ =~= seq![Offset { facing: 1i32, tangent: 1i32 }, Offset { facing: 1i32, tangent: 0i32 }, Offset { facing: 1i32, tangent: -1i32 }]);
        assert(c13.water_damage.damage_target->FacingOffsets_0@ =~= seq![Offset { facing: 1i32, tangent: 1i32 }, Offset { facing: -1i32, tangent: 1i32 }, Offset { facing: 1i32, tangent: -1i32 }, Offset { facing: -1i32, tangent: -1i32 }]);
        assert(c14.water_damage.damage_target->FacingOffsets_0@ =~= seq![Offset { facing: 1i32, tangent: 0i32 }, Offset { facing: 2i32, tangent: 0i32 }, Offset { facing: 3i32, tangent: 0i32 }]);
        assert(c15.water_damage.damage_target->FacingOffsets_0@ =~= seq![Offset { facing: 1i32, tangent: 1i32 }, Offset { facing: 2i32, tangent: 2i32 }, Offset { facing: 1i32, tangent: -1i32 }, Offset { facing: 2i32, tangent: -2i32 }, Offset { facing: -1i32, tangent: 1i32 }, Offset { facing: -2i32, tangent: 2i32 }, Offset { facing: -1i32, tangent: -1i32 }, Offset { facing: -2i32, tangent: -2i32 }]);
        assert(c16.water_damage.damage_target->FacingOffsets_0@ =~= seq![Offset { facing: 1i32, tangent: 0i32 }, Offset { facing: 2i32, tangent: 0i32 }, Offset { facing: 0i32, tangent: -1i32 }, Offset { facing: 0i32, tangent: -2i32 }, Offset { facing: 0i32, tangent: 1i32 }, Offset { facing: 0i32, tangent: 2i32 }, Offset { facing: -1i32, tangent: 0i32 }, Offset { facing: -2i32, tangent: 0i32 }]);
        assert(c17.position_change.position->FacingOffsets_0@ =~= seq![Offset { facing: 1i32, tangent: 1i32 }]);
        assert(c18.position_change.position->FacingOffsets_0@ =~= seq![Offset { facing: 1i32, tangent: -1i32 }]);
        assert(c19.position_change.position->FacingOffsets_0@ =~= seq![Offset { facing: -1i32, tangent: -1i32 }]);
        assert(c20.position_change.position->FacingOffsets_0@ =~= seq![Offset { facing: -1i32, tangent: 1i32 }]);
        assert(catalog_entry(1, infos@[0]));
        assert(catalog_entry(2, infos@[1]));
        assert(catalog_entry(3, infos@[2]));
        assert(catalog_entry(4, infos@[3]));
        assert(catalog_entry(5, infos@[4]));
        assert(catalog_entry(6, infos@[5]));
        assert(catalog_entry(7, infos@[6]));
        assert(catalog_entry(8, infos@[7]));
        assert(catalog_entry(9, infos@[8]));
        assert(catalog_entry(10, infos@[9]));
        assert(catalog_entry(11, infos@[10]));
        assert(catalog_entry(12, infos@[11]));
        assert(catalog_entry(13, infos@[12]));
        assert(catalog_entry(14, infos@[13]));
        assert(catalog_entry(15, infos@[14]));
        assert(catalog_entry(16, infos@[15]));
        assert(catalog_entry(17, infos@[16]));
        assert(catalog_entry(18, infos@[17]));
        assert(catalog_entry(19, infos@[18]));
        assert(catalog_entry(20, infos@[19]));
    }
    CardInfoMap(infos)
}


/// The multiset of card ids the hand's slots hold.
pub open spec fn hand_cards_multiset(s: Seq<Option<usize>>) -> vstd::multiset::Multiset<usize>
    decreases s.len(),
{
    if s.len() == 0 {
        vstd::multiset::Multiset::empty()
    } else {
        match s.last() {
            Some(c) => hand_cards_multiset(s.drop_last()).insert(c),
            None => hand_cards_multiset(s.drop_last()),
        }
    }
}

/// Filling an empty slot inserts the card into the hand's multiset.
pub proof fn lemma_hand_ms_fill(s: Seq<Option<usize>>, i: int, c: usize)
    requires
        0 <= i < s.len(),
        s[i] is None,
    ensures
        hand_cards_multiset(s.update(i, Some(c))) == hand_cards_multiset(s).insert(c),
    decreases s.len(),
{
    if i == s.len() - 1 {
        assert(s.update(i, Some(c)).drop_last() =~= s.drop_last());
        assert(s.update(i, Some(c)).last() == Some(c));
    } else {
        assert(s.update(i, Some(c)).drop_last() =~= s.drop_last().update(i, Some(c)));
        assert(s.update(i, Some(c)).last() == s.last());
        lemma_hand_ms_fill(s.drop_last(), i, c);
        match s.last() {
            Some(d) => {
                assert(hand_cards_multiset(s.drop_last()).insert(c).insert(d)
                    == hand_cards_multiset(s.drop_last()).insert(d).insert(c)) by {
                    assert(hand_cards_multiset(s.drop_last()).insert(c).insert(d)
                        =~= hand_cards_multiset(s.drop_last()).insert(d).insert(c));
                }
            },
            None => {},
        }
    }
}

/// Clearing a slot removes its card from the hand's multiset.
pub proof fn lemma_hand_ms_clear(s: Seq<Option<usize>>, i: int, c: usize)
    requires
        0 <= i < s.len(),
        s[i] == Some(c),
    ensures
        hand_cards_multiset(s.update(i, None)) == hand_cards_multiset(s).remove(c),
    decreases s.len(),
{
    if i == s.len() - 1 {
        assert(s.update(i, None::<usize>).drop_last() =~= s.drop_last());
        assert(hand_cards_multiset(s) == hand_cards_multiset(s.drop_last()).insert(c));
        assert(hand_cards_multiset(s.drop_last()).insert(c).remove(c) =~= hand_cards_multiset(
            s.drop_last(),
        ));
    } else {
        assert(s.update(i, None::<usize>).drop_last() =~= s.drop_last().update(i, None));
        assert(s.update(i, None::<usize>).last() == s.last());
        lemma_hand_ms_clear(s.drop_last(), i, c);
        match s.last() {
            Some(d) => {
                assert(hand_cards_multiset(s.drop_last()).remove(c).insert(d)
                    =~= hand_cards_multiset(s.drop_last()).insert(d).remove(c)) by {
                    assert(hand_cards_multiset(s.drop_last()).count(c) >= 1) by {
                        lemma_hand_ms_count_pos(s.drop_last(), i, c);
                    }
                }
            },
            None => {},
        }
    }
}

/// A slot holding the card witnesses a positive multiset count.
pub proof fn lemma_hand_ms_count_pos(s: Seq<Option<usize>>, i: int, c: usize)
    requires
        0 <= i < s.len(),
        s[i] == Some(c),
    ensures
        hand_cards_multiset(s).count(c) >= 1,
    decreases s.len(),
{
    if i == s.len() - 1 {
    } else {
        lemma_hand_ms_count_pos(s.drop_last(), i, c);
    }
}

/// A card the hand does not contain has multiset count zero.
pub proof fn lemma_hand_ms_absent(s: Seq<Option<usize>>, c: usize)
    requires
        !s.contains(Some(c)),
    ensures
        hand_cards_multiset(s).count(c) == 0,
    decreases s.len(),
{
    if s.len() > 0 {
        assert(forall|j: int| 0 <= j < s.drop_last().len() ==> s.drop_last()[j] == s[j]);
        assert(!s.drop_last().contains(Some(c)));
        lemma_hand_ms_absent(s.drop_last(), c);
        assert(s.last() != Some(c)) by {
            assert(s[s.len() - 1] == s.last());
        }
    }
}

/// The number of empty slots is between zero and the slot count.
pub proof fn lemma_count_empty_bounded(s: Seq<Option<usize>>)
    ensures
        0 <= count_empty(s) <= s.len(),
    decreases s.len(),
{
    if s.len() > 0 {
        lemma_count_empty_bounded(s.drop_last());
    }
}


/// Two distinct slots holding the same card witness a count of at least two.
pub proof fn lemma_hand_ms_two(s: Seq<Option<usize>>, i: int, j: int, c: usize)
    requires
        0 <= i < j < s.len(),
        s[i] == Some(c),
        s[j] == Some(c),
    ensures
        hand_cards_multiset(s).count(c) >= 2,
    decreases s.len(),
{
    if j == s.len() - 1 {
        lemma_hand_ms_count_pos(s.drop_last(), i, c);
    } else {
        lemma_hand_ms_two(s.drop_last(), i, j, c);
    }
}

/// Filling an empty slot lowers the number of empty slots by one.
pub proof fn lemma_count_empty_fill(s: Seq<Option<usize>>, i: int, c: usize)
    requires
        0 <= i < s.len(),
        s[i] is None,
    ensures
        count_empty(s.update(i, Some(c))) == count_empty(s) - 1,
    decreases s.len(),
{
    if i == s.len() - 1 {
        assert(s.update(i, Some(c)).drop_last() =~= s.drop_last());
    } else {
        assert(s.update(i, Some(c)).drop_last() =~= s.drop_last().update(i, Some(c)));
        assert(s.update(i, Some(c)).last() == s.last());
        lemma_count_empty_fill(s.drop_last(), i, c);
    }
}

/// Clearing an occupied slot raises the number of empty slots by one.
pub proof fn lemma_count_empty_clear(s: Seq<Option<usize>>, i: int)
    requires
        0 <= i < s.len(),
        s[i] is Some,
    ensures
        count_empty(s.update(i, None)) == count_empty(s) + 1,
    decreases s.len(),
{
    if i == s.len() - 1 {
        assert(s.update(i, None::<usize>).drop_last() =~= s.drop_last());
    } else {
        assert(s.update(i, None::<usize>).drop_last() =~= s.drop_last().update(i, None));
        assert(s.update(i, None::<usize>).last() == s.last());
        lemma_count_empty_clear(s.drop_last(), i);
    }
}

/// A positive empty-slot count witnesses a free slot.
pub proof fn lemma_count_empty_pos(s: Seq<Option<usize>>)
    requires
        count_empty(s) > 0,
    ensures
        exists|i: int| 0 <= i < s.len() && s[i] is None,
    decreases s.len(),
{
    if s.len() > 0 {
        if s.last() is None {
            assert(s[s.len() - 1] is None);
        } else {
            lemma_count_empty_pos(s.drop_last());
            let i = choose|i: int| 0 <= i < s.drop_last().len() && s.drop_last()[i] is None;
            assert(s[i] is None);
        }
    }
}

} // verus!
