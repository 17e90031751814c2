//! The fixed puzzle levels: board size, starting flames, starting items and
//! the deck each puzzle is played with.

use vstd::prelude::*;

use crate::items::Item;

verus! {

/// One level's setup data.
#[derive(Debug)]
pub struct Level {
    pub flames: Vec<(i32, i32)>,
    pub items: Vec<(i32, i32, Item)>,
    pub map_size: (i32, i32),
    pub deck_list: Vec<usize>,
}

pub const NUM_PUZZLES: usize = 5;

impl Level {
    fn new() -> (r: Self)
        ensures
            r.flames@.len() == 0,
            r.items@.len() == 0,
            r.map_size == (1i32, 1i32),
            r.deck_list@.len() == 0,
    {
        Level { flames: Vec::new(), items: Vec::new(), map_size: (1, 1), deck_list: Vec::new() }
    }

    fn with_flames(self, flames: Vec<(i32, i32)>) -> (r: Self)
        ensures
            r.flames@ == self.flames@ + flames@,
            r.items@ == self.items@,
            r.map_size == self.map_size,
            r.deck_list@ == self.deck_list@,
    {
        let mut out = self;
        let mut extra = flames;
        out.flames.append(&mut extra);
        out
    }

    fn with_items(self, items: Vec<(i32, i32, Item)>) -> (r: Self)
        ensures
            r.flames@ == self.flames@,
            r.items@ == self.items@ + items@,
            r.map_size == self.map_size,
            r.deck_list@ == self.deck_list@,
    {
        let mut out = self;
        let mut extra = items;
        out.items.append(&mut extra);
        out
    }

    fn with_size(self, size: (i32, i32)) -> (r: Self)
        ensures
            r.flames@ == self.flames@,
            r.items@ == self.items@,
            r.map_size == size,
            r.deck_list@ == self.deck_list@,
    {
        let mut out = self;
        out.map_size = size;
        out
    }

    fn with_deck(self, deck: Vec<usize>) -> (r: Self)
        ensures
            r.flames@ == self.flames@,
            r.items@ == self.items@,
            r.map_size == self.map_size,
            r.deck_list@ == deck@,
    {
        let mut out = self;
        out.deck_list = deck;
        out
    }
}

/// The setup of the puzzle with the given index; indexes past the last puzzle
/// give the trivial empty level.
pub fn get_puzzle(index: usize) -> (r: Level)
    ensures
        index == 0 ==> r.map_size == (1i32, 3i32) && r.flames@ == seq![(1i32, 3i32)] && r.items@
            =~= Seq::<(i32, i32, Item)>::empty() && r.deck_list@ == seq![1usize],
        index == 1 ==> r.map_size == (2i32, 2i32) && r.flames@ == seq![(2i32, 2i32)] && r.items@
            =~= Seq::<(i32, i32, Item)>::empty() && r.deck_list@ == seq![2usize, 4],
        index == 2 ==> r.map_size == (3i32, 3i32) && r.flames@ == seq![(3i32, 3i32)] && r.items@
            =~= Seq::<(i32, i32, Item)>::empty() && r.deck_list@ == seq![1usize, 1, 3],
        index == 3 ==> r.map_size == (1i32, 3i32) && r.flames@ == seq![(1i32, 3i32)] && r.items@
            == seq![(1i32, 2i32, Item::Water)] && r.deck_list@ == seq![1usize, 5],
        index == 4 ==> r.map_size == (4i32, 4i32) && r.flames@ == seq![(4i32, 4i32)] && r.items@
            == seq![(2i32, 2i32, Item::Card(crate::cards::ContentID(13)))] && r.deck_list@
            == seq![1usize, 1, 3],
        index >= NUM_PUZZLES ==> r.map_size == (1i32, 1i32) && r.flames@.len() == 0 && r.items@.len()
            == 0 && r.deck_list@.len() == 0,
{
    if index == 0 {
        let r = Level::new().with_size((1, 3)).with_flames(vec![(1, 3)]).with_deck(vec![1]);
        proof {
            assert(r.flames@ =~= seq![(1i32, 3i32)]);
            assert(r.deck_list@ =~= seq![1usize]);
        }
        r
    } else if index == 1 {
        let r = Level::new().with_size((2, 2)).with_flames(vec![(2, 2)]).with_deck(vec![2, 4]);
        proof {
            assert(r.flames@ =~= seq![(2i32, 2i32)]);
            assert(r.deck_list@ =~= seq![2usize, 4]);
        }
        r
    } else if index == 2 {
        let r = Level::new().with_size((3, 3)).with_flames(vec![(3, 3)]).with_deck(vec![1, 1, 3]);
        proof {
            assert(r.flames@ =~= seq![(3i32, 3i32)]);
            assert(r.deck_list@ =~= seq![1usize, 1, 3]);
        }
        r
    } else if index == 3 {
        let r = Level::new().with_size((1, 3)).with_flames(vec![(1, 3)]).with_items(
            vec![(1, 2, Item::Water)],
        ).with_deck(vec![1, 5]);
        proof {
            assert(r.flames@ =~= seq![(1i32, 3i32)]);
            assert(r.items@ =~= seq![(1i32, 2i32, Item::Water)]);
            assert(r.deck_list@ =~= seq![1usize, 5]);
        }
        r
    } else if index == 4 {
        let r = Level::new().with_size((4, 4)).with_flames(vec![(4, 4)]).with_items(
            vec![(2, 2, Item::Card(crate::cards::ContentID(13)))],
        ).with_deck(vec![1, 1, 3]);
        proof {
            assert(r.flames@ =~= seq![(4i32, 4i32)]);
            assert(r.items@ =~= seq![(2i32, 2i32, Item::Card(crate::cards::ContentID(13)))]);
            assert(r.deck_list@ =~= seq![1usize, 1, 3]);
        }
        r
    } else {
        Level::new()
    }
}

} // verus!
