//! Pickups that can lie on tiles and reward the player who walks over them.

use vstd::prelude::*;

use crate::cards::ContentID;

verus! {

/// A pickup lying on a tile: extra water, extra energy, or a new card.
#[derive(Clone, Copy, Debug, PartialEq, Eq, Structural)]
pub enum Item {
    Water,
    Energy,
    Card(ContentID),
}

impl Item {
    /// Draw a random item; a card item names a catalog entry within
    /// `content_range`.
    pub fn random(content_range: usize) -> (r: Self)
        requires
            1 <= content_range < usize::MAX,
        ensures
            r matches Item::Card(id) ==> 1 <= id.0 <= content_range,
    {
        let k = rand::random::<u8>() % 3;
        if k == 0 {
            Item::Water
        } else if k == 1 {
            Item::Energy
        } else {
            let raw = rand::random::<usize>();
            Item::Card(ContentID((raw % content_range) + 1))
        }
    }
}

} // verus!
