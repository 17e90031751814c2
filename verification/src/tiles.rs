//! The board: tiles, the wall ring, fire spawning at level start, and the
//! end-of-turn fire simulation (growth and propagation).

use vstd::prelude::*;

use crate::cards::Grid;
use crate::stats::GamePosition;

verus! {

/// Fire severity, strictly escalating.
#[derive(Clone, Copy, Debug, PartialEq, Eq, Structural)]
pub enum Intensity {
    Low,
    Medium,
    High,
}

impl Intensity {
    /// Severity as a number, for comparing escalation.
    pub open spec fn level(self) -> int {
        match self {
            Intensity::Low => 1,
            Intensity::Medium => 2,
            Intensity::High => 3,
        }
    }
}

/// One cell of the board. Walls block permanently and never change; fire
/// carries an intensity.
#[derive(Clone, Copy, Debug, PartialEq, Eq, Structural)]
pub enum Tile {
    Empty,
    Wall,
    Fire(Intensity),
}

/// One growth step of a tile: fire escalates one intensity step per turn end,
/// with `High` terminal; walls and empty tiles are untouched.
pub open spec fn grow_tile(t: Tile) -> Tile {
    match t {
        Tile::Fire(Intensity::Low) => Tile::Fire(Intensity::Medium),
        Tile::Fire(Intensity::Medium) => Tile::Fire(Intensity::High),
        _ => t,
    }
}

/// Law: growth never lowers a fire's intensity, and never extinguishes it.
pub proof fn lemma_grow_monotone(t: Tile)
    ensures
        t matches Tile::Fire(l) ==> grow_tile(t) matches Tile::Fire(l2) && l2.level() >= l.level(),
{
}

/// Advance every fire tile one intensity step.
pub fn grow_flames(tiles: &mut Vec<Tile>)
    ensures
        final(tiles)@.len() == old(tiles)@.len(),
        forall|i: int|
            0 <= i < old(tiles)@.len() ==> final(tiles)@[i] == grow_tile(old(tiles)@[i]),
{
    let n = tiles.len();
    for i in 0..n
        invariant
            n == tiles@.len(),
            forall|j: int| i <= j < n ==> tiles@[j] == old(tiles)@[j],
            forall|j: int| 0 <= j < i ==> tiles@[j] == grow_tile(old(tiles)@[j]),
    {
        let t = tiles[i];
        match t {
            Tile::Fire(Intensity::Low) => {
                tiles.set(i, Tile::Fire(Intensity::Medium));
            },
            Tile::Fire(Intensity::Medium) => {
                tiles.set(i, Tile::Fire(Intensity::High));
            },
            _ => {},
        }
    }
}

/// Extinguish the tile under the player, if the position is on the board:
/// arriving on a burning tile puts its fire out. Out-of-bounds positions are
/// a no-op.
pub fn put_flames_out(tiles: &mut Vec<Tile>, grid: &Grid, pos: &GamePosition)
    requires
        grid.wf(),
        forall|x: int, y: int|
            grid.in_bounds(x, y) ==> #[trigger] grid.id_at(x, y) < old(tiles)@.len(),
    ensures
        final(tiles)@.len() == old(tiles)@.len(),
        grid.get_spec(*pos) is None ==> final(tiles)@ == old(tiles)@,
        grid.get_spec(*pos) matches Some(id) ==> final(tiles)@ == old(tiles)@.update(
            id as int,
            Tile::Empty,
        ),
{
    match grid.get(pos) {
        Some(tile_id) => {
            tiles.set(tile_id, Tile::Empty);
        },
        None => {
            proof {
                assert(final(tiles)@ =~= old(tiles)@);
            }
        },
    }
}

/// How many tiles of the sequence are on fire.
pub open spec fn count_fire(tiles: Seq<Tile>) -> int
    decreases tiles.len(),
{
    if tiles.len() == 0 {
        0
    } else {
        count_fire(tiles.drop_last()) + if tiles.last() is Fire {
            1int
        } else {
            0int
        }
    }
}

/// How many tiles of the sequence are empty.
pub open spec fn count_empty_tiles(tiles: Seq<Tile>) -> int
    decreases tiles.len(),
{
    if tiles.len() == 0 {
        0
    } else {
        count_empty_tiles(tiles.drop_last()) + if tiles.last() is Empty {
            1int
        } else {
            0int
        }
    }
}

/// Count the fire and empty tiles of the board, the inputs of the level-end
/// decision.
pub fn count_tiles(tiles: &Vec<Tile>) -> (r: (usize, usize))
    ensures
        r.0 == count_fire(tiles@),
        r.1 == count_empty_tiles(tiles@),
{
    let mut fire: usize = 0;
    let mut empty: usize = 0;
    let n = tiles.len();
    for i in 0..n
        invariant
            n == tiles@.len(),
            fire == count_fire(tiles@.take(i as int)),
            empty == count_empty_tiles(tiles@.take(i as int)),
            fire <= i,
            empty <= i,
    {
        proof {
            assert(tiles@.take(i + 1).drop_last() =~= tiles@.take(i as int));
            assert(tiles@.take(i + 1).last() == tiles@[i as int]);
        }
        match tiles[i] {
            Tile::Fire(_) => {
                fire = fire + 1;
            },
            Tile::Empty => {
                empty = empty + 1;
            },
            _ => {},
        }
    }
    proof {
        assert(tiles@.take(n as int) =~= tiles@);
    }
    (fire, empty)
}


/// Whether some orthogonal neighbor of `(x, y)` burns at full intensity.
pub open spec fn high_neighbor(tiles: Seq<Tile>, grid: Grid, x: int, y: int) -> bool {
    ||| (grid.in_bounds(x - 1, y) && tiles[grid.id_at(x - 1, y) as int] == Tile::Fire(
        Intensity::High,
    ))
    ||| (grid.in_bounds(x + 1, y) && tiles[grid.id_at(x + 1, y) as int] == Tile::Fire(
        Intensity::High,
    ))
    ||| (grid.in_bounds(x, y - 1) && tiles[grid.id_at(x, y - 1) as int] == Tile::Fire(
        Intensity::High,
    ))
    ||| (grid.in_bounds(x, y + 1) && tiles[grid.id_at(x, y + 1) as int] == Tile::Fire(
        Intensity::High,
    ))
}

/// The simultaneous propagation rule for the tile at `(x, y)`: an empty tile
/// with a fully burning orthogonal neighbor ignites to low intensity; every
/// other tile is unchanged.
pub open spec fn propagate_tile(tiles: Seq<Tile>, grid: Grid, x: int, y: int) -> Tile {
    if tiles[grid.id_at(x, y) as int] is Empty && high_neighbor(tiles, grid, x, y) {
        Tile::Fire(Intensity::Low)
    } else {
        tiles[grid.id_at(x, y) as int]
    }
}

/// The grid addresses the tile arena row-major: the table is rectangular,
/// covers the arena exactly, and stores the id `y * cols + x` at `(x, y)`.
pub open spec fn canonical_grid(grid: Grid, tiles: Seq<Tile>) -> bool {
    &&& grid.wf()
    &&& tiles.len() == grid.rows() * grid.cols()
    &&& forall|x: int, y: int|
        grid.in_bounds(x, y) ==> (#[trigger] grid.id_at(x, y)) as int == y * grid.cols() + x
}

/// Row-major addresses of in-bounds cells stay within the arena.
pub proof fn lemma_row_major_in_range(x: int, y: int, cols: int, rows: int)
    requires
        0 <= x < cols,
        0 <= y < rows,
    ensures
        0 <= y * cols + x < rows * cols,
{
    assert(0 <= y * cols + x < rows * cols) by (nonlinear_arith)
        requires
            0 <= x < cols,
            0 <= y < rows,
    ;
}

/// Row-major addressing is injective: distinct in-bounds cells get distinct
/// ids.
pub proof fn lemma_row_major_injective(x1: int, y1: int, x2: int, y2: int, cols: int)
    requires
        0 <= x1 < cols,
        0 <= x2 < cols,
        y1 * cols + x1 == y2 * cols + x2,
    ensures
        x1 == x2 && y1 == y2,
{
    assert(x1 == x2 && y1 == y2) by (nonlinear_arith)
        requires
            0 <= x1 < cols,
            0 <= x2 < cols,
            y1 * cols + x1 == y2 * cols + x2,
    ;
}

/// Row-major addresses grow with the row: any cell of an earlier row sits
/// strictly before the first cell of a later row.
pub proof fn lemma_row_major_lt(x2: int, y2: int, y: int, cols: int)
    requires
        0 <= x2 < cols,
        0 <= y2 < y,
    ensures
        y2 * cols + x2 < y * cols,
{
    assert(y2 * cols + x2 < y * cols) by (nonlinear_arith)
        requires
            0 <= x2 < cols,
            0 <= y2 < y,
    ;
}

/// Whether some orthogonal neighbor of the cell burns at full intensity, as a
/// runtime test against the current board.
fn has_high_neighbor(tiles: &Vec<Tile>, grid: &Grid, x: i32, y: i32) -> (r: bool)
    requires
        grid.wf(),
        forall|a: int, b: int| grid.in_bounds(a, b) ==> #[trigger] grid.id_at(a, b) < tiles@.len(),
        i32::MIN < x < i32::MAX,
        i32::MIN < y < i32::MAX,
    ensures
        r == high_neighbor(tiles@, *grid, x as int, y as int),
{
    let d = crate::stats::GameDirection::Up;
    let mut found = false;
    if let Some(id) = grid.get(&GamePosition { x: x - 1, y, d }) {
        if matches!(tiles[id], Tile::Fire(Intensity::High)) {
            found = true;
        }
    }
    if let Some(id) = grid.get(&GamePosition { x: x + 1, y, d }) {
        if matches!(tiles[id], Tile::Fire(Intensity::High)) {
            found = true;
        }
    }
    if let Some(id) = grid.get(&GamePosition { x, y: y - 1, d }) {
        if matches!(tiles[id], Tile::Fire(Intensity::High)) {
            found = true;
        }
    }
    if let Some(id) = grid.get(&GamePosition { x, y: y + 1, d }) {
        if matches!(tiles[id], Tile::Fire(Intensity::High)) {
            found = true;
        }
    }
    found
}

/// Run one simultaneous propagation pass: every fully burning tile ignites
/// its orthogonal empty neighbors to low intensity. All decisions read the
/// board as it stood before the pass.
pub fn propagate_flames(tiles: &mut Vec<Tile>, grid: &Grid)
    requires
        canonical_grid(*grid, old(tiles)@),
        grid.rows() <= 30000,
        grid.cols() <= 30000,
    ensures
        final(tiles)@.len() == old(tiles)@.len(),
        forall|x: int, y: int|
            grid.in_bounds(x, y) ==> final(tiles)@[grid.id_at(x, y) as int] == propagate_tile(
                old(tiles)@,
                *grid,
                x,
                y,
            ),
{
    let rows = grid.0.len();
    let cols = if rows > 0 {
        grid.0[0].len()
    } else {
        0
    };
    let mut out: Vec<Tile> = Vec::new();
    proof {
        assert(0 * cols == 0) by (nonlinear_arith);
    }
    for y in 0..rows
        invariant
            canonical_grid(*grid, tiles@),
            *tiles == *old(tiles),
            rows == grid.rows(),
            cols == grid.cols(),
            rows <= 30000,
            cols <= 30000,
            out@.len() == y * cols,
            forall|x2: int, y2: int|
                0 <= x2 < cols && 0 <= y2 < y ==> out@[y2 * cols + x2] == propagate_tile(
                    tiles@,
                    *grid,
                    x2,
                    y2,
                ),
    {
        for x in 0..cols
            invariant
                canonical_grid(*grid, tiles@),
                *tiles == *old(tiles),
                rows == grid.rows(),
                cols == grid.cols(),
                rows <= 30000,
                cols <= 30000,
                y < rows,
                out@.len() == y * cols + x,
                forall|x2: int, y2: int|
                    0 <= x2 < cols && 0 <= y2 < y ==> out@[y2 * cols + x2] == propagate_tile(
                        tiles@,
                        *grid,
                        x2,
                        y2,
                    ),
                forall|x2: int|
                    0 <= x2 < x ==> out@[y * cols + x2] == propagate_tile(
                        tiles@,
                        *grid,
                        x2,
                        y as int,
                    ),
        {
            proof {
                lemma_row_major_in_range(x as int, y as int, cols as int, rows as int);
                assert forall|a: int, b: int| grid.in_bounds(a, b) implies #[trigger] grid.id_at(
                    a,
                    b,
                ) < tiles@.len() by {
                    lemma_row_major_in_range(a, b, grid.cols(), grid.rows());
                }
            }
            let idx = y * cols + x;
            let current = tiles[idx];
            let v = if matches!(current, Tile::Empty) && has_high_neighbor(
                tiles,
                grid,
                x as i32,
                y as i32,
            ) {
                Tile::Fire(Intensity::Low)
            } else {
                current
            };
            out.push(v);
            proof {
                assert(grid.in_bounds(x as int, y as int));
                assert(out@[y * cols + x] == propagate_tile(tiles@, *grid, x as int, y as int));
                assert forall|x2: int, y2: int|
                    0 <= x2 < cols && 0 <= y2 < y implies out@[y2 * cols + x2] == propagate_tile(
                    tiles@,
                    *grid,
                    x2,
                    y2,
                ) by {
                    lemma_row_major_lt(x2, y2, y as int, cols as int);
                }
                assert forall|x2: int| 0 <= x2 < x implies out@[y * cols + x2] == propagate_tile(
                    tiles@,
                    *grid,
                    x2,
                    y as int,
                ) by {
                    assert(y * cols + x2 < y * cols + x);
                }
            }
        }
        proof {
            assert((y + 1) * cols == y * cols + cols) by (nonlinear_arith);
        }
    }
    *tiles = out;
    proof {
        assert forall|x: int, y: int| grid.in_bounds(x, y) implies final(tiles)@[grid.id_at(
            x,
            y,
        ) as int] == propagate_tile(old(tiles)@, *grid, x, y) by {
            lemma_row_major_in_range(x, y, grid.cols(), grid.rows());
        }
    }
}


/// How level content is placed at level start: by chance (a per-mille
/// probability with a minimum and a maximum count) or at fixed positions.
#[derive(Clone, Debug)]
pub enum Spawner {
    Chance(u32, i32, i32),
    Static(Vec<(i32, i32)>),
}

impl Default for Spawner {
    fn default() -> (r: Self)
        ensures
            r matches Spawner::Static(v) && v@.len() == 0,
    {
        Spawner::Static(Vec::new())
    }
}

/// The level's shape and spawn rules. `columns` and `rows` count the playable
/// area; the permanent wall ring comes on top of them.
#[derive(Clone, Debug)]
pub struct MapParameters {
    pub columns: i32,
    pub rows: i32,
    pub flame_spawner: Spawner,
    pub item_spawner: Spawner,
}

impl Default for MapParameters {
    fn default() -> (r: Self)
        ensures
            r.columns == 0,
            r.rows == 0,
            r.flame_spawner matches Spawner::Static(v) && v@.len() == 0,
            r.item_spawner matches Spawner::Static(v) && v@.len() == 0,
    {
        MapParameters {
            columns: 0,
            rows: 0,
            flame_spawner: Spawner::Static(Vec::new()),
            item_spawner: Spawner::Static(Vec::new()),
        }
    }
}

/// Whether `(x, y)` lies on the permanent wall ring around the playable area.
pub open spec fn tile_is_wall_spec(x: int, y: int, cols: int, rows: int) -> bool {
    x == 0 || y == 0 || x == cols + 1 || y == rows + 1
}

fn tile_is_wall(x: i32, y: i32, map: &MapParameters) -> (r: bool)
    requires
        0 <= map.columns <= 30000,
        0 <= map.rows <= 30000,
    ensures
        r == tile_is_wall_spec(x as int, y as int, map.columns as int, map.rows as int),
{
    x == 0 || y == 0 || x == map.columns + 1 || y == map.rows + 1
}

/// Whether the list of positions holds `(x, y)`.
fn contains_pos(ps: &Vec<(i32, i32)>, x: i32, y: i32) -> (r: bool)
    ensures
        r == ps@.contains((x, y)),
{
    let n = ps.len();
    for i in 0..n
        invariant
            n == ps@.len(),
            forall|j: int| 0 <= j < i ==> ps@[j] != (x, y),
    {
        let p = ps[i];
        if p.0 == x && p.1 == y {
            return true;
        }
    }
    false
}

/// Build the level's board from its parameters: a rectangular tile arena, a
/// row-major grid over it, and the randomly placed starting items. The board
/// is ringed by walls; flames are placed by the flame spawner (exactly the
/// listed positions for a static spawner, randomly for a chance spawner);
/// every other tile starts empty.
pub fn spawn_tiles(map: &MapParameters) -> (r: (Vec<Tile>, Grid, Vec<(
    crate::items::Item,
    GamePosition,
)>))
    requires
        0 <= map.columns <= 4094,
        0 <= map.rows <= 4094,
    ensures
        canonical_grid(r.1, r.0@),
        r.1.rows() == map.rows + 2,
        r.1.cols() == map.columns + 2,
        forall|x: int, y: int|
            r.1.in_bounds(x, y) ==> ((#[trigger] r.0@[r.1.id_at(x, y) as int]) == Tile::Wall
                <==> tile_is_wall_spec(x, y, map.columns as int, map.rows as int)),
        forall|x: int, y: int|
            r.1.in_bounds(x, y) && !tile_is_wall_spec(x, y, map.columns as int, map.rows as int)
                ==> ((#[trigger] r.0@[r.1.id_at(x, y) as int]) is Empty || r.0@[r.1.id_at(
                x,
                y,
            ) as int] == Tile::Fire(Intensity::Low)),
        map.flame_spawner matches Spawner::Static(ps) ==> forall|x: int, y: int|
            r.1.in_bounds(x, y) && !tile_is_wall_spec(x, y, map.columns as int, map.rows as int)
                ==> ((#[trigger] r.0@[r.1.id_at(x, y) as int]) == Tile::Fire(Intensity::Low)
                <==> ps@.contains((x as i32, y as i32))),
        forall|k: int|
            0 <= k < r.2@.len() ==> {
                &&& 1 <= (#[trigger] r.2@[k].1).x <= map.columns
                &&& 1 <= r.2@[k].1.y <= map.rows
                &&& (r.2@[k].0 matches crate::items::Item::Card(cid) ==> 1 <= cid.0 <= 20)
            },
        map.item_spawner is Static ==> r.2@.len() == 0,
        map.flame_spawner matches Spawner::Chance(_, mc, _) && mc >= 1 && map.columns >= 1
            && map.rows >= 2 ==> exists|x: int, y: int|
            r.1.in_bounds(x, y) && !tile_is_wall_spec(x, y, map.columns as int, map.rows as int)
                && (#[trigger] r.0@[r.1.id_at(x, y) as int]) == Tile::Fire(Intensity::Low),
{
    let w: i32 = map.columns + 2;
    let h: i32 = map.rows + 2;
    let wu: usize = w as usize;
    let hu: usize = h as usize;

    // Positions that the chance spawner forces to burn, regardless of cap.
    let mut pre_flames: Vec<(i32, i32)> = Vec::new();
    if let Spawner::Chance(_, min_count, _) = &map.flame_spawner {
        if map.columns >= 1 && map.rows >= 2 {
            let mc = *min_count;
            let mut k: i32 = 0;
            while k < mc
                invariant
                    1 <= map.columns,
                    2 <= map.rows,
                    0 <= k,
                    pre_flames@.len() == k as int,
                    forall|j: int|
                        0 <= j < pre_flames@.len() ==> {
                            &&& 1 <= (#[trigger] pre_flames@[j]).0 <= map.columns
                            &&& 1 <= pre_flames@[j].1 <= map.rows
                        },
                decreases mc - k,
            {
                let x = crate::rng::rand_in_range(1, map.columns);
                let y = if x == 1 {
                    crate::rng::rand_in_range(2, map.rows)
                } else {
                    crate::rng::rand_in_range(1, map.rows)
                };
                pre_flames.push((x, y));
                k = k + 1;
            }
        }
    }

    // with a positive minimum the forced list is non-empty: its first entry
    // witnesses the fire the chance spawner guarantees
    let ghost force = map.flame_spawner matches Spawner::Chance(_, mc, _) && mc >= 1
        && map.columns >= 1 && map.rows >= 2;
    proof {
        if force {
            assert(pre_flames@.len() >= 1);
        }
    }
    let ghost fx: int = if pre_flames@.len() > 0 {
        pre_flames@[0].0 as int
    } else {
        1int
    };
    let ghost fy: int = if pre_flames@.len() > 0 {
        pre_flames@[0].1 as int
    } else {
        1int
    };

    let mut tiles: Vec<Tile> = Vec::new();
    let mut rows_vec: Vec<Vec<usize>> = Vec::new();
    let mut items: Vec<(crate::items::Item, GamePosition)> = Vec::new();
    let mut flame_count: i32 = 0;
    let ghost gmap = *map;

    proof {
        assert(0 * wu == 0) by (nonlinear_arith);
    }
    for yu in 0..hu
        invariant
            wu == map.columns + 2,
            hu == map.rows + 2,
            0 <= map.columns <= 4094,
            0 <= map.rows <= 4094,
            *map == gmap,
            tiles@.len() == yu * wu,
            rows_vec@.len() == yu,
            forall|y2: int|
                0 <= y2 < yu ==> (#[trigger] rows_vec@[y2])@.len() == wu,
            forall|x2: int, y2: int|
                0 <= x2 < wu && 0 <= y2 < yu ==> (#[trigger] rows_vec@[y2]@[x2]) == y2 * wu + x2,
            forall|x2: int, y2: int|
                0 <= x2 < wu && 0 <= y2 < yu ==> ((#[trigger] tiles@[y2 * wu + x2]) == Tile::Wall
                    <==> tile_is_wall_spec(x2, y2, map.columns as int, map.rows as int)),
            forall|x2: int, y2: int|
                0 <= x2 < wu && 0 <= y2 < yu && !tile_is_wall_spec(
                    x2,
                    y2,
                    map.columns as int,
                    map.rows as int,
                ) ==> ((#[trigger] tiles@[y2 * wu + x2]) is Empty || tiles@[y2 * wu + x2]
                    == Tile::Fire(Intensity::Low)),
            map.flame_spawner matches Spawner::Static(ps) ==> forall|x2: int, y2: int|
                0 <= x2 < wu && 0 <= y2 < yu && !tile_is_wall_spec(
                    x2,
                    y2,
                    map.columns as int,
                    map.rows as int,
                ) ==> ((#[trigger] tiles@[y2 * wu + x2]) == Tile::Fire(Intensity::Low)
                    <==> ps@.contains((x2 as i32, y2 as i32))),
            forall|k: int|
                0 <= k < items@.len() ==> {
                    &&& 1 <= (#[trigger] items@[k].1).x <= map.columns
                    &&& 1 <= items@[k].1.y <= map.rows
                    &&& (items@[k].0 matches crate::items::Item::Card(cid) ==> 1 <= cid.0 <= 20)
                },
            map.item_spawner is Static ==> items@.len() == 0,
            force == (map.flame_spawner matches Spawner::Chance(_, mc, _) && mc >= 1
                && map.columns >= 1 && map.rows >= 2),
            force ==> {
                &&& pre_flames@.len() >= 1
                &&& pre_flames@[0] == ((fx as i32), (fy as i32))
                &&& 1 <= fx <= map.columns
                &&& 1 <= fy <= map.rows
            },
            force && fy < yu ==> tiles@[fy * wu + fx] == Tile::Fire(Intensity::Low),
    {
        let mut row: Vec<usize> = Vec::new();
        let y: i32 = yu as i32;
        for xu in 0..wu
            invariant
                wu == map.columns + 2,
                hu == map.rows + 2,
                0 <= map.columns <= 4094,
                0 <= map.rows <= 4094,
                *map == gmap,
                yu < hu,
                y == yu as i32,
                tiles@.len() == yu * wu + xu,
                row@.len() == xu,
                forall|x2: int| 0 <= x2 < xu ==> (#[trigger] row@[x2]) == yu * wu + x2,
                forall|x2: int, y2: int|
                    0 <= x2 < wu && 0 <= y2 < yu ==> ((#[trigger] tiles@[y2 * wu + x2])
                        == Tile::Wall <==> tile_is_wall_spec(
                        x2,
                        y2,
                        map.columns as int,
                        map.rows as int,
                    )),
                forall|x2: int|
                    0 <= x2 < xu ==> ((#[trigger] tiles@[yu * wu + x2]) == Tile::Wall
                        <==> tile_is_wall_spec(x2, yu as int, map.columns as int, map.rows as int)),
                forall|x2: int, y2: int|
                    0 <= x2 < wu && 0 <= y2 < yu && !tile_is_wall_spec(
                        x2,
                        y2,
                        map.columns as int,
                        map.rows as int,
                    ) ==> ((#[trigger] tiles@[y2 * wu + x2]) is Empty || tiles@[y2 * wu + x2]
                        == Tile::Fire(Intensity::Low)),
                forall|x2: int|
                    0 <= x2 < xu && !tile_is_wall_spec(
                        x2,
                        yu as int,
                        map.columns as int,
                        map.rows as int,
                    ) ==> ((#[trigger] tiles@[yu * wu + x2]) is Empty || tiles@[yu * wu + x2]
                        == Tile::Fire(Intensity::Low)),
                map.flame_spawner matches Spawner::Static(ps) ==> forall|x2: int, y2: int|
                    0 <= x2 < wu && 0 <= y2 < yu && !tile_is_wall_spec(
                        x2,
                        y2,
                        map.columns as int,
                        map.rows as int,
                    ) ==> ((#[trigger] tiles@[y2 * wu + x2]) == Tile::Fire(Intensity::Low)
                        <==> ps@.contains((x2 as i32, y2 as i32))),
                map.flame_spawner matches Spawner::Static(ps) ==> forall|x2: int|
                    0 <= x2 < xu && !tile_is_wall_spec(
                        x2,
                        yu as int,
                        map.columns as int,
                        map.rows as int,
                    ) ==> ((#[trigger] tiles@[yu * wu + x2]) == Tile::Fire(Intensity::Low)
                        <==> ps@.contains((x2 as i32, yu as i32))),
                forall|k: int|
                    0 <= k < items@.len() ==> {
                        &&& 1 <= (#[trigger] items@[k].1).x <= map.columns
                        &&& 1 <= items@[k].1.y <= map.rows
                        &&& (items@[k].0 matches crate::items::Item::Card(cid) ==> 1 <= cid.0
                            <= 20)
                    },
                map.item_spawner is Static ==> items@.len() == 0,
                force == (map.flame_spawner matches Spawner::Chance(_, mc, _) && mc >= 1
                    && map.columns >= 1 && map.rows >= 2),
                force ==> {
                    &&& pre_flames@.len() >= 1
                    &&& pre_flames@[0] == ((fx as i32), (fy as i32))
                    &&& 1 <= fx <= map.columns
                    &&& 1 <= fy <= map.rows
                },
                force && (fy < yu || (fy == yu && fx < xu)) ==> tiles@[fy * wu + fx] == Tile::Fire(
                    Intensity::Low,
                ),
        {
            proof {
                assert(yu * wu <= 4095 * 4096) by (nonlinear_arith)
                    requires
                        0 <= yu <= 4095,
                        0 <= wu <= 4096,
                ;
            }
            let x: i32 = xu as i32;
            let is_wall = tile_is_wall(x, y, map);
            let is_flame = if is_wall {
                false
            } else {
                match &map.flame_spawner {
                    Spawner::Chance(chance, _, max_count) => {
                        if contains_pos(&pre_flames, x, y) {
                            true
                        } else if flame_count >= *max_count {
                            false
                        } else {
                            let c = if *chance > 1000 {
                                1000
                            } else {
                                *chance
                            };
                            crate::rng::rand_in_range(0, 999) < c as i32
                        }
                    },
                    Spawner::Static(positions) => contains_pos(positions, x, y),
                }
            };
            let tile = if is_wall {
                Tile::Wall
            } else if is_flame {
                if flame_count < i32::MAX {
                    flame_count = flame_count + 1;
                }
                Tile::Fire(Intensity::Low)
            } else {
                match &map.item_spawner {
                    Spawner::Chance(chance, _, _) => {
                        let c = if *chance > 1000 {
                            1000
                        } else {
                            *chance
                        };
                        if crate::rng::rand_in_range(0, 999) < c as i32 {
                            items.push(
                                (
                                    crate::items::Item::random(20),
                                    GamePosition { x, y, d: crate::stats::GameDirection::Up },
                                ),
                            );
                        }
                    },
                    Spawner::Static(_) => {},
                }
                Tile::Empty
            };
            tiles.push(tile);
            row.push(yu * wu + xu);
            proof {
                let cols0 = map.columns as int;
                let rows0 = map.rows as int;
                if force {
                    if fy == yu as int && fx == xu as int {
                        assert(!tile_is_wall_spec(fx, fy, cols0, rows0));
                        assert(tiles@[fy * wu + fx] == Tile::Fire(Intensity::Low));
                    } else if fy < yu as int {
                        lemma_row_major_lt(fx, fy, yu as int, wu as int);
                        assert(tiles@[fy * wu + fx] == Tile::Fire(Intensity::Low));
                    } else if fy == yu as int && fx < xu as int {
                        assert(fy * wu + fx < yu * wu + xu);
                        assert(tiles@[fy * wu + fx] == Tile::Fire(Intensity::Low));
                    }
                }
                assert forall|x2: int, y2: int| 0 <= x2 < wu && 0 <= y2 < yu implies ((
                #[trigger] tiles@[y2 * wu + x2]) == Tile::Wall <==> tile_is_wall_spec(
                    x2,
                    y2,
                    cols0,
                    rows0,
                )) by {
                    lemma_row_major_lt(x2, y2, yu as int, wu as int);
                }
                assert forall|x2: int, y2: int|
                    0 <= x2 < wu && 0 <= y2 < yu && !tile_is_wall_spec(
                        x2,
                        y2,
                        cols0,
                        rows0,
                    ) implies ((#[trigger] tiles@[y2 * wu + x2]) is Empty || tiles@[y2 * wu + x2]
                    == Tile::Fire(Intensity::Low)) by {
                    lemma_row_major_lt(x2, y2, yu as int, wu as int);
                }
                match &map.flame_spawner {
                    Spawner::Static(ps) => {
                    assert forall|x2: int, y2: int|
                        0 <= x2 < wu && 0 <= y2 < yu && !tile_is_wall_spec(
                            x2,
                            y2,
                            cols0,
                            rows0,
                        ) implies ((#[trigger] tiles@[y2 * wu + x2]) == Tile::Fire(Intensity::Low)
                        <==> ps@.contains((x2 as i32, y2 as i32))) by {
                        lemma_row_major_lt(x2, y2, yu as int, wu as int);
                    }
                    },
                    _ => {},
                }
            }
        }
        rows_vec.push(row);
        proof {
            assert((yu + 1) * wu == yu * wu + wu) by (nonlinear_arith);
        }
    }
    let grid = Grid(rows_vec);
    proof {
        assert(grid.rows() == hu);
        assert(grid.cols() == wu);
        assert(grid.wf());
        assert forall|x: int, y: int| grid.in_bounds(x, y) implies (#[trigger] grid.id_at(
            x,
            y,
        )) as int == y * grid.cols() + x by {
            assert(grid.id_at(x, y) == grid.0@[y]@[x]);
        }
        assert(tiles@.len() == grid.rows() * grid.cols());
        if force {
            assert(grid.in_bounds(fx, fy));
            assert(!tile_is_wall_spec(fx, fy, map.columns as int, map.rows as int));
            assert(tiles@[grid.id_at(fx, fy) as int] == Tile::Fire(Intensity::Low));
        }
    }
    (tiles, grid, items)
}


/// Law: across one end-of-turn tick (propagation then growth), no burning
/// tile ever decreases in intensity.
pub proof fn lemma_ended_tick_monotone(tiles: Seq<Tile>, grid: Grid, x: int, y: int)
    requires
        grid.in_bounds(x, y),
        grid.id_at(x, y) < tiles.len(),
        tiles[grid.id_at(x, y) as int] is Fire,
    ensures
        grow_tile(propagate_tile(tiles, grid, x, y)) matches Tile::Fire(l2) && (
        tiles[grid.id_at(x, y) as int] matches Tile::Fire(l1) ==> l2.level() >= l1.level()),
{
}

/// Law: a watered burning tile becomes exactly empty — extinguishing never
/// moves a fire to a different level.
pub proof fn lemma_extinguish_exact(
    tiles: Seq<Tile>,
    grid: Grid,
    ps: Seq<GamePosition>,
    k: int,
)
    requires
        0 <= k < crate::sim::damage_tile_changes(tiles, grid, ps).len(),
    ensures
        crate::sim::damage_tile_changes(tiles, grid, ps)[k].updated_value == Tile::Empty,
        tiles[crate::sim::damage_tile_changes(tiles, grid, ps)[k].entity as int] is Fire,
    decreases ps.len(),
{
    if ps.len() > 0 {
        let prev = crate::sim::damage_tile_changes(tiles, grid, ps.drop_last());
        if k < prev.len() {
            lemma_extinguish_exact(tiles, grid, ps.drop_last(), k);
        }
    }
}

} // verus!
