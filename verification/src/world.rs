//! The static world of a stage: the player, the ladder, the ground and the walls.

use vstd::prelude::*;
use crate::block::{Direction, HandBlock};
use crate::constants::{HAND_BLOCK_INDEX, LADDER_NUM, PLAYER_INIT_POS, STEP_SIZE, WH, WW};
use crate::point::Point;
use crate::state::GameState;

verus! {

/// Everything that stands on the field before the blocks are dealt.
#[derive(Debug)]
pub struct World {
    pub player: Point,
    /// The rungs of the ladder, from the lowest up.
    pub ladders: Vec<Point>,
    pub hand_block: HandBlock,
    pub grounds: Vec<Point>,
    pub walls: Vec<Point>,
    /// The state to enter once the world stands.
    pub next_state: GameState,
}

/// The position of the cell in column `i` and row `j` of the field; column 0 lies just
/// left of the field, row 0 is the top row.
pub open spec fn cell(i: int, j: int) -> Point {
    Point {
        x: (-(WW + STEP_SIZE) / 2 + i * STEP_SIZE) as i32,
        y: ((WH - STEP_SIZE) / 2 - j * STEP_SIZE) as i32,
    }
}

/// Whether `p` is the position of a cell.
pub open spec fn on_grid(p: Point) -> bool {
    (p.x + (WW + STEP_SIZE) / 2) % (STEP_SIZE as int) == 0 && ((WH - STEP_SIZE) / 2 - p.y) % (
    STEP_SIZE as int) == 0
}

/// The column of the cell at `p`.
pub open spec fn column_of(p: Point) -> int {
    (p.x + (WW + STEP_SIZE) / 2) / (STEP_SIZE as int)
}

/// The row of the cell at `p`.
pub open spec fn row_of(p: Point) -> int {
    ((WH - STEP_SIZE) / 2 - p.y) / (STEP_SIZE as int)
}

/// Ground fills the top and the bottom row of columns 1 to 25.
pub open spec fn is_ground_cell(i: int, j: int) -> bool {
    1 <= i <= 25 && (j == 0 || j == 14)
}

/// Walls fill column 1 and columns 19 to 25 between the two ground rows.
pub open spec fn is_side_wall_cell(i: int, j: int) -> bool {
    (i == 1 || 19 <= i <= 25) && 1 <= j <= 13
}

/// A staircase of walls in the top left corner: four cells wide in its top row, one cell
/// narrower with every row below.
pub open spec fn is_stair_cell(i: int, j: int) -> bool {
    2 <= i && 1 <= j && (i - 2) + (j - 1) <= 3
}

/// Whether ground lies at `p`.
pub open spec fn is_ground(p: Point) -> bool {
    on_grid(p) && is_ground_cell(column_of(p), row_of(p))
}

/// Whether a wall of the sides of the field stands at `p`.
pub open spec fn is_side_wall(p: Point) -> bool {
    on_grid(p) && is_side_wall_cell(column_of(p), row_of(p))
}

/// Whether a wall of the staircase stands at `p`.
pub open spec fn is_stair(p: Point) -> bool {
    on_grid(p) && is_stair_cell(column_of(p), row_of(p))
}

/// Whether a wall stands at `p`.
pub open spec fn is_wall(p: Point) -> bool {
    is_side_wall(p) || is_stair(p)
}

/// The rung `k` of the ladder, counted from the lowest.
pub open spec fn rung(k: int) -> Point {
    Point { x: PLAYER_INIT_POS.0, y: (PLAYER_INIT_POS.1 + k * STEP_SIZE) as i32 }
}

/// Whether the cell at `p` comes before cell (`i`, `j`) when the field is walked column by
/// column, each column from the top.
pub open spec fn before_by_column(p: Point, i: int, j: int) -> bool {
    column_of(p) < i || (column_of(p) == i && row_of(p) < j)
}

/// Whether the cell at `p` comes before cell (`i`, `j`) when the field is walked row by
/// row, each row from the left.
pub open spec fn before_by_row(p: Point, i: int, j: int) -> bool {
    row_of(p) < j || (row_of(p) == j && column_of(p) < i)
}

fn cell_at(i: i32, j: i32) -> (p: Point)
    requires
        0 <= i <= 32,
        0 <= j <= 32,
    ensures
        p == cell(i as int, j as int),
        on_grid(p),
        column_of(p) == i,
        row_of(p) == j,
{
    Point { x: -(WW + STEP_SIZE) / 2 + i * STEP_SIZE, y: (WH - STEP_SIZE) / 2 - j * STEP_SIZE }
}

/// Lays out the world of a stage.
///
/// The player stands on the lowest rung with the hand block one step to the left. Ground
/// and walls hold each of their cells once.
pub fn init_world() -> (w: World)
    ensures
        w.player == (Point { x: PLAYER_INIT_POS.0, y: PLAYER_INIT_POS.1 }),
        w.ladders@ == Seq::new(LADDER_NUM as nat, |k: int| rung(k)),
        w.hand_block == (HandBlock {
            index: HAND_BLOCK_INDEX,
            direction: Direction::Left,
            translation: Point { x: (PLAYER_INIT_POS.0 - STEP_SIZE) as i32, y: PLAYER_INIT_POS.1 },
            carry: 0,
        }),
        forall|p: Point| #[trigger] w.grounds@.contains(p) <==> is_ground(p),
        w.grounds@.no_duplicates(),
        forall|p: Point| #[trigger] w.walls@.contains(p) <==> is_wall(p),
        w.walls@.no_duplicates(),
        w.next_state == GameState::InGame,
{
    let (x, y) = PLAYER_INIT_POS;
    let player = Point { x, y };

    let mut ladders: Vec<Point> = Vec::new();
    let mut k: i32 = 0;
    while k < LADDER_NUM as i32
        invariant
            0 <= k <= LADDER_NUM,
            x == PLAYER_INIT_POS.0,
            y == PLAYER_INIT_POS.1,
            ladders@ == Seq::new(k as nat, |n: int| rung(n)),
        decreases LADDER_NUM - k,
    {
        ladders.push(Point { x, y: y + k * STEP_SIZE });
        k += 1;
        assert(ladders@ =~= Seq::new(k as nat, |n: int| rung(n)));
    }

    let hand_block = HandBlock {
        index: HAND_BLOCK_INDEX,
        direction: Direction::Left,
        translation: Point { x: x - STEP_SIZE, y },
        carry: 0,
    };

    let mut grounds: Vec<Point> = Vec::new();
    let mut walls: Vec<Point> = Vec::new();
    let mut i: i32 = 1;
    while i <= 25
        invariant
            1 <= i <= 26,
            forall|p: Point|
                #[trigger] grounds@.contains(p) <==> is_ground(p) && before_by_column(
                    p,
                    i as int,
                    0,
                ),
            grounds@.no_duplicates(),
            forall|p: Point|
                #[trigger] walls@.contains(p) <==> is_side_wall(p) && before_by_column(
                    p,
                    i as int,
                    0,
                ),
            walls@.no_duplicates(),
        decreases 26 - i,
    {
        let mut j: i32 = 0;
        while j <= 14
            invariant
                1 <= i <= 25,
                0 <= j <= 15,
                forall|p: Point|
                    #[trigger] grounds@.contains(p) <==> is_ground(p) && before_by_column(
                        p,
                        i as int,
                        j as int,
                    ),
                grounds@.no_duplicates(),
                forall|p: Point|
                    #[trigger] walls@.contains(p) <==> is_side_wall(p) && before_by_column(
                        p,
                        i as int,
                        j as int,
                    ),
                walls@.no_duplicates(),
            decreases 15 - j,
        {
            let p = cell_at(i, j);
            let ghost grounds_before = grounds@;
            let ghost walls_before = walls@;
            if j == 0 || j == 14 {
                grounds.push(p);
            } else if i == 1 || i >= 19 {
                walls.push(p);
            }
            proof {
                lemma_cell_is_unique(i as int, j as int);
                lemma_push_member(grounds_before, p);
                lemma_push_member(walls_before, p);
                assert(!grounds_before.contains(p));
                assert(!walls_before.contains(p));
                assert forall|q: Point|
                    grounds@.contains(q) <==> is_ground(q) && before_by_column(
                        q,
                        i as int,
                        j + 1,
                    ) by {
                    assert(grounds_before.contains(q) <==> is_ground(q) && before_by_column(
                        q,
                        i as int,
                        j as int,
                    ));
                    assert(grounds_before.push(p).contains(q) <==> grounds_before.contains(q) || q
                        == p);
                    if on_grid(q) && column_of(q) == i && row_of(q) == j {
                        assert(q == p);
                    }
                }
                assert forall|q: Point|
                    walls@.contains(q) <==> is_side_wall(q) && before_by_column(
                        q,
                        i as int,
                        j + 1,
                    ) by {
                    assert(walls_before.contains(q) <==> is_side_wall(q) && before_by_column(
                        q,
                        i as int,
                        j as int,
                    ));
                    assert(walls_before.push(p).contains(q) <==> walls_before.contains(q) || q
                        == p);
                    if on_grid(q) && column_of(q) == i && row_of(q) == j {
                        assert(q == p);
                    }
                }
            }
            j += 1;
        }
        i += 1;
    }

    let mut j: i32 = 0;
    while j < 4
        invariant
            0 <= j <= 4,
            forall|p: Point|
                #[trigger] walls@.contains(p) <==> is_side_wall(p) || (is_stair(p) && before_by_row(
                    p,
                    2,
                    j + 1,
                )),
            walls@.no_duplicates(),
        decreases 4 - j,
    {
        let mut i: i32 = 0;
        while i < 4
            invariant
                0 <= j < 4,
                0 <= i <= 4,
                forall|p: Point|
                    #[trigger] walls@.contains(p) <==> is_side_wall(p) || (is_stair(p)
                        && before_by_row(p, i + 2, j + 1)),
                walls@.no_duplicates(),
            decreases 4 - i,
        {
            let p = cell_at(i + 2, j + 1);
            proof {
                lemma_cell_is_unique(i + 2, j + 1);
            }
            if i + j <= 3 {
                proof {
                    assert(!is_side_wall(p));
                    assert(!before_by_row(p, i + 2, j + 1));
                    lemma_push_member(walls@, p);
                }
                walls.push(p);
            }
            i += 1;
        }
        j += 1;
    }

    World { player, ladders, hand_block, grounds, walls, next_state: GameState::InGame }
}

/// A cell's column and row tell its position.
proof fn lemma_cell_is_unique(i: int, j: int)
    ensures
        forall|q: Point| on_grid(q) && column_of(q) == i && row_of(q) == j ==> q == cell(i, j),
{
}

/// What a list holds after one more item.
proof fn lemma_push_member(s: Seq<Point>, p: Point)
    ensures
        forall|q: Point| #[trigger] s.push(p).contains(q) <==> s.contains(q) || q == p,
        s.no_duplicates() && !s.contains(p) ==> s.push(p).no_duplicates(),
{
    assert forall|q: Point| #[trigger] s.push(p).contains(q) <==> s.contains(q) || q == p by {
        if s.contains(q) {
            let i = choose|i: int| 0 <= i < s.len() && s[i] == q;
            assert(s.push(p)[i] == q);
        }
        if q == p {
            assert(s.push(p)[s.len() as int] == q);
        }
        if s.push(p).contains(q) {
            let i = choose|i: int| 0 <= i < s.push(p).len() && s.push(p)[i] == q;
            if i < s.len() {
                assert(s[i] == q);
            }
        }
    }
}

} // verus!
