//! The maze: its layout, the minimap squares drawn from it and the wall
//! blocks built from it.

use vstd::prelude::*;

verus! {

/// Rows and columns of the game's maze.
pub const MAZE_SIZE: usize = 7;

/// The value of a maze cell that holds a wall.
pub const WALL: i32 = 1;

/// The value of a maze cell that is open floor.
pub const OPEN: i32 = 0;

/// A layout as rows of cell values.
pub open spec fn grid_view(layout: &Vec<Vec<i32>>) -> Seq<Seq<i32>> {
    layout@.map_values(|row: Vec<i32>| row@)
}

/// The cell of the game's maze at row `r`, column `c`: walls all round the
/// border and one pillar in the middle, open floor elsewhere.
pub open spec fn spec_maze_cell(r: int, c: int) -> i32 {
    if r == 0 || r == MAZE_SIZE - 1 || c == 0 || c == MAZE_SIZE - 1 || (r == 3 && c == 3) {
        WALL
    } else {
        OPEN
    }
}

/// The game's maze, a square of `MAZE_SIZE` rows.
pub open spec fn spec_maze_layout() -> Seq<Seq<i32>> {
    Seq::new(
        MAZE_SIZE as nat,
        |r: int| Seq::new(MAZE_SIZE as nat, |c: int| spec_maze_cell(r, c)),
    )
}

/// The game's maze is closed: every cell on its border is a wall, so the
/// player cannot walk out of it.
pub proof fn lemma_maze_enclosed()
    ensures
        forall|i: int|
            0 <= i < MAZE_SIZE ==> #[trigger] spec_maze_layout()[0][i] == WALL && spec_maze_layout()[
                MAZE_SIZE - 1][i] == WALL && spec_maze_layout()[i][0] == WALL && spec_maze_layout()[i][
                MAZE_SIZE - 1] == WALL,
{
}

/// How a cell is drawn on the minimap.
#[derive(Debug, Clone, Copy, PartialEq, Eq, Structural)]
pub enum MinimapShade {
    /// The light grey square of a wall cell.
    Light,
    /// The dark square of every other cell.
    Dark,
}

/// One square of the minimap: the cell it stands for and its shade.
#[derive(Debug, Clone, Copy, PartialEq, Eq, Structural)]
pub struct MinimapCell {
    pub row: usize,
    pub col: usize,
    pub shade: MinimapShade,
}

/// The shade of a cell holding `cell`.
pub open spec fn shade_of(cell: i32) -> MinimapShade {
    if cell == WALL {
        MinimapShade::Light
    } else {
        MinimapShade::Dark
    }
}

/// The minimap squares of row `r`, one per cell, left to right.
pub open spec fn spec_row_cells(r: int, row: Seq<i32>) -> Seq<MinimapCell> {
    Seq::new(
        row.len(),
        |c: int| MinimapCell { row: r as usize, col: c as usize, shade: shade_of(row[c]) },
    )
}

/// The minimap squares of a layout, row after row.
pub open spec fn spec_minimap_cells(layout: Seq<Seq<i32>>) -> Seq<MinimapCell>
    decreases layout.len(),
{
    if layout.len() == 0 {
        Seq::empty()
    } else {
        spec_minimap_cells(layout.drop_last()) + spec_row_cells(
            layout.len() - 1,
            layout.last(),
        )
    }
}

/// The wall cells of row `r`, left to right, as (row, column).
pub open spec fn spec_row_walls(r: int, row: Seq<i32>) -> Seq<(usize, usize)>
    decreases row.len(),
{
    if row.len() == 0 {
        Seq::empty()
    } else {
        spec_row_walls(r, row.drop_last()) + if row.last() == WALL {
            seq![(r as usize, (row.len() - 1) as usize)]
        } else {
            Seq::empty()
        }
    }
}

/// The wall cells of a layout, row after row, as (row, column).
pub open spec fn spec_wall_cells(layout: Seq<Seq<i32>>) -> Seq<(usize, usize)>
    decreases layout.len(),
{
    if layout.len() == 0 {
        Seq::empty()
    } else {
        spec_wall_cells(layout.drop_last()) + spec_row_walls(layout.len() - 1, layout.last())
    }
}

/// The layout of the game's maze.
pub fn maze_layout() -> (layout: Vec<Vec<i32>>)
    ensures
        grid_view(&layout) == spec_maze_layout(),
{
    let layout: Vec<Vec<i32>> = vec![
        vec![1, 1, 1, 1, 1, 1, 1],
        vec![1, 0, 0, 0, 0, 0, 1],
        vec![1, 0, 0, 0, 0, 0, 1],
        vec![1, 0, 0, 1, 0, 0, 1],
        vec![1, 0, 0, 0, 0, 0, 1],
        vec![1, 0, 0, 0, 0, 0, 1],
        vec![1, 1, 1, 1, 1, 1, 1],
    ];
    assert forall|r: int| 0 <= r < 7 implies #[trigger] grid_view(&layout)[r]
        == spec_maze_layout()[r] by {
        assert(grid_view(&layout)[r] =~= spec_maze_layout()[r]);
    }
    assert(grid_view(&layout) =~= spec_maze_layout());
    layout
}

/// The shade of a cell holding `cell`.
pub fn minimap_shade(cell: i32) -> (s: MinimapShade)
    ensures
        s == shade_of(cell),
{
    if cell == WALL {
        MinimapShade::Light
    } else {
        MinimapShade::Dark
    }
}

/// The minimap squares of `layout`: one for every cell, row after row and
/// left to right within a row, light where the cell is a wall.
pub fn minimap_cells(layout: &Vec<Vec<i32>>) -> (cells: Vec<MinimapCell>)
    ensures
        cells@ == spec_minimap_cells(grid_view(layout)),
{
    let ghost g = grid_view(layout);
    let mut cells: Vec<MinimapCell> = Vec::new();
    let n = layout.len();
    assert(g.take(0) =~= Seq::<Seq<i32>>::empty());
    for r in 0..n
        invariant
            n == layout@.len(),
            g == grid_view(layout),
            cells@ == spec_minimap_cells(g.take(r as int)),
    {
        let row = &layout[r];
        let m = row.len();
        let ghost before = cells@;
        assert(row@.take(0) =~= Seq::<i32>::empty());
        assert(spec_row_cells(r as int, row@.take(0)) =~= Seq::<MinimapCell>::empty());
        for c in 0..m
            invariant
                m == row@.len(),
                r < n,
                cells@ == before + spec_row_cells(r as int, row@.take(c as int)),
        {
            let cell = MinimapCell { row: r, col: c, shade: minimap_shade(row[c]) };
            cells.push(cell);
            assert(spec_row_cells(r as int, row@.take(c + 1)) =~= spec_row_cells(
                r as int,
                row@.take(c as int),
            ).push(cell));
        }
        assert(row@.take(m as int) =~= row@);
        assert(g.take(r + 1).drop_last() =~= g.take(r as int));
        assert(g[r as int] == row@);
    }
    assert(g.take(n as int) =~= g);
    cells
}

/// The wall cells of `layout`, row after row and left to right within a
/// row, as (row, column): where the maze's wall blocks stand.
pub fn wall_cells(layout: &Vec<Vec<i32>>) -> (walls: Vec<(usize, usize)>)
    ensures
        walls@ == spec_wall_cells(grid_view(layout)),
{
    let ghost g = grid_view(layout);
    let mut walls: Vec<(usize, usize)> = Vec::new();
    let n = layout.len();
    assert(g.take(0) =~= Seq::<Seq<i32>>::empty());
    for r in 0..n
        invariant
            n == layout@.len(),
            g == grid_view(layout),
            walls@ == spec_wall_cells(g.take(r as int)),
    {
        let row = &layout[r];
        let m = row.len();
        let ghost before = walls@;
        assert(row@.take(0) =~= Seq::<i32>::empty());
        for c in 0..m
            invariant
                m == row@.len(),
                r < n,
                walls@ == before + spec_row_walls(r as int, row@.take(c as int)),
        {
            assert(row@.take(c + 1).drop_last() =~= row@.take(c as int));
            if row[c] == WALL {
                walls.push((r, c));
            }
            assert(walls@ =~= before + spec_row_walls(r as int, row@.take(c + 1)));
        }
        assert(row@.take(m as int) =~= row@);
        assert(g.take(r + 1).drop_last() =~= g.take(r as int));
        assert(g[r as int] == row@);
    }
    assert(g.take(n as int) =~= g);
    walls
}

proof fn lemma_concat_contains<A>(a: Seq<A>, b: Seq<A>, x: A)
    ensures
        (a + b).contains(x) <==> (a.contains(x) || b.contains(x)),
{
    if a.contains(x) {
        let i = choose|i: int| 0 <= i < a.len() && a[i] == x;
        assert((a + b)[i] == x);
    }
    if b.contains(x) {
        let i = choose|i: int| 0 <= i < b.len() && b[i] == x;
        assert((a + b)[a.len() + i] == x);
    }
    if (a + b).contains(x) {
        let i = choose|i: int| 0 <= i < (a + b).len() && (a + b)[i] == x;
        if i < a.len() {
            assert(a[i] == x);
        } else {
            assert(b[i - a.len()] == x);
        }
    }
}

proof fn lemma_row_walls_exact(r: int, row: Seq<i32>, p: (usize, usize))
    requires
        0 <= r <= usize::MAX,
        row.len() <= usize::MAX,
    ensures
        spec_row_walls(r, row).contains(p) <==> (p.0 == r && p.1 < row.len() && row[p.1 as int]
            == WALL),
    decreases row.len(),
{
    if row.len() > 0 {
        let prefix = row.drop_last();
        let last_part = if row.last() == WALL {
            seq![(r as usize, (row.len() - 1) as usize)]
        } else {
            Seq::<(usize, usize)>::empty()
        };
        lemma_row_walls_exact(r, prefix, p);
        lemma_concat_contains(spec_row_walls(r, prefix), last_part, p);
        if row.last() == WALL {
            assert(last_part.contains(p) <==> p == (r as usize, (row.len() - 1) as usize)) by {
                if last_part.contains(p) {
                    let i = choose|i: int| 0 <= i < last_part.len() && last_part[i] == p;
                    assert(i == 0);
                }
                if p == (r as usize, (row.len() - 1) as usize) {
                    assert(last_part[0] == p);
                }
            }
        }
    }
}

/// The walls are exactly the cells that hold `WALL`: a cell is listed
/// by `wall_cells` if and only if it lies in the layout and holds a wall.
pub proof fn lemma_wall_cells_exact(layout: Seq<Seq<i32>>, p: (usize, usize))
    requires
        layout.len() <= usize::MAX,
        forall|r: int| 0 <= r < layout.len() ==> #[trigger] layout[r].len() <= usize::MAX,
    ensures
        spec_wall_cells(layout).contains(p) <==> (p.0 < layout.len() && p.1 < layout[p.0 as int].len()
            && layout[p.0 as int][p.1 as int] == WALL),
    decreases layout.len(),
{
    if layout.len() > 0 {
        let prefix = layout.drop_last();
        let r = layout.len() - 1;
        assert forall|i: int| 0 <= i < prefix.len() implies #[trigger] prefix[i].len() <= usize::MAX by {
            assert(prefix[i] == layout[i]);
        }
        lemma_wall_cells_exact(prefix, p);
        lemma_row_walls_exact(r, layout.last(), p);
        lemma_concat_contains(spec_wall_cells(prefix), spec_row_walls(r, layout.last()), p);
        if (p.0 as int) < r {
            assert(prefix[p.0 as int] == layout[p.0 as int]);
        }
    }
}

proof fn lemma_row_cells_exact(r: int, row: Seq<i32>, m: MinimapCell)
    requires
        0 <= r <= usize::MAX,
        row.len() <= usize::MAX,
    ensures
        spec_row_cells(r, row).contains(m) <==> (m.row == r && m.col < row.len() && m.shade
            == shade_of(row[m.col as int])),
{
    let cells = spec_row_cells(r, row);
    if cells.contains(m) {
        let i = choose|i: int| 0 <= i < cells.len() && cells[i] == m;
        assert(m.col == i);
    }
    if m.row == r && m.col < row.len() && m.shade == shade_of(row[m.col as int]) {
        assert(cells[m.col as int] == m);
    }
}

/// The minimap has a square for every cell of the layout and for nothing
/// else, and the square's shade is that of the cell.
pub proof fn lemma_minimap_cells_exact(layout: Seq<Seq<i32>>, m: MinimapCell)
    requires
        layout.len() <= usize::MAX,
        forall|r: int| 0 <= r < layout.len() ==> #[trigger] layout[r].len() <= usize::MAX,
    ensures
        spec_minimap_cells(layout).contains(m) <==> (m.row < layout.len() && m.col < layout[
            m.row as int].len() && m.shade == shade_of(layout[m.row as int][m.col as int])),
    decreases layout.len(),
{
    if layout.len() > 0 {
        let prefix = layout.drop_last();
        let r = layout.len() - 1;
        assert forall|i: int| 0 <= i < prefix.len() implies #[trigger] prefix[i].len() <= usize::MAX by {
            assert(prefix[i] == layout[i]);
        }
        lemma_minimap_cells_exact(prefix, m);
        lemma_row_cells_exact(r, layout.last(), m);
        lemma_concat_contains(spec_minimap_cells(prefix), spec_row_cells(r, layout.last()), m);
        if (m.row as int) < r {
            assert(prefix[m.row as int] == layout[m.row as int]);
        }
    }
}

/// The light squares of the minimap stand exactly where the wall blocks
/// of the maze stand.
pub proof fn lemma_minimap_light_iff_wall(layout: Seq<Seq<i32>>, row: usize, col: usize)
    requires
        layout.len() <= usize::MAX,
        forall|r: int| 0 <= r < layout.len() ==> #[trigger] layout[r].len() <= usize::MAX,
    ensures
        spec_minimap_cells(layout).contains(MinimapCell { row, col, shade: MinimapShade::Light })
            <==> spec_wall_cells(layout).contains((row, col)),
{
    lemma_minimap_cells_exact(layout, MinimapCell { row, col, shade: MinimapShade::Light });
    lemma_wall_cells_exact(layout, (row, col));
}

/// The number of cells of a layout.
pub open spec fn spec_cell_count(layout: Seq<Seq<i32>>) -> nat
    decreases layout.len(),
{
    if layout.len() == 0 {
        0
    } else {
        spec_cell_count(layout.drop_last()) + layout.last().len()
    }
}

/// The minimap draws as many squares as the layout has cells.
pub proof fn lemma_minimap_cells_len(layout: Seq<Seq<i32>>)
    ensures
        spec_minimap_cells(layout).len() == spec_cell_count(layout),
    decreases layout.len(),
{
    if layout.len() > 0 {
        lemma_minimap_cells_len(layout.drop_last());
    }
}

/// Cell `a` comes before cell `b` in row-major order.
pub open spec fn cell_before(a: (usize, usize), b: (usize, usize)) -> bool {
    a.0 < b.0 || (a.0 == b.0 && a.1 < b.1)
}

proof fn lemma_row_walls_sorted(r: int, row: Seq<i32>)
    requires
        0 <= r <= usize::MAX,
        row.len() <= usize::MAX,
    ensures
        forall|i: int|
            0 <= i < spec_row_walls(r, row).len() ==> (#[trigger] spec_row_walls(r, row)[i]).0 == r
                && spec_row_walls(r, row)[i].1 < row.len(),
        forall|i: int, j: int|
            0 <= i < j < spec_row_walls(r, row).len() ==> #[trigger] spec_row_walls(r, row)[i].1
                < #[trigger] spec_row_walls(r, row)[j].1,
    decreases row.len(),
{
    if row.len() > 0 {
        let pre = spec_row_walls(r, row.drop_last());
        let tail = if row.last() == WALL {
            seq![(r as usize, (row.len() - 1) as usize)]
        } else {
            Seq::<(usize, usize)>::empty()
        };
        let full = spec_row_walls(r, row);
        lemma_row_walls_sorted(r, row.drop_last());
        assert(full == pre + tail);
        assert forall|i: int| 0 <= i < full.len() implies (#[trigger] full[i]).0 == r && full[i].1
            < row.len() by {
            if i < pre.len() {
                assert(full[i] == pre[i]);
            } else {
                assert(full[i] == tail[i - pre.len()]);
            }
        }
        assert forall|i: int, j: int| 0 <= i < j < full.len() implies #[trigger] full[i].1
            < #[trigger] full[j].1 by {
            assert(full[i] == pre[i]);
            if j < pre.len() {
                assert(full[j] == pre[j]);
            } else {
                assert(full[j] == tail[j - pre.len()]);
            }
        }
    }
}

/// The wall cells come in row-major order, so no wall block is built twice.
pub proof fn lemma_wall_cells_sorted(layout: Seq<Seq<i32>>)
    requires
        layout.len() <= usize::MAX,
        forall|r: int| 0 <= r < layout.len() ==> #[trigger] layout[r].len() <= usize::MAX,
    ensures
        forall|i: int|
            0 <= i < spec_wall_cells(layout).len() ==> (#[trigger] spec_wall_cells(layout)[i]).0
                < layout.len(),
        forall|i: int, j: int|
            0 <= i < j < spec_wall_cells(layout).len() ==> cell_before(
                #[trigger] spec_wall_cells(layout)[i],
                #[trigger] spec_wall_cells(layout)[j],
            ),
        spec_wall_cells(layout).no_duplicates(),
    decreases layout.len(),
{
    if layout.len() > 0 {
        let prefix = layout.drop_last();
        let r = layout.len() - 1;
        assert forall|i: int| 0 <= i < prefix.len() implies #[trigger] prefix[i].len() <= usize::MAX by {
            assert(prefix[i] == layout[i]);
        }
        lemma_wall_cells_sorted(prefix);
        lemma_row_walls_sorted(r, layout.last());
    }
    let w = spec_wall_cells(layout);
    assert forall|i: int, j: int| 0 <= i < w.len() && 0 <= j < w.len() && i != j implies w[i]
        != w[j] by {
        if i < j {
            assert(cell_before(w[i], w[j]));
        } else {
            assert(cell_before(w[j], w[i]));
        }
    }
}

proof fn lemma_row_cells_sorted(r: int, row: Seq<i32>)
    requires
        0 <= r <= usize::MAX,
        row.len() <= usize::MAX,
    ensures
        forall|i: int|
            0 <= i < row.len() ==> (#[trigger] spec_row_cells(r, row)[i]).row == r
                && spec_row_cells(r, row)[i].col == i,
{
}

/// Where cell `m` stands, as (row, column).
pub open spec fn cell_position(m: MinimapCell) -> (usize, usize) {
    (m.row, m.col)
}

/// The minimap squares come in row-major order, so no cell is drawn twice.
pub proof fn lemma_minimap_cells_sorted(layout: Seq<Seq<i32>>)
    requires
        layout.len() <= usize::MAX,
        forall|r: int| 0 <= r < layout.len() ==> #[trigger] layout[r].len() <= usize::MAX,
    ensures
        forall|i: int|
            0 <= i < spec_minimap_cells(layout).len() ==> (
            #[trigger] spec_minimap_cells(layout)[i]).row < layout.len(),
        forall|i: int, j: int|
            0 <= i < j < spec_minimap_cells(layout).len() ==> cell_before(
                cell_position(#[trigger] spec_minimap_cells(layout)[i]),
                cell_position(#[trigger] spec_minimap_cells(layout)[j]),
            ),
        spec_minimap_cells(layout).no_duplicates(),
    decreases layout.len(),
{
    if layout.len() > 0 {
        let prefix = layout.drop_last();
        let r = layout.len() - 1;
        assert forall|i: int| 0 <= i < prefix.len() implies #[trigger] prefix[i].len() <= usize::MAX by {
            assert(prefix[i] == layout[i]);
        }
        lemma_minimap_cells_sorted(prefix);
        lemma_row_cells_sorted(r, layout.last());
    }
    let m = spec_minimap_cells(layout);
    assert forall|i: int, j: int| 0 <= i < m.len() && 0 <= j < m.len() && i != j implies m[i]
        != m[j] by {
        if i < j {
            assert(cell_before(cell_position(m[i]), cell_position(m[j])));
        } else {
            assert(cell_before(cell_position(m[j]), cell_position(m[i])));
        }
    }
}

} // verus!
