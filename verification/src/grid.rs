//! The grid and its generation step.
//!
//! A grid is a torus of `width` by `height` cells, each alive or dead,
//! stored row by row. Its model is a [`Board`]: the two dimensions and
//! the sequence of cell statuses. Every position of the plane names a
//! cell of the board, the one onto which it wraps, so each cell has
//! eight neighbours wherever it lies.

use crate::coord::lemma_wrapped_index_in_grid;
use crate::coord::wrapped_index;
use crate::coord::Coord;
use vstd::arithmetic::div_mod::lemma_fundamental_div_mod_converse;
use vstd::arithmetic::div_mod::lemma_small_mod;
use vstd::prelude::*;

verus! {

/// Whether a cell is alive or dead.
#[derive(Hash, PartialEq, Eq, Debug, Clone, Copy, Structural)]
pub enum CellStatus {
    Alive,
    Dead,
}

/// The status that a cell has in the next generation, given its status
/// now and the number of its neighbours that are alive now.
///
/// A live cell survives with two or three live neighbours, a dead cell
/// comes alive with exactly three, and every other cell is dead.
pub open spec fn next_status(current: CellStatus, live_neighbors: nat) -> CellStatus {
    match current {
        CellStatus::Alive => if live_neighbors == 2 || live_neighbors == 3 {
            CellStatus::Alive
        } else {
            CellStatus::Dead
        },
        CellStatus::Dead => if live_neighbors == 3 {
            CellStatus::Alive
        } else {
            CellStatus::Dead
        },
    }
}

/// The mathematical model of a grid.
pub struct Board {
    pub width: int,
    pub height: int,
    pub cells: Seq<CellStatus>,
}

impl Board {
    /// A board has between 1 and 255 columns and rows, and one status
    /// for each cell.
    pub open spec fn wf(self) -> bool {
        &&& 1 <= self.width <= u8::MAX
        &&& 1 <= self.height <= u8::MAX
        &&& self.cells.len() == self.width * self.height
    }

    /// The status of the cell onto which the position `(x, y)` wraps.
    pub open spec fn status_at(self, x: int, y: int) -> CellStatus {
        self.cells[wrapped_index(x, y, self.width, self.height)]
    }

    /// Whether the cell onto which the position `(x, y)` wraps is alive.
    pub open spec fn alive_at(self, x: int, y: int) -> bool {
        self.status_at(x, y) == CellStatus::Alive
    }

    /// 1 if the cell at `(x, y)` is alive, 0 if it is dead.
    pub open spec fn lives(self, x: int, y: int) -> nat {
        if self.alive_at(x, y) {
            1
        } else {
            0
        }
    }

    /// The number of live cells among the eight neighbours of `(x, y)`.
    pub open spec fn live_neighbors(self, x: int, y: int) -> nat {
        self.lives(x - 1, y - 1) + self.lives(x, y - 1) + self.lives(x + 1, y - 1)
            + self.lives(x - 1, y) + self.lives(x + 1, y)
            + self.lives(x - 1, y + 1) + self.lives(x, y + 1) + self.lives(x + 1, y + 1)
    }

    /// The number of live cells among `positions`, a position counted as
    /// often as it is listed.
    pub open spec fn live_among(self, positions: Seq<Coord>) -> nat
        decreases positions.len(),
    {
        if positions.len() == 0 {
            0
        } else {
            self.live_among(positions.drop_last()) + self.lives(
                positions.last().x as int,
                positions.last().y as int,
            )
        }
    }

    /// The status that the cell of row-major index `index` has in the
    /// next generation.
    pub open spec fn next_status_of(self, index: int) -> CellStatus {
        next_status(
            self.cells[index],
            self.live_neighbors(index % self.width, index / self.width),
        )
    }

    /// The next generation: every cell takes the status that the rules
    /// give it from this generation.
    pub open spec fn next_generation(self) -> Board {
        Board {
            width: self.width,
            height: self.height,
            cells: Seq::new(self.cells.len(), |index: int| self.next_status_of(index)),
        }
    }

    /// Whether one of `live` wraps onto the cell of row-major index
    /// `index` of a grid of `width` by `height` cells.
    pub open spec fn is_seeded(width: int, height: int, live: Seq<Coord>, index: int) -> bool {
        exists|k: int|
            0 <= k < live.len() && #[trigger] wrapped_index(
                live[k].x as int,
                live[k].y as int,
                width,
                height,
            ) == index
    }

    /// The board of `width` by `height` cells on which exactly the cells
    /// are alive onto which the positions in `live` wrap.
    pub open spec fn seeded(width: int, height: int, live: Seq<Coord>) -> Board {
        Board {
            width,
            height,
            cells: Seq::new(
                (width * height) as nat,
                |index: int|
                    if Self::is_seeded(width, height, live, index) {
                        CellStatus::Alive
                    } else {
                        CellStatus::Dead
                    },
            ),
        }
    }
}

/// The five cells of a glider that travels one cell to the south-east
/// every four generations.
pub open spec fn glider() -> Seq<Coord> {
    seq![
        Coord { x: 0, y: 0 },
        Coord { x: 1, y: 1 },
        Coord { x: 2, y: 1 },
        Coord { x: 0, y: 2 },
        Coord { x: 1, y: 2 },
    ]
}

/// Why a grid could not be made.
#[derive(Debug, Clone, Copy, PartialEq, Eq, Structural)]
pub enum GridError {
    /// The width or the height asked for is 0: such a grid has no cell
    /// for a position to wrap onto.
    ZeroDimension,
}

/// A toroidal grid of cells.
#[derive(Debug)]
pub struct GOL {
    width: u8,
    height: u8,
    grid: Vec<CellStatus>,
}

impl View for GOL {
    type V = Board;

    closed spec fn view(&self) -> Board {
        Board { width: self.width as int, height: self.height as int, cells: self.grid@ }
    }
}

impl GOL {
    #[verifier::type_invariant]
    spec fn well_formed(self) -> bool {
        self@.wf()
    }

    /// Makes the grid of `width` by `height` cells on which exactly the
    /// cells are alive onto which the positions in `live_coords` wrap.
    ///
    /// A position listed twice, or two positions that wrap onto one cell,
    /// count once. A grid without cells is not made: a `width` or a
    /// `height` of 0 is the one error.
    pub fn from_iter(width: u8, height: u8, live_coords: Vec<Coord>) -> (made: Result<
        GOL,
        GridError,
    >)
        ensures
            made is Ok <==> width > 0 && height > 0,
            made matches Ok(gol) ==> gol@ == Board::seeded(
                width as int,
                height as int,
                live_coords@,
            ),
            made matches Err(error) ==> error == GridError::ZeroDimension,
    {
        if width == 0 || height == 0 {
            return Err(GridError::ZeroDimension);
        }
        proof {
            assert(width * height <= 255 * 255) by (nonlinear_arith)
                requires
                    0 < width <= 255,
                    0 < height <= 255,
            ;
        }
        let cells = width as usize * height as usize;
        let mut grid: Vec<CellStatus> = Vec::with_capacity(cells);
        for filled in 0..cells
            invariant
                grid@.len() == filled,
                forall|i: int| 0 <= i < filled ==> grid@[i] == CellStatus::Dead,
        {
            grid.push(CellStatus::Dead);
        }
        for placed in 0..live_coords.len()
            invariant
                width > 0,
                height > 0,
                cells == width * height,
                grid@.len() == cells,
                forall|i: int|
                    0 <= i < cells ==> (grid@[i] == CellStatus::Alive <==> Board::is_seeded(
                        width as int,
                        height as int,
                        live_coords@.take(placed as int),
                        i,
                    )),
        {
            let idx = live_coords[placed].index_in(width, height);
            grid.set(idx, CellStatus::Alive);
            proof {
                let before = live_coords@.take(placed as int);
                let after = live_coords@.take(placed + 1);
                assert forall|i: int| 0 <= i < cells implies (Board::is_seeded(
                    width as int,
                    height as int,
                    after,
                    i,
                ) <==> i == idx || Board::is_seeded(width as int, height as int, before, i)) by {
                    Board::lemma_is_seeded_push(
                        width as int,
                        height as int,
                        before,
                        live_coords@[placed as int],
                        i,
                    );
                    assert(after == before.push(live_coords@[placed as int]));
                }
            }
        }
        proof {
            assert(live_coords@.take(live_coords@.len() as int) == live_coords@);
            assert(grid@ =~= Board::seeded(width as int, height as int, live_coords@).cells);
        }
        Ok(GOL { width, height, grid })
    }

    /// Makes the grid of `width` by `height` cells that holds one glider
    /// in its north-west corner.
    pub fn glider_pattern(width: u8, height: u8) -> (made: Result<GOL, GridError>)
        ensures
            made is Ok <==> width > 0 && height > 0,
            made matches Ok(gol) ==> gol@ == Board::seeded(width as int, height as int, glider()),
            made matches Err(error) ==> error == GridError::ZeroDimension,
    {
        let live_coords = vec![
            Coord { x: 0, y: 0 },
            Coord { x: 1, y: 1 },
            Coord { x: 2, y: 1 },
            Coord { x: 0, y: 2 },
            Coord { x: 1, y: 2 },
        ];
        assert(live_coords@ == glider());
        GOL::from_iter(width, height, live_coords)
    }

    /// The number of columns.
    pub fn width(&self) -> (width: u8)
        ensures
            width == self@.width,
            self@.wf(),
    {
        proof {
            use_type_invariant(self);
        }
        self.width
    }

    /// The number of rows.
    pub fn height(&self) -> (height: u8)
        ensures
            height == self@.height,
            self@.wf(),
    {
        proof {
            use_type_invariant(self);
        }
        self.height
    }

    /// Whether the cell onto which `coord` wraps is alive.
    pub fn is_alive(&self, coord: &Coord) -> (alive: bool)
        ensures
            alive == self@.alive_at(coord.x as int, coord.y as int),
    {
        proof {
            use_type_invariant(self);
        }
        self.grid[coord.index_in(self.width, self.height)] == CellStatus::Alive
    }

    /// Counts the neighbours of `coord` that are alive.
    fn count_live_neighbors(&self, coord: &Coord) -> (count: usize)
        requires
            coord.has_neighborhood(),
        ensures
            count == self@.live_neighbors(coord.x as int, coord.y as int),
    {
        let around = coord.neighbors();
        let mut count: usize = 0;
        for k in 0..around.len()
            invariant
                around@ == coord.neighborhood(),
                count == self@.live_among(around@.take(k as int)),
                count <= k,
        {
            proof {
                assert(around@.take(k + 1).drop_last() == around@.take(k as int));
            }
            if self.is_alive(&around[k]) {
                count += 1;
            }
        }
        proof {
            assert(around@.take(8) == around@);
            self@.lemma_live_among_neighborhood(*coord);
        }
        count
    }

    /// Advances the grid by one generation.
    ///
    /// Every cell of the new generation is computed from the generation
    /// before the call, which is replaced only once all are known.
    pub fn step(&mut self)
        ensures
            final(self)@ == old(self)@.next_generation(),
    {
        proof {
            use_type_invariant(&*self);
        }
        let width = self.width;
        let height = self.height;
        let mut next_grid = self.grid.clone();
        proof {
            assert(0 * width == 0) by (nonlinear_arith);
        }
        for y in 0..height as i16
            invariant
                width == self.width,
                height == self.height,
                self@ == old(self)@,
                self@.wf(),
                next_grid@.len() == width * height,
                forall|i: int| 0 <= i < y * width ==> next_grid@[i] == self@.next_status_of(i),
        {
            for x in 0..width as i16
                invariant
                    0 <= y < height,
                    width == self.width,
                    height == self.height,
                    self@ == old(self)@,
                    self@.wf(),
                    next_grid@.len() == width * height,
                    forall|i: int|
                        0 <= i < y * width + x ==> next_grid@[i] == self@.next_status_of(i),
            {
                let coord = Coord { x, y };
                let idx = coord.index_in(width, height);
                proof {
                    lemma_small_mod(x as nat, width as nat);
                    lemma_small_mod(y as nat, height as nat);
                    lemma_fundamental_div_mod_converse(idx as int, width as int, y as int, x as int);
                }
                let num_live_neighbors = self.count_live_neighbors(&coord);
                let next = match (self.grid[idx], num_live_neighbors) {
                    // A live cell with fewer than two live neighbours dies.
                    (CellStatus::Alive, n) if n < 2 => CellStatus::Dead,
                    // A live cell with two or three live neighbours lives on.
                    (CellStatus::Alive, 2) | (CellStatus::Alive, 3) => CellStatus::Alive,
                    // A live cell with more than three live neighbours dies.
                    (CellStatus::Alive, n) if n > 3 => CellStatus::Dead,
                    // A dead cell with exactly three live neighbours comes alive.
                    (CellStatus::Dead, 3) => CellStatus::Alive,
                    // Every other cell stays as it is.
                    (otherwise, _) => otherwise,
                };
                next_grid.set(idx, next);
            }
            proof {
                assert((y + 1) * width == y * width + width) by (nonlinear_arith);
            }
        }
        proof {
            assert(height * width == width * height) by (nonlinear_arith);
            assert(next_grid@ =~= self@.next_generation().cells);
        }
        self.grid = next_grid;
    }
}

impl Board {
    /// A generation step keeps the dimensions of the board and the
    /// number of its cells.
    pub proof fn lemma_next_generation_wf(self)
        requires
            self.wf(),
        ensures
            self.next_generation().wf(),
            self.next_generation().width == self.width,
            self.next_generation().height == self.height,
    {
    }

    /// A board for dimensions between 1 and 255 is well formed, whatever
    /// positions seed it.
    pub proof fn lemma_seeded_wf(width: int, height: int, live: Seq<Coord>)
        requires
            1 <= width <= u8::MAX,
            1 <= height <= u8::MAX,
        ensures
            Self::seeded(width, height, live).wf(),
    {
        assert(0 <= width * height) by (nonlinear_arith)
            requires
                0 <= width,
                0 <= height,
        ;
    }

    /// A board without a live cell is its own next generation.
    pub proof fn lemma_dead_board_stays_dead(self)
        requires
            self.wf(),
            forall|index: int| 0 <= index < self.cells.len() ==> self.cells[index] == CellStatus::Dead,
        ensures
            self.next_generation() == self,
    {
        assert forall|x: int, y: int| self.lives(x, y) == 0 by {
            lemma_wrapped_index_in_grid(x, y, self.width, self.height);
        }
        assert(self.next_generation().cells =~= self.cells);
    }

    /// Seeding never depends on how often or in what order a position is
    /// listed: two lists that wrap onto the same cells give one board.
    pub proof fn lemma_seeded_by_cells(width: int, height: int, first: Seq<Coord>, second: Seq<Coord>)
        requires
            forall|index: int|
                Self::is_seeded(width, height, first, index) <==> Self::is_seeded(
                    width,
                    height,
                    second,
                    index,
                ),
        ensures
            Self::seeded(width, height, first) == Self::seeded(width, height, second),
    {
        assert(Self::seeded(width, height, first).cells =~= Self::seeded(
            width,
            height,
            second,
        ).cells);
    }

    /// Listing one more position seeds the cell onto which it wraps, and
    /// no other.
    pub proof fn lemma_is_seeded_push(
        width: int,
        height: int,
        live: Seq<Coord>,
        extra: Coord,
        index: int,
    )
        ensures
            Self::is_seeded(width, height, live.push(extra), index) <==> (Self::is_seeded(
                width,
                height,
                live,
                index,
            ) || wrapped_index(extra.x as int, extra.y as int, width, height) == index),
    {
        let longer = live.push(extra);
        if Self::is_seeded(width, height, live, index) {
            let k = choose|k: int|
                0 <= k < live.len() && #[trigger] wrapped_index(
                    live[k].x as int,
                    live[k].y as int,
                    width,
                    height,
                ) == index;
            assert(longer[k] == live[k]);
            assert(wrapped_index(longer[k].x as int, longer[k].y as int, width, height) == index);
        }
        if wrapped_index(extra.x as int, extra.y as int, width, height) == index {
            let k = live.len() as int;
            assert(longer[k] == extra);
            assert(wrapped_index(longer[k].x as int, longer[k].y as int, width, height) == index);
        }
        if Self::is_seeded(width, height, longer, index) {
            let k = choose|k: int|
                0 <= k < longer.len() && #[trigger] wrapped_index(
                    longer[k].x as int,
                    longer[k].y as int,
                    width,
                    height,
                ) == index;
            if k < live.len() {
                assert(longer[k] == live[k]);
                assert(wrapped_index(live[k].x as int, live[k].y as int, width, height) == index);
            } else {
                assert(longer[k] == extra);
            }
        }
    }

    /// Counting the live cells of a neighbourhood one by one gives the
    /// number of live neighbours.
    pub proof fn lemma_live_among_neighborhood(self, center: Coord)
        requires
            center.has_neighborhood(),
        ensures
            self.live_among(center.neighborhood()) == self.live_neighbors(
                center.x as int,
                center.y as int,
            ),
    {
        reveal_with_fuel(Board::live_among, 9);
    }
}

} // verus!
