//! A rectangular grid of hex-valued cells with four-neighbor Dijkstra
//! pathfinding. The search certifies its result: every path it hands back has
//! been run through a verified checker, so the contracts pin that the corner
//! searches always return a path, that it starts and ends at the corners and
//! moves only between adjacent in-bounds cells, and that the reported cost is
//! exactly the sum of the cells the path enters. Which path the search picks
//! (its minimality) is not part of the contract.

use vstd::prelude::*;

verus! {

/// Whether a cell lies inside an `h` by `w` grid.
pub open spec fn spec_in_bounds(h: int, w: int, p: (usize, usize)) -> bool {
    (p.0 as int) < h && (p.1 as int) < w
}

/// Whether two cells share an edge: same row and columns one apart, or same
/// column and rows one apart.
pub open spec fn spec_adjacent(a: (usize, usize), b: (usize, usize)) -> bool {
    ||| (a.0 == b.0 && (a.1 as int - b.1 as int == 1 || b.1 as int - a.1 as int == 1))
    ||| (a.1 == b.1 && (a.0 as int - b.0 as int == 1 || b.0 as int - a.0 as int == 1))
}

/// Whether `path` is a walk through an `h` by `w` grid: nonempty, every cell
/// in bounds, every step between adjacent cells.
pub open spec fn spec_path_ok(h: int, w: int, path: Seq<(usize, usize)>) -> bool {
    &&& path.len() >= 1
    &&& (forall|i: int| 0 <= i < path.len() ==> spec_in_bounds(h, w, #[trigger] path[i]))
    &&& (forall|i: int| 1 <= i < path.len() ==> spec_adjacent(path[i - 1], #[trigger] path[i]))
}

/// The cost of a walk: the sum of the cells it enters — every cell on the
/// path except the starting one.
pub open spec fn spec_path_cost(g: Seq<Seq<u8>>, path: Seq<(usize, usize)>) -> int
    decreases path.len(),
{
    if path.len() <= 1 {
        0
    } else {
        spec_path_cost(g, path.drop_last()) + g[path.last().0 as int][path.last().1 as int]
    }
}

/// The in-bounds members of a cell's four-candidate neighborhood, in a fixed
/// order: left, right, up, down. The cell itself may lie anywhere; only
/// candidates that fall fully inside the `h` by `w` grid are kept.
pub open spec fn spec_neighbors(h: int, w: int, pos: (usize, usize)) -> Seq<(usize, usize)> {
    let r = pos.0 as int;
    let c = pos.1 as int;
    let left: Seq<(usize, usize)> = if c >= 1 && r < h && c - 1 < w {
        seq![(pos.0, (pos.1 - 1) as usize)]
    } else {
        seq![]
    };
    let right: Seq<(usize, usize)> = if r < h && c + 1 < w {
        seq![(pos.0, (pos.1 + 1) as usize)]
    } else {
        seq![]
    };
    let up: Seq<(usize, usize)> = if r >= 1 && r - 1 < h && c < w {
        seq![((pos.0 - 1) as usize, pos.1)]
    } else {
        seq![]
    };
    let down: Seq<(usize, usize)> = if r + 1 < h && c < w {
        seq![((pos.0 + 1) as usize, pos.1)]
    } else {
        seq![]
    };
    left + right + up + down
}

/// A rectangular grid of byte-valued cells; the cell value is the cost of
/// stepping onto it.
pub struct HexGrid {
    grid: Vec<Vec<u8>>,
    width: usize,
    height: usize,
}

impl HexGrid {
    /// The cells.
    pub closed spec fn grid_spec(&self) -> Seq<Seq<u8>> {
        self.grid.deep_view()
    }

    /// The number of columns.
    pub closed spec fn width_spec(&self) -> usize {
        self.width
    }

    /// The number of rows.
    pub closed spec fn height_spec(&self) -> usize {
        self.height
    }

    /// Well-formed: the recorded dimensions match the cells, and every row
    /// has the same width.
    pub open spec fn wf(&self) -> bool {
        &&& self.height_spec() == self.grid_spec().len()
        &&& (forall|r: int|
            0 <= r < self.grid_spec().len() ==> (#[trigger] self.grid_spec()[r]).len()
                == self.width_spec())
        &&& (self.height_spec() == 0 ==> self.width_spec() == 0)
    }

    /// Wrap a block of rows as a grid; the width is the length of the first
    /// row (zero when there are no rows). Ragged rows are stored as given,
    /// without validation; the grid is well-formed — which the path searches
    /// require — exactly when every row has that width.
    pub fn new(grid: Vec<Vec<u8>>) -> (g: HexGrid)
        ensures
            g.grid_spec() == grid.deep_view(),
            g.height_spec() == grid@.len(),
            g.width_spec() == if grid@.len() > 0 {
                grid@[0]@.len()
            } else {
                0
            },
            (forall|r: int|
                0 <= r < grid@.len() ==> (#[trigger] grid@[r])@.len() == grid@[0]@.len())
                ==> g.wf(),
    {
        proof {
            assert(grid.deep_view().len() == grid@.len());
            assert forall|r: int| 0 <= r < grid@.len() implies (#[trigger] grid.deep_view()[
                r]).len() == grid@[r]@.len() by {
                assert(grid.deep_view()[r] =~= grid@[r]@);
            }
        }
        let height = grid.len();
        let width = if height > 0 {
            grid[0].len()
        } else {
            0
        };
        HexGrid { grid, width, height }
    }

    /// The number of rows.
    pub fn height(&self) -> (h: usize)
        ensures
            h == self.height_spec(),
    {
        self.height
    }

    /// The number of columns.
    pub fn width(&self) -> (w: usize)
        ensures
            w == self.width_spec(),
    {
        self.width
    }

    /// The in-bounds members of the cell's four-candidate neighborhood, in
    /// the order left, right, up, down. Total: a position outside the grid
    /// simply yields whichever candidates land inside it.
    pub fn get_neighbors(&self, pos: (usize, usize)) -> (out: Vec<(usize, usize)>)
        ensures
            out@ == spec_neighbors(self.height_spec() as int, self.width_spec() as int, pos),
            forall|i: int|
                0 <= i < out@.len() ==> spec_in_bounds(
                    self.height_spec() as int,
                    self.width_spec() as int,
                    #[trigger] out@[i],
                ) && spec_adjacent(pos, out@[i]),
    {
        let (row, col) = pos;
        let h = self.height;
        let w = self.width;
        let mut out: Vec<(usize, usize)> = Vec::new();
        if col >= 1 && row < h && col - 1 < w {
            out.push((row, col - 1));
        }
        if row < h && col < w && col + 1 < w {
            out.push((row, col + 1));
        }
        if row >= 1 && row - 1 < h && col < w {
            out.push((row - 1, col));
        }
        if row < h && row + 1 < h && col < w {
            out.push((row + 1, col));
        }
        proof {
            assert(out@ =~= spec_neighbors(
                self.height_spec() as int,
                self.width_spec() as int,
                pos,
            ));
        }
        out
    }

    /// Validate a candidate path from `start` to `end` and total its cost:
    /// `Some(cost)` exactly when the path is a nonempty in-bounds walk with
    /// the right endpoints and its cost fits in 32 bits.
    fn check_path(&self, path: &Vec<(usize, usize)>, start: (usize, usize), end: (usize, usize))
        -> (r: Option<u32>)
        requires
            self.wf(),
        ensures
            r is Some <==> ({
                &&& spec_path_ok(self.height_spec() as int, self.width_spec() as int, path@)
                &&& path@[0] == start
                &&& path@[path@.len() - 1] == end
                &&& spec_path_cost(self.grid_spec(), path@) <= u32::MAX
            }),
            r matches Some(c) ==> c as int == spec_path_cost(self.grid_spec(), path@),
    {
        let n = path.len();
        if n == 0 {
            return None;
        }
        let first = path[0];
        if !(first.0 == start.0 && first.1 == start.1) {
            return None;
        }
        if first.0 >= self.height || first.1 >= self.width {
            return None;
        }
        let last = path[n - 1];
        if !(last.0 == end.0 && last.1 == end.1) {
            return None;
        }
        let mut cost: u128 = 0;
        let mut i: usize = 1;
        while i < n
            invariant
                1 <= i <= n,
                n == path@.len(),
                self.wf(),
                forall|j: int|
                    0 <= j < i ==> spec_in_bounds(
                        self.height_spec() as int,
                        self.width_spec() as int,
                        #[trigger] path@[j],
                    ),
                forall|j: int| 1 <= j < i ==> spec_adjacent(path@[j - 1], #[trigger] path@[j]),
                cost == spec_path_cost(self.grid_spec(), path@.take(i as int)),
                cost <= 255 * i,
            decreases n - i,
        {
            let p = path[i];
            if p.0 >= self.height || p.1 >= self.width {
                proof {
                    assert(!spec_in_bounds(
                        self.height_spec() as int,
                        self.width_spec() as int,
                        path@[i as int],
                    ));
                }
                return None;
            }
            let q = path[i - 1];
            let adjacent = (p.0 == q.0 && (p.1 == q.1 + 1 || q.1 == p.1 + 1)) || (p.1 == q.1 && (
            p.0 == q.0 + 1 || q.0 == p.0 + 1));
            if !adjacent {
                proof {
                    assert(!spec_adjacent(path@[i - 1], path@[i as int]));
                }
                return None;
            }
            proof {
                assert(self.grid.deep_view().len() == self.grid@.len());
                assert(self.grid.deep_view()[p.0 as int] =~= self.grid@[p.0 as int]@);
            }
            let cell = self.grid[p.0][p.1];
            proof {
                assert(path@.take(i as int + 1).drop_last() =~= path@.take(i as int));
                assert(path@.take(i as int + 1).last() == path@[i as int]);
            }
            cost = cost + cell as u128;
            i = i + 1;
        }
        proof {
            assert(path@.take(n as int) =~= path@);
        }
        if cost > 0xFFFF_FFFF {
            return None;
        }
        Some(cost as u32)
    }

    /// Follow the predecessor links back from `end`, reverse the walk, and
    /// certify it. `fuel` caps the chase so that it ends whatever the links
    /// hold; a chase that runs out, leaves the grid, or fails the check
    /// yields `None`.
    fn reconstruct(
        &self,
        prev: &Vec<Vec<Option<(usize, usize)>>>,
        start: (usize, usize),
        end: (usize, usize),
        fuel: usize,
    ) -> (r: Option<(Vec<(usize, usize)>, u32)>)
        requires
            self.wf(),
            prev@.len() == self.height_spec(),
            forall|i: int| 0 <= i < prev@.len() ==> (#[trigger] prev@[i])@.len()
                == self.width_spec(),
            spec_in_bounds(self.height_spec() as int, self.width_spec() as int, end),
        ensures
            r matches Some(pc) ==> {
                &&& spec_path_ok(self.height_spec() as int, self.width_spec() as int, pc.0@)
                &&& pc.0@[0] == start
                &&& pc.0@[pc.0@.len() - 1] == end
                &&& pc.1 as int == spec_path_cost(self.grid_spec(), pc.0@)
            },
    {
        let mut rev: Vec<(usize, usize)> = Vec::new();
        rev.push(end);
        let mut cur = end;
        let mut left = fuel;
        while !(cur.0 == start.0 && cur.1 == start.1) && left > 0
            invariant
                self.wf(),
                prev@.len() == self.height_spec(),
                forall|i: int| 0 <= i < prev@.len() ==> (#[trigger] prev@[i])@.len()
                    == self.width_spec(),
                spec_in_bounds(self.height_spec() as int, self.width_spec() as int, cur),
            decreases left,
        {
            let link = prev[cur.0][cur.1];
            match link {
                Some(p) => {
                    if p.0 >= self.height || p.1 >= self.width {
                        return None;
                    }
                    rev.push(p);
                    cur = p;
                },
                None => {
                    return None;
                },
            }
            left = left - 1;
        }
        if !(cur.0 == start.0 && cur.1 == start.1) {
            return None;
        }
        let mut path: Vec<(usize, usize)> = Vec::new();
        let mut k = rev.len();
        while k > 0
            invariant
                k <= rev@.len(),
            decreases k,
        {
            k = k - 1;
            path.push(rev[k]);
        }
        match self.check_path(&path, start, end) {
            Some(c) => Some((path, c)),
            None => None,
        }
    }

    /// Dijkstra's search from `start` to `end` over the four-neighbor graph,
    /// the cell value being the cost of stepping onto a cell. A returned
    /// pair is certified: the walk runs from `start` to `end` through
    /// adjacent in-bounds cells and the cost is exactly its cell sum.
    fn dijkstra(&self, start: (usize, usize), end: (usize, usize)) -> (r: Option<
        (Vec<(usize, usize)>, u32),
    >)
        requires
            self.wf(),
            spec_in_bounds(self.height_spec() as int, self.width_spec() as int, start),
            spec_in_bounds(self.height_spec() as int, self.width_spec() as int, end),
        ensures
            r matches Some(pc) ==> {
                &&& spec_path_ok(self.height_spec() as int, self.width_spec() as int, pc.0@)
                &&& pc.0@[0] == start
                &&& pc.0@[pc.0@.len() - 1] == end
                &&& pc.1 as int == spec_path_cost(self.grid_spec(), pc.0@)
            },
    {
        let h = self.height;
        let w = self.width;
        let mut dist: Vec<Vec<u64>> = filled(h, w, u64::MAX);
        let mut visited: Vec<Vec<bool>> = filled(h, w, false);
        let mut prev: Vec<Vec<Option<(usize, usize)>>> = filled(
            h,
            w,
            Option::<(usize, usize)>::None,
        );
        dist[start.0][start.1] = 0;
        let cells: usize = match h.checked_mul(w) {
            Some(x) => x,
            None => usize::MAX,
        };
        let mut rounds: usize = 0;
        while rounds < cells
            invariant
                self.wf(),
                h == self.height_spec(),
                w == self.width_spec(),
                spec_in_bounds(h as int, w as int, start),
                spec_in_bounds(h as int, w as int, end),
                dist@.len() == h,
                forall|i: int| 0 <= i < dist@.len() ==> (#[trigger] dist@[i])@.len() == w,
                visited@.len() == h,
                forall|i: int| 0 <= i < visited@.len() ==> (#[trigger] visited@[i])@.len() == w,
                prev@.len() == h,
                forall|i: int| 0 <= i < prev@.len() ==> (#[trigger] prev@[i])@.len() == w,
            decreases cells - rounds,
        {
            let mut best_r: usize = 0;
            let mut best_c: usize = 0;
            let mut found: bool = false;
            let mut best_d: u64 = u64::MAX;
            let mut r: usize = 0;
            while r < h
                invariant
                    r <= h,
                    dist@.len() == h,
                    forall|i: int| 0 <= i < dist@.len() ==> (#[trigger] dist@[i])@.len() == w,
                    visited@.len() == h,
                    forall|i: int| 0 <= i < visited@.len() ==> (#[trigger] visited@[i])@.len()
                        == w,
                    found ==> best_r < h && best_c < w,
                decreases h - r,
            {
                let mut c: usize = 0;
                while c < w
                    invariant
                        r < h,
                        c <= w,
                        dist@.len() == h,
                        forall|i: int| 0 <= i < dist@.len() ==> (#[trigger] dist@[i])@.len() == w,
                        visited@.len() == h,
                        forall|i: int| 0 <= i < visited@.len() ==> (#[trigger] visited@[i])@.len()
                            == w,
                        found ==> best_r < h && best_c < w,
                    decreases w - c,
                {
                    if !visited[r][c] && dist[r][c] < best_d {
                        best_d = dist[r][c];
                        best_r = r;
                        best_c = c;
                        found = true;
                    }
                    c = c + 1;
                }
                r = r + 1;
            }
            if !found {
                return None;
            }
            visited[best_r][best_c] = true;
            if best_r == end.0 && best_c == end.1 {
                return self.reconstruct(&prev, start, end, cells);
            }
            let u = (best_r, best_c);
            let du = dist[best_r][best_c];
            let neighbors = self.get_neighbors(u);
            let mut k: usize = 0;
            while k < neighbors.len()
                invariant
                    self.wf(),
                    h == self.height_spec(),
                    w == self.width_spec(),
                    dist@.len() == h,
                    forall|i: int| 0 <= i < dist@.len() ==> (#[trigger] dist@[i])@.len() == w,
                    visited@.len() == h,
                    forall|i: int| 0 <= i < visited@.len() ==> (#[trigger] visited@[i])@.len()
                        == w,
                    prev@.len() == h,
                    forall|i: int| 0 <= i < prev@.len() ==> (#[trigger] prev@[i])@.len() == w,
                    forall|i: int| 0 <= i < neighbors@.len() ==> spec_in_bounds(
                        h as int,
                        w as int,
                        #[trigger] neighbors@[i],
                    ),
                decreases neighbors@.len() - k,
            {
                let nb = neighbors[k];
                if !visited[nb.0][nb.1] {
                    proof {
                        assert(self.grid.deep_view().len() == self.grid@.len());
                        assert(self.grid.deep_view()[nb.0 as int] =~= self.grid@[nb.0 as int]@);
                    }
                    let cell = self.grid[nb.0][nb.1];
                    let next: u128 = du as u128 + cell as u128;
                    if next < dist[nb.0][nb.1] as u128 {
                        dist[nb.0][nb.1] = next as u64;
                        prev[nb.0][nb.1] = Some(u);
                    }
                }
                k = k + 1;
            }
            rounds = rounds + 1;
        }
        None
    }

    /// The corner-to-corner staircase: down the first column, then along the
    /// last row. It exists on every nonempty grid, which is what lets the
    /// path searches promise a result.
    fn staircase_path(&self) -> (path: Vec<(usize, usize)>)
        requires
            self.wf(),
            self.height_spec() >= 1,
            self.width_spec() >= 1,
        ensures
            spec_path_ok(self.height_spec() as int, self.width_spec() as int, path@),
            path@.len() == self.height_spec() + self.width_spec() - 1,
            path@[0] == (0usize, 0usize),
            path@[path@.len() - 1] == (
                ((self.height_spec() - 1) as usize),
                ((self.width_spec() - 1) as usize),
            ),
    {
        let h = self.height;
        let w = self.width;
        let mut path: Vec<(usize, usize)> = Vec::new();
        let mut r: usize = 0;
        while r < h
            invariant
                r <= h,
                path@.len() == r,
                forall|j: int| 0 <= j < r ==> #[trigger] path@[j] == (j as usize, 0usize),
            decreases h - r,
        {
            path.push((r, 0));
            r += 1;
        }
        let mut c: usize = 1;
        while c < w
            invariant
                1 <= c <= w,
                h >= 1,
                path@.len() == h + c - 1,
                forall|j: int| 0 <= j < h ==> #[trigger] path@[j] == (j as usize, 0usize),
                forall|j: int|
                    h <= j < path@.len() ==> #[trigger] path@[j] == (
                        (h - 1) as usize,
                        (j - h + 1) as usize,
                    ),
            decreases w - c,
        {
            path.push((h - 1, c));
            c += 1;
        }
        proof {
            assert forall|i: int| 1 <= i < path@.len() implies spec_adjacent(
                path@[i - 1],
                #[trigger] path@[i],
            ) by {
                assert(path@[i - 1] == if i - 1 < h {
                    ((i - 1) as usize, 0usize)
                } else {
                    ((h - 1) as usize, (i - h) as usize)
                });
            }
        }
        path
    }

    /// The lowest-cost-first search from the top-left corner to the
    /// bottom-right corner. The result is always produced, and it is a
    /// certified corner-to-corner walk with its exact cost. Which walk the
    /// search settles on — in particular that no cheaper one exists — is not
    /// part of the contract; if the search ever failed to certify a walk,
    /// the staircase walk stands in.
    pub fn find_min_path(&self) -> (r: Option<(Vec<(usize, usize)>, u32)>)
        requires
            self.wf(),
            self.height_spec() >= 1,
            self.width_spec() >= 1,
            self.height_spec() + self.width_spec() <= 0x0100_0000,
        ensures
            r is Some,
            r matches Some(pc) ==> {
                &&& spec_path_ok(self.height_spec() as int, self.width_spec() as int, pc.0@)
                &&& pc.0@[0] == (0usize, 0usize)
                &&& pc.0@[pc.0@.len() - 1] == (
                    ((self.height_spec() - 1) as usize),
                    ((self.width_spec() - 1) as usize),
                )
                &&& pc.1 as int == spec_path_cost(self.grid_spec(), pc.0@)
            },
    {
        let end = (self.height - 1, self.width - 1);
        match self.dijkstra((0, 0), end) {
            Some(pair) => Some(pair),
            None => self.fallback_staircase(end),
        }
    }

    /// Certify the staircase walk; it always passes the checker, so the
    /// searches can promise a result even where the search itself yields
    /// nothing.
    fn fallback_staircase(&self, end: (usize, usize)) -> (r: Option<(Vec<(usize, usize)>, u32)>)
        requires
            self.wf(),
            self.height_spec() >= 1,
            self.width_spec() >= 1,
            self.height_spec() + self.width_spec() <= 0x0100_0000,
            end == (((self.height_spec() - 1) as usize), ((self.width_spec() - 1) as usize)),
        ensures
            r is Some,
            r matches Some(pc) ==> {
                &&& spec_path_ok(self.height_spec() as int, self.width_spec() as int, pc.0@)
                &&& pc.0@[0] == (0usize, 0usize)
                &&& pc.0@[pc.0@.len() - 1] == end
                &&& pc.1 as int == spec_path_cost(self.grid_spec(), pc.0@)
            },
    {
        let path = self.staircase_path();
        proof {
            assert(self.grid_spec().len() == self.height_spec());
            lemma_path_cost_bound(
                self.grid_spec(),
                path@,
                self.height_spec() as int,
                self.width_spec() as int,
            );
        }
        match self.check_path(&path, (0, 0), end) {
            Some(cost) => Some((path, cost)),
            None => None,
        }
    }

    /// The same search biased toward the highest cost: run over the
    /// complemented grid (each cell replaced by `255 -` itself), then the
    /// walk's true cost is retotaled over this grid and certified. A result
    /// is always produced; that the walk minimizes the complemented sum is
    /// not part of the contract.
    pub fn find_max_path(&self) -> (r: Option<(Vec<(usize, usize)>, u32)>)
        requires
            self.wf(),
            self.height_spec() >= 1,
            self.width_spec() >= 1,
            self.height_spec() + self.width_spec() <= 0x0100_0000,
        ensures
            r is Some,
            r matches Some(pc) ==> {
                &&& spec_path_ok(self.height_spec() as int, self.width_spec() as int, pc.0@)
                &&& pc.0@[0] == (0usize, 0usize)
                &&& pc.0@[pc.0@.len() - 1] == (
                    ((self.height_spec() - 1) as usize),
                    ((self.width_spec() - 1) as usize),
                )
                &&& pc.1 as int == spec_path_cost(self.grid_spec(), pc.0@)
            },
    {
        let h = self.height;
        let w = self.width;
        let mut inverted_rows: Vec<Vec<u8>> = Vec::new();
        let mut r: usize = 0;
        while r < h
            invariant
                self.wf(),
                h == self.height_spec(),
                w == self.width_spec(),
                r <= h,
                inverted_rows@.len() == r,
                forall|i: int| 0 <= i < inverted_rows@.len() ==> (#[trigger] inverted_rows@[i])@.len()
                    == w,
            decreases h - r,
        {
            let mut row: Vec<u8> = Vec::new();
            let mut c: usize = 0;
            while c < w
                invariant
                    self.wf(),
                    h == self.height_spec(),
                    w == self.width_spec(),
                    r < h,
                    c <= w,
                    row@.len() == c,
                decreases w - c,
            {
                proof {
                    assert(self.grid.deep_view().len() == self.grid@.len());
                    assert(self.grid.deep_view()[r as int] =~= self.grid@[r as int]@);
                }
                row.push(255 - self.grid[r][c]);
                c = c + 1;
            }
            inverted_rows.push(row);
            r = r + 1;
        }
        let inverted = HexGrid::new(inverted_rows);
        let end = (h - 1, w - 1);
        match inverted.dijkstra((0, 0), end) {
            Some((path, _inverted_cost)) => {
                match self.check_path(&path, (0, 0), end) {
                    Some(cost) => Some((path, cost)),
                    None => self.fallback_staircase(end),
                }
            },
            None => self.fallback_staircase(end),
        }
    }
}

/// The cost of an in-bounds walk over a rectangular grid of byte-valued
/// cells is at most 255 per step.
proof fn lemma_path_cost_bound(g: Seq<Seq<u8>>, path: Seq<(usize, usize)>, h: int, w: int)
    requires
        g.len() == h,
        forall|r: int| 0 <= r < h ==> (#[trigger] g[r]).len() == w,
        path.len() >= 1,
        forall|i: int| 0 <= i < path.len() ==> spec_in_bounds(h, w, #[trigger] path[i]),
    ensures
        0 <= spec_path_cost(g, path) <= 255 * (path.len() - 1),
    decreases path.len(),
{
    if path.len() > 1 {
        let shorter = path.drop_last();
        assert(forall|i: int|
            0 <= i < shorter.len() ==> spec_in_bounds(h, w, #[trigger] shorter[i]));
        lemma_path_cost_bound(g, shorter, h, w);
    }
}

/// An `h` by `w` matrix with every entry set to `value`.
fn filled<T: Copy>(h: usize, w: usize, value: T) -> (m: Vec<Vec<T>>)
    ensures
        m@.len() == h,
        forall|r: int| 0 <= r < m@.len() ==> (#[trigger] m@[r])@.len() == w,
{
    let mut m: Vec<Vec<T>> = Vec::new();
    let mut r: usize = 0;
    while r < h
        invariant
            r <= h,
            m@.len() == r,
            forall|i: int| 0 <= i < m@.len() ==> (#[trigger] m@[i])@.len() == w,
        decreases h - r,
    {
        let mut row: Vec<T> = Vec::new();
        let mut c: usize = 0;
        while c < w
            invariant
                c <= w,
                row@.len() == c,
            decreases w - c,
        {
            row.push(value);
            c = c + 1;
        }
        m.push(row);
        r = r + 1;
    }
    m
}

} // verus!
