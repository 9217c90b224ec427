use vstd::prelude::*;
use crate::line::{LINE_COORD_LIMIT, bresenham_points, coord_in_limit, line_points};
use crate::particle::Particle;
use crate::seed::{draw_exceeds_fill, generate_seed, pcg32_step};

verus! {

/// The empty particle that a new grid is filled with.
pub open spec fn blank() -> Particle {
    Particle { active: false, already_updated: false, heat: 0 }
}

/// Cell `i` of `s` lets its sand fall into the cell `w` places further on:
/// the cell below exists, is empty, and neither cell moved yet this tick.
pub open spec fn can_fall(s: Seq<Particle>, w: int, i: int) -> bool {
    &&& 0 <= i
    &&& 0 < w
    &&& i + w < s.len()
    &&& s[i].active
    &&& !s[i].already_updated
    &&& !s[i + w].already_updated
    &&& !s[i + w].active
}

/// One step of the update pass, at cell `i` of a grid `w` cells wide.
pub open spec fn fall_at(s: Seq<Particle>, w: int, i: int) -> Seq<Particle> {
    if can_fall(s, w, i) {
        let below = s[i + w].with_active(true);
        s.update(i + w, Particle { already_updated: true, ..below }).update(
            i,
            s[i].with_active(false),
        )
    } else {
        s
    }
}

/// The update pass after its first `k` cells, in storage order.
pub open spec fn fall_upto(s: Seq<Particle>, w: int, k: int) -> Seq<Particle>
    decreases k,
{
    if k <= 0 {
        s
    } else {
        fall_at(fall_upto(s, w, k - 1), w, k - 1)
    }
}

/// `s` with every guard flag cleared.
pub open spec fn clear_guards(s: Seq<Particle>) -> Seq<Particle> {
    Seq::new(s.len(), |i: int| Particle { already_updated: false, ..s[i] })
}

/// The cells after one tick of a grid `w` cells wide.
pub open spec fn tick(s: Seq<Particle>, w: int) -> Seq<Particle> {
    clear_guards(fall_upto(s, w, s.len() as int))
}

/// The four bytes that draw one cell.
pub open spec fn color_of(p: Particle) -> Seq<u8> {
    if p.active {
        seq![0u8, 255u8, 255u8, 255u8]
    } else {
        seq![0u8, 0u8, p.heat, 255u8]
    }
}

/// Byte `j` of the picture of cells `s`.
pub open spec fn pixel_byte(s: Seq<Particle>, j: int) -> u8 {
    color_of(s[j / 4])[j % 4]
}

/// Index of `(x, y)` in a grid of the given size, if it lies inside.
pub open spec fn index_of(x: int, y: int, width: int, height: int) -> Option<usize> {
    if 0 <= x < width && 0 <= y < height {
        Some((x + y * width) as usize)
    } else {
        None
    }
}

/// The pass keeps the number of cells.
pub proof fn lemma_fall_upto_len(s: Seq<Particle>, w: int, k: int)
    ensures
        fall_upto(s, w, k).len() == s.len(),
    decreases k,
{
    if k > 0 {
        lemma_fall_upto_len(s, w, k - 1);
    }
}

/// A step of the pass touches only the cell it is at and the one below.
pub proof fn lemma_fall_at_frame(s: Seq<Particle>, w: int, i: int, t: int)
    requires
        0 <= t < s.len(),
        t != i,
        t != i + w,
    ensures
        fall_at(s, w, i)[t] == s[t],
{
}

/// `v` held to `[0, hi]`.
pub open spec fn clamp_to(v: isize, hi: int) -> isize {
    if v < 0 {
        0
    } else if v > hi {
        hi as isize
    } else {
        v
    }
}

/// The cells after setting the active flag of each point of `pts` in turn,
/// stopping at the first point outside a `w` by `h` grid.
pub open spec fn paint(
    s: Seq<Particle>,
    pts: Seq<(isize, isize)>,
    w: int,
    h: int,
    active: bool,
) -> Seq<Particle>
    decreases pts.len(),
{
    if pts.len() == 0 {
        s
    } else {
        match index_of(pts[0].0 as int, pts[0].1 as int, w, h) {
            Some(i) => paint(
                s.update(i as int, s[i as int].with_active(active)),
                pts.drop_first(),
                w,
                h,
                active,
            ),
            None => s,
        }
    }
}

/// `n` blank cells.
pub open spec fn blank_cells(n: nat) -> Seq<Particle> {
    Seq::new(n, |i: int| blank())
}

/// Number of ticks run after filling a grid at random.
pub const SETTLE_TICKS: usize = 3;

/// The heat of empty cells is multiplied by `COOL_NUM / COOL_DEN` once a
/// grid has been filled at random and settled.
pub const COOL_NUM: u32 = 2;

pub const COOL_DEN: u32 = 5;

/// A pass over cells none of which holds sand moves nothing.
pub proof fn lemma_fall_upto_quiet(s: Seq<Particle>, w: int, k: int)
    requires
        forall|i: int| 0 <= i < s.len() ==> !(#[trigger] s[i]).active,
    ensures
        fall_upto(s, w, k) == s,
    decreases k,
{
    if k > 0 {
        lemma_fall_upto_quiet(s, w, k - 1);
    }
}

/// A tick leaves a blank grid blank.
pub proof fn lemma_tick_blank(n: nat, w: int)
    ensures
        tick(blank_cells(n), w) == blank_cells(n),
{
    lemma_fall_upto_quiet(blank_cells(n), w, n as int);
    assert(clear_guards(blank_cells(n)) =~= blank_cells(n));
}

/// Before the pass reaches cell `i`, neither cell `i` nor the one below it
/// has changed, when `i` is ready to fall.
proof fn lemma_ready_until_reached(s: Seq<Particle>, w: int, i: int, k: int)
    requires
        can_fall(s, w, i),
        0 <= k <= i,
    ensures
        fall_upto(s, w, k)[i] == s[i],
        fall_upto(s, w, k)[i + w] == s[i + w],
    decreases k,
{
    if k > 0 {
        lemma_ready_until_reached(s, w, i, k - 1);
        let prev = fall_upto(s, w, k - 1);
        lemma_fall_upto_len(s, w, k - 1);
        let j = k - 1;
        if j + w == i {
            assert(!can_fall(prev, w, j));
        } else {
            lemma_fall_at_frame(prev, w, j, i);
            lemma_fall_at_frame(prev, w, j, i + w);
        }
    }
}

/// After the pass has moved cell `i` down, the later steps leave both cells
/// as they are.
proof fn lemma_kept_after_fall(s: Seq<Particle>, w: int, i: int, k: int)
    requires
        0 <= i,
        0 < w,
        i + w < s.len(),
        i + 1 <= k,
        fall_upto(s, w, i + 1)[i + w].already_updated,
    ensures
        fall_upto(s, w, k)[i] == fall_upto(s, w, i + 1)[i],
        fall_upto(s, w, k)[i + w] == fall_upto(s, w, i + 1)[i + w],
    decreases k,
{
    if k > i + 1 {
        lemma_kept_after_fall(s, w, i, k - 1);
        let prev = fall_upto(s, w, k - 1);
        lemma_fall_upto_len(s, w, k - 1);
        let j = k - 1;
        if j == i + w {
            assert(!can_fall(prev, w, j));
        } else {
            lemma_fall_at_frame(prev, w, j, i);
            lemma_fall_at_frame(prev, w, j, i + w);
        }
    }
}

/// A tick moves sand at most one row: a cell that holds sand, is not in the
/// bottom row, has an empty cell below, and whose guard flags are both clear,
/// ends the tick empty while the cell below ends it holding sand.
pub proof fn lemma_single_move(s: Seq<Particle>, w: int, i: int)
    requires
        0 <= i,
        0 < w,
        i + w < s.len(),
        s[i].active,
        !s[i].already_updated,
        !s[i + w].active,
        !s[i + w].already_updated,
    ensures
        !tick(s, w)[i].active,
        tick(s, w)[i + w].active,
{
    lemma_ready_until_reached(s, w, i, i);
    lemma_fall_upto_len(s, w, i);
    lemma_fall_upto_len(s, w, i + 1);
    assert(fall_upto(s, w, i + 1) == fall_at(fall_upto(s, w, i), w, i));
    lemma_kept_after_fall(s, w, i, s.len() as int);
    lemma_fall_upto_len(s, w, s.len() as int);
}

/// A tick is a function of the cells and the width: equal grids give equal
/// results.
pub proof fn lemma_update_deterministic(a: Seq<Particle>, b: Seq<Particle>, w: int)
    requires
        a == b,
    ensures
        tick(a, w) == tick(b, w),
{
}

/// A grid of sand: `width * height` cells stored row by row, the top row
/// first.
#[derive(Clone, Debug)]
pub struct ConwayGrid {
    particles: Vec<Particle>,
    width: usize,
    height: usize,
}

impl ConwayGrid {
    /// Number of columns.
    pub closed spec fn spec_width(&self) -> int {
        self.width as int
    }

    /// Number of rows.
    pub closed spec fn spec_height(&self) -> int {
        self.height as int
    }

    /// The cells, row by row, the top row first.
    pub closed spec fn cells(&self) -> Seq<Particle> {
        self.particles@
    }

    /// Both sides are positive and the cells fill the grid exactly.
    pub open spec fn wf(&self) -> bool {
        &&& self.spec_width() > 0
        &&& self.spec_height() > 0
        &&& self.spec_width() * self.spec_height() <= usize::MAX
        &&& self.cells().len() == self.spec_width() * self.spec_height()
    }

    /// A grid of the given size with every cell blank.
    pub fn new_empty(width: usize, height: usize) -> (r: ConwayGrid)
        requires
            width > 0,
            height > 0,
            width * height <= usize::MAX,
        ensures
            r.wf(),
            r.spec_width() == width,
            r.spec_height() == height,
            r.cells() == Seq::new((width * height) as nat, |i: int| blank()),
    {
        let size: usize = width * height;
        let mut particles: Vec<Particle> = Vec::new();
        while particles.len() < size
            invariant
                particles.len() <= size,
                forall|i: int| 0 <= i < particles.len() ==> particles@[i] == blank(),
            decreases size - particles.len(),
        {
            particles.push(Particle::new(false, false));
        }
        let r = ConwayGrid { particles, width, height };
        assert(r.cells() =~= Seq::new((width * height) as nat, |i: int| blank()));
        r
    }

    /// A grid of the given size holding `particles`, row by row; `None`
    /// unless both sides are positive and `particles` fills the grid exactly.
    pub fn from_particles(width: usize, height: usize, particles: Vec<Particle>) -> (r: Option<
        ConwayGrid,
    >)
        ensures
            r is Some <==> (width > 0 && height > 0 && width * height == particles@.len()),
            r matches Some(g) ==> {
                &&& g.wf()
                &&& g.spec_width() == width
                &&& g.spec_height() == height
                &&& g.cells() == particles@
            },
    {
        let len = particles.len();
        if width == 0 || height == 0 {
            return None;
        }
        match width.checked_mul(height) {
            Some(size) => {
                if size == len {
                    Some(ConwayGrid { particles, width, height })
                } else {
                    None
                }
            },
            None => {
                assert(width * height > usize::MAX);
                None
            },
        }
    }

    pub fn width(&self) -> (r: usize)
        ensures
            r == self.spec_width(),
    {
        self.width
    }

    pub fn height(&self) -> (r: usize)
        ensures
            r == self.spec_height(),
    {
        self.height
    }

    /// The cells, row by row.
    pub fn particles(&self) -> (r: &[Particle])
        ensures
            r@ == self.cells(),
    {
        self.particles.as_slice()
    }

    /// Index of the cell at column `x` and row `y`; `None` when either is
    /// negative or past the grid's edge.
    pub fn grid_idx(&self, x: isize, y: isize) -> (r: Option<usize>)
        requires
            self.wf(),
        ensures
            r == index_of(x as int, y as int, self.spec_width(), self.spec_height()),
            r matches Some(i) ==> i < self.cells().len(),
    {
        if x < 0 || y < 0 {
            return None;
        }
        let ux = x as usize;
        let uy = y as usize;
        if ux < self.width && uy < self.height {
            proof {
                assert(ux + uy * self.width < self.width * self.height) by (nonlinear_arith)
                    requires
                        ux < self.width,
                        uy < self.height,
                ;
            }
            Some(ux + uy * self.width)
        } else {
            None
        }
    }

    /// Index of the cell at column `x` and row `y`, given as unsigned
    /// coordinates; `None` when either is past the grid's edge.
    pub fn grid_idx_usize(&self, x: usize, y: usize) -> (r: Option<usize>)
        requires
            self.wf(),
        ensures
            r == index_of(x as int, y as int, self.spec_width(), self.spec_height()),
            r matches Some(i) ==> i < self.cells().len(),
    {
        if x < self.width && y < self.height {
            proof {
                assert(x + y * self.width < self.width * self.height) by (nonlinear_arith)
                    requires
                        x < self.width,
                        y < self.height,
                ;
            }
            Some(x + y * self.width)
        } else {
            None
        }
    }

    /// Flips the cell at `(x, y)` and returns its new active flag; outside
    /// the grid it returns false and changes nothing.
    pub fn toggle(&mut self, x: isize, y: isize) -> (r: bool)
        requires
            old(self).wf(),
        ensures
            final(self).wf(),
            final(self).spec_width() == old(self).spec_width(),
            final(self).spec_height() == old(self).spec_height(),
            match index_of(x as int, y as int, old(self).spec_width(), old(self).spec_height()) {
                Some(i) => {
                    &&& r == !old(self).cells()[i as int].active
                    &&& final(self).cells() == old(self).cells().update(
                        i as int,
                        old(self).cells()[i as int].with_active(r),
                    )
                },
                None => !r && *final(self) == *old(self),
            },
    {
        match self.grid_idx(x, y) {
            Some(i) => {
                let was_alive = self.particles[i].active;
                let mut p = self.particles[i];
                p.set_active(!was_alive);
                self.particles.set(i, p);
                !was_alive
            },
            None => false,
        }
    }

    /// One tick: scanning the cells in storage order, each active cell whose
    /// cell below is empty, and neither of which moved yet this tick, falls
    /// one row. All guard flags are cleared afterwards.
    pub fn update(&mut self)
        requires
            old(self).wf(),
        ensures
            final(self).wf(),
            final(self).spec_width() == old(self).spec_width(),
            final(self).spec_height() == old(self).spec_height(),
            final(self).cells() == tick(old(self).cells(), old(self).spec_width()),
            forall|i: int|
                0 <= i < final(self).cells().len() ==> !(#[trigger] final(self).cells()[i]).already_updated,
    {
        let ghost start = self.particles@;
        let ghost w = self.width as int;
        let n: usize = self.particles.len();
        let width: usize = self.width;
        let mut idx: usize = 0;
        proof {
            assert(width <= n) by (nonlinear_arith)
                requires
                    n == width * self.height,
                    self.height > 0,
            ;
        }
        while idx < n
            invariant
                self.wf(),
                width <= n,
                self.width == width,
                self.height == old(self).height,
                w == width,
                n == start.len(),
                start == old(self).particles@,
                idx <= n,
                self.particles@ == fall_upto(start, w, idx as int),
            decreases n - idx,
        {
            proof {
                lemma_fall_upto_len(start, w, idx as int);
            }
            if self.particles[idx].active && idx < n - width && !self.particles[idx
                + width].already_updated && !self.particles[idx].already_updated {
                if !self.particles[idx + width].active {
                    let mut below = self.particles[idx + width];
                    below.set_active(true);
                    below.already_updated = true;
                    let mut here = self.particles[idx];
                    here.set_active(false);
                    self.particles.set(idx + width, below);
                    self.particles.set(idx, here);
                }
            }
            proof {
                let s = fall_upto(start, w, idx as int);
                assert(fall_upto(start, w, idx + 1) == fall_at(s, w, idx as int));
                assert(self.particles@ =~= fall_at(s, w, idx as int));
            }
            idx = idx + 1;
        }
        proof {
            lemma_fall_upto_len(start, w, n as int);
        }
        let ghost fell = self.particles@;
        let mut j: usize = 0;
        while j < n
            invariant
                self.wf(),
                self.width == width,
                self.height == old(self).height,
                n == fell.len(),
                j <= n,
                self.particles@.len() == n,
                forall|t: int| 0 <= t < j ==> self.particles@[t] == (Particle { already_updated: false, ..fell[t] }),
                forall|t: int| j <= t < n ==> self.particles@[t] == fell[t],
            decreases n - j,
        {
            let mut p = self.particles[j];
            p.already_updated = false;
            self.particles.set(j, p);
            j = j + 1;
        }
        assert(self.particles@ =~= clear_guards(fell));
    }

    /// Writes four bytes per cell into `screen`, in storage order: an active
    /// cell as `[0, 255, 255, 255]`, an empty one as `[0, 0, heat, 255]`.
    pub fn draw(&self, screen: &mut Vec<u8>)
        requires
            self.wf(),
            old(screen).len() == 4 * self.cells().len(),
        ensures
            final(screen).len() == old(screen).len(),
            forall|j: int| 0 <= j < final(screen).len() ==> #[trigger] final(screen)[j] == pixel_byte(self.cells(), j),
    {
        let n: usize = self.particles.len();
        let mut i: usize = 0;
        while i < n
            invariant
                self.wf(),
                n == self.cells().len(),
                i <= n,
                screen.len() == 4 * n,
                forall|j: int| 0 <= j < 4 * i ==> #[trigger] screen[j] == pixel_byte(self.cells(), j),
            decreases n - i,
        {
            let c = self.particles[i];
            let third: u8 = if c.active { 255 } else { c.heat };
            let second: u8 = if c.active { 255 } else { 0 };
            screen.set(4 * i, 0);
            screen.set(4 * i + 1, second);
            screen.set(4 * i + 2, third);
            screen.set(4 * i + 3, 255);
            proof {
                assert forall|j: int| 0 <= j < 4 * (i + 1) implies #[trigger] screen[j] == pixel_byte(self.cells(), j) by {
                    if j >= 4 * i {
                        assert(j / 4 == i);
                        assert(j % 4 == j - 4 * i);
                    }
                }
            }
            i = i + 1;
        }
    }

    /// Draws as `draw` does when `screen` holds exactly four bytes per cell,
    /// and returns true; otherwise returns false and leaves `screen` as it is.
    pub fn try_draw(&self, screen: &mut Vec<u8>) -> (r: bool)
        requires
            self.wf(),
        ensures
            r <==> old(screen).len() == 4 * self.cells().len(),
            !r ==> *final(screen) == *old(screen),
            r ==> final(screen).len() == old(screen).len(),
            r ==> forall|j: int|
                0 <= j < final(screen).len() ==> #[trigger] final(screen)[j] == pixel_byte(
                    self.cells(),
                    j,
                ),
    {
        let n: usize = self.particles.len();
        if n > usize::MAX / 4 || screen.len() != 4 * n {
            return false;
        }
        self.draw(screen);
        true
    }

    /// Sets the active flag of each cell along the line from `(x0, y0)`,
    /// first held to `[0, width] x [0, height]`, to `(x1, y1)`, stopping at
    /// the first point of the line that lies outside the grid.
    pub fn set_line(&mut self, x0: isize, y0: isize, x1: isize, y1: isize, active: bool)
        requires
            old(self).wf(),
            old(self).spec_width() <= LINE_COORD_LIMIT,
            old(self).spec_height() <= LINE_COORD_LIMIT,
            coord_in_limit(x1),
            coord_in_limit(y1),
        ensures
            final(self).wf(),
            final(self).spec_width() == old(self).spec_width(),
            final(self).spec_height() == old(self).spec_height(),
            final(self).cells() == paint(
                old(self).cells(),
                bresenham_points(
                    clamp_to(x0, old(self).spec_width()),
                    clamp_to(y0, old(self).spec_height()),
                    x1,
                    y1,
                ),
                old(self).spec_width(),
                old(self).spec_height(),
                active,
            ),
    {
        let w = self.width as isize;
        let h = self.height as isize;
        let sx: isize = if x0 < 0 {
            0
        } else if x0 > w {
            w
        } else {
            x0
        };
        let sy: isize = if y0 < 0 {
            0
        } else if y0 > h {
            h
        } else {
            y0
        };
        let pts = line_points(sx, sy, x1, y1);
        let ghost start = self.particles@;
        let ghost goal = paint(start, pts@, w as int, h as int, active);
        let n: usize = pts.len();
        let mut k: usize = 0;
        let mut stopped = false;
        assert(pts@.subrange(0, n as int) =~= pts@);
        while k < n && !stopped
            invariant
                self.wf(),
                self.width == old(self).width,
                self.height == old(self).height,
                w == self.width,
                h == self.height,
                start == old(self).particles@,
                goal == paint(start, pts@, w as int, h as int, active),
                n == pts@.len(),
                k <= n,
                !stopped ==> goal == paint(self.particles@, pts@.subrange(k as int, n as int), w as int, h as int, active),
                stopped ==> goal == self.particles@,
            decreases n - k + if stopped {
                0int
            } else {
                1int
            },
        {
            let (x, y) = pts[k];
            let ghost rest = pts@.subrange(k as int, n as int);
            assert(rest[0] == pts@[k as int]);
            match self.grid_idx(x, y) {
                Some(i) => {
                    let mut p = self.particles[i];
                    p.set_active(active);
                    self.particles.set(i, p);
                    assert(rest.drop_first() =~= pts@.subrange(k + 1, n as int));
                    k = k + 1;
                },
                None => {
                    stopped = true;
                },
            }
        }
        proof {
            if !stopped {
                assert(pts@.subrange(k as int, n as int) =~= Seq::<(isize, isize)>::empty());
            }
        }
    }

    /// Fills the grid from the generator seeded with `seed`: each cell, in
    /// storage order, starts active when its draw exceeds `INITIAL_FILL`
    /// (a draw in `[0, 1)` never does). Then a few ticks settle the grid and
    /// the heat of empty cells is cooled.
    pub fn randomize_seeded(&mut self, seed: (u64, u64))
        requires
            old(self).wf(),
        ensures
            final(self).wf(),
            final(self).spec_width() == old(self).spec_width(),
            final(self).spec_height() == old(self).spec_height(),
            final(self).cells() == blank_cells(old(self).cells().len()),
    {
        let n: usize = self.particles.len();
        let ghost w = self.width as int;
        let mut state: u64 = seed.0;
        let inc: u64 = seed.1;
        let mut i: usize = 0;
        while i < n
            invariant
                self.wf(),
                self.width == old(self).width,
                self.height == old(self).height,
                n == self.particles@.len(),
                i <= n,
                forall|t: int| 0 <= t < i ==> self.particles@[t] == blank(),
            decreases n - i,
        {
            let (next, out) = pcg32_step(state, inc);
            state = next;
            let alive = draw_exceeds_fill(out);
            self.particles.set(i, Particle::new(alive, false));
            i = i + 1;
        }
        assert(self.particles@ =~= blank_cells(n as nat));
        let mut round: usize = 0;
        while round < SETTLE_TICKS
            invariant
                self.wf(),
                self.width == old(self).width,
                self.height == old(self).height,
                w == self.width,
                n == old(self).particles@.len(),
                self.particles@ == blank_cells(n as nat),
            decreases SETTLE_TICKS - round,
        {
            self.update();
            proof {
                lemma_tick_blank(n as nat, w);
            }
            round = round + 1;
        }
        let mut j: usize = 0;
        while j < n
            invariant
                self.wf(),
                self.width == old(self).width,
                self.height == old(self).height,
                n == old(self).particles@.len(),
                j <= n,
                self.particles@ == blank_cells(n as nat),
            decreases n - j,
        {
            let mut p = self.particles[j];
            p.cool_off(COOL_NUM, COOL_DEN);
            self.particles.set(j, p);
            assert(self.particles@ =~= blank_cells(n as nat));
            j = j + 1;
        }
    }

    /// Fills the grid as `randomize_seeded` does, from a seed drawn from the
    /// operating system. Returns false, leaving the grid as it was, when no
    /// seed could be had.
    pub fn randomize(&mut self) -> (r: bool)
        requires
            old(self).wf(),
        ensures
            final(self).wf(),
            final(self).spec_width() == old(self).spec_width(),
            final(self).spec_height() == old(self).spec_height(),
            r ==> final(self).cells() == blank_cells(old(self).cells().len()),
            !r ==> *final(self) == *old(self),
    {
        match generate_seed() {
            Some(seed) => {
                self.randomize_seeded(seed);
                true
            },
            None => false,
        }
    }

    /// A grid of the given size filled by `randomize`; `None` when no seed
    /// could be had.
    pub fn new_random(width: usize, height: usize) -> (r: Option<ConwayGrid>)
        requires
            width > 0,
            height > 0,
            width * height <= usize::MAX,
        ensures
            r matches Some(g) ==> {
                &&& g.wf()
                &&& g.spec_width() == width
                &&& g.spec_height() == height
                &&& g.cells() == blank_cells((width * height) as nat)
            },
    {
        let mut result = ConwayGrid::new_empty(width, height);
        if result.randomize() {
            Some(result)
        } else {
            None
        }
    }
}

} // verus!
