use vstd::prelude::*;

use std::collections::BTreeSet;
use std::collections::HashMap;
use std::collections::VecDeque;

use crate::direction::Direction;
use crate::pixel::Pixel;

verus! {

broadcast use {
    vstd::std_specs::hash::group_hash_axioms,
    vstd::std_specs::btree::group_btree_axioms,
    vstd::laws_cmp::group_laws_cmp,
};

/// Occupied cells, by row: each row maps to the ordered set of its
/// occupied columns.
pub type Raster = HashMap<u16, BTreeSet<u16>>;

/// Length of a freshly made body, in cells.
pub const INITIAL_LENGTH: u16 = 4;

/// The cells that a raster marks as occupied.
pub open spec fn raster_cells(m: Map<u16, BTreeSet<u16>>) -> Set<Pixel> {
    Set::new(|p: Pixel| m.contains_key(p.y) && m[p.y]@.contains(p.x))
}

/// Every row that a raster holds has at least one occupied column.
pub open spec fn rows_nonempty(m: Map<u16, BTreeSet<u16>>) -> bool {
    forall|y: u16| #[trigger] m.contains_key(y) ==> m[y]@ != Set::<u16>::empty()
}

/// The cell reached from `p` after `n` steps in direction `d`.
pub open spec fn reach(d: Direction, p: Pixel, n: nat, size: Pixel) -> Pixel
    decreases n,
{
    if n == 0 {
        p
    } else {
        d.step(reach(d, p, (n - 1) as nat, size), size)
    }
}

/// The `n` cells of a straight walk in direction `d` that starts on `p`.
pub open spec fn walk(d: Direction, p: Pixel, n: nat, size: Pixel) -> Seq<Pixel>
    decreases n,
{
    if n == 0 {
        Seq::empty()
    } else {
        walk(d, p, (n - 1) as nat, size).push(reach(d, p, (n - 1) as nat, size))
    }
}

/// Where a walk along the runs `(length, direction)` that starts on `p` ends.
pub open spec fn runs_end(p: Pixel, runs: Seq<(u16, Direction)>, size: Pixel) -> Pixel
    decreases runs.len(),
{
    if runs.len() == 0 {
        p
    } else {
        let r = runs.last();
        reach(r.1, runs_end(p, runs.drop_last(), size), r.0 as nat, size)
    }
}

/// The cells covered by a walk along the runs `(length, direction)` that
/// starts on `p`, in the order of the walk.
pub open spec fn runs_cells(p: Pixel, runs: Seq<(u16, Direction)>, size: Pixel) -> Seq<Pixel>
    decreases runs.len(),
{
    if runs.len() == 0 {
        Seq::empty()
    } else {
        let r = runs.last();
        runs_cells(p, runs.drop_last(), size) + walk(
            r.1,
            runs_end(p, runs.drop_last(), size),
            r.0 as nat,
            size,
        )
    }
}

/// The summed length of the runs.
pub open spec fn runs_total(runs: Seq<(u16, Direction)>) -> int
    decreases runs.len(),
{
    if runs.len() == 0 {
        0
    } else {
        runs_total(runs.drop_last()) + runs.last().0
    }
}

/// The abstract state of a body.
pub ghost struct SnakeView {
    /// The foremost cell.
    pub head: Pixel,
    /// The direction the head moves in.
    pub facing: Direction,
    /// Cells in the straight run from the head back to the first bend.
    pub run: u16,
    /// The bends, nearest to the head first: each is the length of a run
    /// and the direction in which it is walked from head to tail.
    pub bends: Seq<(u16, Direction)>,
}

impl SnakeView {
    /// A straight body of the initial length whose head is on `head`,
    /// facing right.
    pub open spec fn fresh(head: Pixel) -> SnakeView {
        SnakeView { head, facing: Direction::Right, run: INITIAL_LENGTH, bends: Seq::empty() }
    }

    /// Length of the whole body, in cells.
    pub open spec fn total(self) -> int {
        self.run + runs_total(self.bends)
    }

    /// Every bend spans a cell at least, and the length stays between the
    /// initial length and what a `u16` holds.
    pub open spec fn wf(self) -> bool {
        &&& forall|i: int| 0 <= i < self.bends.len() ==> (#[trigger] self.bends[i]).0 >= 1
        &&& INITIAL_LENGTH <= self.total() <= u16::MAX
    }

    /// Well formed, with the head's run covering at least the head: the
    /// state between two ticks.
    pub open spec fn ready(self) -> bool {
        self.wf() && self.run >= 1
    }

    /// All runs of the body from head to tail, the head's own run first
    /// without the head cell.
    pub open spec fn runs(self) -> Seq<(u16, Direction)> {
        seq![((self.run - 1) as u16, self.facing.reversed())] + self.bends
    }

    /// The cells of the body but the head, from head to tail, on a grid of
    /// the given size.
    pub open spec fn body(self, size: Pixel) -> Seq<Pixel> {
        runs_cells(self.facing.reversed().step(self.head, size), self.runs(), size)
    }

    /// The state after a turn towards `d`: a legal turn freezes the head's
    /// run as the newest bend.
    pub open spec fn turned(self, d: Direction) -> SnakeView {
        if self.facing.turn_allowed(d) {
            SnakeView {
                head: self.head,
                facing: d,
                run: 0,
                bends: seq![(self.run, self.facing.reversed())] + self.bends,
            }
        } else {
            self
        }
    }

    /// The state after one step of the head: the head's run gains the
    /// cell that the oldest bend loses.
    pub open spec fn advanced(self, size: Pixel) -> SnakeView {
        let head = self.facing.step(self.head, size);
        if self.bends.len() == 0 {
            SnakeView { head, ..self }
        } else {
            let last = self.bends.last();
            SnakeView {
                head,
                facing: self.facing,
                run: (self.run + 1) as u16,
                bends: if last.0 <= 1 {
                    self.bends.drop_last()
                } else {
                    self.bends.drop_last().push(((last.0 - 1) as u16, last.1))
                },
            }
        }
    }

    /// The state after growing by one cell at the tail.
    pub open spec fn grown(self) -> SnakeView {
        if self.bends.len() == 0 {
            SnakeView { run: (self.run + 1) as u16, ..self }
        } else {
            let last = self.bends.last();
            SnakeView {
                bends: self.bends.drop_last().push(((last.0 + 1) as u16, last.1)),
                ..self
            }
        }
    }

    /// The state after one tick of play: a turn towards `d`, then a step.
    pub open spec fn ticked(self, d: Direction, size: Pixel) -> SnakeView {
        self.turned(d).advanced(size)
    }

    /// The state after a tick for each `(direction, grid size)` of `moves`.
    pub open spec fn played(self, moves: Seq<(Direction, Pixel)>) -> SnakeView
        decreases moves.len(),
    {
        if moves.len() == 0 {
            self
        } else {
            let m = moves.last();
            self.played(moves.drop_last()).ticked(m.0, m.1)
        }
    }
}

/// The body in run-length form.
#[derive(Debug)]
pub struct Snake {
    head: Pixel,
    facing: Direction,
    to_first_bend: u16,
    bends: VecDeque<(u16, Direction)>,
}

impl View for Snake {
    type V = SnakeView;

    closed spec fn view(&self) -> SnakeView {
        SnakeView {
            head: self.head,
            facing: self.facing,
            run: self.to_first_bend,
            bends: self.bends@,
        }
    }
}

impl Snake {
    /// A straight body of the initial length whose head is on `head`,
    /// facing right.
    pub fn new(head: Pixel) -> (r: Snake)
        ensures
            r@ == SnakeView::fresh(head),
            r@.ready(),
            r@.total() == INITIAL_LENGTH,
    {
        let r = Snake {
            head,
            facing: Direction::Right,
            to_first_bend: INITIAL_LENGTH,
            bends: VecDeque::new(),
        };
        assert(r@.bends =~= Seq::<(u16, Direction)>::empty());
        assert(runs_total(r@.bends) == 0);
        r
    }

    pub fn head(&self) -> (r: Pixel)
        ensures
            r == self@.head,
    {
        self.head
    }

    /// The cells covered by the body but the head, on a grid of the given
    /// size, found by walking the runs from the head to the tail.
    pub fn rasterize(&self, term_size: Pixel) -> (r: Raster)
        requires
            self@.ready(),
        ensures
            raster_cells(r@) == self@.body(term_size).to_set(),
            rows_nonempty(r@),
    {
        let ghost runs = self@.runs();
        let ghost start = self@.facing.reversed().step(self@.head, term_size);
        let mut current_direction = self.facing.opposite();
        let mut current_pixel = current_direction.next_pixel(self.head, term_size);
        let mut current_length: u16 = self.to_first_bend - 1;
        let mut out: Raster = HashMap::new();
        assert(raster_cells(out@) =~= Set::<Pixel>::empty());
        assert(runs.take(0) =~= Seq::<(u16, Direction)>::empty());
        let n = self.bends.len();
        let mut k: usize = 0;
        loop
            invariant
                0 <= k <= n,
                n == self@.bends.len(),
                runs == self@.runs(),
                start == self@.facing.reversed().step(self@.head, term_size),
                (current_length, current_direction) == runs[k as int],
                current_pixel == runs_end(start, runs.take(k as int), term_size),
                raster_cells(out@) == runs_cells(start, runs.take(k as int), term_size).to_set(),
                rows_nonempty(out@),
            decreases n - k,
        {
            let ghost seg_start = current_pixel;
            let ghost before = runs_cells(start, runs.take(k as int), term_size);
            assert(before + walk(current_direction, seg_start, 0, term_size) =~= before);
            let mut j: u16 = 0;
            while j < current_length
                invariant
                    0 <= j <= current_length,
                    current_pixel == reach(current_direction, seg_start, j as nat, term_size),
                    raster_cells(out@) == (before + walk(
                        current_direction,
                        seg_start,
                        j as nat,
                        term_size,
                    )).to_set(),
                    rows_nonempty(out@),
                decreases current_length - j,
            {
                let ghost w = walk(current_direction, seg_start, j as nat, term_size);
                add_cell(&mut out, current_pixel);
                proof {
                    assert(walk(current_direction, seg_start, (j + 1) as nat, term_size) == w.push(
                        current_pixel,
                    ));
                    assert(before + w.push(current_pixel) =~= (before + w).push(current_pixel));
                    (before + w).lemma_push_to_set_commute(current_pixel);
                }
                current_pixel = current_direction.next_pixel(current_pixel, term_size);
                j = j + 1;
            }
            proof {
                assert(runs.take(k + 1).drop_last() =~= runs.take(k as int));
                assert(runs.take(k + 1).last() == runs[k as int]);
                assert(runs_cells(start, runs.take(k + 1), term_size) == before + walk(
                    current_direction,
                    seg_start,
                    current_length as nat,
                    term_size,
                ));
                assert(runs_end(start, runs.take(k + 1), term_size) == current_pixel);
            }
            if k == n {
                assert(runs.take(k + 1) =~= runs);
                assert(self@.body(term_size) == runs_cells(start, runs, term_size));
                return out;
            }
            let (length, direction) = self.bends[k];
            current_length = length;
            current_direction = direction;
            k = k + 1;
        }
    }

    /// Turns the head towards `direction`; no effect where the turn would
    /// keep or reverse the direction.
    pub fn turn(&mut self, direction: Direction)
        requires
            old(self)@.ready(),
        ensures
            final(self)@ == old(self)@.turned(direction),
            final(self)@.wf(),
            final(self)@.total() == old(self)@.total(),
    {
        if !self.facing.can_turn(&direction) {
            return;
        }
        proof {
            lemma_runs_total_prepend((self.to_first_bend, self.facing.reversed()), self.bends@);
        }
        let back = self.facing.opposite();
        self.bends.push_front((self.to_first_bend, back));
        self.facing = direction;
        self.to_first_bend = 0;
        assert(self@.bends =~= seq![(old(self)@.run, old(self)@.facing.reversed())] + old(self)@.bends);
        assert(self@ == old(self)@.turned(direction));
    }

    /// Moves the head one cell on a grid of the given size; the oldest
    /// bend hands one cell to the head's run, so the length is kept.
    pub fn advance(&mut self, term_size: Pixel)
        requires
            old(self)@.wf(),
        ensures
            final(self)@ == old(self)@.advanced(term_size),
            final(self)@.ready(),
            final(self)@.total() == old(self)@.total(),
    {
        self.head = self.facing.next_pixel(self.head, term_size);
        if self.bends.len() > 0 {
            let ghost bends = self.bends@;
            let (len, dir) = self.bends.pop_back().unwrap();
            assert((len, dir) == bends.last());
            assert(bends.drop_last() =~= self.bends@);
            proof {
                lemma_runs_total_nonneg(bends.drop_last());
            }
            assert(0 <= bends.len() - 1 && bends[bends.len() - 1].0 >= 1);
            self.to_first_bend = self.to_first_bend + 1;
            if len > 1 {
                self.bends.push_back((len - 1, dir));
                assert(runs_total(self.bends@) == runs_total(bends.drop_last()) + len - 1) by {
                    assert(self.bends@.drop_last() =~= bends.drop_last());
                }
            }
            assert(self@ == old(self)@.advanced(term_size));
        } else {
            assert(self@ == old(self)@.advanced(term_size));
        }
    }

    /// Lengthens the body by one cell at its tail; the head stays.
    pub fn grow(&mut self)
        requires
            old(self)@.wf(),
            old(self)@.total() < u16::MAX,
        ensures
            final(self)@ == old(self)@.grown(),
            final(self)@.wf(),
            final(self)@.total() == old(self)@.total() + 1,
            final(self)@.head == old(self)@.head,
            old(self)@.ready() ==> final(self)@.ready(),
    {
        if self.bends.len() > 0 {
            let ghost bends = self.bends@;
            let (len, dir) = self.bends.pop_back().unwrap();
            assert((len, dir) == bends.last());
            assert(bends.drop_last() =~= self.bends@);
            proof {
                lemma_runs_total_nonneg(bends.drop_last());
            }
            self.bends.push_back((len + 1, dir));
            assert(self.bends@.drop_last() =~= bends.drop_last());
            assert(self@ == old(self)@.grown());
        } else {
            self.to_first_bend = self.to_first_bend + 1;
            assert(self@ == old(self)@.grown());
        }
    }

    /// Cells gained since the body was made: the length less the initial
    /// length.
    pub fn len(&self) -> (r: u16)
        requires
            self@.wf(),
        ensures
            r == self@.total() - INITIAL_LENGTH,
    {
        let mut sum: u16 = self.to_first_bend;
        let n = self.bends.len();
        let mut i: usize = 0;
        while i < n
            invariant
                self@.wf(),
                n == self@.bends.len(),
                0 <= i <= n,
                sum == self@.run + runs_total(self@.bends.take(i as int)),
            decreases n - i,
        {
            proof {
                lemma_runs_total_prefix(self@.bends, i as int + 1);
                assert(self@.bends.take(i as int + 1).drop_last() =~= self@.bends.take(i as int));
            }
            sum = sum + self.bends[i].0;
            i = i + 1;
        }
        assert(self@.bends.take(n as int) =~= self@.bends);
        sum - INITIAL_LENGTH
    }
}

/// A legal or illegal turn keeps a body well formed and of the same length,
/// and leaves it ready for the step that follows.
pub proof fn lemma_turn_keeps_length(s: SnakeView, d: Direction)
    requires
        s.ready(),
    ensures
        s.turned(d).wf(),
        s.turned(d).total() == s.total(),
        s.turned(d).run >= 1 || s.turned(d).bends.len() > 0,
{
    if s.facing.turn_allowed(d) {
        let t = s.turned(d);
        lemma_runs_total_prepend((s.run, s.facing.reversed()), s.bends);
        assert forall|i: int| 0 <= i < t.bends.len() implies (#[trigger] t.bends[i]).0 >= 1 by {
            if i > 0 {
                assert(t.bends[i] == s.bends[i - 1]);
            }
        }
    }
}

/// A step keeps a well-formed body's length and leaves it ready.
pub proof fn lemma_advance_keeps_length(s: SnakeView, size: Pixel)
    requires
        s.wf(),
    ensures
        s.advanced(size).ready(),
        s.advanced(size).total() == s.total(),
{
    let a = s.advanced(size);
    if s.bends.len() > 0 {
        let last = s.bends.last();
        assert(s.bends[s.bends.len() - 1].0 >= 1);
        lemma_runs_total_nonneg(s.bends.drop_last());
        if last.0 > 1 {
            assert(a.bends.drop_last() =~= s.bends.drop_last());
            assert forall|i: int| 0 <= i < a.bends.len() implies (#[trigger] a.bends[i]).0 >= 1 by {
                if i < a.bends.len() - 1 {
                    assert(a.bends[i] == s.bends[i]);
                }
            }
        } else {
            assert forall|i: int| 0 <= i < a.bends.len() implies (#[trigger] a.bends[i]).0 >= 1 by {
                assert(a.bends[i] == s.bends[i]);
            }
        }
    }
}

/// A sequence of ticks of play (each a turn, legal or not, and a step)
/// keeps the length of the body: only growing changes it.
pub proof fn lemma_play_keeps_length(s: SnakeView, moves: Seq<(Direction, Pixel)>)
    requires
        s.ready(),
    ensures
        s.played(moves).ready(),
        s.played(moves).total() == s.total(),
    decreases moves.len(),
{
    if moves.len() > 0 {
        let m = moves.last();
        lemma_play_keeps_length(s, moves.drop_last());
        let p = s.played(moves.drop_last());
        lemma_turn_keeps_length(p, m.0);
        lemma_advance_keeps_length(p.turned(m.0), m.1);
    }
}

/// Growing adds exactly one cell to the length and leaves the head in place.
pub proof fn lemma_grow_adds_one(s: SnakeView)
    requires
        s.wf(),
        s.total() < u16::MAX,
    ensures
        s.grown().wf(),
        s.grown().total() == s.total() + 1,
        s.grown().head == s.head,
        s.ready() ==> s.grown().ready(),
{
    let g = s.grown();
    if s.bends.len() > 0 {
        assert(g.bends.drop_last() =~= s.bends.drop_last());
        lemma_runs_total_nonneg(s.bends.drop_last());
        assert forall|i: int| 0 <= i < g.bends.len() implies (#[trigger] g.bends[i]).0 >= 1 by {
            assert(s.bends[i].0 >= 1);
            if i < g.bends.len() - 1 {
                assert(g.bends[i] == s.bends[i]);
            }
        }
    }
}

/// Where the body does not cross itself, the raster holds one cell for each
/// cell of the body but the head: as many as the length less one.
pub proof fn lemma_raster_count(s: SnakeView, size: Pixel)
    requires
        s.ready(),
        s.body(size).no_duplicates(),
    ensures
        s.body(size).to_set().len() == s.total() - 1,
{
    let start = s.facing.reversed().step(s.head, size);
    lemma_runs_cells_len(start, s.runs(), size);
    lemma_runs_total_prepend(((s.run - 1) as u16, s.facing.reversed()), s.bends);
    s.body(size).unique_seq_to_set();
}

proof fn lemma_walk_len(d: Direction, p: Pixel, n: nat, size: Pixel)
    ensures
        walk(d, p, n, size).len() == n,
    decreases n,
{
    if n > 0 {
        lemma_walk_len(d, p, (n - 1) as nat, size);
    }
}

proof fn lemma_runs_cells_len(p: Pixel, runs: Seq<(u16, Direction)>, size: Pixel)
    ensures
        runs_cells(p, runs, size).len() == runs_total(runs),
    decreases runs.len(),
{
    if runs.len() > 0 {
        let r = runs.last();
        lemma_runs_cells_len(p, runs.drop_last(), size);
        lemma_walk_len(r.1, runs_end(p, runs.drop_last(), size), r.0 as nat, size);
    }
}

/// Marks `p` as occupied in `out`.
fn add_cell(out: &mut Raster, p: Pixel)
    requires
        rows_nonempty(old(out)@),
    ensures
        raster_cells(final(out)@) == raster_cells(old(out)@).insert(p),
        rows_nonempty(final(out)@),
{
    let row = out.remove(&p.y);
    let mut set = match row {
        Some(set) => set,
        None => BTreeSet::new(),
    };
    set.insert(p.x);
    out.insert(p.y, set);
    assert(set@.contains(p.x));
    assert(raster_cells(out@) =~= raster_cells(old(out)@).insert(p));
}

/// The runs of a prefix never sum to more than all runs.
proof fn lemma_runs_total_prefix(runs: Seq<(u16, Direction)>, k: int)
    requires
        0 <= k <= runs.len(),
    ensures
        0 <= runs_total(runs.take(k)) <= runs_total(runs),
    decreases runs.len(),
{
    if k < runs.len() {
        assert(runs.drop_last().take(k) =~= runs.take(k));
        lemma_runs_total_prefix(runs.drop_last(), k);
    } else {
        assert(runs.take(k) =~= runs);
    }
    lemma_runs_total_nonneg(runs);
    lemma_runs_total_nonneg(runs.take(k));
}

proof fn lemma_runs_total_nonneg(runs: Seq<(u16, Direction)>)
    ensures
        runs_total(runs) >= 0,
    decreases runs.len(),
{
    if runs.len() > 0 {
        lemma_runs_total_nonneg(runs.drop_last());
    }
}

proof fn lemma_runs_total_prepend(r: (u16, Direction), runs: Seq<(u16, Direction)>)
    ensures
        runs_total(seq![r] + runs) == r.0 + runs_total(runs),
    decreases runs.len(),
{
    if runs.len() > 0 {
        assert((seq![r] + runs).drop_last() =~= seq![r] + runs.drop_last());
        assert((seq![r] + runs).last() == runs.last());
        lemma_runs_total_prepend(r, runs.drop_last());
    } else {
        assert((seq![r] + runs).drop_last() =~= Seq::<(u16, Direction)>::empty());
        assert(runs_total(Seq::<(u16, Direction)>::empty()) == 0);
    }
}

} // verus!
