//! The pet's walk along the inner border of the terminal, cell by cell, and
//! the state that the daemon keeps between two frames.
use vstd::prelude::*;

use crate::direction::{spec_turn, turn, Direction};

verus! {

/// The terminal's size in cells and the rectangle, in cells, whose border the
/// pet walks along.
#[derive(Clone, Copy)]
pub struct TerminalBounds {
    pub term_cols: u16,
    pub term_rows: u16,
    pub left_col: u16,
    pub right_col: u16,
    pub top_row: u16,
    pub bottom_row: u16,
}

impl TerminalBounds {
    /// The rectangle is not empty.
    pub open spec fn wf(&self) -> bool {
        self.left_col <= self.right_col && self.top_row <= self.bottom_row
    }

    /// The bounds used before the terminal's size is known: an 80 x 24
    /// terminal whose walk reaches column 80 and row 24.
    pub fn initial(margin_left: u16, margin_top: u16) -> (b: TerminalBounds)
        ensures
            b.term_cols == 80,
            b.term_rows == 24,
            b.left_col == margin_left,
            b.right_col == 80,
            b.top_row == margin_top,
            b.bottom_row == 24,
    {
        TerminalBounds {
            term_cols: 80,
            term_rows: 24,
            left_col: margin_left,
            right_col: 80,
            top_row: margin_top,
            bottom_row: 24,
        }
    }

    /// Takes a new terminal size: the walk keeps `margin_right` columns and
    /// `margin_bottom` rows free at the right and bottom (the room the image
    /// needs), down to zero.
    pub fn set_size(&mut self, cols: u16, rows: u16, margin_right: u16, margin_bottom: u16)
        ensures
            final(self).term_cols == cols,
            final(self).term_rows == rows,
            final(self).right_col == (if cols >= margin_right { cols - margin_right } else { 0 }),
            final(self).bottom_row == (if rows >= margin_bottom { rows - margin_bottom } else { 0 }),
            final(self).left_col == old(self).left_col,
            final(self).top_row == old(self).top_row,
    {
        self.term_cols = cols;
        self.term_rows = rows;
        self.right_col = cols.saturating_sub(margin_right);
        self.bottom_row = rows.saturating_sub(margin_bottom);
    }
}

/// How the pet moves along the edge that belongs to its direction: which
/// coordinate moves (the column when walking right or left), the value the
/// other coordinate is pinned to, where the edge ends, whether the moving
/// coordinate grows, and the direction taken at the end of the edge.
#[derive(Clone, Copy)]
pub struct EdgeStep {
    pub moves_column: bool,
    pub pinned: u16,
    pub end: u16,
    pub forward: bool,
    pub next_dir: Direction,
}

/// Clockwise the pet walks right along the top, down along the right side,
/// left along the bottom and up along the left side; counter-clockwise right
/// along the bottom, up along the right side, left along the top and down
/// along the left side.
pub open spec fn spec_edge_step(dir: Direction, cw: bool, b: TerminalBounds) -> EdgeStep {
    match dir {
        Direction::Right => EdgeStep {
            moves_column: true,
            pinned: if cw { b.top_row } else { b.bottom_row },
            end: b.right_col,
            forward: true,
            next_dir: spec_turn(dir, cw),
        },
        Direction::Up => EdgeStep {
            moves_column: false,
            pinned: if cw { b.left_col } else { b.right_col },
            end: b.top_row,
            forward: false,
            next_dir: spec_turn(dir, cw),
        },
        Direction::Left => EdgeStep {
            moves_column: true,
            pinned: if cw { b.bottom_row } else { b.top_row },
            end: b.left_col,
            forward: false,
            next_dir: spec_turn(dir, cw),
        },
        Direction::Down => EdgeStep {
            moves_column: false,
            pinned: if cw { b.right_col } else { b.left_col },
            end: b.bottom_row,
            forward: true,
            next_dir: spec_turn(dir, cw),
        },
    }
}

/// The edge that the pet walks along in direction `dir`.
pub fn edge_step(dir: Direction, cw: bool, b: &TerminalBounds) -> (e: EdgeStep)
    ensures
        e == spec_edge_step(dir, cw, *b),
{
    match dir {
        Direction::Right => EdgeStep {
            moves_column: true,
            pinned: if cw { b.top_row } else { b.bottom_row },
            end: b.right_col,
            forward: true,
            next_dir: turn(dir, cw),
        },
        Direction::Up => EdgeStep {
            moves_column: false,
            pinned: if cw { b.left_col } else { b.right_col },
            end: b.top_row,
            forward: false,
            next_dir: turn(dir, cw),
        },
        Direction::Left => EdgeStep {
            moves_column: true,
            pinned: if cw { b.bottom_row } else { b.top_row },
            end: b.left_col,
            forward: false,
            next_dir: turn(dir, cw),
        },
        Direction::Down => EdgeStep {
            moves_column: false,
            pinned: if cw { b.right_col } else { b.left_col },
            end: b.bottom_row,
            forward: true,
            next_dir: turn(dir, cw),
        },
    }
}

/// A position on the cell grid and the direction of the walk.
#[derive(Clone, Copy)]
pub struct GridPos {
    pub col: u16,
    pub row: u16,
    pub dir: Direction,
}

/// One step of one cell: the coordinate across the edge is pinned to the
/// edge; the coordinate along it moves one cell towards the edge's end, and
/// at the end (or past it) the pet is put on the end and turns.
pub open spec fn spec_advance_cell(p: GridPos, b: TerminalBounds, cw: bool) -> GridPos {
    let e = spec_edge_step(p.dir, cw, b);
    let pos = if e.moves_column { p.col } else { p.row };
    let reached = if e.forward { pos >= e.end } else { pos <= e.end };
    let (dir, moved) = if reached {
        (e.next_dir, e.end as int)
    } else if e.forward {
        (p.dir, pos + 1)
    } else {
        (p.dir, pos - 1)
    };
    if e.moves_column {
        GridPos { col: moved as u16, row: e.pinned, dir }
    } else {
        GridPos { col: e.pinned, row: moved as u16, dir }
    }
}

/// `n` steps of one cell.
pub open spec fn spec_walk(p: GridPos, b: TerminalBounds, cw: bool, n: nat) -> GridPos
    decreases n,
{
    if n == 0 {
        p
    } else {
        spec_walk(spec_advance_cell(p, b, cw), b, cw, (n - 1) as nat)
    }
}

impl GridPos {
    /// Moves one cell along the border.
    pub fn advance_cell(&mut self, b: &TerminalBounds, cw: bool)
        ensures
            *final(self) == spec_advance_cell(*old(self), *b, cw),
    {
        let e = edge_step(self.dir, cw, b);
        let pos = if e.moves_column { self.col } else { self.row };
        let reached = if e.forward { pos >= e.end } else { pos <= e.end };
        let (dir, moved) = if reached {
            (e.next_dir, e.end)
        } else if e.forward {
            (self.dir, pos + 1)
        } else {
            (self.dir, pos - 1)
        };
        if e.moves_column {
            self.col = moved;
            self.row = e.pinned;
        } else {
            self.col = e.pinned;
            self.row = moved;
        }
        self.dir = dir;
    }
}

/// The position lies in the rectangle.
pub open spec fn in_box(p: GridPos, b: TerminalBounds) -> bool {
    b.left_col <= p.col <= b.right_col && b.top_row <= p.row <= b.bottom_row
}

/// The position lies on the rectangle's border.
pub open spec fn on_border(p: GridPos, b: TerminalBounds) -> bool {
    in_box(p, b) && (p.col == b.left_col || p.col == b.right_col || p.row == b.top_row
        || p.row == b.bottom_row)
}

/// The position lies on the line of the edge that its direction walks along.
pub open spec fn on_own_edge(p: GridPos, b: TerminalBounds, cw: bool) -> bool {
    let e = spec_edge_step(p.dir, cw, b);
    if e.moves_column { p.row == e.pinned } else { p.col == e.pinned }
}

/// After a step the pet is always on the line of the edge that its (new)
/// direction walks along, whatever it was before.
pub proof fn lemma_step_on_own_edge(p: GridPos, b: TerminalBounds, cw: bool)
    ensures
        on_own_edge(spec_advance_cell(p, b, cw), b, cw),
{
}

/// From a position in the rectangle, a step stays in the rectangle and lands
/// on its border.
pub proof fn lemma_step_stays_on_border(p: GridPos, b: TerminalBounds, cw: bool)
    requires
        b.wf(),
        in_box(p, b),
    ensures
        on_border(spec_advance_cell(p, b, cw), b),
{
}

/// From a position in the rectangle, any number of steps keeps the pet in the
/// rectangle, and on its border once it has taken one step.
pub proof fn lemma_walk_stays_on_border(p: GridPos, b: TerminalBounds, cw: bool, n: nat)
    requires
        b.wf(),
        in_box(p, b),
    ensures
        in_box(spec_walk(p, b, cw, n), b),
        n > 0 ==> on_border(spec_walk(p, b, cw, n), b),
    decreases n,
{
    if n > 0 {
        lemma_step_stays_on_border(p, b, cw);
        lemma_walk_stays_on_border(spec_advance_cell(p, b, cw), b, cw, (n - 1) as nat);
    }
}


/// A walk of `n + 1` steps is a walk of `n` steps and one more.
pub proof fn lemma_walk_one_more(p: GridPos, b: TerminalBounds, cw: bool, n: nat)
    ensures
        spec_walk(p, b, cw, n + 1) == spec_advance_cell(spec_walk(p, b, cw, n), b, cw),
    decreases n,
{
    let q = spec_advance_cell(p, b, cw);
    assert(spec_walk(p, b, cw, n + 1) == spec_walk(q, b, cw, n));
    if n > 0 {
        lemma_walk_one_more(q, b, cw, (n - 1) as nat);
        assert(spec_walk(p, b, cw, n) == spec_walk(q, b, cw, (n - 1) as nat));
        assert(((n - 1) as nat + 1) as nat == n);
    }
}

/// Walking `a + c` steps is walking `a` steps, then `c` more.
pub proof fn lemma_walk_split(p: GridPos, b: TerminalBounds, cw: bool, a: nat, c: nat)
    ensures
        spec_walk(p, b, cw, a + c) == spec_walk(spec_walk(p, b, cw, a), b, cw, c),
    decreases a,
{
    if a > 0 {
        let q = spec_advance_cell(p, b, cw);
        lemma_walk_split(q, b, cw, (a - 1) as nat, c);
        assert(((a - 1) as nat + c) as nat + 1 == a + c);
        assert(spec_walk(p, b, cw, a + c) == spec_walk(q, b, cw, ((a - 1) as nat + c) as nat));
    }
}

/// The distance left to the end of the edge, along it.
pub open spec fn edge_distance(p: GridPos, b: TerminalBounds, cw: bool) -> int {
    let e = spec_edge_step(p.dir, cw, b);
    let pos = if e.moves_column { p.col } else { p.row };
    if e.forward { e.end - pos } else { pos - e.end }
}

/// The corner at the end of the edge, where the pet has turned.
pub open spec fn edge_corner(p: GridPos, b: TerminalBounds, cw: bool) -> GridPos {
    let e = spec_edge_step(p.dir, cw, b);
    if e.moves_column {
        GridPos { col: e.end, row: e.pinned, dir: e.next_dir }
    } else {
        GridPos { col: e.pinned, row: e.end, dir: e.next_dir }
    }
}

/// A pet on an edge, short of its end, reaches the corner and turns after one
/// step per cell left plus one step to turn.
pub proof fn lemma_walk_edge(p: GridPos, b: TerminalBounds, cw: bool)
    requires
        on_own_edge(p, b, cw),
        edge_distance(p, b, cw) >= 0,
    ensures
        spec_walk(p, b, cw, (edge_distance(p, b, cw) + 1) as nat) == edge_corner(p, b, cw),
    decreases edge_distance(p, b, cw),
{
    let q = spec_advance_cell(p, b, cw);
    let n = (edge_distance(p, b, cw) + 1) as nat;
    assert(spec_walk(p, b, cw, n) == spec_walk(q, b, cw, (n - 1) as nat));
    if edge_distance(p, b, cw) == 0 {
        assert(q == edge_corner(p, b, cw));
    } else {
        assert(q.dir == p.dir);
        assert(edge_distance(q, b, cw) == edge_distance(p, b, cw) - 1);
        assert(edge_corner(q, b, cw) == edge_corner(p, b, cw));
        lemma_walk_edge(q, b, cw);
    }
}

/// The number of steps of one lap: each edge costs its length in cells plus
/// one step to turn at its end.
pub open spec fn lap_steps(b: TerminalBounds) -> nat {
    (2 * (b.right_col - b.left_col) + 2 * (b.bottom_row - b.top_row) + 4) as nat
}

/// The walk is a closed loop around the border: from its start, walking
/// right, the pet is back at the start after one lap, in either sense.
pub proof fn lemma_walk_is_a_loop(b: TerminalBounds, cw: bool)
    requires
        b.wf(),
    ensures
        spec_walk(walk_start(Direction::Right, b, cw), b, cw, lap_steps(b)) == walk_start(Direction::Right, b, cw),
{
    let w = (b.right_col - b.left_col) as nat;
    let h = (b.bottom_row - b.top_row) as nat;
    let p0 = walk_start(Direction::Right, b, cw);
    lemma_walk_edge(p0, b, cw);
    let p1 = edge_corner(p0, b, cw);
    lemma_walk_edge(p1, b, cw);
    let p2 = edge_corner(p1, b, cw);
    lemma_walk_edge(p2, b, cw);
    let p3 = edge_corner(p2, b, cw);
    lemma_walk_edge(p3, b, cw);
    let p4 = edge_corner(p3, b, cw);
    assert(p4 == p0);
    lemma_walk_split(p0, b, cw, w + 1, h + 1);
    lemma_walk_split(p0, b, cw, w + 1 + h + 1, w + 1);
    lemma_walk_split(p0, b, cw, w + 1 + h + 1 + w + 1, h + 1);
    assert(lap_steps(b) == w + 1 + h + 1 + w + 1 + h + 1);
}

/// The number of cells around the rectangle used to spread the starting
/// points of several pets: twice its width plus twice its height, at least 1.
pub open spec fn spec_perimeter(b: TerminalBounds) -> int {
    let width = if b.right_col >= b.left_col { b.right_col - b.left_col } else { 0 };
    let height = if b.bottom_row >= b.top_row { b.bottom_row - b.top_row } else { 0 };
    let p = width * 2 + height * 2;
    if p >= 1 { p } else { 1 }
}

/// The perimeter can be computed in `u16`.
pub open spec fn perimeter_fits(b: TerminalBounds) -> bool {
    let width = if b.right_col >= b.left_col { b.right_col - b.left_col } else { 0 };
    let height = if b.bottom_row >= b.top_row { b.bottom_row - b.top_row } else { 0 };
    width * 2 + height * 2 <= u16::MAX
}

impl TerminalBounds {
    /// Whether the perimeter can be computed in `u16`.
    pub fn perimeter_fits(&self) -> (res: bool)
        ensures
            res == perimeter_fits(*self),
    {
        let width = self.right_col.saturating_sub(self.left_col) as u32;
        let height = self.bottom_row.saturating_sub(self.top_row) as u32;
        width * 2 + height * 2 <= 65535
    }
}

/// Where the walk starts: the left end of the edge walked rightwards (the top
/// edge clockwise, the bottom edge counter-clockwise).
pub open spec fn walk_start(dir: Direction, b: TerminalBounds, cw: bool) -> GridPos {
    GridPos { col: b.left_col, row: if cw { b.top_row } else { b.bottom_row }, dir }
}

/// The state that the daemon keeps between two frames, but for the pet's
/// position on screen: its direction, the frame it shows next, its process
/// id, the id of the image on screen and the stacking order of its images.
/// Image ids alternate between `2 * pid` and `2 * pid + 1`, so that a new
/// image can be placed before the old one is deleted.
pub struct PetState {
    pub dir: Direction,
    pub frame_idx: usize,
    pub pid: u32,
    pub current_id: u32,
    pub z_index: u32,
}

/// The process ids for which both image ids fit in `u32`.
pub open spec fn pid_fits(pid: u32) -> bool {
    2 * pid + 1 <= u32::MAX
}

/// The image id that follows `current` for process `pid`.
pub open spec fn spec_next_id(pid: u32, current: u32) -> u32 {
    if current == 2 * pid { (2 * pid + 1) as u32 } else { (2 * pid) as u32 }
}

impl PetState {
    /// The frame index is in range and the image id is one of the two of the
    /// process.
    pub open spec fn wf(&self, frames_len: nat) -> bool {
        &&& pid_fits(self.pid)
        &&& self.frame_idx < frames_len
        &&& (self.current_id == 2 * self.pid || self.current_id == 2 * self.pid + 1)
    }

    /// A pet walking right, starting at a frame chosen by `pseudo_rand` (so
    /// that several pets do not move in step), in a stacking layer of its own:
    /// the layer is taken from the process id, so two pets of different
    /// processes never share a layer and their images overlap without tearing.
    pub fn new(pid: u32, pseudo_rand: u32, frames_len: usize) -> (s: PetState)
        requires
            frames_len > 0,
            pid_fits(pid),
        ensures
            s.dir == Direction::Right,
            s.frame_idx == pseudo_rand as int % frames_len as int,
            s.pid == pid,
            s.current_id == 2 * pid,
            s.z_index == 100 + pid,
            s.wf(frames_len as nat),
    {
        PetState {
            dir: Direction::Right,
            frame_idx: (pseudo_rand as usize) % frames_len,
            pid,
            current_id: pid * 2,
            z_index: 100 + pid,
        }
    }

    /// The id under which the next frame is placed.
    pub fn next_id(&self) -> (id: u32)
        requires
            pid_fits(self.pid),
        ensures
            id == spec_next_id(self.pid, self.current_id),
    {
        if self.current_id == self.pid * 2 {
            self.pid * 2 + 1
        } else {
            self.pid * 2
        }
    }

    /// After a frame is drawn: the new image's id becomes the current one and
    /// the next frame of the animation is chosen, wrapping around.
    pub fn finish_frame(&mut self, frames_len: usize)
        requires
            old(self).wf(frames_len as nat),
        ensures
            final(self).wf(frames_len as nat),
            *final(self) == spec_finish_frame(*old(self), frames_len as nat),
            final(self).current_id == spec_next_id(old(self).pid, old(self).current_id),
            final(self).frame_idx == (old(self).frame_idx + 1) % frames_len as int,
            final(self).dir == old(self).dir,
            final(self).pid == old(self).pid,
            final(self).z_index == old(self).z_index,
    {
        self.current_id = self.next_id();
        self.frame_idx = (self.frame_idx + 1) % frames_len;
    }

    /// Puts the pet at a pseudo-random point of its walk: from the start of
    /// the walk it takes `pseudo_rand % perimeter` steps of one cell. The
    /// direction is kept in the state; the cell reached is returned.
    pub fn fast_forward(&mut self, bounds: &TerminalBounds, cw: bool, pseudo_rand: u32) -> (cell: (u16, u16))
        requires
            perimeter_fits(*bounds),
        ensures
            ({
                let p = spec_walk(walk_start(old(self).dir, *bounds, cw), *bounds, cw,
                    (pseudo_rand as int % spec_perimeter(*bounds)) as nat);
                &&& cell == (p.col, p.row)
                &&& final(self).dir == p.dir
            }),
            ({
                let width: int = if bounds.right_col >= bounds.left_col { bounds.right_col - bounds.left_col } else { 0 };
                let height: int = if bounds.bottom_row >= bounds.top_row { bounds.bottom_row - bounds.top_row } else { 0 };
                let around = 2 * width + 2 * height;
                let steps: int = if around >= 1 { pseudo_rand as int % around } else { 0 };
                let p = spec_walk(walk_start(old(self).dir, *bounds, cw), *bounds, cw, steps as nat);
                &&& cell == (p.col, p.row)
                &&& final(self).dir == p.dir
            }),
            final(self).frame_idx == old(self).frame_idx,
            final(self).pid == old(self).pid,
            final(self).current_id == old(self).current_id,
            final(self).z_index == old(self).z_index,
    {
        let width = bounds.right_col.saturating_sub(bounds.left_col);
        let height = bounds.bottom_row.saturating_sub(bounds.top_row);
        let sum = width * 2 + height * 2;
        let perimeter = if sum >= 1 { sum } else { 1 };
        let offset_cells = pseudo_rand % (perimeter as u32);
        let ghost start = walk_start(self.dir, *bounds, cw);
        let mut pos = GridPos {
            col: bounds.left_col,
            row: if cw { bounds.top_row } else { bounds.bottom_row },
            dir: self.dir,
        };
        let mut i: u32 = 0;
        while i < offset_cells
            invariant
                i <= offset_cells,
                pos == spec_walk(start, *bounds, cw, i as nat),
            decreases offset_cells - i,
        {
            proof {
                lemma_walk_one_more(start, *bounds, cw, i as nat);
            }
            pos.advance_cell(bounds, cw);
            i = i + 1;
        }
        self.dir = pos.dir;
        (pos.col, pos.row)
    }
}

/// Where fast-forwarding leaves the pet: on the border of the rectangle.
pub proof fn lemma_fast_forward_on_border(dir: Direction, b: TerminalBounds, cw: bool, pseudo_rand: u32)
    requires
        b.wf(),
    ensures
        on_border(
            spec_walk(walk_start(dir, b, cw), b, cw, (pseudo_rand as int % spec_perimeter(b)) as nat),
            b,
        ),
{
    let n = (pseudo_rand as int % spec_perimeter(b)) as nat;
    lemma_walk_stays_on_border(walk_start(dir, b, cw), b, cw, n);
}

/// Pets of different processes are placed in different layers.
pub proof fn lemma_layers_unique(pid1: u32, pid2: u32)
    requires
        pid_fits(pid1),
        pid_fits(pid2),
        pid1 != pid2,
    ensures
        100 + pid1 != 100 + pid2,
        100 + pid1 <= u32::MAX,
{
}

/// The state after one frame is drawn: the new image's id becomes the current
/// one and the animation moves on by one frame, wrapping around.
pub open spec fn spec_finish_frame(s: PetState, frames_len: nat) -> PetState {
    PetState {
        dir: s.dir,
        frame_idx: ((s.frame_idx + 1) % (frames_len as int)) as usize,
        pid: s.pid,
        current_id: spec_next_id(s.pid, s.current_id),
        z_index: s.z_index,
    }
}

/// The state after `k` frames are drawn.
pub open spec fn spec_ticks(s: PetState, frames_len: nat, k: nat) -> PetState
    decreases k,
{
    if k == 0 {
        s
    } else {
        spec_finish_frame(spec_ticks(s, frames_len, (k - 1) as nat), frames_len)
    }
}

/// Over any number of drawn frames, whatever the pet's speed: the frame index
/// advances by one per frame modulo the number of frames (the animation's
/// rate and order do not depend on how fast the pet moves), the image id
/// alternates between the two ids of the process, starting from the current
/// one, and direction, process id and layer do not change.
pub proof fn lemma_ticks(s: PetState, frames_len: nat, k: nat)
    requires
        s.wf(frames_len),
        frames_len <= usize::MAX,
    ensures
        spec_ticks(s, frames_len, k).wf(frames_len),
        spec_ticks(s, frames_len, k).frame_idx == (s.frame_idx + k) % (frames_len as int),
        spec_ticks(s, frames_len, k).current_id == (if k % 2 == 0 { s.current_id } else { spec_next_id(s.pid, s.current_id) }),
        spec_ticks(s, frames_len, k).dir == s.dir,
        spec_ticks(s, frames_len, k).pid == s.pid,
        spec_ticks(s, frames_len, k).z_index == s.z_index,
    decreases k,
{
    let n = frames_len as int;
    if k == 0 {
        vstd::arithmetic::div_mod::lemma_small_mod(s.frame_idx as nat, frames_len);
    } else {
        lemma_ticks(s, frames_len, (k - 1) as nat);
        let x = s.frame_idx + (k - 1);
        vstd::arithmetic::div_mod::lemma_add_mod_noop(x, 1, n);
        if n > 1 {
            vstd::arithmetic::div_mod::lemma_small_mod(1, frames_len);
        } else {
            vstd::arithmetic::div_mod::lemma_mod_bound(x + 1, n);
            vstd::arithmetic::div_mod::lemma_mod_bound((x % n) + 1, n);
        }
        vstd::arithmetic::div_mod::lemma_mod_bound(x % n + 1, n);
        let p = spec_ticks(s, frames_len, (k - 1) as nat);
        assert(p.frame_idx == x % n);
        assert((p.frame_idx + 1) % n == (s.frame_idx + k) % n);
        assert(spec_ticks(s, frames_len, k) == spec_finish_frame(p, frames_len));
        lemma_image_ids_alternate(s.pid, s.current_id);
    }
}

/// The image placed by the `k`-th frame drawn from a freshly made pet is
/// `2 * pid + 1` when `k` is even and `2 * pid` when `k` is odd; the image
/// deleted is the other one; no other id is ever used.
pub proof fn lemma_image_id_parity(pid: u32, frames_len: nat, s: PetState, k: nat)
    requires
        frames_len > 0,
        frames_len <= usize::MAX,
        pid_fits(pid),
        s.pid == pid,
        s.current_id == 2 * pid,
        s.frame_idx < frames_len,
    ensures
        ({
            let t = spec_ticks(s, frames_len, k);
            &&& spec_next_id(pid, t.current_id) == (if k % 2 == 0 { 2 * pid + 1 } else { 2 * pid })
            &&& t.current_id == (if k % 2 == 0 { 2 * pid } else { 2 * pid + 1 })
        }),
{
    lemma_ticks(s, frames_len, k);
}

/// The number of cells around a rectangle that `fast_forward` counts
/// (twice the width plus twice the height) is one lap of the walk less the
/// four steps spent turning at the corners.
pub proof fn lemma_perimeter_is_lap_without_turns(b: TerminalBounds)
    requires
        b.wf(),
        b.left_col < b.right_col || b.top_row < b.bottom_row,
    ensures
        spec_perimeter(b) + 4 == lap_steps(b),
        spec_perimeter(b) == 2 * (b.right_col - b.left_col) + 2 * (b.bottom_row - b.top_row),
{
}

/// Fast-forwarding depends on the seed only through its remainder by the
/// perimeter: seeds with equal remainders put the pet at the same cell and
/// direction; on a rectangle whose perimeter is 1 (a single cell) the pet is
/// left at the start without a step.
pub proof fn lemma_fast_forward_by_remainder(dir: Direction, b: TerminalBounds, cw: bool, seed1: u32, seed2: u32)
    requires
        seed1 as int % spec_perimeter(b) == seed2 as int % spec_perimeter(b),
    ensures
        spec_walk(walk_start(dir, b, cw), b, cw, (seed1 as int % spec_perimeter(b)) as nat)
            == spec_walk(walk_start(dir, b, cw), b, cw, (seed2 as int % spec_perimeter(b)) as nat),
        spec_perimeter(b) == 1 ==> spec_walk(walk_start(dir, b, cw), b, cw, (seed1 as int % spec_perimeter(b)) as nat)
            == walk_start(dir, b, cw),
{
}

/// Image ids alternate: the next id differs from the current one, and the id
/// after the next is the current one again.
pub proof fn lemma_image_ids_alternate(pid: u32, current: u32)
    requires
        pid_fits(pid),
        current == 2 * pid || current == 2 * pid + 1,
    ensures
        spec_next_id(pid, current) != current,
        spec_next_id(pid, spec_next_id(pid, current)) == current,
{
}

} // verus!
