//! The character canvas the render tools draw on: a grid of cells with the
//! clamped cell of a point, Bresenham lines between cells, outlined and
//! filled boxes, clipped labels, the origin mark and the framed text of the
//! whole grid. Where a world point falls is worked out by the caller; the
//! canvas deals in cells only.
use vstd::prelude::*;
use crate::text::{chars_of, push_char, push_chars};

verus! {

/// A grid of `width` x `height` characters; row 0 is the top row.
pub struct Canvas {
    cells: Vec<Vec<char>>,
    width: usize,
    height: usize,
}

impl View for Canvas {
    type V = Seq<Seq<char>>;

    closed spec fn view(&self) -> Seq<Seq<char>> {
        self.cells@.map_values(|row: Vec<char>| row@)
    }
}

impl Canvas {
    /// The number of columns.
    pub closed spec fn columns(&self) -> nat {
        self.width as nat
    }

    /// The number of rows.
    pub closed spec fn rows(&self) -> nat {
        self.height as nat
    }

    /// At least one cell, one row of the view per row of the canvas, and
    /// every row as wide as the canvas.
    pub open spec fn wf(&self) -> bool {
        &&& self.columns() >= 1
        &&& self.rows() >= 1
        &&& self@.len() == self.rows()
        &&& forall|y: int| 0 <= y < self.rows() ==> #[trigger] self@[y].len() == self.columns()
    }

    /// Whether column `x` of row `y` is a cell of the canvas.
    pub open spec fn holds(&self, x: int, y: int) -> bool {
        0 <= x < self.columns() && 0 <= y < self.rows()
    }

    /// `self` is a well-formed canvas of the size of `other`.
    pub open spec fn same_size(&self, other: &Canvas) -> bool {
        &&& self.wf()
        &&& self.columns() == other.columns()
        &&& self.rows() == other.rows()
    }

    proof fn lemma_view(&self)
        requires
            self.wf(),
        ensures
            self.cells@.len() == self.height,
            self.width >= 1,
            forall|y: int| 0 <= y < self.height ==> #[trigger] self.cells@[y]@ == self@[y],
            forall|y: int| 0 <= y < self.height ==> #[trigger] self.cells@[y]@.len() == self.width,
    {
        assert forall|y: int| 0 <= y < self.height implies #[trigger] self.cells@[y]@.len()
            == self.width by {
            assert(self@[y] == self.cells@[y]@);
        }
    }

    /// A blank canvas of `width` x `height` cells.
    pub fn new(width: usize, height: usize) -> (canvas: Canvas)
        requires
            width >= 1,
            height >= 1,
        ensures
            canvas.wf(),
            canvas.columns() == width,
            canvas.rows() == height,
            forall|x: int, y: int| canvas.holds(x, y) ==> #[trigger] canvas@[y][x] == ' ',
    {
        let mut cells: Vec<Vec<char>> = Vec::new();
        let mut j: usize = 0;
        while j < height
            invariant
                j <= height,
                cells@.len() == j,
                forall|y: int| 0 <= y < j ==> #[trigger] cells@[y]@ =~= Seq::new(width as nat, |x: int| ' '),
            decreases height - j,
        {
            let mut row: Vec<char> = Vec::new();
            let mut i: usize = 0;
            while i < width
                invariant
                    i <= width,
                    row@ =~= Seq::new(i as nat, |x: int| ' '),
                decreases width - i,
            {
                row.push(' ');
                i += 1;
            }
            cells.push(row);
            j += 1;
        }
        Canvas { cells, width, height }
    }

    /// The number of columns.
    pub fn width(&self) -> (w: usize)
        ensures
            w == self.columns(),
    {
        self.width
    }

    /// The number of rows.
    pub fn height(&self) -> (h: usize)
        ensures
            h == self.rows(),
    {
        self.height
    }

    /// The character in column `x` of row `y`.
    pub fn get(&self, x: usize, y: usize) -> (ch: char)
        requires
            self.wf(),
            self.holds(x as int, y as int),
        ensures
            ch == self@[y as int][x as int],
    {
        proof {
            self.lemma_view();
        }
        self.cells[y][x]
    }

    /// Writes `ch` into column `x` of row `y`.
    pub fn set(&mut self, x: usize, y: usize, ch: char)
        requires
            old(self).wf(),
            old(self).holds(x as int, y as int),
        ensures
            final(self).same_size(old(self)),
            final(self)@ == old(self)@.update(y as int, old(self)@[y as int].update(x as int, ch)),
    {
        proof {
            self.lemma_view();
        }
        self.cells[y][x] = ch;
        assert(self@ =~= old(self)@.update(y as int, old(self)@[y as int].update(x as int, ch)));
    }
}

// ---------------------------------------------------------------- lines

/// The distance between `from` and `to` along one axis.
pub open spec fn span(from: int, to: int) -> int {
    if from < to {
        to - from
    } else {
        from - to
    }
}

/// The coordinate `steps` cells from `from` towards `to`.
pub open spec fn toward(from: int, to: int, steps: int) -> int {
    if from < to {
        from + steps
    } else {
        from - steps
    }
}

/// Bresenham's error term on a line spanning `dx` by `dy` cells, once `a`
/// steps along x and `b` steps along y have been taken.
pub open spec fn line_error(dx: int, dy: int, a: int, b: int) -> int {
    dx - dy + dx * b - dy * a
}

/// Whether the next step of the line moves along x.
pub open spec fn steps_x(dx: int, dy: int, a: int, b: int) -> bool {
    2 * line_error(dx, dy, a, b) > -dy
}

/// Whether the next step of the line moves along y.
pub open spec fn steps_y(dx: int, dy: int, a: int, b: int) -> bool {
    2 * line_error(dx, dy, a, b) < dx
}

/// The cells of the line from `(x0, y0)` to `(xn, yn)` that Bresenham's
/// algorithm visits from the cell `a` steps along x and `b` along y, at
/// most `fuel` of them.
pub open spec fn line_walk(x0: int, y0: int, xn: int, yn: int, a: int, b: int, fuel: nat) -> Seq<
    (int, int),
>
    decreases fuel,
{
    let dx = span(x0, xn);
    let dy = span(y0, yn);
    let here = (toward(x0, xn, a), toward(y0, yn, b));
    if fuel == 0 {
        Seq::empty()
    } else if a == dx && b == dy {
        seq![here]
    } else {
        let a1 = if steps_x(dx, dy, a, b) {
            a + 1
        } else {
            a
        };
        let b1 = if steps_y(dx, dy, a, b) {
            b + 1
        } else {
            b
        };
        seq![here] + line_walk(x0, y0, xn, yn, a1, b1, (fuel - 1) as nat)
    }
}

/// The cells of the line from `(x0, y0)` to `(xn, yn)`, in the order
/// Bresenham's algorithm visits them.
pub open spec fn line_cells(x0: int, y0: int, xn: int, yn: int) -> Seq<(int, int)> {
    line_walk(x0, y0, xn, yn, 0, 0, (span(x0, xn) + span(y0, yn) + 1) as nat)
}

/// `p` lies in the box with corners `(x0, y0)` and `(xn, yn)`.
pub open spec fn in_box(p: (int, int), x0: int, y0: int, xn: int, yn: int) -> bool {
    &&& (x0 <= p.0 <= xn || xn <= p.0 <= x0)
    &&& (y0 <= p.1 <= yn || yn <= p.1 <= y0)
}

/// `p` and `q` are distinct cells that touch at a side or a corner.
pub open spec fn adjacent(p: (int, int), q: (int, int)) -> bool {
    &&& -1 <= p.0 - q.0 <= 1
    &&& -1 <= p.1 - q.1 <= 1
    &&& p != q
}

proof fn lemma_error_steps(dx: int, dy: int, a: int, b: int)
    ensures
        line_error(dx, dy, a + 1, b) == line_error(dx, dy, a, b) - dy,
        line_error(dx, dy, a, b + 1) == line_error(dx, dy, a, b) + dx,
{
    assert(dy * (a + 1) == dy * a + dy) by (nonlinear_arith);
    assert(dx * (b + 1) == dx * b + dx) by (nonlinear_arith);
}

/// A step never passes the end along either axis, and every step moves.
proof fn lemma_line_step(dx: int, dy: int, a: int, b: int)
    requires
        0 <= a <= dx,
        0 <= b <= dy,
        !(a == dx && b == dy),
    ensures
        steps_x(dx, dy, a, b) ==> a < dx,
        steps_y(dx, dy, a, b) ==> b < dy,
        steps_x(dx, dy, a, b) || steps_y(dx, dy, a, b),
{
    if a == dx {
        assert(dx * b - dy * a <= -dx) by (nonlinear_arith)
            requires
                a == dx,
                0 <= b < dy,
                0 <= dx,
        ;
    }
    if b == dy {
        assert(dx * b - dy * a >= dy) by (nonlinear_arith)
            requires
                b == dy,
                0 <= a < dx,
                0 <= dy,
        ;
    }
}

/// From any cell it reaches, the walk ends at `(xn, yn)`, stays in the box
/// of the two ends, and moves one cell at a time.
proof fn lemma_line_walk(x0: int, y0: int, xn: int, yn: int, a: int, b: int, fuel: nat)
    requires
        0 <= a <= span(x0, xn),
        0 <= b <= span(y0, yn),
        fuel >= (span(x0, xn) - a) + (span(y0, yn) - b) + 1,
    ensures
        line_walk(x0, y0, xn, yn, a, b, fuel).len() >= 1,
        line_walk(x0, y0, xn, yn, a, b, fuel)[0] == (toward(x0, xn, a), toward(y0, yn, b)),
        line_walk(x0, y0, xn, yn, a, b, fuel).last() == (xn, yn),
        forall|i: int|
            0 <= i < line_walk(x0, y0, xn, yn, a, b, fuel).len() ==> in_box(
                #[trigger] line_walk(x0, y0, xn, yn, a, b, fuel)[i],
                x0,
                y0,
                xn,
                yn,
            ),
        forall|i: int|
            0 <= i < line_walk(x0, y0, xn, yn, a, b, fuel).len() - 1 ==> adjacent(
                #[trigger] line_walk(x0, y0, xn, yn, a, b, fuel)[i],
                line_walk(x0, y0, xn, yn, a, b, fuel)[i + 1],
            ),
    decreases fuel,
{
    let dx = span(x0, xn);
    let dy = span(y0, yn);
    let w = line_walk(x0, y0, xn, yn, a, b, fuel);
    let here = (toward(x0, xn, a), toward(y0, yn, b));
    if a == dx && b == dy {
        assert(w == seq![here]);
    } else {
        lemma_line_step(dx, dy, a, b);
        let a1 = if steps_x(dx, dy, a, b) {
            a + 1
        } else {
            a
        };
        let b1 = if steps_y(dx, dy, a, b) {
            b + 1
        } else {
            b
        };
        lemma_line_walk(x0, y0, xn, yn, a1, b1, (fuel - 1) as nat);
        let rest = line_walk(x0, y0, xn, yn, a1, b1, (fuel - 1) as nat);
        assert(w == seq![here] + rest);
        assert forall|i: int| 0 <= i < w.len() implies in_box(#[trigger] w[i], x0, y0, xn, yn) by {
            if i > 0 {
                assert(w[i] == rest[i - 1]);
            }
        }
        assert forall|i: int| 0 <= i < w.len() - 1 implies adjacent(#[trigger] w[i], w[i + 1]) by {
            if i == 0 {
                assert(w[1] == rest[0]);
            } else {
                assert(w[i] == rest[i - 1]);
                assert(w[i + 1] == rest[i]);
            }
        }
        assert(w.last() == rest.last());
    }
}

/// The line starts at its first end, finishes at its second, keeps within
/// the box of the two, and moves from each cell to a touching one.
pub proof fn lemma_line_cells(x0: int, y0: int, xn: int, yn: int)
    ensures
        line_cells(x0, y0, xn, yn).len() >= 1,
        line_cells(x0, y0, xn, yn)[0] == (x0, y0),
        line_cells(x0, y0, xn, yn).last() == (xn, yn),
        forall|i: int|
            0 <= i < line_cells(x0, y0, xn, yn).len() ==> in_box(
                #[trigger] line_cells(x0, y0, xn, yn)[i],
                x0,
                y0,
                xn,
                yn,
            ),
        forall|i: int|
            0 <= i < line_cells(x0, y0, xn, yn).len() - 1 ==> adjacent(
                #[trigger] line_cells(x0, y0, xn, yn)[i],
                line_cells(x0, y0, xn, yn)[i + 1],
            ),
{
    lemma_line_walk(x0, y0, xn, yn, 0, 0, (span(x0, xn) + span(y0, yn) + 1) as nat);
}

impl Canvas {
    /// Draws `ch` on every cell of the Bresenham line from `from` to `to`.
    pub fn line(&mut self, from: (usize, usize), to: (usize, usize), ch: char)
        requires
            old(self).wf(),
            old(self).holds(from.0 as int, from.1 as int),
            old(self).holds(to.0 as int, to.1 as int),
        ensures
            final(self).same_size(old(self)),
            forall|x: int, y: int|
                final(self).holds(x, y) ==> #[trigger] final(self)@[y][x] == if line_cells(
                    from.0 as int,
                    from.1 as int,
                    to.0 as int,
                    to.1 as int,
                ).contains((x, y)) {
                    ch
                } else {
                    old(self)@[y][x]
                },
    {
        let (x0, y0) = from;
        let (xn, yn) = to;
        let forward_x = x0 < xn;
        let forward_y = y0 < yn;
        let dx: usize = if forward_x {
            xn - x0
        } else {
            x0 - xn
        };
        let dy: usize = if forward_y {
            yn - y0
        } else {
            y0 - yn
        };
        let dxi = dx as i128;
        let dyi = dy as i128;
        let mut err: i128 = dxi - dyi;
        let mut x = x0;
        let mut y = y0;
        let ghost mut a: int = 0;
        let ghost mut b: int = 0;
        let ghost mut fuel: nat = (dx + dy + 1) as nat;
        let ghost mut painted: Seq<(int, int)> = Seq::empty();
        let ghost start = *self;
        let ghost cells = line_cells(x0 as int, y0 as int, xn as int, yn as int);
        assert(painted + line_walk(x0 as int, y0 as int, xn as int, yn as int, a, b, fuel)
            =~= cells);
        loop
            invariant_except_break
                0 <= a <= dx,
                0 <= b <= dy,
                x == toward(x0 as int, xn as int, a),
                y == toward(y0 as int, yn as int, b),
                err == line_error(dx as int, dy as int, a, b),
                dx - 3 * dy <= 2 * err <= 3 * dx - dy,
                fuel >= (dx - a) + (dy - b) + 1,
                cells == painted + line_walk(x0 as int, y0 as int, xn as int, yn as int, a, b, fuel),
            invariant
                start.wf(),
                start.holds(x0 as int, y0 as int),
                start.holds(xn as int, yn as int),
                forward_x == (x0 < xn),
                forward_y == (y0 < yn),
                dx == span(x0 as int, xn as int),
                dy == span(y0 as int, yn as int),
                dxi == dx,
                dyi == dy,
                cells == line_cells(x0 as int, y0 as int, xn as int, yn as int),
                self.same_size(&start),
                forall|px: int, py: int|
                    self.holds(px, py) ==> #[trigger] self@[py][px] == if painted.contains(
                        (px, py),
                    ) {
                        ch
                    } else {
                        start@[py][px]
                    },
            ensures
                painted == cells,
            decreases (dx - a) + (dy - b),
        {
            let ghost before = *self;
            let ghost here = (x as int, y as int);
            self.set(x, y, ch);
            proof {
                let old_painted = painted;
                painted = painted.push(here);
                assert forall|px: int, py: int| self.holds(px, py) implies #[trigger] self@[py][px]
                    == if painted.contains((px, py)) {
                    ch
                } else {
                    start@[py][px]
                } by {
                    if (px, py) != here {
                        assert(self@[py][px] == before@[py][px]);
                        assert(painted.contains((px, py)) == old_painted.contains((px, py))) by {
                            if painted.contains((px, py)) {
                                let k = choose|k: int| 0 <= k < painted.len() && painted[k] == (px, py);
                                assert(old_painted[k] == (px, py));
                            }
                            if old_painted.contains((px, py)) {
                                let k = choose|k: int| 0 <= k < old_painted.len() && old_painted[k] == (px, py);
                                assert(painted[k] == (px, py));
                            }
                        }
                    } else {
                        assert(painted[painted.len() - 1] == here);
                    }
                }
            }
            if x == xn && y == yn {
                proof {
                    assert(cells =~= painted);
                }
                break;
            }
            proof {
                lemma_line_step(dx as int, dy as int, a, b);
                lemma_error_steps(dx as int, dy as int, a, b);
                lemma_error_steps(dx as int, dy as int, a + 1, b);
            }
            let ghost a0 = a;
            let ghost b0 = b;
            let e2 = 2 * err;
            if e2 > -dyi {
                err = err - dyi;
                x = if forward_x {
                    x + 1
                } else {
                    x - 1
                };
                proof {
                    a = a + 1;
                }
            }
            if e2 < dxi {
                err = err + dxi;
                y = if forward_y {
                    y + 1
                } else {
                    y - 1
                };
                proof {
                    b = b + 1;
                }
            }
            proof {
                let rest = line_walk(x0 as int, y0 as int, xn as int, yn as int, a, b, (fuel - 1) as nat);
                assert(line_walk(x0 as int, y0 as int, xn as int, yn as int, a0, b0, fuel)
                    == seq![here] + rest);
                assert(cells =~= painted + rest);
                fuel = (fuel - 1) as nat;
            }
        }
    }
}

// ---------------------------------------------------------------- boxes

/// The character a box outline with corners `a` and `b`, drawn in `style`
/// (horizontal, vertical, corner), leaves on the cell `(x, y)` that held
/// `under`: corners win over the sides, and the vertical sides over the
/// horizontal ones.
pub open spec fn outline_char(
    x: int,
    y: int,
    a: (int, int),
    b: (int, int),
    style: (char, char, char),
    under: char,
) -> char {
    let on_column = x == a.0 || x == b.0;
    let on_row = y == a.1 || y == b.1;
    let inside = in_box((x, y), a.0, a.1, b.0, b.1);
    if on_column && on_row {
        style.2
    } else if on_column && inside {
        style.1
    } else if on_row && inside {
        style.0
    } else {
        under
    }
}

/// The first column of a label of `n` characters that ends at column `cx`,
/// no further left than the left edge.
pub open spec fn ending_start(cx: int, n: int) -> int {
    if n == 0 {
        cx
    } else if cx >= n - 1 {
        cx - (n - 1)
    } else {
        0
    }
}

/// The first column of a label of `n` characters centred on column `cx`,
/// no further left than the left edge.
pub open spec fn centred_start(cx: int, n: int) -> int {
    if cx >= n / 2 {
        cx - n / 2
    } else {
        0
    }
}

/// `raw` clamped into `floor ..= max(ceiling, floor)`.
pub open spec fn fit(raw: int, floor: int, ceiling: int) -> int {
    let top = if ceiling < floor {
        floor
    } else {
        ceiling
    };
    if raw < floor {
        floor
    } else if raw > top {
        top
    } else {
        raw
    }
}

/// A rule of `width + 2` dashes and a line break.
pub open spec fn rule(width: nat) -> Seq<char> {
    Seq::new(width + 2, |i: int| '-').push('\n')
}

/// Each row between `|` bars, one row per line.
pub open spec fn barred_rows(rows: Seq<Seq<char>>) -> Seq<char>
    decreases rows.len(),
{
    if rows.len() == 0 {
        Seq::empty()
    } else {
        barred_rows(rows.drop_last()) + seq!['|'] + rows.last() + seq!['|', '\n']
    }
}

/// The rows of a canvas `width` cells wide between `|` bars, ruled above
/// and below.
pub open spec fn framed_text(rows: Seq<Seq<char>>, width: nat) -> Seq<char> {
    rule(width) + barred_rows(rows) + rule(width)
}

/// The clamped extent of a canvas: `raw` cells, at least `floor`, at most
/// `ceiling` unless that is below `floor`.
pub fn fit_extent(raw: usize, floor: usize, ceiling: usize) -> (extent: usize)
    ensures
        extent == fit(raw as int, floor as int, ceiling as int),
{
    let top = if ceiling < floor {
        floor
    } else {
        ceiling
    };
    if raw < floor {
        floor
    } else if raw > top {
        top
    } else {
        raw
    }
}

fn push_rule(out: &mut String, width: usize)
    ensures
        final(out)@ == old(out)@ + rule(width as nat),
{
    let mut i: usize = 0;
    while i < width
        invariant
            i <= width,
            out@ == old(out)@ + Seq::new(i as nat, |k: int| '-'),
        decreases width - i,
    {
        push_char(out, '-');
        i += 1;
        assert(Seq::new(i as nat, |k: int| '-') =~= Seq::new((i - 1) as nat, |k: int| '-').push('-'));
    }
    push_char(out, '-');
    push_char(out, '-');
    push_char(out, '\n');
    assert(rule(width as nat) =~= Seq::new(width as nat, |k: int| '-').push('-').push('-').push('\n'));
}

impl Canvas {
    /// A blank canvas `raw_width` x `raw_height` cells, clamped to at least
    /// 10 x 5 and at most `max_width` x `max_height` (when those are larger).
    pub fn fitted(raw_width: usize, raw_height: usize, max_width: usize, max_height: usize) -> (canvas: Canvas)
        ensures
            canvas.wf(),
            canvas.columns() == fit(raw_width as int, 10, max_width as int),
            canvas.rows() == fit(raw_height as int, 5, max_height as int),
            forall|x: int, y: int| canvas.holds(x, y) ==> #[trigger] canvas@[y][x] == ' ',
    {
        let width = fit_extent(raw_width, 10, max_width);
        let height = fit_extent(raw_height, 5, max_height);
        Canvas::new(width, height)
    }

    /// The cell `cx` columns right of the left edge and `dy` rows up from the
    /// bottom edge, clamped to the canvas; rows count down from the top.
    pub fn cell_of(&self, cx: usize, dy: usize) -> (cell: (usize, usize))
        requires
            self.wf(),
        ensures
            cell.0 == (if cx < self.columns() {
                cx as int
            } else {
                self.columns() - 1
            }),
            cell.1 == self.rows() - 1 - (if dy < self.rows() {
                dy as int
            } else {
                self.rows() - 1
            }),
            self.holds(cell.0 as int, cell.1 as int),
    {
        let x = if cx < self.width {
            cx
        } else {
            self.width - 1
        };
        let up = if dy < self.height {
            dy
        } else {
            self.height - 1
        };
        (x, self.height - 1 - up)
    }

    /// Fills the box with corners `a` and `b` with `ch`.
    pub fn rect_fill(&mut self, a: (usize, usize), b: (usize, usize), ch: char)
        requires
            old(self).wf(),
            old(self).holds(a.0 as int, a.1 as int),
            old(self).holds(b.0 as int, b.1 as int),
        ensures
            final(self).same_size(old(self)),
            forall|x: int, y: int|
                final(self).holds(x, y) ==> #[trigger] final(self)@[y][x] == if in_box(
                    (x, y),
                    a.0 as int,
                    a.1 as int,
                    b.0 as int,
                    b.1 as int,
                ) {
                    ch
                } else {
                    old(self)@[y][x]
                },
    {
        let left = if a.0 < b.0 {
            a.0
        } else {
            b.0
        };
        let right = if a.0 < b.0 {
            b.0
        } else {
            a.0
        };
        let top = if a.1 < b.1 {
            a.1
        } else {
            b.1
        };
        let bottom = if a.1 < b.1 {
            b.1
        } else {
            a.1
        };
        let ghost start = *self;
        let mut cy = top;
        while cy <= bottom
            invariant
                top <= cy <= bottom + 1,
                left <= right,
                top <= bottom,
                start.wf(),
                bottom < start.rows(),
                right < start.columns(),
                self.same_size(&start),
                forall|x: int, y: int|
                    self.holds(x, y) ==> #[trigger] self@[y][x] == if top <= y < cy && left <= x
                        <= right {
                        ch
                    } else {
                        start@[y][x]
                    },
            decreases bottom + 1 - cy,
        {
            let mut cx = left;
            while cx <= right
                invariant
                    left <= cx <= right + 1,
                    top <= cy <= bottom,
                    start.wf(),
                    bottom < start.rows(),
                    right < start.columns(),
                    self.same_size(&start),
                    forall|x: int, y: int|
                        self.holds(x, y) ==> #[trigger] self@[y][x] == if (top <= y < cy && left
                            <= x <= right) || (y == cy && left <= x < cx) {
                            ch
                        } else {
                            start@[y][x]
                        },
                decreases right + 1 - cx,
            {
                self.set(cx, cy, ch);
                cx += 1;
            }
            cy += 1;
        }
    }

    /// Outlines the box with corners `a` and `b` in `style`: (horizontal,
    /// vertical, corner).
    pub fn rect_outline(&mut self, a: (usize, usize), b: (usize, usize), style: (char, char, char))
        requires
            old(self).wf(),
            old(self).holds(a.0 as int, a.1 as int),
            old(self).holds(b.0 as int, b.1 as int),
        ensures
            final(self).same_size(old(self)),
            forall|x: int, y: int|
                final(self).holds(x, y) ==> #[trigger] final(self)@[y][x] == outline_char(
                    x,
                    y,
                    (a.0 as int, a.1 as int),
                    (b.0 as int, b.1 as int),
                    style,
                    old(self)@[y][x],
                ),
    {
        let (horizontal, vertical, corner) = style;
        let left = if a.0 < b.0 {
            a.0
        } else {
            b.0
        };
        let right = if a.0 < b.0 {
            b.0
        } else {
            a.0
        };
        let top = if a.1 < b.1 {
            a.1
        } else {
            b.1
        };
        let bottom = if a.1 < b.1 {
            b.1
        } else {
            a.1
        };
        let ghost start = *self;
        let mut cx = left;
        while cx <= right
            invariant
                left <= cx <= right + 1,
                left <= right,
                top <= bottom,
                start.wf(),
                bottom < start.rows(),
                right < start.columns(),
                self.same_size(&start),
                forall|x: int, y: int|
                    self.holds(x, y) ==> #[trigger] self@[y][x] == if (y == top || y == bottom)
                        && left <= x < cx {
                        horizontal
                    } else {
                        start@[y][x]
                    },
            decreases right + 1 - cx,
        {
            self.set(cx, top, horizontal);
            self.set(cx, bottom, horizontal);
            cx += 1;
        }
        let mut cy = top;
        while cy <= bottom
            invariant
                top <= cy <= bottom + 1,
                left <= right,
                top <= bottom,
                start.wf(),
                bottom < start.rows(),
                right < start.columns(),
                self.same_size(&start),
                forall|x: int, y: int|
                    self.holds(x, y) ==> #[trigger] self@[y][x] == if (x == left || x == right)
                        && top <= y < cy {
                        vertical
                    } else if (y == top || y == bottom) && left <= x <= right {
                        horizontal
                    } else {
                        start@[y][x]
                    },
            decreases bottom + 1 - cy,
        {
            self.set(left, cy, vertical);
            self.set(right, cy, vertical);
            cy += 1;
        }
        self.set(left, top, corner);
        self.set(right, top, corner);
        self.set(left, bottom, corner);
        self.set(right, bottom, corner);
    }

    fn put_chars(&mut self, start: usize, cy: usize, text: &[char])
        requires
            old(self).wf(),
            cy < old(self).rows(),
        ensures
            final(self).same_size(old(self)),
            forall|x: int, y: int|
                final(self).holds(x, y) ==> #[trigger] final(self)@[y][x] == if y == cy && start
                    <= x < start + text@.len() {
                    text@[x - start]
                } else {
                    old(self)@[y][x]
                },
    {
        let ghost first = *self;
        let mut i: usize = 0;
        while i < text.len()
            invariant
                i <= text.len(),
                first.wf(),
                cy < first.rows(),
                self.same_size(&first),
                forall|x: int, y: int|
                    self.holds(x, y) ==> #[trigger] self@[y][x] == if y == cy && start <= x < start
                        + i {
                        text@[x - start]
                    } else {
                        first@[y][x]
                    },
            decreases text.len() - i,
        {
            if i < self.width && start < self.width - i {
                self.set(start + i, cy, text[i]);
            }
            i += 1;
        }
    }

    /// Writes `text` from column `start` of row `cy` rightwards, dropping
    /// what falls beyond the right edge.
    pub fn put(&mut self, start: usize, cy: usize, text: &str)
        requires
            old(self).wf(),
            cy < old(self).rows(),
        ensures
            final(self).same_size(old(self)),
            forall|x: int, y: int|
                final(self).holds(x, y) ==> #[trigger] final(self)@[y][x] == if y == cy && start
                    <= x < start + text@.len() {
                    text@[x - start]
                } else {
                    old(self)@[y][x]
                },
    {
        let chars = chars_of(text);
        self.put_chars(start, cy, chars.as_slice());
    }

    /// Writes `text` so that it ends at `cell` (a label left of a pin that
    /// points right), starting no further left than the left edge.
    pub fn label_ending_at(&mut self, cell: (usize, usize), text: &str)
        requires
            old(self).wf(),
            old(self).holds(cell.0 as int, cell.1 as int),
        ensures
            final(self).same_size(old(self)),
            forall|x: int, y: int|
                final(self).holds(x, y) ==> #[trigger] final(self)@[y][x] == if y == cell.1
                    && ending_start(cell.0 as int, text@.len() as int) <= x < ending_start(
                    cell.0 as int,
                    text@.len() as int,
                ) + text@.len() {
                    text@[x - ending_start(cell.0 as int, text@.len() as int)]
                } else {
                    old(self)@[y][x]
                },
    {
        let chars = chars_of(text);
        let n = chars.len();
        let start = if n == 0 {
            cell.0
        } else if cell.0 >= n - 1 {
            cell.0 - (n - 1)
        } else {
            0
        };
        self.put_chars(start, cell.1, chars.as_slice());
    }

    /// Writes `text` centred on `cell`, starting no further left than the
    /// left edge.
    pub fn label_centred(&mut self, cell: (usize, usize), text: &str)
        requires
            old(self).wf(),
            old(self).holds(cell.0 as int, cell.1 as int),
        ensures
            final(self).same_size(old(self)),
            forall|x: int, y: int|
                final(self).holds(x, y) ==> #[trigger] final(self)@[y][x] == if y == cell.1
                    && centred_start(cell.0 as int, text@.len() as int) <= x < centred_start(
                    cell.0 as int,
                    text@.len() as int,
                ) + text@.len() {
                    text@[x - centred_start(cell.0 as int, text@.len() as int)]
                } else {
                    old(self)@[y][x]
                },
    {
        let chars = chars_of(text);
        let half = chars.len() / 2;
        let start = if cell.0 >= half {
            cell.0 - half
        } else {
            0
        };
        self.put_chars(start, cell.1, chars.as_slice());
    }

    /// Marks the origin `cell` with `+`, only where nothing is drawn, so that
    /// the mark never hides a primitive.
    pub fn origin(&mut self, cell: (usize, usize))
        requires
            old(self).wf(),
            old(self).holds(cell.0 as int, cell.1 as int),
        ensures
            final(self).same_size(old(self)),
            final(self)@ == (if old(self)@[cell.1 as int][cell.0 as int] == ' ' {
                old(self)@.update(
                    cell.1 as int,
                    old(self)@[cell.1 as int].update(cell.0 as int, '+'),
                )
            } else {
                old(self)@
            }),
    {
        if self.get(cell.0, cell.1) == ' ' {
            self.set(cell.0, cell.1, '+');
        }
    }

    /// The canvas as text: each row between `|` bars, ruled above and below.
    pub fn framed(&self) -> (text: String)
        requires
            self.wf(),
        ensures
            text@ == framed_text(self@, self.columns()),
    {
        proof {
            self.lemma_view();
        }
        let mut out = String::new();
        push_rule(&mut out, self.width);
        let mut y: usize = 0;
        while y < self.height
            invariant
                self.wf(),
                y <= self.height,
                self.cells@.len() == self.height,
                forall|r: int| 0 <= r < self.height ==> #[trigger] self.cells@[r]@ == self@[r],
                out@ == rule(self.columns()) + barred_rows(self@.take(y as int)),
            decreases self.height - y,
        {
            push_char(&mut out, '|');
            push_chars(&mut out, self.cells[y].as_slice());
            push_char(&mut out, '|');
            push_char(&mut out, '\n');
            y += 1;
            assert(self@.take(y as int).drop_last() =~= self@.take(y - 1));
            assert(self@.take(y as int).last() == self@[y - 1]);
        }
        assert(self@.take(self.height as int) =~= self@);
        push_rule(&mut out, self.width);
        out
    }
}

proof fn lemma_barred_rows_len(rows: Seq<Seq<char>>, width: nat)
    requires
        forall|y: int| 0 <= y < rows.len() ==> #[trigger] rows[y].len() == width,
    ensures
        barred_rows(rows).len() == rows.len() * (width + 3),
    decreases rows.len(),
{
    if rows.len() > 0 {
        let rest = rows.drop_last();
        assert forall|y: int| 0 <= y < rest.len() implies #[trigger] rest[y].len() == width by {
            assert(rest[y] == rows[y]);
        }
        lemma_barred_rows_len(rest, width);
        assert(rows.last().len() == width);
        assert(rows.len() * (width + 3) == rest.len() * (width + 3) + (width + 3)) by (nonlinear_arith)
            requires
                rows.len() == rest.len() + 1,
        ;
    }
}

/// The framed text of a canvas is `rows + 2` lines of `columns + 3`
/// characters each (line breaks included): a rule, one line per row, a rule.
pub proof fn lemma_framed_size(canvas: &Canvas)
    requires
        canvas.wf(),
    ensures
        framed_text(canvas@, canvas.columns()).len() == (canvas.rows() + 2) * (canvas.columns()
            + 3),
{
    lemma_barred_rows_len(canvas@, canvas.columns());
    let w = canvas.columns();
    let h = canvas.rows();
    assert((h + 2) * (w + 3) == h * (w + 3) + 2 * (w + 3)) by (nonlinear_arith);
}

} // verus!
