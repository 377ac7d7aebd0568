use vstd::prelude::*;

verus! {

/// First buffer index of the pixels that row task `y` renders.
///
/// Task `y` renders camera row `y`, counted from the bottom of the image,
/// and the buffer is stored top row first, so that row lands at buffer row
/// `height - 1 - y`.
pub open spec fn row_start(y: int, width: int, height: int) -> int {
    (height - 1 - y) * width
}

/// Whether buffer index `p` belongs to the pixels of row task `y`.
pub open spec fn in_row(p: int, y: int, width: int, height: int) -> bool {
    row_start(y, width, height) <= p < row_start(y, width, height) + width
}

proof fn lemma_row_end_fits(y: int, width: int, height: int)
    requires
        0 <= y < height,
        0 <= width,
    ensures
        0 <= row_start(y, width, height),
        row_start(y, width, height) + width <= width * height,
{
    assert(0 <= (height - 1 - y) * width) by (nonlinear_arith)
        requires
            0 <= height - 1 - y,
            0 <= width,
    ;
    assert((height - 1 - y) * width + width == (height - y) * width) by (nonlinear_arith);
    assert((height - y) * width <= height * width) by (nonlinear_arith)
        requires
            0 <= y,
            0 <= width,
    ;
}

/// The half-open range of buffer indices that row task `y` owns.
pub fn row_span(y: usize, width: usize, height: usize) -> (r: (usize, usize))
    requires
        y < height,
        width * height <= usize::MAX,
    ensures
        r.0 == row_start(y as int, width as int, height as int),
        r.1 == r.0 + width,
        r.1 <= width * height,
{
    proof {
        lemma_row_end_fits(y as int, width as int, height as int);
    }
    let start = (height - 1 - y) * width;
    (start, start + width)
}

/// The row tasks of a `width` by `height` image, one per row, in the order
/// in which they are submitted.
pub fn row_spans(width: usize, height: usize) -> (r: Vec<(usize, usize)>)
    requires
        width * height <= usize::MAX,
    ensures
        r@.len() == height,
        forall|y: int|
            0 <= y < height ==> (#[trigger] r@[y]).0 == row_start(y, width as int, height as int)
                && r@[y].1 == r@[y].0 + width,
{
    let mut spans: Vec<(usize, usize)> = Vec::new();
    let mut y: usize = 0;
    while y < height
        invariant
            y <= height,
            width * height <= usize::MAX,
            spans@.len() == y,
            forall|k: int|
                0 <= k < y ==> (#[trigger] spans@[k]).0 == row_start(
                    k,
                    width as int,
                    height as int,
                ) && spans@[k].1 == spans@[k].0 + width,
        decreases height - y,
    {
        let span = row_span(y, width, height);
        spans.push(span);
        y = y + 1;
    }
    spans
}

/// Row tasks partition the frame buffer: every buffer index below
/// `width * height` belongs to exactly one row task, and no row task owns an
/// index outside the buffer.
pub proof fn lemma_rows_partition(width: nat, height: nat, p: int)
    ensures
        0 <= p < width * height ==> exists|y: int|
            0 <= y < height && #[trigger] in_row(p, y, width as int, height as int),
        forall|y1: int, y2: int|
            0 <= y1 < height && 0 <= y2 < height && #[trigger] in_row(
                p,
                y1,
                width as int,
                height as int,
            ) && #[trigger] in_row(p, y2, width as int, height as int) ==> y1 == y2,
        forall|y: int|
            0 <= y < height && #[trigger] in_row(p, y, width as int, height as int) ==> 0 <= p
                < width * height,
{
    let w = width as int;
    let h = height as int;
    if 0 <= p < w * h {
        assert(w > 0) by (nonlinear_arith)
            requires
                0 <= p < w * h,
                h >= 0,
                w >= 0,
        ;
        let q = p / w;
        let y = h - 1 - q;
        assert(q * w <= p < q * w + w) by (nonlinear_arith)
            requires
                w > 0,
                q == p / w,
        ;
        assert(q < h) by (nonlinear_arith)
            requires
                w > 0,
                q * w <= p,
                p < w * h,
        ;
        assert(0 <= q) by (nonlinear_arith)
            requires
                w > 0,
                0 <= p,
                q == p / w,
        ;
        assert(in_row(p, y, w, h));
    }
    assert forall|y1: int, y2: int|
        0 <= y1 < height && 0 <= y2 < height && #[trigger] in_row(p, y1, w, h) && #[trigger] in_row(
            p,
            y2,
            w,
            h,
        ) implies y1 == y2 by {
        let a = h - 1 - y1;
        let b = h - 1 - y2;
        if a < b {
            assert(a * w + w <= b * w) by (nonlinear_arith)
                requires
                    a < b,
                    w >= 0,
            ;
        } else if b < a {
            assert(b * w + w <= a * w) by (nonlinear_arith)
                requires
                    b < a,
                    w >= 0,
            ;
        }
    }
    assert forall|y: int| 0 <= y < height && #[trigger] in_row(p, y, w, h) implies 0 <= p < w * h by {
        lemma_row_end_fits(y, w, h);
    }
}

/// `after` is `before` with the span of row task `y` replaced by `row`.
pub open spec fn row_written<T>(
    before: Seq<T>,
    after: Seq<T>,
    row: Seq<T>,
    y: int,
    width: int,
    height: int,
) -> bool {
    &&& after.len() == before.len()
    &&& forall|p: int|
        0 <= p < after.len() ==> #[trigger] after[p] == if in_row(p, y, width, height) {
            row[p - row_start(y, width, height)]
        } else {
            before[p]
        }
}

/// Why a frame operation was refused.
#[derive(Clone, Copy, Debug, PartialEq, Eq, Structural)]
pub enum FrameError {
    /// `width * height` does not fit in `usize`.
    TooLarge,
    /// The row task index is not below the frame height.
    RowOutOfRange,
    /// The row handed in does not hold exactly `width` pixels.
    WrongLength,
    /// The row was already delivered: a pixel would be written twice.
    RowTaken,
    /// Some row has not been delivered yet.
    Incomplete,
}

/// A frame buffer of `width * height` pixels, filled one row task at a time.
///
/// Each row task delivers its pixels once; the buffer can be taken out only
/// when every row has been delivered.
pub struct Frame<T> {
    width: usize,
    height: usize,
    pixels: Vec<T>,
    done: Vec<bool>,
}

impl<T: Copy> Frame<T> {
    pub closed spec fn spec_width(&self) -> nat {
        self.width as nat
    }

    pub closed spec fn spec_height(&self) -> nat {
        self.height as nat
    }

    /// The pixels, row-major, top row first.
    pub closed spec fn spec_pixels(&self) -> Seq<T> {
        self.pixels@
    }

    /// Which row tasks have delivered their row.
    pub closed spec fn spec_done(&self) -> Seq<bool> {
        self.done@
    }

    pub open spec fn wf(&self) -> bool {
        &&& self.spec_width() * self.spec_height() <= usize::MAX
        &&& self.spec_pixels().len() == self.spec_width() * self.spec_height()
        &&& self.spec_done().len() == self.spec_height()
    }

    pub open spec fn spec_complete(&self) -> bool {
        forall|y: int| 0 <= y < self.spec_height() ==> #[trigger] self.spec_done()[y]
    }

    pub fn width(&self) -> (r: usize)
        ensures
            r == self.spec_width(),
    {
        self.width
    }

    pub fn height(&self) -> (r: usize)
        ensures
            r == self.spec_height(),
    {
        self.height
    }

    /// A frame with every pixel set to `blank` and no row delivered.
    pub fn new(width: usize, height: usize, blank: T) -> (r: Result<Frame<T>, FrameError>)
        ensures
            width * height > usize::MAX <==> r is Err,
            r is Err ==> r->Err_0 == FrameError::TooLarge,
            r matches Ok(f) ==> {
                &&& f.wf()
                &&& f.spec_width() == width
                &&& f.spec_height() == height
                &&& f.spec_pixels() == Seq::new((width * height) as nat, |i: int| blank)
                &&& f.spec_done() == Seq::new(height as nat, |i: int| false)
            },
    {
        let n = match width.checked_mul(height) {
            Some(n) => n,
            None => {
                return Err(FrameError::TooLarge);
            },
        };
        let mut pixels: Vec<T> = Vec::new();
        let mut i: usize = 0;
        while i < n
            invariant
                i <= n,
                pixels@ == Seq::new(i as nat, |k: int| blank),
            decreases n - i,
        {
            pixels.push(blank);
            i = i + 1;
            assert(pixels@ =~= Seq::new(i as nat, |k: int| blank));
        }
        let mut done: Vec<bool> = Vec::new();
        let mut j: usize = 0;
        while j < height
            invariant
                j <= height,
                done@ == Seq::new(j as nat, |k: int| false),
            decreases height - j,
        {
            done.push(false);
            j = j + 1;
            assert(done@ =~= Seq::new(j as nat, |k: int| false));
        }
        Ok(Frame { width, height, pixels, done })
    }

    /// Writes the pixels of row task `y` into its own span of the buffer.
    pub fn place_row(&mut self, y: usize, row: &Vec<T>) -> (r: Result<(), FrameError>)
        requires
            old(self).wf(),
        ensures
            final(self).wf(),
            final(self).spec_width() == old(self).spec_width(),
            final(self).spec_height() == old(self).spec_height(),
            y >= old(self).spec_height() ==> r == Err::<(), FrameError>(FrameError::RowOutOfRange),
            y < old(self).spec_height() && row@.len() != old(self).spec_width()
                ==> r == Err::<(), FrameError>(FrameError::WrongLength),
            y < old(self).spec_height() && row@.len() == old(self).spec_width()
                && old(self).spec_done()[y as int]
                ==> r == Err::<(), FrameError>(FrameError::RowTaken),
            y < old(self).spec_height() && row@.len() == old(self).spec_width()
                && !old(self).spec_done()[y as int] ==> r is Ok,
            r is Err ==> *final(self) == *old(self),
            r is Ok ==> {
                &&& y < old(self).spec_height()
                &&& row@.len() == old(self).spec_width()
                &&& !old(self).spec_done()[y as int]
                &&& final(self).spec_done() == old(self).spec_done().update(y as int, true)
                &&& row_written(
                    old(self).spec_pixels(),
                    final(self).spec_pixels(),
                    row@,
                    y as int,
                    old(self).spec_width() as int,
                    old(self).spec_height() as int,
                )
            },
    {
        if y >= self.height {
            return Err(FrameError::RowOutOfRange);
        }
        if row.len() != self.width {
            return Err(FrameError::WrongLength);
        }
        if self.done[y] {
            return Err(FrameError::RowTaken);
        }
        let (start, end) = row_span(y, self.width, self.height);
        let ghost before = self.pixels@;
        let mut i: usize = 0;
        while i < self.width
            invariant
                self.wf(),
                self.width == old(self).width,
                self.height == old(self).height,
                self.done == old(self).done,
                before == old(self).pixels@,
                row@.len() == self.width,
                start == row_start(y as int, self.width as int, self.height as int),
                end == start + self.width,
                end <= self.width * self.height,
                i <= self.width,
                forall|p: int|
                    0 <= p < self.pixels@.len() ==> #[trigger] self.pixels@[p] == if start <= p
                        < start + i {
                        row@[p - start]
                    } else {
                        before[p]
                    },
            decreases self.width - i,
        {
            self.pixels.set(start + i, row[i]);
            i = i + 1;
        }
        self.done.set(y, true);
        Ok(())
    }

    /// Whether every row task has delivered its row.
    pub fn is_complete(&self) -> (r: bool)
        requires
            self.wf(),
        ensures
            r == self.spec_complete(),
    {
        let mut y: usize = 0;
        while y < self.height
            invariant
                self.wf(),
                y <= self.height,
                forall|k: int| 0 <= k < y ==> #[trigger] self.done@[k],
            decreases self.height - y,
        {
            if !self.done[y] {
                return false;
            }
            y = y + 1;
        }
        true
    }

    /// Hands out the pixels once every row has been delivered.
    pub fn into_pixels(self) -> (r: Result<Vec<T>, FrameError>)
        requires
            self.wf(),
        ensures
            self.spec_complete() ==> r is Ok && r->Ok_0@ == self.spec_pixels(),
            !self.spec_complete() ==> r == Err::<Vec<T>, FrameError>(FrameError::Incomplete),
    {
        if self.is_complete() {
            Ok(self.pixels)
        } else {
            Err(FrameError::Incomplete)
        }
    }
}

} // verus!
