//! RGBA8 pixel buffer that a render fills row by row.
use vstd::prelude::*;

verus! {

/// A `width` x `height` RGBA8 buffer has a byte count that fits in `usize`.
pub open spec fn canvas_fits(width: int, height: int) -> bool {
    width * height * 4 <= usize::MAX
}

/// Abstract state of a canvas: its size and its bytes, four per pixel, row
/// after row.
pub struct CanvasModel {
    pub width: int,
    pub height: int,
    pub bytes: Seq<u8>,
}

impl CanvasModel {
    /// Bytes in one row.
    pub open spec fn stride(self) -> int {
        self.width * 4
    }

    /// The byte count matches the size.
    pub open spec fn wf(self) -> bool {
        &&& 0 <= self.width <= u16::MAX
        &&& 0 <= self.height <= u16::MAX
        &&& self.bytes.len() == self.height * self.stride()
    }

    /// The bytes of row `y`.
    pub open spec fn row(self, y: int) -> Seq<u8> {
        self.bytes.subrange(y * self.stride(), (y + 1) * self.stride())
    }

    /// The canvas with row `y` replaced by `r`.
    pub open spec fn with_row(self, y: int, r: Seq<u8>) -> CanvasModel {
        CanvasModel {
            width: self.width,
            height: self.height,
            bytes: self.bytes.subrange(0, y * self.stride()) + r + self.bytes.subrange(
                (y + 1) * self.stride(),
                self.bytes.len() as int,
            ),
        }
    }
}

/// The value of byte `i` of an opaque black canvas: red, green and blue are
/// 0 and alpha is 255.
pub open spec fn opaque_black_byte(i: int) -> u8 {
    if i % 4 == 3 {
        255
    } else {
        0
    }
}

/// An RGBA8 canvas.
pub struct Canvas {
    width: u16,
    height: u16,
    bytes: Vec<u8>,
}

impl View for Canvas {
    type V = CanvasModel;

    closed spec fn view(&self) -> CanvasModel {
        CanvasModel { width: self.width as int, height: self.height as int, bytes: self.bytes@ }
    }
}

proof fn lemma_row_bounds(y: int, h: int, s: int)
    requires
        0 <= y < h,
        0 <= s,
    ensures
        0 <= y * s,
        y * s + s == (y + 1) * s,
        (y + 1) * s <= h * s,
{
    assert(0 <= y * s) by (nonlinear_arith)
        requires
            0 <= y,
            0 <= s,
    ;
    assert(y * s + s == (y + 1) * s) by (nonlinear_arith);
    assert((y + 1) * s <= h * s) by (nonlinear_arith)
        requires
            y + 1 <= h,
            0 <= s,
    ;
}

proof fn lemma_rows_apart(y1: int, y2: int, s: int)
    requires
        0 <= y1 < y2,
        0 <= s,
    ensures
        (y1 + 1) * s <= y2 * s,
{
    assert((y1 + 1) * s <= y2 * s) by (nonlinear_arith)
        requires
            y1 + 1 <= y2,
            0 <= s,
    ;
}

/// Writing a row and reading it back gives what was written; every other
/// row reads as before, and the size stays.
pub proof fn lemma_read_after_write(m: CanvasModel, y: int, r: Seq<u8>, other: int)
    requires
        m.wf(),
        0 <= y < m.height,
        r.len() == m.stride(),
        0 <= other < m.height,
        other != y,
    ensures
        m.with_row(y, r).wf(),
        m.with_row(y, r).row(y) == r,
        m.with_row(y, r).row(other) == m.row(other),
{
    let s = m.stride();
    lemma_row_bounds(y, m.height, s);
    lemma_row_bounds(other, m.height, s);
    let w = m.with_row(y, r);
    assert(w.bytes.len() == m.bytes.len());
    assert(w.row(y) =~= r);
    if other < y {
        lemma_rows_apart(other, y, s);
    } else {
        lemma_rows_apart(y, other, s);
    }
    assert(w.row(other) =~= m.row(other));
}

/// Writing row `y` changes exactly the bytes `y * width * 4` to
/// `(y + 1) * width * 4 - 1`, which take the new row's bytes in order; the
/// size and every other byte stay. Row `y` reads back those same bytes.
pub proof fn lemma_row_bytes(m: CanvasModel, y: int, r: Seq<u8>)
    requires
        m.wf(),
        0 <= y < m.height,
        r.len() == m.width * 4,
    ensures
        m.with_row(y, r).width == m.width,
        m.with_row(y, r).height == m.height,
        m.with_row(y, r).bytes.len() == m.bytes.len(),
        forall|j: int|
            0 <= j < m.bytes.len() ==> #[trigger] m.with_row(y, r).bytes[j] == if y * m.width * 4
                <= j < y * m.width * 4 + m.width * 4 {
                r[j - y * m.width * 4]
            } else {
                m.bytes[j]
            },
        m.row(y).len() == m.width * 4,
        forall|i: int| 0 <= i < m.width * 4 ==> #[trigger] m.row(y)[i] == m.bytes[y * m.width * 4 + i],
{
    let s = m.stride();
    lemma_row_bounds(y, m.height, s);
    assert(y * s == y * m.width * 4) by (nonlinear_arith)
        requires
            s == m.width * 4,
    ;
}

impl Canvas {
    /// A `width` x `height` canvas, every pixel opaque black.
    pub fn new_opaque_black(width: u16, height: u16) -> (c: Self)
        requires
            canvas_fits(width as int, height as int),
        ensures
            c@.wf(),
            c@.width == width,
            c@.height == height,
            forall|i: int| 0 <= i < c@.bytes.len() ==> #[trigger] c@.bytes[i] == opaque_black_byte(i),
            forall|p: int|
                0 <= p < width as int * height as int ==> {
                    &&& #[trigger] c@.bytes[4 * p] == 0
                    &&& c@.bytes[4 * p + 1] == 0
                    &&& c@.bytes[4 * p + 2] == 0
                    &&& c@.bytes[4 * p + 3] == 255
                },
    {
        proof {
            assert(width as int * height as int * 4 == height as int * (width as int * 4))
                by (nonlinear_arith);
            assert(0 <= width as int * height as int) by (nonlinear_arith);
        }
        let n: usize = width as usize * height as usize * 4;
        let mut bytes: Vec<u8> = Vec::with_capacity(n);
        let mut i: usize = 0;
        while i < n
            invariant
                i <= n,
                bytes@.len() == i,
                forall|j: int| 0 <= j < i ==> #[trigger] bytes@[j] == opaque_black_byte(j),
            decreases n - i,
        {
            let v: u8 = if i % 4 == 3 {
                255
            } else {
                0
            };
            bytes.push(v);
            i += 1;
        }
        proof {
            assert forall|p: int| 0 <= p < width as int * height as int implies {
                &&& #[trigger] bytes@[4 * p] == 0
                &&& bytes@[4 * p + 1] == 0
                &&& bytes@[4 * p + 2] == 0
                &&& bytes@[4 * p + 3] == 255
            } by {
                assert(bytes@[4 * p] == opaque_black_byte(4 * p));
                assert(bytes@[4 * p + 1] == opaque_black_byte(4 * p + 1));
                assert(bytes@[4 * p + 2] == opaque_black_byte(4 * p + 2));
                assert(bytes@[4 * p + 3] == opaque_black_byte(4 * p + 3));
            }
        }
        Canvas { width, height, bytes }
    }

    /// Width in pixels.
    pub fn width(&self) -> (w: u16)
        ensures
            w as int == self@.width,
    {
        self.width
    }

    /// Height in pixels.
    pub fn height(&self) -> (h: u16)
        ensures
            h as int == self@.height,
    {
        self.height
    }

    /// Bytes in one row: four per pixel.
    pub fn row_stride(&self) -> (s: usize)
        ensures
            s as int == self@.stride(),
    {
        self.width as usize * 4
    }

    /// All bytes, row after row.
    pub fn as_bytes(&self) -> (b: &Vec<u8>)
        ensures
            b@ == self@.bytes,
    {
        &self.bytes
    }

    /// Replaces row `y` by `row`.
    pub fn write_row(&mut self, y: u16, row: &[u8])
        requires
            old(self)@.wf(),
            (y as int) < old(self)@.height,
            row@.len() == old(self)@.stride(),
        ensures
            final(self)@ == old(self)@.with_row(y as int, row@),
            final(self)@.wf(),
    {
        let ghost m = self@;
        let stride: usize = self.width as usize * 4;
        proof {
            lemma_row_bounds(y as int, m.height, m.stride());
        }
        let total: usize = self.bytes.len();
        let start: usize = y as usize * stride;
        let mut i: usize = 0;
        while i < stride
            invariant
                self.width == m.width,
                self.height == m.height,
                stride == m.stride(),
                start == y as int * m.stride(),
                start + stride <= m.bytes.len(),
                total == m.bytes.len(),
                row@.len() == stride,
                i <= stride,
                self.bytes@.len() == m.bytes.len(),
                forall|j: int|
                    0 <= j < m.bytes.len() ==> #[trigger] self.bytes@[j] == if start <= j < start
                        + i {
                        row@[j - start]
                    } else {
                        m.bytes[j]
                    },
            decreases stride - i,
        {
            self.bytes.set(start + i, row[i]);
            i += 1;
        }
        proof {
            assert(self@.bytes =~= m.with_row(y as int, row@).bytes);
        }
    }

    /// A copy of the bytes of row `y`.
    pub fn row(&self, y: u16) -> (r: Vec<u8>)
        requires
            self@.wf(),
            (y as int) < self@.height,
        ensures
            r@ == self@.row(y as int),
    {
        let stride: usize = self.width as usize * 4;
        proof {
            lemma_row_bounds(y as int, self@.height, self@.stride());
        }
        let total: usize = self.bytes.len();
        let start: usize = y as usize * stride;
        let mut r: Vec<u8> = Vec::with_capacity(stride);
        let mut i: usize = 0;
        while i < stride
            invariant
                stride == self@.stride(),
                start == y as int * self@.stride(),
                start + stride <= self@.bytes.len(),
                total == self@.bytes.len(),
                i <= stride,
                r@ == self@.bytes.subrange(start as int, start + i),
            decreases stride - i,
        {
            r.push(self.bytes[start + i]);
            i += 1;
            proof {
                assert(r@ =~= self@.bytes.subrange(start as int, start + i));
            }
        }
        r
    }
}

/// Packs RGBA pixels into bytes, four per pixel in the order red, green,
/// blue, alpha.
pub fn pack_pixels(pixels: &[[u8; 4]]) -> (bytes: Vec<u8>)
    requires
        pixels@.len() * 4 <= usize::MAX,
    ensures
        bytes@.len() == pixels@.len() * 4,
        forall|x: int, c: int|
            0 <= x < pixels@.len() && 0 <= c < 4 ==> #[trigger] bytes@[x * 4 + c]
                == pixels@[x]@[c],
{
    let n = pixels.len();
    let mut bytes: Vec<u8> = Vec::with_capacity(n * 4);
    let mut x: usize = 0;
    while x < n
        invariant
            n == pixels@.len(),
            n * 4 <= usize::MAX,
            x <= n,
            bytes@.len() == x * 4,
            forall|x2: int, c: int|
                0 <= x2 < x && 0 <= c < 4 ==> #[trigger] bytes@[x2 * 4 + c] == pixels@[x2]@[c],
        decreases n - x,
    {
        let px = pixels[x];
        bytes.push(px[0]);
        bytes.push(px[1]);
        bytes.push(px[2]);
        bytes.push(px[3]);
        x += 1;
    }
    bytes
}

} // verus!
