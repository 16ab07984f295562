//! Framebuffer core: the single source of truth for the on-device pixel
//! buffer.
//!
//! The buffer is modelled as one byte-addressable region of
//! `width * height * bytes_per_pixel` bytes, row-major, each pixel occupying
//! `bytes_per_pixel` consecutive bytes. Out-of-range coordinates are rejected
//! with an explicit error rather than touching adjacent memory, and a region
//! restore with a wrong-length buffer fails loudly with a size mismatch.
//!
//! The mapping of this buffer onto the actual device memory, and the ioctl
//! calls behind the control-plane toggles, are the unverified runtime's
//! business; the core records the chosen modes and owns the bytes.

use vstd::prelude::*;

use crate::geom::Rect;
use crate::refresh::PendingRefresh;

verus! {

/// Errors surfaced by the framebuffer core.
#[derive(Clone, Copy, Debug, PartialEq, Eq, Structural)]
pub enum FbError {
    /// A coordinate or region lies outside the panel.
    OutOfBounds,
    /// A supplied buffer's length does not match the addressed region.
    SizeMismatch,
}

/// The framebuffer: pixel bytes plus the refresh controller's bookkeeping.
pub struct Framebuffer {
    /// The pixel bytes, row-major, `bytes_per_pixel` bytes per pixel.
    pub buf: Vec<u8>,
    /// Panel width in pixels.
    pub width: u32,
    /// Panel height in pixels.
    pub height: u32,
    /// Bytes occupied by one pixel.
    pub bytes_per_pixel: u32,
    /// The next refresh marker to hand out; markers are issued monotonically.
    pub next_marker: u32,
    /// Outstanding refresh submissions, not yet waited on.
    pub pending: Vec<PendingRefresh>,
    /// Last state set on the EPD controller access toggle.
    pub epdc_access: bool,
    /// Last autoupdate mode handed to the control plane.
    pub autoupdate_mode: u32,
    /// Last update scheme handed to the control plane.
    pub update_scheme: u32,
}

impl Framebuffer {
    /// Well-formedness: the buffer covers the panel exactly, and the pending
    /// markers are distinct and all below the next marker to be issued.
    pub open spec fn wf(self) -> bool {
        &&& self.bytes_per_pixel >= 1
        &&& self.buf@.len() == self.width * self.height * self.bytes_per_pixel
        &&& self.buf@.len() <= usize::MAX
        &&& crate::refresh::pending_wf(self.pending@, self.next_marker)
    }

    /// First byte of the pixel at `(y, x)`.
    pub open spec fn spec_pixel_base(self, y: int, x: int) -> int {
        (y * self.width + x) * self.bytes_per_pixel
    }

    /// `(y, x)` addresses a pixel of the panel.
    pub open spec fn spec_in_bounds(self, y: int, x: int) -> bool {
        0 <= y < self.height && 0 <= x < self.width
    }

    /// `other` is `self` with at most the pixel bytes changed.
    pub open spec fn eq_but_buf(self, other: Framebuffer) -> bool {
        &&& other.width == self.width
        &&& other.height == self.height
        &&& other.bytes_per_pixel == self.bytes_per_pixel
        &&& other.next_marker == self.next_marker
        &&& other.pending@ == self.pending@
        &&& other.epdc_access == self.epdc_access
        &&& other.autoupdate_mode == self.autoupdate_mode
        &&& other.update_scheme == self.update_scheme
    }

    /// `other` is `self` with at most the refresh bookkeeping (marker counter
    /// and pending set) changed.
    pub open spec fn eq_but_markers(self, other: Framebuffer) -> bool {
        &&& other.buf@ == self.buf@
        &&& other.width == self.width
        &&& other.height == self.height
        &&& other.bytes_per_pixel == self.bytes_per_pixel
        &&& other.epdc_access == self.epdc_access
        &&& other.autoupdate_mode == self.autoupdate_mode
        &&& other.update_scheme == self.update_scheme
    }

    /// The buffer after writing value `v` to every byte of the pixel at
    /// `(y, x)`.
    pub open spec fn spec_with_pixel(self, y: int, x: int, v: u8) -> Seq<u8> {
        Seq::new(
            self.buf@.len(),
            |i: int|
                if self.spec_pixel_base(y, x) <= i < self.spec_pixel_base(y, x)
                    + self.bytes_per_pixel {
                    v
                } else {
                    self.buf@[i]
                },
        )
    }

    /// Creates an in-memory framebuffer for a panel of the given geometry,
    /// cleared to zero, with no refresh outstanding.
    pub fn new(width: u32, height: u32, bytes_per_pixel: u32) -> (r: Framebuffer)
        requires
            bytes_per_pixel >= 1,
            width * height * bytes_per_pixel <= usize::MAX,
        ensures
            r.wf(),
            r.width == width,
            r.height == height,
            r.bytes_per_pixel == bytes_per_pixel,
            r.buf@ == Seq::new((width * height * bytes_per_pixel) as nat, |i: int| 0u8),
            r.next_marker == 0,
            r.pending@ == Seq::<PendingRefresh>::empty(),
            !r.epdc_access,
            r.autoupdate_mode == 0,
            r.update_scheme == 0,
    {
        proof {
            lemma_dims_fit(width as int, height as int, bytes_per_pixel as int);
        }
        let n: u64 = (width as u64) * (height as u64) * (bytes_per_pixel as u64);
        let n: usize = n as usize;
        let mut buf: Vec<u8> = Vec::new();
        let mut i: usize = 0;
        while i < n
            invariant
                i <= n,
                buf@ == Seq::new(i as nat, |j: int| 0u8),
            decreases n - i,
        {
            buf.push(0u8);
            i = i + 1;
            proof {
                assert(buf@ =~= Seq::new(i as nat, |j: int| 0u8));
            }
        }
        Framebuffer {
            buf,
            width,
            height,
            bytes_per_pixel,
            next_marker: 0,
            pending: Vec::new(),
            epdc_access: false,
            autoupdate_mode: 0,
            update_scheme: 0,
        }
    }

    /// Copies out the raw pixel bytes covering `rect`, row by row. Fails with
    /// `OutOfBounds` exactly when `rect` exceeds the panel.
    pub fn dump_region(&self, rect: &Rect) -> (r: Result<Vec<u8>, FbError>)
        requires
            self.wf(),
        ensures
            r is Ok <==> rect.spec_in_panel(self.width as int, self.height as int),
            r matches Ok(bytes) ==> bytes@ == spec_region_bytes(
                self.buf@,
                self.width as int,
                self.bytes_per_pixel as int,
                rect.top as int,
                rect.left as int,
                rect.width as int,
                rect.height as int,
            ),
            r is Err ==> r == Err::<Vec<u8>, FbError>(FbError::OutOfBounds),
    {
        if (rect.top as u64) + (rect.height as u64) > (self.height as u64) || (rect.left as u64)
            + (rect.width as u64) > (self.width as u64) {
            return Err(FbError::OutOfBounds);
        }
        proof {
            lemma_mul_u32_bound(rect.width as int, self.bytes_per_pixel as int);
        }
        let fw = self.width as u64;
        let bpp = self.bytes_per_pixel as u64;
        let row_len: u64 = (rect.width as u64) * bpp;
        let mut out: Vec<u8> = Vec::new();
        let mut yr: u32 = 0;
        while yr < rect.height
            invariant
                self.wf(),
                yr <= rect.height,
                rect.spec_in_panel(self.width as int, self.height as int),
                fw == self.width,
                bpp == self.bytes_per_pixel,
                row_len == rect.width * bpp,
                out@ == spec_region_bytes(
                    self.buf@,
                    self.width as int,
                    self.bytes_per_pixel as int,
                    rect.top as int,
                    rect.left as int,
                    rect.width as int,
                    yr as int,
                ),
            decreases rect.height - yr,
        {
            proof {
                lemma_row_in_buf(
                    self.width as int,
                    self.height as int,
                    self.bytes_per_pixel as int,
                    rect.top + yr,
                    rect.left as int,
                    rect.width as int,
                );
            }
            let row_start: u64 = (((rect.top as u64) + (yr as u64)) * fw + (rect.left as u64))
                * bpp;
            let ghost start = row_start as int;
            let ghost row = spec_row_bytes(
                self.buf@,
                self.width as int,
                self.bytes_per_pixel as int,
                rect.top + yr,
                rect.left as int,
                rect.width as int,
            );
            let ghost out_before = out@;
            let mut off: u64 = 0;
            while off < row_len
                invariant
                    off <= row_len,
                    start == row_start,
                    0 <= start,
                    start + row_len <= self.buf@.len(),
                    self.buf@.len() <= usize::MAX,
                    row == self.buf@.subrange(start, start + row_len),
                    out@ == out_before + self.buf@.subrange(start, start + off),
                decreases row_len - off,
            {
                let b = self.buf[(row_start + off) as usize];
                out.push(b);
                off = off + 1;
                proof {
                    assert(out@ =~= out_before + self.buf@.subrange(start, start + off));
                }
            }
            proof {
                assert(out@ == out_before + row);
                lemma_region_bytes_snoc(
                    self.buf@,
                    self.width as int,
                    self.bytes_per_pixel as int,
                    rect.top as int,
                    rect.left as int,
                    rect.width as int,
                    yr as int,
                );
            }
            yr = yr + 1;
        }
        Ok(out)
    }

    /// Writes previously dumped bytes back into `rect`. Fails with
    /// `OutOfBounds` exactly when `rect` exceeds the panel, and with
    /// `SizeMismatch` exactly when the region fits but `data` does not hold
    /// `width * height * bytes_per_pixel` bytes.
    pub fn restore_region(&mut self, rect: &Rect, data: &[u8]) -> (r: Result<(), FbError>)
        requires
            old(self).wf(),
        ensures
            final(self).wf(),
            old(self).eq_but_buf(*final(self)),
            r is Ok <==> rect.spec_in_panel(old(self).width as int, old(self).height as int)
                && data@.len() == rect.height * rect.width * old(self).bytes_per_pixel,
            r == Err::<(), FbError>(FbError::OutOfBounds) <==> !rect.spec_in_panel(
                old(self).width as int,
                old(self).height as int,
            ),
            r == Err::<(), FbError>(FbError::SizeMismatch) <==> rect.spec_in_panel(
                old(self).width as int,
                old(self).height as int,
            ) && data@.len() != rect.height * rect.width * old(self).bytes_per_pixel,
            r is Ok ==> final(self).buf@ == spec_restore_region(
                old(self).buf@,
                old(self).width as int,
                old(self).bytes_per_pixel as int,
                rect.top as int,
                rect.left as int,
                rect.width as int,
                rect.height as int,
                data@,
            ),
            r is Err ==> *final(self) == *old(self),
    {
        if (rect.top as u64) + (rect.height as u64) > (self.height as u64) || (rect.left as u64)
            + (rect.width as u64) > (self.width as u64) {
            return Err(FbError::OutOfBounds);
        }
        proof {
            lemma_mul_u32_bound(rect.height as int, rect.width as int);
            lemma_mul_u32_bound(rect.width as int, self.bytes_per_pixel as int);
            lemma_region_fits(
                self.width as int,
                self.height as int,
                self.bytes_per_pixel as int,
                rect.width as int,
                rect.height as int,
            );
        }
        let bpp = self.bytes_per_pixel as u64;
        let expected: u64 = (rect.height as u64) * (rect.width as u64) * bpp;
        if (data.len() as u64) != expected {
            return Err(FbError::SizeMismatch);
        }
        proof {
            assert(data@.len() <= self.buf@.len());
        }
        let fw = self.width as u64;
        let row_len: u64 = (rect.width as u64) * bpp;
        let mut yr: u32 = 0;
        proof {
            assert(data@.skip(0) =~= data@);
        }
        while yr < rect.height
            invariant
                yr <= rect.height,
                rect.spec_in_panel(old(self).width as int, old(self).height as int),
                old(self).eq_but_buf(*self),
                self.buf@.len() == old(self).buf@.len(),
                self.wf(),
                fw == self.width,
                bpp == self.bytes_per_pixel,
                row_len == rect.width * bpp,
                data@.len() == rect.height * rect.width * bpp,
                data@.len() <= usize::MAX,
                spec_restore_region(
                    self.buf@,
                    self.width as int,
                    self.bytes_per_pixel as int,
                    rect.top + yr,
                    rect.left as int,
                    rect.width as int,
                    rect.height - yr,
                    data@.skip(yr * row_len),
                ) == spec_restore_region(
                    old(self).buf@,
                    old(self).width as int,
                    old(self).bytes_per_pixel as int,
                    rect.top as int,
                    rect.left as int,
                    rect.width as int,
                    rect.height as int,
                    data@,
                ),
            decreases rect.height - yr,
        {
            proof {
                lemma_row_in_buf(
                    self.width as int,
                    self.height as int,
                    self.bytes_per_pixel as int,
                    rect.top + yr,
                    rect.left as int,
                    rect.width as int,
                );
                lemma_rows_fit(yr as int, rect.width as int, self.bytes_per_pixel as int, rect.height as int);
            }
            let row_start: u64 = (((rect.top as u64) + (yr as u64)) * fw + (rect.left as u64))
                * bpp;
            let data_start: u64 = (yr as u64) * row_len;
            let ghost start = row_start as int;
            let ghost buf_before = self.buf@;
            let ghost row = data@.skip(yr * row_len).take(row_len as int);
            let mut off: u64 = 0;
            while off < row_len
                invariant
                    off <= row_len,
                    start == row_start,
                    0 <= start,
                    start + row_len <= self.buf@.len(),
                    self.buf@.len() <= usize::MAX,
                    data_start == yr * row_len,
                    data_start + row_len <= data@.len(),
                    data@.len() <= usize::MAX,
                    self.buf@.len() == buf_before.len(),
                    forall|i: int|
                        start <= i < start + off ==> self.buf@[i] == data@[data_start + (i
                            - start)],
                    forall|i: int|
                        0 <= i < self.buf@.len() && !(start <= i < start + off)
                            ==> self.buf@[i] == buf_before[i],
                    old(self).eq_but_buf(*self),
                decreases row_len - off,
            {
                let b = data[(data_start + off) as usize];
                self.buf[(row_start + off) as usize] = b;
                off = off + 1;
            }
            proof {
                assert(self.buf@ =~= spec_write_row(buf_before, start, row));
                lemma_mul_distrib(yr as int, row_len as int);
                assert(data@.skip(yr * row_len).skip(row_len as int) =~= data@.skip((yr + 1)
                    * row_len));
            }
            yr = yr + 1;
        }
        proof {
            lemma_mul_assoc3(yr as int, rect.width as int, self.bytes_per_pixel as int);
            assert(data@.skip(yr * row_len).len() == 0);
        }
        Ok(())
    }

    /// Records the EPD controller access toggle; the corresponding ioctl is
    /// the runtime's side.
    pub fn set_epdc_access(&mut self, state: bool)
        ensures
            *final(self) == (Framebuffer { epdc_access: state, ..*old(self) }),
    {
        self.epdc_access = state;
    }

    /// Records the autoupdate mode.
    pub fn set_autoupdate_mode(&mut self, mode: u32)
        ensures
            *final(self) == (Framebuffer { autoupdate_mode: mode, ..*old(self) }),
    {
        self.autoupdate_mode = mode;
    }

    /// Records the update scheme.
    pub fn set_update_scheme(&mut self, scheme: u32)
        ensures
            *final(self) == (Framebuffer { update_scheme: scheme, ..*old(self) }),
    {
        self.update_scheme = scheme;
    }
}

/// Basic read/write access to the mapped pixel region.
pub trait FramebufferIO: Sized {
    /// Well-formedness carried through every operation.
    spec fn io_wf(&self) -> bool;

    /// Writes a frame of bytes into the buffer, starting at the first byte;
    /// a frame longer than the buffer is rejected.
    fn write_frame(&mut self, frame: &[u8]) -> (r: Result<(), FbError>)
        requires
            old(self).io_wf(),
        ensures
            final(self).io_wf(),
    ;

    /// Writes a single pixel at `(y, x)` with value `v`; out-of-range
    /// coordinates are rejected.
    fn write_pixel(&mut self, y: usize, x: usize, v: u8) -> (r: Result<(), FbError>)
        requires
            old(self).io_wf(),
        ensures
            final(self).io_wf(),
    ;

    /// Reads the value of the pixel at `(y, x)`; out-of-range coordinates are
    /// rejected.
    fn read_pixel(&mut self, y: usize, x: usize) -> (r: Result<u8, FbError>)
        requires
            old(self).io_wf(),
        ensures
            final(self).io_wf(),
    ;

    /// Reads the byte at offset `ofst` from the mapped region; offsets outside
    /// the region are rejected.
    fn read_offset(&mut self, ofst: isize) -> (r: Result<u8, FbError>)
        requires
            old(self).io_wf(),
        ensures
            final(self).io_wf(),
    ;
}

impl FramebufferIO for Framebuffer {
    open spec fn io_wf(&self) -> bool {
        self.wf()
    }

    fn write_frame(&mut self, frame: &[u8]) -> (r: Result<(), FbError>)
        ensures
            r is Ok <==> frame@.len() <= old(self).buf@.len(),
            r is Ok ==> final(self).buf@ == frame@ + old(self).buf@.skip(frame@.len() as int),
            r is Err ==> *final(self) == *old(self) && r == Err::<(), FbError>(
                FbError::SizeMismatch,
            ),
            old(self).eq_but_buf(*final(self)),
    {
        if frame.len() > self.buf.len() {
            return Err(FbError::SizeMismatch);
        }
        let mut i: usize = 0;
        while i < frame.len()
            invariant
                i <= frame@.len() <= self.buf@.len(),
                self.buf@.len() == old(self).buf@.len(),
                forall|j: int| 0 <= j < i ==> self.buf@[j] == frame@[j],
                forall|j: int| i <= j < self.buf@.len() ==> self.buf@[j] == old(self).buf@[j],
                old(self).eq_but_buf(*self),
            decreases frame@.len() - i,
        {
            let v = frame[i];
            self.buf[i] = v;
            i = i + 1;
        }
        proof {
            assert(self.buf@ =~= frame@ + old(self).buf@.skip(frame@.len() as int));
        }
        Ok(())
    }

    fn write_pixel(&mut self, y: usize, x: usize, v: u8) -> (r: Result<(), FbError>)
        ensures
            r is Ok <==> old(self).spec_in_bounds(y as int, x as int),
            r is Ok ==> final(self).buf@ == old(self).spec_with_pixel(y as int, x as int, v),
            r is Err ==> *final(self) == *old(self) && r == Err::<(), FbError>(
                FbError::OutOfBounds,
            ),
            old(self).eq_but_buf(*final(self)),
    {
        if (y as u64) >= (self.height as u64) || (x as u64) >= (self.width as u64) {
            return Err(FbError::OutOfBounds);
        }
        proof {
            lemma_pixel_in_buf(
                self.width as int,
                self.height as int,
                self.bytes_per_pixel as int,
                y as int,
                x as int,
            );
            assert((y * self.width + x) * self.bytes_per_pixel + self.bytes_per_pixel
                <= self.buf@.len());
        }
        let base: u64 = ((y as u64) * (self.width as u64) + (x as u64)) * (
        self.bytes_per_pixel as u64);
        proof {
            assert(base <= usize::MAX);
        }
        let base: usize = base as usize;
        let bpp: usize = self.bytes_per_pixel as usize;
        let mut j: usize = 0;
        while j < bpp
            invariant
                j <= bpp,
                bpp == old(self).bytes_per_pixel,
                base == old(self).spec_pixel_base(y as int, x as int),
                base + bpp <= self.buf@.len(),
                self.buf@.len() <= usize::MAX,
                self.buf@.len() == old(self).buf@.len(),
                forall|i: int| base <= i < base + j ==> self.buf@[i] == v,
                forall|i: int|
                    0 <= i < self.buf@.len() && !(base <= i < base + j) ==> self.buf@[i] == old(
                        self,
                    ).buf@[i],
                old(self).eq_but_buf(*self),
            decreases bpp - j,
        {
            self.buf[base + j] = v;
            j = j + 1;
        }
        proof {
            assert(self.buf@ =~= old(self).spec_with_pixel(y as int, x as int, v));
        }
        Ok(())
    }

    fn read_pixel(&mut self, y: usize, x: usize) -> (r: Result<u8, FbError>)
        ensures
            *final(self) == *old(self),
            r is Ok <==> old(self).spec_in_bounds(y as int, x as int),
            r is Ok ==> r == Ok::<u8, FbError>(
                old(self).buf@[old(self).spec_pixel_base(y as int, x as int)],
            ),
            r is Err ==> r == Err::<u8, FbError>(FbError::OutOfBounds),
    {
        if (y as u64) >= (self.height as u64) || (x as u64) >= (self.width as u64) {
            return Err(FbError::OutOfBounds);
        }
        proof {
            lemma_pixel_in_buf(
                self.width as int,
                self.height as int,
                self.bytes_per_pixel as int,
                y as int,
                x as int,
            );
            assert((y * self.width + x) * self.bytes_per_pixel + self.bytes_per_pixel
                <= self.buf@.len());
        }
        let base: u64 = ((y as u64) * (self.width as u64) + (x as u64)) * (
        self.bytes_per_pixel as u64);
        proof {
            assert(base <= usize::MAX);
        }
        let base: usize = base as usize;
        Ok(self.buf[base])
    }

    fn read_offset(&mut self, ofst: isize) -> (r: Result<u8, FbError>)
        ensures
            *final(self) == *old(self),
            r is Ok <==> 0 <= ofst < old(self).buf@.len(),
            r is Ok ==> r == Ok::<u8, FbError>(old(self).buf@[ofst as int]),
            r is Err ==> r == Err::<u8, FbError>(FbError::OutOfBounds),
    {
        if ofst < 0 {
            return Err(FbError::OutOfBounds);
        }
        let o: usize = ofst as usize;
        if o >= self.buf.len() {
            return Err(FbError::OutOfBounds);
        }
        Ok(self.buf[o])
    }
}

/// The bytes of the pixel row `y`, columns `left .. left + w`, in a buffer of
/// row width `fw` pixels at `bpp` bytes per pixel.
pub open spec fn spec_row_bytes(buf: Seq<u8>, fw: int, bpp: int, y: int, left: int, w: int) -> Seq<
    u8,
> {
    buf.subrange((y * fw + left) * bpp, (y * fw + left) * bpp + w * bpp)
}

/// The bytes of the `h`-row region starting at row `top`, read row by row.
pub open spec fn spec_region_bytes(
    buf: Seq<u8>,
    fw: int,
    bpp: int,
    top: int,
    left: int,
    w: int,
    h: int,
) -> Seq<u8>
    decreases h,
{
    if h <= 0 {
        Seq::empty()
    } else {
        spec_row_bytes(buf, fw, bpp, top, left, w) + spec_region_bytes(
            buf,
            fw,
            bpp,
            top + 1,
            left,
            w,
            h - 1,
        )
    }
}

/// Extending a region dump by one more row appends that row's bytes.
pub proof fn lemma_region_bytes_snoc(
    buf: Seq<u8>,
    fw: int,
    bpp: int,
    top: int,
    left: int,
    w: int,
    h: int,
)
    requires
        h >= 0,
    ensures
        spec_region_bytes(buf, fw, bpp, top, left, w, h + 1) == spec_region_bytes(
            buf,
            fw,
            bpp,
            top,
            left,
            w,
            h,
        ) + spec_row_bytes(buf, fw, bpp, top + h, left, w),
    decreases h,
{
    if h == 0 {
        assert(spec_region_bytes(buf, fw, bpp, top + 1, left, w, 0) == Seq::<u8>::empty());
        assert(spec_region_bytes(buf, fw, bpp, top, left, w, 1) =~= spec_region_bytes(
            buf,
            fw,
            bpp,
            top,
            left,
            w,
            0,
        ) + spec_row_bytes(buf, fw, bpp, top, left, w));
    } else {
        lemma_region_bytes_snoc(buf, fw, bpp, top + 1, left, w, h - 1);
        assert(spec_region_bytes(buf, fw, bpp, top, left, w, h + 1) =~= spec_region_bytes(
            buf,
            fw,
            bpp,
            top,
            left,
            w,
            h,
        ) + spec_row_bytes(buf, fw, bpp, top + h, left, w));
    }
}

/// `buf` with `row` written at offset `start`.
pub open spec fn spec_write_row(buf: Seq<u8>, start: int, row: Seq<u8>) -> Seq<u8> {
    Seq::new(
        buf.len(),
        |i: int|
            if start <= i < start + row.len() {
                row[i - start]
            } else {
                buf[i]
            },
    )
}

/// `buf` after writing `data` into the `h`-row region starting at row `top`,
/// one row of `w * bpp` bytes at a time.
pub open spec fn spec_restore_region(
    buf: Seq<u8>,
    fw: int,
    bpp: int,
    top: int,
    left: int,
    w: int,
    h: int,
    data: Seq<u8>,
) -> Seq<u8>
    decreases h,
{
    if h <= 0 {
        buf
    } else {
        spec_restore_region(
            spec_write_row(buf, (top * fw + left) * bpp, data.take(w * bpp)),
            fw,
            bpp,
            top + 1,
            left,
            w,
            h - 1,
            data.skip(w * bpp),
        )
    }
}

/// Writing back a row read from the same place changes nothing.
proof fn lemma_write_row_identity(buf: Seq<u8>, start: int, len: int)
    requires
        0 <= start,
        0 <= len,
        start + len <= buf.len(),
    ensures
        spec_write_row(buf, start, buf.subrange(start, start + len)) == buf,
{
    assert(spec_write_row(buf, start, buf.subrange(start, start + len)) =~= buf);
}

/// Restoring a region with its own dump is a no-op: the dumped bytes of a
/// region written back into the same region leave the buffer unchanged.
pub proof fn lemma_dump_restore_identity(
    buf: Seq<u8>,
    fw: int,
    fh: int,
    bpp: int,
    top: int,
    left: int,
    w: int,
    h: int,
)
    requires
        buf.len() == fw * fh * bpp,
        bpp >= 1,
        0 <= top,
        0 <= left,
        0 <= w,
        0 <= h,
        left + w <= fw,
        top + h <= fh,
    ensures
        spec_restore_region(
            buf,
            fw,
            bpp,
            top,
            left,
            w,
            h,
            spec_region_bytes(buf, fw, bpp, top, left, w, h),
        ) == buf,
    decreases h,
{
    if h > 0 {
        lemma_row_in_buf(fw, fh, bpp, top, left, w);
        let start = (top * fw + left) * bpp;
        let row = spec_row_bytes(buf, fw, bpp, top, left, w);
        let rest = spec_region_bytes(buf, fw, bpp, top + 1, left, w, h - 1);
        let data = spec_region_bytes(buf, fw, bpp, top, left, w, h);
        assert(data == row + rest);
        assert(row.len() == w * bpp);
        assert(data.take(w * bpp) =~= row);
        assert(data.skip(w * bpp) =~= rest);
        lemma_write_row_identity(buf, start, w * bpp);
        lemma_dump_restore_identity(buf, fw, fh, bpp, top + 1, left, w, h - 1);
    }
}

/// A row of a region inside the panel addresses bytes inside the buffer.
proof fn lemma_row_in_buf(fw: int, fh: int, b: int, y: int, left: int, w: int)
    by (nonlinear_arith)
    requires
        0 <= y < fh,
        0 <= left,
        0 <= w,
        left + w <= fw,
        b >= 1,
    ensures
        0 <= (y * fw + left) * b,
        (y * fw + left) * b + w * b <= fw * fh * b,
        y * fw + left + w <= fw * fh,
        fw * fh <= fw * fh * b,
{
}

/// A region within the panel holds no more bytes than the whole buffer.
proof fn lemma_region_fits(fw: int, fh: int, b: int, w: int, h: int)
    by (nonlinear_arith)
    requires
        0 <= w <= fw,
        0 <= h <= fh,
        b >= 1,
    ensures
        0 <= h * w,
        h * w <= fw * fh,
        h * w * b <= fw * fh * b,
{
}

/// Row `y` of the supplied data lies inside its `h * w * b` bytes.
proof fn lemma_rows_fit(y: int, w: int, b: int, h: int)
    by (nonlinear_arith)
    requires
        0 <= y < h,
        w >= 0,
        b >= 0,
    ensures
        0 <= y * (w * b),
        y * (w * b) + w * b <= h * w * b,
{
}

/// Distribution of one more row over a row length.
proof fn lemma_mul_distrib(a: int, b: int)
    by (nonlinear_arith)
    ensures
        (a + 1) * b == a * b + b,
{
}

/// Associativity of the region byte count.
proof fn lemma_mul_assoc3(a: int, b: int, c: int)
    by (nonlinear_arith)
    ensures
        a * (b * c) == a * b * c,
{
}

/// The product of two 32-bit quantities fits in 64 bits.
proof fn lemma_mul_u32_bound(a: int, b: int)
    by (nonlinear_arith)
    requires
        0 <= a <= u32::MAX,
        0 <= b <= u32::MAX,
    ensures
        0 <= a * b <= u32::MAX * u32::MAX,
{
}

/// A pixel of the panel addresses bytes inside the buffer.
proof fn lemma_pixel_in_buf(w: int, h: int, b: int, y: int, x: int)
    by (nonlinear_arith)
    requires
        0 <= y < h,
        0 <= x < w,
        b >= 1,
    ensures
        0 <= (y * w + x) * b,
        (y * w + x) * b + b <= w * h * b,
        y * w + x < w * h,
        w * h <= w * h * b,
{
}

/// The byte count of a panel bounds each of its factors.
proof fn lemma_dims_fit(w: int, h: int, b: int)
    by (nonlinear_arith)
    requires
        w >= 0,
        h >= 0,
        b >= 1,
    ensures
        w * h <= w * h * b,
{
}

} // verus!
