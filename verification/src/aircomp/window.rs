use vstd::prelude::*;
use crate::airproto::types::Size;

verus! {

/// Number of bytes of an RGBA buffer of the given size.
pub open spec fn buffer_len(size: Size) -> int {
    size.width * size.height * 4
}

/// A size whose RGBA byte count fits a `u32`.
pub open spec fn size_ok(size: Size) -> bool {
    buffer_len(size) <= u32::MAX
}

/// `n` zero bytes.
pub open spec fn zeros(n: int) -> Seq<u8> {
    Seq::new(n as nat, |i: int| 0u8)
}

/// State of one client window in the compositor: its size and RGBA pixels.
/// Where the window is placed on screen is kept by the renderer.
#[derive(Debug, Clone)]
pub struct WindowState {
    pub size: Size,
    pub buffer: Vec<u8>,
}

/// Whether the RGBA buffer of `size` fits a `u32` byte count, which the
/// compositor needs to make a window of that size.
pub fn buffer_fits(size: Size) -> (r: bool)
    ensures
        r == size_ok(size),
{
    let w = size.width as u64;
    let h = size.height as u64;
    proof {
        assert(w * h <= 0xFFFF_FFFFu64 * 0xFFFF_FFFFu64) by (nonlinear_arith)
            requires
                w <= 0xFFFF_FFFFu64,
                h <= 0xFFFF_FFFFu64,
        ;
    }
    let area: u64 = w * h;
    area <= 0x3FFF_FFFF
}

fn zeroed(n: usize) -> (v: Vec<u8>)
    ensures
        v@ == zeros(n as int),
{
    let mut v: Vec<u8> = Vec::with_capacity(n);
    let mut i: usize = 0;
    while i < n
        invariant
            i <= n,
            v@ == zeros(i as int),
        decreases n - i,
    {
        v.push(0);
        i = i + 1;
        proof {
            assert(v@ =~= zeros(i as int));
        }
    }
    v
}

impl WindowState {
    /// The buffer always holds exactly the pixels of the size.
    pub open spec fn wf(&self) -> bool {
        size_ok(self.size) && self.buffer@.len() == buffer_len(self.size)
    }

    /// A window of `size` with an all-zero (transparent black) buffer.
    pub fn new(size: Size) -> (w: Self)
        requires
            size_ok(size),
        ensures
            w.wf(),
            w.size == size,
            w.buffer@ == zeros(buffer_len(size)),
    {
        let n = size.width * size.height * 4;
        WindowState { size, buffer: zeroed(n as usize) }
    }

    /// Changes the size; the buffer is cleared to zeros of the new size.
    pub fn resize(&mut self, new_size: Size)
        requires
            size_ok(new_size),
        ensures
            final(self).wf(),
            final(self).size == new_size,
            final(self).buffer@ == zeros(buffer_len(new_size)),
    {
        self.size = new_size;
        let n = new_size.width * new_size.height * 4;
        self.buffer = zeroed(n as usize);
    }

    /// Takes the new pixels if they fit the size exactly; otherwise keeps the
    /// old ones.
    pub fn commit_buffer(&mut self, data: Vec<u8>)
        requires
            size_ok(old(self).size),
        ensures
            final(self).size == old(self).size,
            final(self).buffer@ == if data@.len() == buffer_len(old(self).size) {
                data@
            } else {
                old(self).buffer@
            },
            old(self).wf() ==> final(self).wf(),
    {
        let expected = self.size.width * self.size.height * 4;
        if data.len() == expected as usize {
            self.buffer = data;
        }
    }
}

} // verus!
