use crate::grid::{lemma_row_major, Grid, GridModel, State};
use vstd::arithmetic::div_mod::lemma_fundamental_div_mod_converse;
use vstd::prelude::*;

verus! {

/// The default upscale factor: each cell becomes a 6 x 6 block of pixels.
pub const SCALE: usize = 6;

/// The decimal digits of `n`, most significant first, as ASCII bytes.
pub open spec fn dec_rep(n: nat) -> Seq<u8>
    decreases n,
{
    if n < 10 {
        seq![(48 + n) as u8]
    } else {
        dec_rep((n / 10) as nat).push((48 + n % 10) as u8)
    }
}

/// The ASCII header of a binary pixel image of `wpx` by `hpx` pixels with
/// maximum channel value 255: `"P6 <wpx> <hpx> 255\n"`.
pub open spec fn header_of(wpx: int, hpx: int) -> Seq<u8> {
    seq![80u8, 54u8, 32u8] + dec_rep(wpx as nat) + seq![32u8] + dec_rep(hpx as nat) + seq![
        32u8,
        50u8,
        53u8,
        53u8,
        10u8,
    ]
}

/// The three channel bytes of one pixel showing state `s`: black for `Dead`,
/// pure red for `Red`, pure blue for `Blue`.
pub open spec fn rgb_of(s: State) -> Seq<u8> {
    match s {
        State::Dead => seq![0u8, 0u8, 0u8],
        State::Red => seq![255u8, 0u8, 0u8],
        State::Blue => seq![0u8, 0u8, 255u8],
    }
}

/// The raw pixel bytes of generation `g` drawn at the given scale: RGB
/// triples in row-major pixel order, where output pixel `(bi, bj)` shows the
/// source cell `(bi / scale, bj / scale)` — each cell becomes a
/// `scale x scale` block of identical pixels.
pub open spec fn pixel_bytes(g: GridModel, scale: int) -> Seq<u8> {
    let wpx = g.width * scale;
    let hpx = g.height * scale;
    Seq::new(
        (3 * wpx * hpx) as nat,
        |k: int|
            {
                let p = k / 3;
                let c = k % 3;
                let bi = p / wpx;
                let bj = p % wpx;
                rgb_of(g.cell(bi / scale, bj / scale))[c]
            },
    )
}

/// One whole image of generation `g` at the given scale: the header for
/// `g.width * scale` by `g.height * scale` pixels, then the pixel bytes.
pub open spec fn image_of(g: GridModel, scale: int) -> Seq<u8> {
    header_of(g.width * scale, g.height * scale) + pixel_bytes(g, scale)
}

/// For `0 <= x < m * d` with `d > 0`, the quotient `x / d` falls below `m`.
proof fn lemma_div_below(x: int, d: int, m: int)
    requires
        0 <= x,
        0 < d,
        x < m * d,
    ensures
        0 <= x / d < m,
{
    assert(0 <= x / d < m) by (nonlinear_arith)
        requires
            0 <= x,
            0 < d,
            x < m * d,
    ;
}

/// Appends the decimal digits of `n` to `out`, most significant first.
fn push_dec(n: usize, out: &mut Vec<u8>)
    ensures
        final(out)@ == old(out)@ + dec_rep(n as nat),
    decreases n,
{
    if n < 10 {
        out.push(48 + n as u8);
        proof {
            assert(out@ =~= old(out)@ + dec_rep(n as nat));
        }
    } else {
        proof {
            assert(n / 10 < n) by (nonlinear_arith)
                requires
                    n >= 10,
            ;
        }
        push_dec(n / 10, out);
        out.push(48 + (n % 10) as u8);
        proof {
            assert(out@ =~= old(out)@ + dec_rep(n as nat));
        }
    }
}

impl Grid {
    /// The image of this generation at the given scale, as the exact byte
    /// sequence `image_of` describes: the ASCII header, then one RGB triple
    /// per output pixel, row-major, each cell blown up to a
    /// `scale x scale` block.
    pub fn render(&self, scale: usize) -> (out: Vec<u8>)
        requires
            self.wf(),
            scale >= 1,
            self@.width * scale <= usize::MAX,
            self@.height * scale <= usize::MAX,
        ensures
            out@ == image_of(self@, scale as int),
    {
        let wpx: usize = self.width() * scale;
        let hpx: usize = self.height() * scale;
        let mut out: Vec<u8> = Vec::new();
        out.push(80);
        out.push(54);
        out.push(32);
        push_dec(wpx, &mut out);
        out.push(32);
        push_dec(hpx, &mut out);
        out.push(32);
        out.push(50);
        out.push(53);
        out.push(53);
        out.push(10);
        let ghost img = image_of(self@, scale as int);
        let ghost hl: int = out@.len() as int;
        proof {
            assert(out@ =~= header_of(self@.width * scale, self@.height * scale));
            assert(3 * (self@.width * scale) * (self@.height * scale) == 3 * (
            hpx as int * wpx as int)) by (nonlinear_arith)
                requires
                    wpx == self@.width * scale,
                    hpx == self@.height * scale,
            ;
        }
        let mut bi: usize = 0;
        while bi < hpx
            invariant
                self.wf(),
                scale >= 1,
                wpx as int == self@.width * scale,
                hpx as int == self@.height * scale,
                img == image_of(self@, scale as int),
                hl == header_of(self@.width * scale, self@.height * scale).len(),
                img.len() == hl + 3 * (hpx as int * wpx as int),
                bi <= hpx,
                out@.len() == hl + 3 * (bi as int * wpx as int),
                forall|t: int| 0 <= t < out@.len() ==> #[trigger] out@[t] == img[t],
            decreases hpx - bi,
        {
            let mut bj: usize = 0;
            while bj < wpx
                invariant
                    self.wf(),
                    scale >= 1,
                    wpx as int == self@.width * scale,
                    hpx as int == self@.height * scale,
                    img == image_of(self@, scale as int),
                    hl == header_of(self@.width * scale, self@.height * scale).len(),
                    img.len() == hl + 3 * (hpx as int * wpx as int),
                    bi < hpx,
                    bj <= wpx,
                    out@.len() == hl + 3 * (bi as int * wpx as int + bj as int),
                    forall|t: int| 0 <= t < out@.len() ==> #[trigger] out@[t] == img[t],
                decreases wpx - bj,
            {
                proof {
                    lemma_div_below(bi as int, scale as int, self@.height as int);
                    lemma_div_below(bj as int, scale as int, self@.width as int);
                }
                let st = self.get(bi / scale, bj / scale);
                let ghost p: int = bi as int * wpx as int + bj as int;
                proof {
                    lemma_row_major(bi as int, bj as int, wpx as int, hpx as int);
                    assert(3 * (hpx as int * wpx as int) == 3 * (wpx as int) * (hpx as int))
                        by (nonlinear_arith);
                    lemma_fundamental_div_mod_converse(3 * p, 3, p, 0);
                    lemma_fundamental_div_mod_converse(3 * p + 1, 3, p, 1);
                    lemma_fundamental_div_mod_converse(3 * p + 2, 3, p, 2);
                }
                match st {
                    State::Dead => {
                        out.push(0);
                        out.push(0);
                        out.push(0);
                    },
                    State::Red => {
                        out.push(255);
                        out.push(0);
                        out.push(0);
                    },
                    State::Blue => {
                        out.push(0);
                        out.push(0);
                        out.push(255);
                    },
                }
                bj = bj + 1;
            }
            proof {
                assert((bi as int + 1) * wpx as int == bi as int * wpx as int + wpx as int)
                    by (nonlinear_arith);
            }
            bi = bi + 1;
        }
        proof {
            assert(out@ =~= img);
        }
        out
    }

    /// The image of this generation at the default scale.
    pub fn print(&self) -> (out: Vec<u8>)
        requires
            self.wf(),
            self@.width * SCALE <= usize::MAX,
            self@.height * SCALE <= usize::MAX,
        ensures
            out@ == image_of(self@, SCALE as int),
    {
        self.render(SCALE)
    }
}

} // verus!
