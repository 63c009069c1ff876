//! The integer side of cover-art palette extraction: which pixels are
//! sampled, which sample is taken as the primary colour, and which files of
//! an album directory count as cover images.
use vstd::prelude::*;
use vstd::arithmetic::div_mod::lemma_fundamental_div_mod_converse;

verus! {

/// Colours derived from a cover image, each written `#rrggbb`.
pub struct ThemePalette {
    pub background: String,
    pub primary: String,
    pub secondary: String,
    pub accent: String,
}

/// The sampling stride along a side of `n` pixels: a tenth of it, at least 1.
pub open spec fn stride(n: nat) -> nat {
    if n / 10 >= 1 { n / 10 } else { 1 }
}

/// How many of `0, s, 2s, ...` lie below `n`.
pub open spec fn steps_below(n: nat, s: nat) -> nat
    recommends
        s > 0,
{
    ((n + s - 1) as nat) / s
}

/// The `i`-th sampled pixel of a `w` by `h` image: columns `0, sx, 2sx, ...`
/// in order, and down each column the rows `0, sy, 2sy, ...`.
pub open spec fn sample_at(w: nat, h: nat, i: nat) -> (nat, nat) {
    let ny = steps_below(h, stride(h));
    (stride(w) * (i / ny), stride(h) * (i % ny))
}

proof fn lemma_below(k: nat, n: nat, s: nat)
    requires
        s > 0,
        k < steps_below(n, s),
    ensures
        k * s < n,
{
    let q = steps_below(n, s) as int;
    let m = (n + s - 1) as int;
    let si = s as int;
    vstd::arithmetic::div_mod::lemma_fundamental_div_mod(m, si);
    vstd::arithmetic::div_mod::lemma_mod_pos_bound(m, si);
    assert(q * si <= m) by (nonlinear_arith)
        requires
            m == si * (m / si) + m % si,
            q == m / si,
            0 <= m % si,
    ;
    assert(k * s <= q * si - si) by (nonlinear_arith)
        requires
            k <= q - 1,
            si == s,
            s > 0,
    ;
}

/// The pixels sampled from a `width` by `height` image, on a grid of about
/// ten by ten: see `sample_at`.
pub fn sample_grid(width: u32, height: u32) -> (r: Vec<(u32, u32)>)
    ensures
        r@.len() == steps_below(width as nat, stride(width as nat)) * steps_below(height as nat, stride(height as nat)),
        forall|i: int| 0 <= i < r@.len() ==> {
            let p = #[trigger] r@[i];
            let q = sample_at(width as nat, height as nat, i as nat);
            &&& p.0 as nat == q.0 && p.0 < width
            &&& p.1 as nat == q.1 && p.1 < height
        },
{
    let w = width as u64;
    let h = height as u64;
    let sx: u64 = if w / 10 >= 1 { w / 10 } else { 1 };
    let sy: u64 = if h / 10 >= 1 { h / 10 } else { 1 };
    let nx: u64 = (w + sx - 1) / sx;
    let ny: u64 = (h + sy - 1) / sy;
    let ghost gw = width as nat;
    let ghost gh = height as nat;
    assert(sx == stride(gw) && sy == stride(gh));
    assert(nx == steps_below(gw, sx as nat) && ny == steps_below(gh, sy as nat));
    let mut r: Vec<(u32, u32)> = Vec::new();
    let mut ix: u64 = 0;
    while ix < nx
        invariant
            ix <= nx,
            sx == stride(gw),
            sy == stride(gh),
            nx == steps_below(gw, sx as nat),
            ny == steps_below(gh, sy as nat),
            gw == width,
            gh == height,
            r@.len() == ix * ny,
            forall|i: int| 0 <= i < r@.len() ==> {
                let p = #[trigger] r@[i];
                let q = sample_at(gw, gh, i as nat);
                &&& p.0 as nat == q.0 && p.0 < width
                &&& p.1 as nat == q.1 && p.1 < height
            },
        decreases nx - ix,
    {
        proof {
            lemma_below(ix as nat, gw, sx as nat);
        }
        let x = (ix * sx) as u32;
        let mut iy: u64 = 0;
        while iy < ny
            invariant
                ix < nx,
                iy <= ny,
                sx == stride(gw),
                sy == stride(gh),
                nx == steps_below(gw, sx as nat),
                ny == steps_below(gh, sy as nat),
                gw == width,
                gh == height,
                x as nat == ix * sx,
                x < width,
                r@.len() == ix * ny + iy,
                forall|i: int| 0 <= i < r@.len() ==> {
                    let p = #[trigger] r@[i];
                    let q = sample_at(gw, gh, i as nat);
                    &&& p.0 as nat == q.0 && p.0 < width
                    &&& p.1 as nat == q.1 && p.1 < height
                },
            decreases ny - iy,
        {
            proof {
                lemma_below(iy as nat, gh, sy as nat);
                lemma_fundamental_div_mod_converse((ix * ny + iy) as int, ny as int, ix as int, iy as int);
            }
            let y = (iy * sy) as u32;
            let ghost before = r@;
            r.push((x, y));
            assert forall|i: int| 0 <= i < r@.len() implies {
                let p = #[trigger] r@[i];
                let q = sample_at(gw, gh, i as nat);
                &&& p.0 as nat == q.0 && p.0 < width
                &&& p.1 as nat == q.1 && p.1 < height
            } by {
                if i < before.len() {
                    assert(r@[i] == before[i]);
                } else {
                    assert(i == ix * ny + iy);
                    assert(sx * ix == ix * sx) by (nonlinear_arith);
                    assert(sy * iy == iy * sy) by (nonlinear_arith);
                }
            }
            iy = iy + 1;
        }
        assert(r@.len() == (ix + 1) * ny) by (nonlinear_arith)
            requires
                r@.len() == ix * ny + ny,
        ;
        ix = ix + 1;
    }
    r
}

/// What `str::to_lowercase` gives for a text.
pub uninterp spec fn lower_of(s: Seq<char>) -> Seq<char>;

/// Relies on `str::to_lowercase`: the result depends on the characters
/// alone.
#[verifier::external_body]
fn lowercase(s: &str) -> (r: String)
    ensures
        r@ == lower_of(s@),
{
    s.to_lowercase()
}

pub open spec fn ends_with(s: Seq<char>, suffix: Seq<char>) -> bool {
    s.len() >= suffix.len() && s.subrange(s.len() - suffix.len(), s.len() as int) == suffix
}

/// Whether a file name ends like an image file's.
pub open spec fn is_image_name(n: Seq<char>) -> bool {
    ends_with(n, "jpg"@) || ends_with(n, "jpeg"@) || ends_with(n, "png"@)
}

fn text_ends_with(s: &str, suffix: &str) -> (r: bool)
    ensures
        r == ends_with(s@, suffix@),
{
    let n = s.unicode_len();
    let k = suffix.unicode_len();
    if n < k {
        false
    } else {
        s.substring_char(n - k, n).to_owned() == suffix.to_owned()
    }
}

/// Whether `lowered`, a file name already in lower case, ends like an image
/// file's.
pub fn is_image_name_lowered(lowered: &str) -> (r: bool)
    ensures
        r == is_image_name(lowered@),
{
    text_ends_with(lowered, "jpg") || text_ends_with(lowered, "jpeg") || text_ends_with(lowered, "png")
}

/// Whether a file of an album directory counts as its cover image: its name,
/// in lower case, ends like an image file's.
pub fn is_cover_image(name: &str) -> (r: bool)
    ensures
        r == is_image_name(lower_of(name@)),
{
    let lowered = lowercase(name);
    is_image_name_lowered(lowered.as_str())
}

} // verus!
