//! The integer side of the painter: 8-bit channel arithmetic, Porter-Duff
//! "source over" compositing of a straight color onto a premultiplied
//! pixel, and the paint order of sibling boxes.

use vstd::prelude::*;

verus! {

/// A straight (not premultiplied) 8-bit RGBA color.
#[derive(Debug, Clone, Copy, PartialEq, Eq, Structural)]
pub struct Rgba {
    pub r: u8,
    pub g: u8,
    pub b: u8,
    pub a: u8,
}

/// An 8-bit pixel whose color channels are already multiplied by its
/// alpha; a well-formed one never has a channel above its alpha.
#[derive(Debug, Clone, Copy, PartialEq, Eq, Structural)]
pub struct PremultipliedPixel {
    pub r: u8,
    pub g: u8,
    pub b: u8,
    pub a: u8,
}

impl PremultipliedPixel {
    /// No color channel exceeds the alpha.
    pub open spec fn is_well_formed(self) -> bool {
        self.r <= self.a && self.g <= self.a && self.b <= self.a
    }

    /// The fully transparent pixel.
    pub fn transparent() -> (p: Self)
        ensures
            p == (PremultipliedPixel { r: 0, g: 0, b: 0, a: 0 }),
    {
        PremultipliedPixel { r: 0, g: 0, b: 0, a: 0 }
    }

    /// A premultiplied pixel from its channels, `None` when a color channel
    /// exceeds the alpha.
    pub fn from_rgba(r: u8, g: u8, b: u8, a: u8) -> (p: Option<Self>)
        ensures
            p == (if r <= a && g <= a && b <= a {
                Some(PremultipliedPixel { r, g, b, a })
            } else {
                None
            }),
    {
        if r <= a && g <= a && b <= a {
            Some(PremultipliedPixel { r, g, b, a })
        } else {
            None
        }
    }
}

/// `a * b / 255`, rounded to nearest.
pub open spec fn spec_mul_div_255(a: u8, b: u8) -> u8 {
    ((a * b + 127) / 255) as u8
}

proof fn lemma_mul_bound(a: u8, b: u8)
    ensures
        0 <= a * b <= 65025,
        (a * b + 127) / 255 <= 255,
{
    assert(a * b <= 255 * 255) by (nonlinear_arith)
        requires
            a <= 255,
            b <= 255,
    ;
}

/// `u16` fixed-point `a * b / 255`, rounded to nearest: the one
/// multiply-divide every channel of the compositing math needs.
pub fn mul_div_255(a: u8, b: u8) -> (r: u8)
    ensures
        r == spec_mul_div_255(a, b),
{
    proof {
        lemma_mul_bound(a, b);
    }
    ((a as u16 * b as u16 + 127) / 255) as u8
}

/// Porter-Duff "source over": `src_color` (straight alpha) at
/// `src_coverage` composited over the premultiplied `dst`, every channel
/// rounded with [`mul_div_255`] and clamped so the result stays
/// premultiplied.
pub open spec fn spec_blend_source_over(dst: PremultipliedPixel, src_color: Rgba, src_coverage: u8) -> PremultipliedPixel {
    let src_a = spec_mul_div_255(src_color.a, src_coverage);
    let inv = (255 - src_a) as u8;
    let out_a = if src_a + spec_mul_div_255(dst.a, inv) <= 255 {
        (src_a + spec_mul_div_255(dst.a, inv)) as u8
    } else {
        255u8
    };
    let channel = |src: u8, d: u8|
        if src + spec_mul_div_255(d, inv) <= out_a {
            (src + spec_mul_div_255(d, inv)) as u8
        } else {
            out_a
        };
    PremultipliedPixel {
        r: channel(spec_mul_div_255(src_color.r, src_a), dst.r),
        g: channel(spec_mul_div_255(src_color.g, src_a), dst.g),
        b: channel(spec_mul_div_255(src_color.b, src_a), dst.b),
        a: out_a,
    }
}

fn clamp_channel(src: u8, dst: u8, inv: u8, out_a: u8) -> (c: u8)
    ensures
        c == (if src + spec_mul_div_255(dst, inv) <= out_a {
            (src + spec_mul_div_255(dst, inv)) as u8
        } else {
            out_a
        }),
{
    let value = src as u16 + mul_div_255(dst, inv) as u16;
    if value <= out_a as u16 {
        value as u8
    } else {
        out_a
    }
}

/// Standard Porter-Duff "`A` over `B`": `src_color`/`src_coverage` are
/// straight, converted to a premultiplied source here before blending onto
/// the premultiplied `dst`.
pub fn blend_source_over(dst: PremultipliedPixel, src_color: Rgba, src_coverage: u8) -> (out: PremultipliedPixel)
    ensures
        out == spec_blend_source_over(dst, src_color, src_coverage),
        out.is_well_formed(),
{
    let src_a = mul_div_255(src_color.a, src_coverage);
    let src_r = mul_div_255(src_color.r, src_a);
    let src_g = mul_div_255(src_color.g, src_a);
    let src_b = mul_div_255(src_color.b, src_a);

    let inv = 255 - src_a;
    let sum = src_a as u16 + mul_div_255(dst.a, inv) as u16;
    let out_a: u8 = if sum <= 255 {
        sum as u8
    } else {
        255
    };
    let out_r = clamp_channel(src_r, dst.r, inv, out_a);
    let out_g = clamp_channel(src_g, dst.g, inv, out_a);
    let out_b = clamp_channel(src_b, dst.b, inv, out_a);

    match PremultipliedPixel::from_rgba(out_r, out_g, out_b, out_a) {
        Some(p) => p,
        None => dst,
    }
}

/// The rounding of [`mul_div_255`]: multiplying by 255 or 0 is exact, the
/// product is symmetric and never exceeds either factor.
pub proof fn law_mul_div_255(a: u8, b: u8)
    ensures
        spec_mul_div_255(a, 255) == a,
        spec_mul_div_255(a, 0) == 0,
        spec_mul_div_255(a, b) == spec_mul_div_255(b, a),
        spec_mul_div_255(a, b) <= a,
        spec_mul_div_255(a, b) <= b,
{
    lemma_mul_bound(a, b);
    assert(a * b == b * a) by (nonlinear_arith);
    assert(a * b <= a * 255) by (nonlinear_arith)
        requires
            b <= 255,
    ;
    assert(a * b <= 255 * b) by (nonlinear_arith)
        requires
            a <= 255,
    ;
}

/// Compositing keeps what is beneath untouched when nothing is painted (no
/// coverage or a fully transparent color), replaces it outright with a
/// fully opaque color at full coverage, and always yields a premultiplied
/// pixel.
pub proof fn law_source_over(dst: PremultipliedPixel, src_color: Rgba, src_coverage: u8)
    ensures
        dst.is_well_formed() && (src_coverage == 0 || src_color.a == 0) ==> spec_blend_source_over(
            dst,
            src_color,
            src_coverage,
        ) == dst,
        src_color.a == 255 && src_coverage == 255 ==> spec_blend_source_over(
            dst,
            src_color,
            src_coverage,
        ) == (PremultipliedPixel { r: src_color.r, g: src_color.g, b: src_color.b, a: 255 }),
        spec_blend_source_over(dst, src_color, src_coverage).is_well_formed(),
{
    law_mul_div_255(src_color.a, src_coverage);
    law_mul_div_255(src_color.a, 0);
    law_mul_div_255(0, src_coverage);
    law_mul_div_255(dst.a, 255);
    law_mul_div_255(dst.r, 255);
    law_mul_div_255(dst.g, 255);
    law_mul_div_255(dst.b, 255);
    law_mul_div_255(dst.a, 0);
    law_mul_div_255(dst.r, 0);
    law_mul_div_255(dst.g, 0);
    law_mul_div_255(dst.b, 0);
    law_mul_div_255(src_color.r, 255);
    law_mul_div_255(src_color.g, 255);
    law_mul_div_255(src_color.b, 255);
    law_mul_div_255(src_color.r, 0);
    law_mul_div_255(src_color.g, 0);
    law_mul_div_255(src_color.b, 0);
    law_mul_div_255(255, 255);
}

} // verus!

verus! {

/// A node's position in its document, as the style engine numbers nodes.
pub type NodeId = usize;

/// How a box lays out its own children.
#[derive(Debug, Clone, Copy, PartialEq, Eq, Structural)]
pub enum Display {
    Block,
    Inline,
    InlineBlock,
    Flex,
    Grid,
}

/// The stacking key of `id`: its declared `z-index`, with `auto` and an
/// unstyled node both counting as `0`.
pub open spec fn z_key(z_indices: Map<NodeId, Option<i32>>, id: NodeId) -> i32 {
    if z_indices.contains_key(id) {
        match z_indices[id] {
            Some(z) => z,
            None => 0,
        }
    } else {
        0
    }
}

/// Whether `z-index` reorders the children of a box with this display:
/// only inside a flex or grid container.
pub open spec fn reorders_by_z(parent_display: Option<Display>) -> bool {
    parent_display == Some(Display::Flex) || parent_display == Some(Display::Grid)
}

/// `out` is `nodes` rearranged by the index map `perm` (`out[i]` is
/// `nodes[perm[i]]`, each index used once), ascending by stacking key, and
/// equal keys keep their relative order: a stable sort.
pub open spec fn is_stable_sort_by_z(
    z_indices: Map<NodeId, Option<i32>>,
    nodes: Seq<NodeId>,
    out: Seq<NodeId>,
    perm: Seq<int>,
) -> bool {
    &&& out.len() == nodes.len()
    &&& perm.len() == nodes.len()
    &&& forall|i: int| 0 <= i < perm.len() ==> 0 <= #[trigger] perm[i] < nodes.len()
    &&& forall|i: int, j: int| 0 <= i < j < perm.len() ==> perm[i] != perm[j]
    &&& forall|i: int| 0 <= i < out.len() ==> #[trigger] out[i] == nodes[perm[i]]
    &&& forall|i: int, j: int|
        0 <= i < j < out.len() ==> z_key(z_indices, #[trigger] out[i]) <= z_key(z_indices, #[trigger] out[j])
    &&& forall|i: int, j: int|
        0 <= i < j < out.len() && z_key(z_indices, out[i]) == z_key(z_indices, out[j]) ==> #[trigger] perm[i]
            < #[trigger] perm[j]
}

/// The stacking key of `id` as the painter reads it.
fn z_key_of(z_indices: &std::collections::HashMap<NodeId, Option<i32>>, id: NodeId) -> (z: i32)
    ensures
        z == z_key(z_indices@, id),
{
    match z_indices.get(&id) {
        Some(z) => match z {
            Some(z) => *z,
            None => 0,
        },
        None => 0,
    }
}

/// `nodes` (a set of siblings: document roots when `parent_display` is
/// `None`, one node's own children otherwise) in paint order, back to
/// front. Only inside a flex or grid container are siblings reordered, by
/// `z-index` ascending (`auto` counts as `0`), ties keeping document order;
/// anywhere else document order stands.
pub fn paint_order(
    z_indices: &std::collections::HashMap<NodeId, Option<i32>>,
    parent_display: Option<Display>,
    nodes: &[NodeId],
) -> (ordered: Vec<NodeId>)
    ensures
        !reorders_by_z(parent_display) ==> ordered@ == nodes@,
        reorders_by_z(parent_display) ==> exists|perm: Seq<int>|
            is_stable_sort_by_z(z_indices@, nodes@, ordered@, perm),
{
    let reorder = match parent_display {
        Some(Display::Flex) => true,
        Some(Display::Grid) => true,
        _ => false,
    };
    if !reorder {
        let mut same: Vec<NodeId> = Vec::new();
        let mut i: usize = 0;
        while i < nodes.len()
            invariant
                i <= nodes@.len(),
                same@ == nodes@.take(i as int),
            decreases nodes.len() - i,
        {
            same.push(nodes[i]);
            assert(same@ =~= nodes@.take(i + 1));
            i = i + 1;
        }
        assert(nodes@.take(nodes@.len() as int) =~= nodes@);
        return same;
    }
    let ghost zs = z_indices@;
    let mut ordered: Vec<NodeId> = Vec::new();
    let ghost mut perm: Seq<int> = Seq::empty();
    let mut k: usize = 0;
    while k < nodes.len()
        invariant
            zs == z_indices@,
            k <= nodes@.len(),
            is_stable_sort_by_z(zs, nodes@.take(k as int), ordered@, perm),
        decreases nodes.len() - k,
    {
        let id = nodes[k];
        let key = z_key_of(z_indices, id);
        // The new node goes after every node whose key is not larger.
        let mut pos: usize = 0;
        while pos < ordered.len() && z_key_of(z_indices, ordered[pos]) <= key
            invariant
                zs == z_indices@,
                pos <= ordered@.len(),
                forall|i: int| 0 <= i < pos ==> z_key(zs, #[trigger] ordered@[i]) <= key,
            decreases ordered.len() - pos,
        {
            pos = pos + 1;
        }
        let ghost old_ordered = ordered@;
        let ghost old_perm = perm;
        ordered.insert(pos, id);
        proof {
            perm = old_perm.insert(pos as int, k as int);
            let prefix = nodes@.take(k as int);
            let next = nodes@.take(k + 1);
            assert forall|i: int| 0 <= i < ordered@.len() implies #[trigger] ordered@[i] == next[perm[i]] by {
                if i < pos {
                    assert(ordered@[i] == old_ordered[i]);
                    assert(perm[i] == old_perm[i]);
                    assert(prefix[old_perm[i]] == next[old_perm[i]]);
                } else if i == pos {
                } else {
                    assert(ordered@[i] == old_ordered[i - 1]);
                    assert(perm[i] == old_perm[i - 1]);
                    assert(prefix[old_perm[i - 1]] == next[old_perm[i - 1]]);
                }
            }
            // Every node left after `pos` has a strictly larger key.
            if pos < old_ordered.len() {
                assert(z_key(zs, old_ordered[pos as int]) > key);
            }
            assert forall|i: int| pos <= i < old_ordered.len() implies z_key(zs, #[trigger] old_ordered[i]) > key by {
                if i > pos {
                    assert(z_key(zs, old_ordered[pos as int]) <= z_key(zs, old_ordered[i]));
                }
            }
            assert forall|i: int, j: int|
                0 <= i < j < ordered@.len() implies z_key(zs, #[trigger] ordered@[i]) <= z_key(zs, #[trigger] ordered@[j]) by {
                if j < pos {
                } else if j == pos {
                } else if i < pos {
                    assert(z_key(zs, old_ordered[i]) <= key);
                } else if i == pos {
                    assert(z_key(zs, old_ordered[j - 1]) > key);
                } else {
                    assert(ordered@[i] == old_ordered[i - 1]);
                    assert(ordered@[j] == old_ordered[j - 1]);
                }
            }
            assert forall|i: int, j: int|
                0 <= i < j < ordered@.len() && z_key(zs, ordered@[i]) == z_key(zs, ordered@[j]) implies #[trigger] perm[i]
                < #[trigger] perm[j] by {
                if j < pos {
                } else if j == pos {
                    assert(old_perm[i] < k);
                } else if i < pos {
                    assert(z_key(zs, old_ordered[i]) <= key);
                    assert(z_key(zs, old_ordered[j - 1]) > key);
                } else if i == pos {
                    assert(z_key(zs, old_ordered[j - 1]) > key);
                } else {
                    assert(ordered@[i] == old_ordered[i - 1]);
                    assert(ordered@[j] == old_ordered[j - 1]);
                }
            }
            assert forall|i: int, j: int| 0 <= i < j < perm.len() implies perm[i] != perm[j] by {
                if i < pos && j < pos {
                } else if i < pos && j == pos {
                    assert(old_perm[i] < k);
                } else if i < pos {
                    assert(perm[j] == old_perm[j - 1]);
                } else if i == pos {
                    assert(old_perm[j - 1] < k);
                } else {
                    assert(perm[i] == old_perm[i - 1]);
                    assert(perm[j] == old_perm[j - 1]);
                }
            }
            assert forall|i: int| 0 <= i < perm.len() implies 0 <= #[trigger] perm[i] < next.len() by {
                if i < pos {
                    assert(perm[i] == old_perm[i]);
                } else if i > pos {
                    assert(perm[i] == old_perm[i - 1]);
                }
            }
        }
        k = k + 1;
    }
    assert(nodes@.take(nodes@.len() as int) =~= nodes@);
    ordered
}

} // verus!

verus! {

proof fn lemma_increasing_permutation_is_identity(perm: Seq<int>, n: int)
    requires
        perm.len() == n,
        forall|i: int| 0 <= i < n ==> 0 <= #[trigger] perm[i] < n,
        forall|i: int, j: int| 0 <= i < j < n ==> #[trigger] perm[i] < #[trigger] perm[j],
    ensures
        forall|i: int| 0 <= i < n ==> #[trigger] perm[i] == i,
{
    assert forall|i: int| 0 <= i < n implies #[trigger] perm[i] >= i by {
        lemma_increasing_lower_bound(perm, n, i);
    }
    assert forall|i: int| 0 <= i < n implies #[trigger] perm[i] <= i by {
        lemma_upper_gap(perm, n, i);
    }
}

proof fn lemma_increasing_lower_bound(perm: Seq<int>, n: int, i: int)
    requires
        perm.len() == n,
        0 <= i < n,
        forall|k: int| 0 <= k < n ==> 0 <= #[trigger] perm[k] < n,
        forall|a: int, b: int| 0 <= a < b < n ==> #[trigger] perm[a] < #[trigger] perm[b],
    ensures
        perm[i] >= i,
    decreases i,
{
    if i > 0 {
        lemma_increasing_lower_bound(perm, n, i - 1);
        assert(perm[i - 1] < perm[i]);
    }
}

proof fn lemma_upper_gap(perm: Seq<int>, n: int, i: int)
    requires
        perm.len() == n,
        0 <= i < n,
        forall|k: int| 0 <= k < n ==> 0 <= #[trigger] perm[k] < n,
        forall|a: int, b: int| 0 <= a < b < n ==> #[trigger] perm[a] < #[trigger] perm[b],
    ensures
        perm[i] <= i,
    decreases n - i,
{
    if i < n - 1 {
        lemma_upper_gap(perm, n, i + 1);
        assert(perm[i] < perm[i + 1]);
    }
}

/// Where no sibling's stacking key differs (in particular when none
/// declares a `z-index`), a flex or grid container paints its children in
/// plain document order: the stable sort changes nothing.
pub proof fn law_equal_keys_keep_document_order(
    z_indices: Map<NodeId, Option<i32>>,
    nodes: Seq<NodeId>,
    out: Seq<NodeId>,
    perm: Seq<int>,
)
    requires
        is_stable_sort_by_z(z_indices, nodes, out, perm),
        forall|i: int, j: int|
            0 <= i < nodes.len() && 0 <= j < nodes.len() ==> z_key(z_indices, #[trigger] nodes[i])
                == z_key(z_indices, #[trigger] nodes[j]),
    ensures
        out == nodes,
{
    let n = nodes.len() as int;
    assert forall|i: int, j: int| 0 <= i < j < n implies #[trigger] perm[i] < #[trigger] perm[j] by {
        assert(out[i] == nodes[perm[i]]);
        assert(out[j] == nodes[perm[j]]);
        assert(z_key(z_indices, nodes[perm[i]]) == z_key(z_indices, nodes[perm[j]]));
    }
    lemma_increasing_permutation_is_identity(perm, n);
    assert forall|i: int| 0 <= i < n implies #[trigger] out[i] == nodes[i] by {
        assert(out[i] == nodes[perm[i]]);
    }
    assert(out =~= nodes);
}

} // verus!

verus! {

// ---------------------------------------------------------------------
// Compositing a blurred shadow onto a canvas
// ---------------------------------------------------------------------

/// A premultiplied pixel canvas, row-major: pixel `(x, y)` is
/// `pixels[y * width + x]`.
#[derive(Debug, Clone, PartialEq)]
pub struct Canvas {
    pub width: u32,
    pub height: u32,
    pub pixels: Vec<PremultipliedPixel>,
}

impl Canvas {
    /// Holds exactly `width * height` pixels.
    pub open spec fn is_well_formed(&self) -> bool {
        self.pixels@.len() == self.width * self.height
    }
}

/// The pixel at `(x, y)` of a row-major buffer `width` wide.
pub open spec fn pixel_at<T>(pixels: Seq<T>, width: int, x: int, y: int) -> T {
    pixels[y * width + x]
}

/// A shadow shape rasterized and blurred into a coverage mask, placed
/// with its top-left at `(origin_x, origin_y)` in canvas pixels.
#[derive(Debug, Clone, PartialEq)]
pub struct BlurredShape {
    pub origin_x: i32,
    pub origin_y: i32,
    pub width: u32,
    pub height: u32,
    pub coverage: Vec<u8>,
}

impl BlurredShape {
    /// Holds exactly `width * height` coverage samples.
    pub open spec fn is_well_formed(&self) -> bool {
        self.coverage@.len() == self.width * self.height
    }
}

/// Where a shadow may paint: outside a box (an outer shadow never paints
/// over its own box) or inside one (an inset shadow never leaves its
/// padding box). Bounds are whole canvas pixels, `x0 <= x < x1` and
/// `y0 <= y < y1` being the box.
#[derive(Debug, Clone, Copy, PartialEq, Eq, Structural)]
pub enum ShadowClip {
    OutsideBox { x0: i64, y0: i64, x1: i64, y1: i64 },
    InsideBox { x0: i64, y0: i64, x1: i64, y1: i64 },
}

/// Whether the clip lets the shadow paint canvas pixel `(x, y)`.
pub open spec fn clip_allows(clip: ShadowClip, x: int, y: int) -> bool {
    match clip {
        ShadowClip::OutsideBox { x0, y0, x1, y1 } => x < x0 || x >= x1 || y < y0 || y >= y1,
        ShadowClip::InsideBox { x0, y0, x1, y1 } => x0 <= x < x1 && y0 <= y < y1,
    }
}

/// The shadow's coverage of canvas pixel `(x, y)`: the mask's sample
/// there (inverted for an inset shadow), and none off the mask.
pub open spec fn shadow_coverage(shape: BlurredShape, invert: bool, x: int, y: int) -> int {
    let lx = x - shape.origin_x;
    let ly = y - shape.origin_y;
    if 0 <= lx < shape.width && 0 <= ly < shape.height {
        let raw = pixel_at(shape.coverage@, shape.width as int, lx, ly);
        if invert {
            255 - raw
        } else {
            raw as int
        }
    } else {
        0
    }
}

/// Canvas pixel `(x, y)` once the shadow is composited: `color` blended at
/// the shadow's coverage where the clip allows and the coverage is not
/// zero; unchanged everywhere else.
pub open spec fn spec_composited(
    pixels: Seq<PremultipliedPixel>,
    width: int,
    shape: BlurredShape,
    color: Rgba,
    invert: bool,
    clip: ShadowClip,
    x: int,
    y: int,
) -> PremultipliedPixel {
    let c = shadow_coverage(shape, invert, x, y);
    if clip_allows(clip, x, y) && c != 0 {
        spec_blend_source_over(pixel_at(pixels, width, x, y), color, c as u8)
    } else {
        pixel_at(pixels, width, x, y)
    }
}

/// Row-major positions of distinct pixels are distinct, and lie within
/// the buffer.
proof fn lemma_pixel_index(width: int, height: int, x: int, y: int, x2: int, y2: int)
    requires
        0 <= x < width,
        0 <= y < height,
        0 <= x2 < width,
        0 <= y2 < height,
    ensures
        0 <= y * width + x < width * height,
        (y * width + x == y2 * width + x2) ==> (x == x2 && y == y2),
{
    assert(0 <= y * width + x < width * height) by (nonlinear_arith)
        requires
            0 <= x < width,
            0 <= y < height,
    ;
    if y * width + x == y2 * width + x2 {
        if y < y2 {
            assert(y * width + x < y2 * width + x2) by (nonlinear_arith)
                requires
                    0 <= x < width,
                    0 <= x2,
                    y < y2,
            ;
        } else if y2 < y {
            assert(y2 * width + x2 < y * width + x) by (nonlinear_arith)
                requires
                    0 <= x2 < width,
                    0 <= x,
                    y2 < y,
            ;
        }
    }
}

/// Blends `color` onto `canvas` through the shadow's coverage (or `255`
/// minus it, with `invert`), pixel by pixel, skipping every pixel the
/// clip rejects, the mask does not cover, or that falls outside the
/// canvas.
pub fn composite_blurred_shadow(canvas: &mut Canvas, shape: &BlurredShape, color: Rgba, invert: bool, clip: ShadowClip)
    requires
        old(canvas).is_well_formed(),
        shape.is_well_formed(),
    ensures
        final(canvas).width == old(canvas).width,
        final(canvas).height == old(canvas).height,
        final(canvas).is_well_formed(),
        forall|x: int, y: int|
            0 <= x < old(canvas).width && 0 <= y < old(canvas).height ==> #[trigger] pixel_at(
                final(canvas).pixels@,
                old(canvas).width as int,
                x,
                y,
            ) == spec_composited(old(canvas).pixels@, old(canvas).width as int, *shape, color, invert, clip, x, y),
{
    let ghost start = canvas.pixels@;
    let w: usize = canvas.width as usize;
    let h: usize = canvas.height as usize;
    let ghost wi = w as int;
    let ghost hi = h as int;
    let mut ly: u32 = 0;
    while ly < shape.height
        invariant
            canvas.width == old(canvas).width,
            canvas.height == old(canvas).height,
            w == canvas.width,
            h == canvas.height,
            wi == w,
            hi == h,
            canvas.pixels@.len() == start.len(),
            start == old(canvas).pixels@,
            start.len() == w * h,
            shape.is_well_formed(),
            ly <= shape.height,
            forall|x: int, y: int|
                0 <= x < wi && 0 <= y < hi ==> #[trigger] pixel_at(canvas.pixels@, wi, x, y) == if y
                    < shape.origin_y + ly {
                    spec_composited(start, wi, *shape, color, invert, clip, x, y)
                } else {
                    pixel_at(start, wi, x, y)
                },
        decreases shape.height - ly,
    {
        let cy: i64 = shape.origin_y as i64 + ly as i64;
        if cy < 0 || cy >= h as i64 {
            proof {
                assert forall|x: int, y: int| 0 <= x < wi && 0 <= y < hi implies #[trigger] pixel_at(
                    canvas.pixels@,
                    wi,
                    x,
                    y,
                ) == if y < shape.origin_y + ly + 1 {
                    spec_composited(start, wi, *shape, color, invert, clip, x, y)
                } else {
                    pixel_at(start, wi, x, y)
                } by {
                    if y == cy {
                    }
                }
            }
            ly = ly + 1;
            continue;
        }
        let mut lx: u32 = 0;
        while lx < shape.width
            invariant
                canvas.width == old(canvas).width,
                canvas.height == old(canvas).height,
                w == canvas.width,
                h == canvas.height,
                wi == w,
                hi == h,
                canvas.pixels@.len() == start.len(),
                start.len() == w * h,
                shape.is_well_formed(),
                ly < shape.height,
                cy == shape.origin_y + ly,
                0 <= cy < hi,
                lx <= shape.width,
                forall|x: int, y: int|
                    0 <= x < wi && 0 <= y < hi ==> #[trigger] pixel_at(canvas.pixels@, wi, x, y) == if y
                        < cy || (y == cy && x < shape.origin_x + lx) {
                        spec_composited(start, wi, *shape, color, invert, clip, x, y)
                    } else {
                        pixel_at(start, wi, x, y)
                    },
            decreases shape.width - lx,
        {
            let cx: i64 = shape.origin_x as i64 + lx as i64;
            let allowed = match clip {
                ShadowClip::OutsideBox { x0, y0, x1, y1 } => cx < x0 || cx >= x1 || cy < y0 || cy >= y1,
                ShadowClip::InsideBox { x0, y0, x1, y1 } => x0 <= cx && cx < x1 && y0 <= cy && cy < y1,
            };
            if 0 <= cx && cx < w as i64 && allowed {
                proof {
                    lemma_pixel_index(shape.width as int, shape.height as int, lx as int, ly as int, 0, 0);
                    assert(ly * shape.width <= ly * shape.width + lx);
                }
                let samples = shape.coverage.len();
                assert(ly * shape.width + lx < samples);
                let sample_index: usize = ly as usize * shape.width as usize + lx as usize;
                assert(shape.coverage@[sample_index as int] == pixel_at(
                    shape.coverage@,
                    shape.width as int,
                    lx as int,
                    ly as int,
                ));
                let raw = shape.coverage[sample_index];
                let coverage: u8 = if invert {
                    255 - raw
                } else {
                    raw
                };
                if coverage != 0 {
                    let ghost before = canvas.pixels@;
                    proof {
                        lemma_pixel_index(wi, hi, cx as int, cy as int, 0, 0);
                        assert(cy * wi <= cy * wi + cx);
                    }
                    let total = canvas.pixels.len();
                    assert(cy * wi + cx < total);
                    let index: usize = cy as usize * w + cx as usize;
                    let dst = canvas.pixels[index];
                    let blended = blend_source_over(dst, color, coverage);
                    canvas.pixels.set(index, blended);
                    proof {
                        assert forall|x: int, y: int| 0 <= x < wi && 0 <= y < hi implies #[trigger] pixel_at(
                            canvas.pixels@,
                            wi,
                            x,
                            y,
                        ) == if y < cy || (y == cy && x < shape.origin_x + lx + 1) {
                            spec_composited(start, wi, *shape, color, invert, clip, x, y)
                        } else {
                            pixel_at(start, wi, x, y)
                        } by {
                            lemma_pixel_index(wi, hi, x, y, cx as int, cy as int);
                            assert(pixel_at(before, wi, x, y) == before[y * wi + x]);
                            if x == cx && y == cy {
                                assert(pixel_at(before, wi, x, y) == pixel_at(start, wi, x, y));
                            }
                        }
                    }
                } else {
                    proof {
                        assert forall|x: int, y: int| 0 <= x < wi && 0 <= y < hi implies #[trigger] pixel_at(
                            canvas.pixels@,
                            wi,
                            x,
                            y,
                        ) == if y < cy || (y == cy && x < shape.origin_x + lx + 1) {
                            spec_composited(start, wi, *shape, color, invert, clip, x, y)
                        } else {
                            pixel_at(start, wi, x, y)
                        } by {
                        }
                    }
                }
            } else {
                proof {
                    assert forall|x: int, y: int| 0 <= x < wi && 0 <= y < hi implies #[trigger] pixel_at(
                        canvas.pixels@,
                        wi,
                        x,
                        y,
                    ) == if y < cy || (y == cy && x < shape.origin_x + lx + 1) {
                        spec_composited(start, wi, *shape, color, invert, clip, x, y)
                    } else {
                        pixel_at(start, wi, x, y)
                    } by {
                    }
                }
            }
            lx = lx + 1;
        }
        proof {
            assert forall|x: int, y: int| 0 <= x < wi && 0 <= y < hi implies #[trigger] pixel_at(
                canvas.pixels@,
                wi,
                x,
                y,
            ) == if y < shape.origin_y + ly + 1 {
                spec_composited(start, wi, *shape, color, invert, clip, x, y)
            } else {
                pixel_at(start, wi, x, y)
            } by {
                if y == cy && x >= shape.origin_x + shape.width {
                }
                if y == cy && x < shape.origin_x {
                }
            }
        }
        ly = ly + 1;
    }
    proof {
        assert forall|x: int, y: int| 0 <= x < wi && 0 <= y < hi implies #[trigger] pixel_at(
            canvas.pixels@,
            wi,
            x,
            y,
        ) == spec_composited(start, wi, *shape, color, invert, clip, x, y) by {
            if y >= shape.origin_y + shape.height {
            }
        }
    }
}

} // verus!

verus! {

/// A shadow never paints where its clip forbids (an outer shadow never
/// over its own box, an inset one never outside its padding box) nor off
/// its mask, and where it does paint, the pixel stays premultiplied.
pub proof fn law_shadows_respect_their_clip(
    pixels: Seq<PremultipliedPixel>,
    width: int,
    shape: BlurredShape,
    color: Rgba,
    invert: bool,
    clip: ShadowClip,
    x: int,
    y: int,
)
    ensures
        !clip_allows(clip, x, y) ==> spec_composited(pixels, width, shape, color, invert, clip, x, y)
            == pixel_at(pixels, width, x, y),
        shadow_coverage(shape, invert, x, y) == 0 ==> spec_composited(
            pixels,
            width,
            shape,
            color,
            invert,
            clip,
            x,
            y,
        ) == pixel_at(pixels, width, x, y),
        pixel_at(pixels, width, x, y).is_well_formed() ==> spec_composited(
            pixels,
            width,
            shape,
            color,
            invert,
            clip,
            x,
            y,
        ).is_well_formed(),
{
    let c = shadow_coverage(shape, invert, x, y);
    law_source_over(pixel_at(pixels, width, x, y), color, c as u8);
}

} // verus!

verus! {

/// `spec_mul_div_255` as plain integer arithmetic.
proof fn lemma_mul_div_255_value(a: u8, b: u8)
    ensures
        spec_mul_div_255(a, b) as int == (a * b + 127) / 255,
{
    lemma_mul_bound(a, b);
}

/// Source over an opaque destination at full coverage mixes the color
/// into it by the color's own alpha: each channel is the color's channel
/// weighted by its alpha plus the destination's weighted by the rest (each
/// rounded to nearest), and the result stays opaque. So a color with alpha
/// below 255 never replaces an opaque destination outright.
pub proof fn law_source_over_mixes_by_alpha(dst: PremultipliedPixel, src_color: Rgba)
    requires
        dst.a == 255,
        dst.is_well_formed(),
    ensures
        ({
            let out = spec_blend_source_over(dst, src_color, 255);
            let keep = 255 - src_color.a;
            &&& out.a == 255
            &&& out.r == (src_color.r * src_color.a + 127) / 255 + (dst.r * keep + 127) / 255
            &&& out.g == (src_color.g * src_color.a + 127) / 255 + (dst.g * keep + 127) / 255
            &&& out.b == (src_color.b * src_color.a + 127) / 255 + (dst.b * keep + 127) / 255
        }),
{
    let sa = src_color.a;
    law_mul_div_255(sa, 255);
    let keep = (255 - sa) as u8;
    law_mul_div_255(255, keep);
    law_mul_div_255(dst.r, keep);
    law_mul_div_255(dst.g, keep);
    law_mul_div_255(dst.b, keep);
    law_mul_div_255(src_color.r, sa);
    law_mul_div_255(src_color.g, sa);
    law_mul_div_255(src_color.b, sa);
    assert(spec_mul_div_255(src_color.a, 255) == sa);
    assert(spec_mul_div_255(255, keep) == keep);
    lemma_mul_div_255_value(src_color.r, sa);
    lemma_mul_div_255_value(src_color.g, sa);
    lemma_mul_div_255_value(src_color.b, sa);
    lemma_mul_div_255_value(dst.r, keep);
    lemma_mul_div_255_value(dst.g, keep);
    lemma_mul_div_255_value(dst.b, keep);
}

/// Source over a fully transparent pixel gives the color premultiplied by
/// its alpha scaled by the coverage: the alpha is `a * coverage / 255` and
/// each channel is the color's channel times that alpha over 255 (each
/// rounded to nearest).
pub proof fn law_source_over_transparent_is_the_scaled_color(src_color: Rgba, coverage: u8)
    ensures
        ({
            let out = spec_blend_source_over(PremultipliedPixel { r: 0, g: 0, b: 0, a: 0 }, src_color, coverage);
            let a = (src_color.a * coverage + 127) / 255;
            &&& out.a == a
            &&& out.r == (src_color.r * a + 127) / 255
            &&& out.g == (src_color.g * a + 127) / 255
            &&& out.b == (src_color.b * a + 127) / 255
        }),
{
    let sa = spec_mul_div_255(src_color.a, coverage);
    law_mul_div_255(src_color.a, coverage);
    law_mul_div_255(0, (255 - sa) as u8);
    law_mul_div_255(src_color.r, sa);
    law_mul_div_255(src_color.g, sa);
    law_mul_div_255(src_color.b, sa);
    lemma_mul_div_255_value(src_color.a, coverage);
    lemma_mul_div_255_value(src_color.r, sa);
    lemma_mul_div_255_value(src_color.g, sa);
    lemma_mul_div_255_value(src_color.b, sa);
}

/// An outer shadow never paints its own box and paints every covered pixel
/// around it (above, below, left or right); an inset shadow paints only
/// covered pixels inside its padding box.
pub proof fn law_shadow_clip_is_the_box(
    pixels: Seq<PremultipliedPixel>,
    width: int,
    shape: BlurredShape,
    color: Rgba,
    invert: bool,
    clip: ShadowClip,
    x: int,
    y: int,
)
    ensures
        ({
            let (x0, y0, x1, y1) = match clip {
                ShadowClip::OutsideBox { x0, y0, x1, y1 } => (x0, y0, x1, y1),
                ShadowClip::InsideBox { x0, y0, x1, y1 } => (x0, y0, x1, y1),
            };
            let in_box = x0 <= x < x1 && y0 <= y < y1;
            let c = shadow_coverage(shape, invert, x, y);
            let old = pixel_at(pixels, width, x, y);
            let painted = spec_blend_source_over(old, color, c as u8);
            let out = spec_composited(pixels, width, shape, color, invert, clip, x, y);
            &&& clip is OutsideBox ==> (in_box ==> out == old) && (!in_box && c != 0 ==> out == painted)
            &&& clip is InsideBox ==> (!in_box ==> out == old) && (in_box && c != 0 ==> out == painted)
        }),
{
}

} // verus!
