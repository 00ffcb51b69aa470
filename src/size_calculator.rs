use vstd::prelude::*;
use vstd::arithmetic::div_mod::lemma_fundamental_div_mod;

verus! {

/// The longer of the two edges.
pub open spec fn longer_edge(width: nat, height: nat) -> nat {
    if width >= height { width } else { height }
}

/// `value * max_edge / longer`, rounded to the nearest integer, halves rounding up.
pub open spec fn scaled_edge(value: nat, max_edge: nat, longer: nat) -> nat
    recommends longer > 0,
{
    ((2 * value * max_edge + longer) / (2 * longer)) as nat
}

/// Target dimensions: unchanged when the longer edge fits within `max_edge`,
/// otherwise both edges scaled by `max_edge / longer` and rounded independently.
pub open spec fn resize_plan(width: nat, height: nat, max_edge: nat) -> (nat, nat) {
    let longer = longer_edge(width, height);
    if longer <= max_edge {
        (width, height)
    } else {
        (scaled_edge(width, max_edge, longer), scaled_edge(height, max_edge, longer))
    }
}

proof fn lemma_scaled_edge_bound(value: nat, max_edge: nat, longer: nat)
    requires
        0 < longer,
        value <= longer,
        max_edge < longer,
    ensures
        scaled_edge(value, max_edge, longer) <= max_edge,
{
    assert(2 * value * max_edge <= 2 * longer * max_edge) by (nonlinear_arith)
        requires value <= longer;
    assert((2 * value * max_edge + longer) / (2 * longer) <= max_edge) by (nonlinear_arith)
        requires
            2 * value * max_edge <= 2 * longer * max_edge,
            0 < longer,
            max_edge < longer,
    {
        assert(2 * value * max_edge + longer < 2 * longer * (max_edge + 1));
    }
}

/// The rounded edge lies within half a unit of the exact value `value * max_edge / longer`.
proof fn lemma_scaled_edge_close(value: nat, max_edge: nat, longer: nat)
    requires
        0 < longer,
    ensures
        2 * longer * scaled_edge(value, max_edge, longer) <= 2 * value * max_edge + longer,
        2 * value * max_edge + longer < 2 * longer * scaled_edge(value, max_edge, longer) + 2 * longer,
{
    let x = (2 * value * max_edge + longer) as int;
    let d = (2 * longer) as int;
    lemma_fundamental_div_mod(x, d);
    assert(2 * longer * scaled_edge(value, max_edge, longer) == d * (x / d));
}

/// An image whose longer edge already fits within `max_edge` keeps its dimensions.
pub proof fn lemma_fitting_image_unchanged(width: nat, height: nat, max_edge: nat)
    requires
        longer_edge(width, height) <= max_edge,
    ensures
        resize_plan(width, height, max_edge) == (width, height),
{
}

/// An image whose longer edge exceeds `max_edge` is scaled so that its longer edge
/// becomes exactly `max_edge`; each edge lies within half a unit of its exact scaled
/// value, and the cross products `new_width * height` and `new_height * width` differ
/// by at most half the sum of the original edges, so the aspect ratio is kept up to rounding.
pub proof fn lemma_oversized_image_scaled(width: nat, height: nat, max_edge: nat)
    requires
        longer_edge(width, height) > max_edge,
    ensures
        longer_edge(resize_plan(width, height, max_edge).0, resize_plan(width, height, max_edge).1)
            == max_edge,
        ({
            let (nw, nh) = resize_plan(width, height, max_edge);
            let l = longer_edge(width, height);
            &&& -(l as int) <= 2 * l * nw - 2 * width * max_edge <= l
            &&& -(l as int) <= 2 * l * nh - 2 * height * max_edge <= l
            &&& 2 * (nw * height - nh * width) <= width + height
            &&& 2 * (nh * width - nw * height) <= width + height
        }),
{
    let l = longer_edge(width, height);
    let (nw, nh) = resize_plan(width, height, max_edge);
    lemma_scaled_edge_bound(width, max_edge, l);
    lemma_scaled_edge_bound(height, max_edge, l);
    lemma_scaled_edge_close(width, max_edge, l);
    lemma_scaled_edge_close(height, max_edge, l);
    lemma_scaled_edge_close(l, max_edge, l);
    assert(scaled_edge(l, max_edge, l) == max_edge) by (nonlinear_arith)
        requires
            0 < l,
            2 * l * scaled_edge(l, max_edge, l) <= 2 * l * max_edge + l,
            2 * l * max_edge + l < 2 * l * scaled_edge(l, max_edge, l) + 2 * l,
    ;
    assert(2 * (nw * height - nh * width) <= width + height) by (nonlinear_arith)
        requires
            0 < l,
            2 * l * nw <= 2 * width * max_edge + l,
            2 * height * max_edge + l < 2 * l * nh + 2 * l,
    {
        assert(2 * l * nw * height <= 2 * width * max_edge * height + l * height);
        assert(2 * height * max_edge * width + l * width <= 2 * l * nh * width + 2 * l * width);
    }
    assert(2 * (nh * width - nw * height) <= width + height) by (nonlinear_arith)
        requires
            0 < l,
            2 * l * nh <= 2 * height * max_edge + l,
            2 * width * max_edge + l < 2 * l * nw + 2 * l,
    {
        assert(2 * l * nh * width <= 2 * height * max_edge * width + l * width);
        assert(2 * width * max_edge * height + l * height <= 2 * l * nw * height + 2 * l * height);
    }
}

/// Computes the dimensions an image is resized to so that its longer edge
/// is at most `max_size`, keeping the aspect ratio. Each edge is scaled exactly in
/// integer arithmetic and rounded to the nearest integer, halves up; an edge may
/// round to 0 for extreme aspect ratios.
pub fn calculate_resize_dimensions(width: u32, height: u32, max_size: u32) -> (r: (u32, u32))
    ensures
        (r.0 as nat, r.1 as nat) == resize_plan(width as nat, height as nat, max_size as nat),
{
    let longer: u32 = if width >= height { width } else { height };
    if longer <= max_size {
        return (width, height);
    }
    proof {
        lemma_scaled_edge_bound(width as nat, max_size as nat, longer as nat);
        lemma_scaled_edge_bound(height as nat, max_size as nat, longer as nat);
    }
    let m = max_size as u128;
    let l = longer as u128;
    assert(2 * (width as u128) * m + l <= 2 * 0xffff_ffffu128 * 0xffff_ffffu128 + 0xffff_ffffu128) by (nonlinear_arith)
        requires width <= 0xffff_ffffu32, m <= 0xffff_ffff, l <= 0xffff_ffff;
    assert(2 * (height as u128) * m + l <= 2 * 0xffff_ffffu128 * 0xffff_ffffu128 + 0xffff_ffffu128) by (nonlinear_arith)
        requires height <= 0xffff_ffffu32, m <= 0xffff_ffff, l <= 0xffff_ffff;
    let new_width = ((2 * (width as u128) * m + l) / (2 * l)) as u32;
    let new_height = ((2 * (height as u128) * m + l) / (2 * l)) as u32;
    (new_width, new_height)
}

} // verus!
