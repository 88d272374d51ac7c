use std::collections::HashMap;

use florui_platform::paint::{
    BlurredShape, Canvas, Display, PremultipliedPixel, Rgba, ShadowClip, blend_source_over,
    composite_blurred_shadow, mul_div_255, paint_order,
};

#[test]
fn mul_div_255_rounds_to_nearest() {
    assert_eq!(mul_div_255(255, 255), 255);
    assert_eq!(mul_div_255(0, 200), 0);
    assert_eq!(mul_div_255(128, 255), 128);
    assert_eq!(mul_div_255(128, 128), 64);
    assert_eq!(mul_div_255(1, 127), 0);
    assert_eq!(mul_div_255(1, 128), 1);
}

#[test]
fn zero_coverage_leaves_the_destination_untouched() {
    let dst = PremultipliedPixel::from_rgba(10, 20, 30, 40).unwrap();
    let out = blend_source_over(dst, Rgba { r: 255, g: 0, b: 0, a: 255 }, 0);
    assert_eq!(out, dst);
}

#[test]
fn an_opaque_source_at_full_coverage_replaces_the_destination() {
    let dst = PremultipliedPixel::from_rgba(10, 20, 30, 40).unwrap();
    let out = blend_source_over(dst, Rgba { r: 200, g: 100, b: 50, a: 255 }, 255);
    assert_eq!(out, PremultipliedPixel::from_rgba(200, 100, 50, 255).unwrap());
}

#[test]
fn half_coverage_red_over_opaque_blue_mixes_them() {
    let dst = PremultipliedPixel::from_rgba(0, 0, 255, 255).unwrap();
    let out = blend_source_over(dst, Rgba { r: 255, g: 0, b: 0, a: 255 }, 128);
    // src alpha 128, inverse 127: red 128, blue 127, alpha 255.
    assert_eq!(out, PremultipliedPixel::from_rgba(128, 0, 127, 255).unwrap());
}

#[test]
fn from_rgba_rejects_a_channel_above_alpha() {
    assert_eq!(PremultipliedPixel::from_rgba(11, 0, 0, 10), None);
    assert!(PremultipliedPixel::from_rgba(10, 10, 10, 10).is_some());
    assert_eq!(
        PremultipliedPixel::transparent(),
        PremultipliedPixel::from_rgba(0, 0, 0, 0).unwrap()
    );
}

#[test]
fn paint_order_sorts_flex_children_by_z_index_ascending_with_stable_ties() {
    // `a` and `c` tie at 2; `d` is left at `auto`.
    let (a, b, c, d) = (1usize, 2usize, 3usize, 4usize);
    let mut z = HashMap::new();
    z.insert(a, Some(2));
    z.insert(b, Some(-1));
    z.insert(c, Some(2));
    z.insert(d, None);
    let ordered = paint_order(&z, Some(Display::Flex), &[a, b, c, d]);
    assert_eq!(ordered, vec![b, d, a, c]);
}

#[test]
fn z_index_is_ignored_outside_flex_and_grid_containers() {
    let mut z = HashMap::new();
    z.insert(1usize, Some(5));
    z.insert(2usize, Some(-5));
    assert_eq!(paint_order(&z, Some(Display::Block), &[1, 2]), vec![1, 2]);
    assert_eq!(paint_order(&z, None, &[1, 2]), vec![1, 2]);
    assert_eq!(paint_order(&z, Some(Display::Grid), &[1, 2]), vec![2, 1]);
}

#[test]
fn unstyled_nodes_keep_document_order_in_a_flex_container() {
    let z = HashMap::new();
    assert_eq!(
        paint_order(&z, Some(Display::Flex), &[7, 3, 9, 1]),
        vec![7, 3, 9, 1]
    );
}

#[test]
fn a_blurred_outer_shadow_paints_around_its_box_only() {
    let clear = PremultipliedPixel::transparent();
    let mut canvas = Canvas { width: 4, height: 3, pixels: vec![clear; 12] };
    // A 3x2 mask at (1, 1) with full coverage except one empty sample.
    let shape = BlurredShape {
        origin_x: 1,
        origin_y: 1,
        width: 3,
        height: 2,
        coverage: vec![255, 255, 0, 255, 255, 255],
    };
    // The box is the single pixel (2, 1).
    let clip = ShadowClip::OutsideBox { x0: 2, y0: 1, x1: 3, y1: 2 };
    let black = Rgba { r: 0, g: 0, b: 0, a: 255 };
    composite_blurred_shadow(&mut canvas, &shape, black, false, clip);
    let opaque = PremultipliedPixel { r: 0, g: 0, b: 0, a: 255 };
    let at = |x: usize, y: usize| canvas.pixels[y * 4 + x];
    assert_eq!(at(1, 1), opaque);
    assert_eq!(at(2, 1), clear, "the box itself is clipped out");
    assert_eq!(at(3, 1), clear, "zero coverage paints nothing");
    assert_eq!(at(1, 2), opaque);
    assert_eq!(at(3, 2), opaque);
    assert_eq!(at(0, 0), clear);
    assert_eq!(at(0, 2), clear);
}

#[test]
fn an_inset_shadow_inverts_its_mask_inside_the_padding_box() {
    let clear = PremultipliedPixel::transparent();
    let mut canvas = Canvas { width: 3, height: 1, pixels: vec![clear; 3] };
    // The mask hangs off the left edge of the canvas.
    let shape = BlurredShape { origin_x: -1, origin_y: 0, width: 4, height: 1, coverage: vec![0, 0, 255, 128] };
    let clip = ShadowClip::InsideBox { x0: 0, y0: 0, x1: 2, y1: 1 };
    let black = Rgba { r: 0, g: 0, b: 0, a: 255 };
    composite_blurred_shadow(&mut canvas, &shape, black, true, clip);
    assert_eq!(canvas.pixels[0], PremultipliedPixel { r: 0, g: 0, b: 0, a: 255 });
    assert_eq!(canvas.pixels[1], clear, "inverted full coverage is none");
    assert_eq!(canvas.pixels[2], clear, "outside the padding box");
}
