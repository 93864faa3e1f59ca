use openroom::adjust::{apply_global_px, apply_local_px, local_color, mask_value};
use openroom::engine::{apply_layers_in_place, apply_recipe};
use openroom::render::finish_preview;
use openroom::fixed::{byte_to_fp, exp2_fp, fp_to_byte, smoothstep_fp, FP_ONE};
use openroom::img::ImageBuf;
use openroom::recipe::{
    globals_are_identity, layers_have_effect, AdjustmentLayer, EditRecipe, GlobalAdjustments,
    LocalAdjustments, Mask,
};

fn zero_globals() -> GlobalAdjustments {
    GlobalAdjustments::default()
}

fn step_mask() -> Mask {
    Mask {
        mask_type: String::new(),
        start_x: 0,
        start_y: 2048,
        end_x: 4096,
        end_y: 2048,
        feather: 0,
        invert: false,
    }
}

fn exposure_layer(ev: i64) -> AdjustmentLayer {
    AdjustmentLayer {
        id: String::new(),
        name: String::new(),
        enabled: true,
        opacity: FP_ONE,
        mask: step_mask(),
        adjustments: LocalAdjustments { exposure_ev: ev, temp: 0, tint: 0, saturation: 0 },
    }
}

fn full_mask() -> Mask {
    // A gradient whose transition band sits entirely left of x = 0, so the
    // mask is 1 everywhere: invert a step that is 0 everywhere.
    Mask {
        mask_type: String::new(),
        start_x: 0,
        start_y: 2048,
        end_x: -4096,
        end_y: 2048,
        feather: 0,
        invert: true,
    }
}

#[test]
fn byte_round_trip_is_exact() {
    for p in 0..=255u8 {
        assert_eq!(fp_to_byte(byte_to_fp(p)), p);
    }
}

#[test]
fn exp2_endpoints() {
    assert_eq!(exp2_fp(0), 4096);
    assert_eq!(exp2_fp(4096), 8192);
    assert_eq!(exp2_fp(-4096), 2048);
}

#[test]
fn smoothstep_endpoints_and_midpoint() {
    assert_eq!(smoothstep_fp(0), 0);
    assert_eq!(smoothstep_fp(2048), 2048);
    assert_eq!(smoothstep_fp(4096), 4096);
}

#[test]
fn identity_globals_leave_pixels_alone() {
    let g = zero_globals();
    for p in [0u8, 1, 64, 127, 128, 200, 255] {
        assert_eq!(apply_global_px(&g, p, p, p), (p, p, p));
    }
    assert_eq!(apply_global_px(&g, 12, 34, 56), (12, 34, 56));
}

#[test]
fn one_ev_doubles_a_dark_gray() {
    let mut g = zero_globals();
    g.exposure_ev = 4096;
    assert_eq!(apply_global_px(&g, 64, 64, 64), (128, 128, 128));
}

#[test]
fn each_global_slider_has_its_exact_effect() {
    let px = (64u8, 128u8, 200u8);
    let mut g = zero_globals();
    g.contrast = 2048;
    assert_eq!(apply_global_px(&g, px.0, px.1, px.2), (32, 128, 236));
    let mut g = zero_globals();
    g.whites = 4096;
    assert_eq!(apply_global_px(&g, px.0, px.1, px.2), (90, 154, 225));
    let mut g = zero_globals();
    g.blacks = 4096;
    assert_eq!(apply_global_px(&g, px.0, px.1, px.2), (38, 102, 174));
    let mut g = zero_globals();
    g.temp = 4096;
    assert_eq!(apply_global_px(&g, 128, 128, 128), (192, 128, 64));
    let mut g = zero_globals();
    g.tint = -2048;
    assert_eq!(apply_global_px(&g, 128, 128, 128), (115, 141, 115));
    let mut g = zero_globals();
    g.saturation = -4096;
    assert_eq!(apply_global_px(&g, px.0, px.1, px.2), (120, 120, 120));
    let mut g = zero_globals();
    g.highlights = -4096;
    assert_eq!(apply_global_px(&g, 220, 220, 220), (60, 60, 60));
    let mut g = zero_globals();
    g.shadows = 4096;
    assert_eq!(apply_global_px(&g, 30, 30, 30), (53, 53, 53));
    let mut g = zero_globals();
    g.vibrance = 4096;
    assert_eq!(apply_global_px(&g, 100, 150, 50), (73, 165, 0));
}

#[test]
fn identity_detection() {
    assert!(globals_are_identity(&zero_globals()));
    let mut g = zero_globals();
    g.contrast = 1;
    assert!(!globals_are_identity(&g));
}

#[test]
fn layer_effect_detection() {
    assert!(!layers_have_effect(&Vec::new()));
    let mut off = exposure_layer(4096);
    off.enabled = false;
    assert!(!layers_have_effect(&vec![off]));
    let mut transparent = exposure_layer(4096);
    transparent.opacity = 0;
    assert!(!layers_have_effect(&vec![transparent]));
    assert!(layers_have_effect(&vec![exposure_layer(4096)]));
}

#[test]
fn step_mask_values() {
    let m = step_mask();
    assert_eq!(mask_value(&m, FP_ONE, 0, 1000), 0);
    assert_eq!(mask_value(&m, FP_ONE, 2045, 1000), 0);
    assert_eq!(mask_value(&m, FP_ONE, 2048, 1000), 2048);
    assert_eq!(mask_value(&m, FP_ONE, 2050, 1000), 4096);
    assert_eq!(mask_value(&m, FP_ONE, 4096, 1000), 4096);
}

#[test]
fn step_layer_left_edge_original_right_edge_adjusted() {
    let layer = exposure_layer(4096);
    // Left edge: fully original.
    assert_eq!(apply_local_px(&layer, 0, 2048, 64, 64, 64), (64, 64, 64));
    // Right of the step: fully adjusted (one EV doubles the dark gray).
    assert_eq!(apply_local_px(&layer, 4096, 2048, 64, 64, 64), (128, 128, 128));
    // Exactly at the midpoint: the half-weight blend.
    assert_eq!(apply_local_px(&layer, 2048, 2048, 64, 64, 64), (96, 96, 96));
}

#[test]
fn local_identity_adjustment_keeps_channels() {
    let a = LocalAdjustments { exposure_ev: 0, temp: 0, tint: 0, saturation: 0 };
    let c = byte_to_fp(77);
    assert_eq!(local_color(&a, c, c, c), (c, c, c));
}

#[test]
fn layers_compose_in_order() {
    // +1 EV then -1 EV over a full-coverage mask returns to the start.
    let up = AdjustmentLayer { mask: full_mask(), ..exposure_layer(4096) };
    let down = AdjustmentLayer { mask: full_mask(), ..exposure_layer(-4096) };
    let mut img = ImageBuf {
        width: 1,
        height: 1,
        data: vec![100, 100, 100, 255],
    };
    apply_layers_in_place(&mut img, &vec![up.clone()]);
    assert_eq!(img.data, vec![200, 200, 200, 255]);
    let mut img2 = ImageBuf {
        width: 1,
        height: 1,
        data: vec![100, 100, 100, 255],
    };
    apply_layers_in_place(&mut img2, &vec![up, down]);
    assert_eq!(img2.data, vec![100, 100, 100, 255]);
}

#[test]
fn finishing_an_externally_graded_buffer_encodes_it() {
    // No effective layer: the encode sees the buffer untouched, as PNG.
    let img = ImageBuf { width: 1, height: 1, data: vec![10, 20, 30, 255] };
    let plain = finish_preview(img, &Vec::new()).unwrap();
    assert_eq!(&plain[0..4], &[0x89, b'P', b'N', b'G']);
    // A full-coverage exposure layer runs the verified layer pass: the
    // result differs from the untouched encode.
    let img2 = ImageBuf { width: 1, height: 1, data: vec![10, 20, 30, 255] };
    let up = AdjustmentLayer { mask: full_mask(), ..exposure_layer(4096) };
    let graded = finish_preview(img2, &vec![up]).unwrap();
    assert_ne!(plain, graded);
}

#[test]
fn identity_recipe_is_a_no_op_on_the_buffer() {
    let rc = EditRecipe::default();
    let mut img = ImageBuf {
        width: 2,
        height: 1,
        data: vec![1, 2, 3, 4, 5, 6, 7, 8],
    };
    let before = img.data.clone();
    apply_recipe(&mut img, &rc);
    assert_eq!(img.data, before);
}
