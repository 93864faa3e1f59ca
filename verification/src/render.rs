//! The outward rendering operations: a preview with a recipe applied, and
//! thumbnail pixels with a synthetic placeholder when decoding fails.

use vstd::prelude::*;

use crate::cache::{
    sp_find_master, sp_find_variant, sp_fresh_image_master, sp_master_hit, sp_master_step,
    sp_resolved_master, sp_scaled_post, sp_served_of, PreviewCache, DECODES_MAX,
};
use crate::codec::{encode_png_bytes, png_encoding};
use crate::decode::{sp_decodable, sp_image_backend_ok, DecodeError};
use crate::dims::{clamp_dim, PREVIEW_MASTER_BASE};
use crate::engine::{apply_layers_in_place, apply_recipe, sp_layers_buf, sp_recipe_buf};
use crate::img::ImageBuf;
use crate::recipe::{layers_have_effect, sp_layers_have_effect, AdjustmentLayer, EditRecipe};
use crate::resize::{render_resized, resize_rgba_preserve_aspect, sp_resized_bytes};

verus! {

/// Default larger-side dimension for a full preview.
pub const DEFAULT_PREVIEW_DIM: u32 = 1440;

/// Larger-side dimension for thumbnails.
pub const THUMBNAIL_DIM: u32 = 360;

/// Why a preview render failed: every decode backend failed, or the final
/// encoding failed.
#[derive(Debug)]
pub enum RenderError {
    Decode(DecodeError),
    Encode(String),
}

/// What a render yields for a scaled buffer and an optional recipe: the
/// PNG encoding of the buffer with the recipe applied (an absent recipe is
/// the identity).
pub open spec fn sp_rendered(w: int, h: int, data: Seq<u8>, recipe: Option<EditRecipe>) -> (
    bool,
    Seq<u8>,
) {
    let adjusted = match recipe {
        Option::None => data,
        Option::Some(rc) => sp_recipe_buf(data, w, h, rc),
    };
    png_encoding(w as nat, h as nat, adjusted)
}

/// A recipe with all sliders at their defaults and no effective layer
/// renders byte-identically to no recipe at all.
pub proof fn lemma_identity_recipe_render(w: int, h: int, data: Seq<u8>, rc: EditRecipe)
    requires
        rc.globals.sp_is_identity(),
        !crate::recipe::sp_layers_have_effect(rc.layers@),
    ensures
        sp_rendered(w, h, data, Option::Some(rc)) == sp_rendered(w, h, data, Option::None),
{
    crate::engine::lemma_recipe_identity(data, w, h, rc);
}

/// Render a preview: resolve the scaled buffer through the cache, apply
/// the recipe to a copy of it, and encode the result. The render succeeds
/// exactly when the buffer can be served (a resident master or decodable
/// bytes) and its adjusted pixels encode; a decode failure is reported as
/// such, an encoding failure as such.
pub fn render_preview_with_recipe(
    cache: &mut PreviewCache,
    asset_id: &String,
    bytes: &Vec<u8>,
    recipe: Option<&EditRecipe>,
    max_dimension: Option<u32>,
) -> (r: Result<Vec<u8>, RenderError>)
    requires
        old(cache).wf(),
        old(cache).sp_state().decodes < DECODES_MAX,
        recipe matches Some(rc) ==> rc.wf(),
    ensures
        final(cache).wf(),
        final(cache).sp_state().decodes <= old(cache).sp_state().decodes + 1,
        ({
            let s = old(cache).sp_state();
            let t = clamp_dim(
                match max_dimension {
                    Option::Some(d) => d as int,
                    Option::None => DEFAULT_PREVIEW_DIM as int,
                },
            );
            let rview = match recipe {
                Option::Some(rc) => Option::Some(*rc),
                Option::None => Option::<EditRecipe>::None,
            };
            sp_master_hit(s, asset_id@, t) ==> {
                let k = sp_find_master(s.masters, asset_id@, 0);
                let m = s.masters[k];
                &&& (t >= m.max_dim - 4 ==> {
                    &&& (r is Ok <==> sp_rendered(m.width, m.height, m.data, rview).0)
                    &&& (r matches Ok(out) ==> out@ == sp_rendered(m.width, m.height, m.data, rview).1)
                })
                &&& (t < m.max_dim - 4 ==> {
                    let kv = sp_find_variant(s.variants, asset_id@, t, 0);
                    kv >= 0 ==> {
                        let v = s.variants[kv];
                        &&& (r is Ok <==> sp_rendered(v.width, v.height, v.data, rview).0)
                        &&& (r matches Ok(out) ==> out@ == sp_rendered(v.width, v.height, v.data, rview).1)
                    }
                })
            }
        }),
        ({
            let s = old(cache).sp_state();
            let t = clamp_dim(
                match max_dimension {
                    Option::Some(d) => d as int,
                    Option::None => DEFAULT_PREVIEW_DIM as int,
                },
            );
            let dt = if t >= PREVIEW_MASTER_BASE {
                t
            } else {
                PREVIEW_MASTER_BASE as int
            };
            let rview = match recipe {
                Option::Some(rc) => Option::Some(*rc),
                Option::None => Option::<EditRecipe>::None,
            };
            !sp_master_hit(s, asset_id@, t) && sp_image_backend_ok(bytes@) ==> {
                let m = sp_fresh_image_master(asset_id@, bytes@, dt);
                let sv = sp_served_of(sp_master_step(s, asset_id@, t, m), asset_id@, t, m);
                &&& (r is Ok <==> sp_rendered(sv.0, sv.1, sv.2, rview).0)
                &&& (r matches Ok(out) ==> out@ == sp_rendered(sv.0, sv.1, sv.2, rview).1)
            }
        }),
        ({
            let s = old(cache).sp_state();
            let t = clamp_dim(
                match max_dimension {
                    Option::Some(d) => d as int,
                    Option::None => DEFAULT_PREVIEW_DIM as int,
                },
            );
            &&& (r matches Err(e) ==> (e matches RenderError::Decode(d) ==> !sp_decodable(bytes@)
                && !sp_master_hit(s, asset_id@, t)))
            &&& (!sp_master_hit(s, asset_id@, t) && !sp_decodable(bytes@) ==> r matches Err(
                RenderError::Decode(_),
            ))
            &&& (!sp_master_hit(s, asset_id@, t) && sp_decodable(bytes@) ==> (r is Ok || r matches
                Err(RenderError::Encode(_))))
        }),
{
    let ghost s = cache.sp_state();
    let target = match max_dimension {
        Some(d) => d,
        None => DEFAULT_PREVIEW_DIM,
    };
    let base = match cache.scaled_preview(asset_id, bytes, target) {
        Ok(img) => img,
        Err(e) => {
            return Err(RenderError::Decode(e));
        },
    };
    proof {
        reveal(sp_scaled_post);
        let t0 = clamp_dim(target as int);
        let m_r = sp_resolved_master(s, asset_id@, t0, cache.sp_state(), base);
        assert(sp_scaled_post(s, asset_id@, t0, m_r, cache.sp_state(), base));
        if sp_master_hit(s, asset_id@, t0) {
            let k = sp_find_master(s.masters, asset_id@, 0);
            assert(m_r == s.masters[k]);
            assert(sp_master_step(s, asset_id@, t0, m_r).variants == s.variants);
        }
        if !sp_master_hit(s, asset_id@, t0) && sp_image_backend_ok(bytes@) {
            let dt = if t0 >= PREVIEW_MASTER_BASE {
                t0
            } else {
                PREVIEW_MASTER_BASE as int
            };
            assert(sp_scaled_post(
                s,
                asset_id@,
                t0,
                sp_fresh_image_master(asset_id@, bytes@, dt),
                cache.sp_state(),
                base,
            ));
        }
    }
    let ghost base0 = base;
    let mut working = base;
    match recipe {
        Some(rc) => {
            apply_recipe(&mut working, rc);
        },
        None => {},
    }
    proof {
        assert(working.width == base0.width);
        assert(working.height == base0.height);
    }
    match encode_png_bytes(&working) {
        Ok(out) => Ok(out),
        Err(e) => Err(RenderError::Encode(e)),
    }
}

/// Apply a recipe's local layers to a working buffer whose global pass
/// already ran elsewhere (the GPU path applies globals off-core), then
/// encode it; an ineffective layer list is skipped outright. The layer
/// pass is always the CPU engine.
pub fn finish_preview(working: ImageBuf, layers: &Vec<AdjustmentLayer>) -> (r: Result<
    Vec<u8>,
    String,
>)
    requires
        working.wf(),
        forall|i: int| 0 <= i < layers@.len() ==> layers@[i].wf(),
    ensures
        ({
            let adjusted = if sp_layers_have_effect(layers@) {
                sp_layers_buf(working.data@, working.width as int, working.height as int, layers@)
            } else {
                working.data@
            };
            &&& (r is Ok <==> png_encoding(working.width as nat, working.height as nat, adjusted).0)
            &&& (r matches Ok(out) ==> out@ == png_encoding(
                working.width as nat,
                working.height as nat,
                adjusted,
            ).1)
        }),
{
    let mut img = working;
    if layers_have_effect(layers) {
        apply_layers_in_place(&mut img, layers);
    }
    encode_png_bytes(&img)
}

/// The red channel of the placeholder gradient at row `y`.
pub open spec fn sp_ph_red(y: int) -> int {
    220 - (40 * y) / 320
}

/// The green channel of the placeholder gradient at column `x`.
pub open spec fn sp_ph_green(x: int) -> int {
    230 - (60 * x) / 480
}

/// The blue channel of the placeholder gradient at `(x, y)`.
pub open spec fn sp_ph_blue(x: int, y: int) -> int {
    245 - (80 * (x * y)) / 153600
}

/// The placeholder's bytes as one closed sequence: 480x320 pixels, each
/// byte given by the gradient formulas.
pub open spec fn sp_placeholder_data() -> Seq<u8> {
    Seq::new(
        (4 * 480 * 320) as nat,
        |j: int|
            {
                let q = j / 4;
                let x = q % 480;
                let y = q / 480;
                if j % 4 == 0 {
                    sp_ph_red(y) as u8
                } else if j % 4 == 1 {
                    sp_ph_green(x) as u8
                } else if j % 4 == 2 {
                    sp_ph_blue(x, y) as u8
                } else {
                    255u8
                }
            },
    )
}

/// Every byte of placeholder pixel `q` matches the gradient formulas.
pub open spec fn sp_ph_pixel_ok(data: Seq<u8>, q: int) -> bool {
    let x = q % 480;
    let y = q / 480;
    let base = 4 * q;
    &&& data[base] as int == sp_ph_red(y)
    &&& data[base + 1] as int == sp_ph_green(x)
    &&& data[base + 2] as int == sp_ph_blue(x, y)
    &&& data[base + 3] == 255u8
}

/// The synthetic placeholder image shown when a thumbnail's source cannot
/// be decoded: a soft three-way gradient, 480x320, opaque.
pub fn placeholder_rgba() -> (r: ImageBuf)
    ensures
        r.wf(),
        r.width == 480,
        r.height == 320,
        forall|q: int| #![trigger sp_ph_pixel_ok(r.data@, q)] 0 <= q < 480 * 320 ==> sp_ph_pixel_ok(
            r.data@,
            q,
        ),
        r.data@ == sp_placeholder_data(),
{
    let mut img = ImageBuf::filled_black(480, 320);
    let n: usize = img.data.len();
    let np: usize = 480 * 320;
    let mut p: usize = 0;
    while p < np
        invariant
            img.width == 480,
            img.height == 320,
            img.data@.len() == n,
            n == 4 * np,
            np == 480 * 320,
            p <= np,
            forall|q: int| #![trigger sp_ph_pixel_ok(img.data@, q)] 0 <= q < p ==> sp_ph_pixel_ok(
                img.data@,
                q,
            ),
        decreases np - p,
    {
        let ghost d0 = img.data@;
        let x: usize = p % 480;
        let y: usize = p / 480;
        proof {
            vstd::arithmetic::div_mod::lemma_fundamental_div_mod(p as int, 480);
            vstd::arithmetic::div_mod::lemma_mod_division_less_than_divisor(p as int, 480);
            assert(y < 320) by (nonlinear_arith)
                requires
                    p as int == 480 * (y as int) + (x as int),
                    0 <= x < 480,
                    (p as int) < 480 * 320,
                    0 <= y,
            ;
            vstd::arithmetic::div_mod::lemma_div_pos_is_pos(40 * (y as int), 320);
            vstd::arithmetic::div_mod::lemma_div_is_ordered(40 * (y as int), 40int * 320, 320);
            vstd::arithmetic::div_mod::lemma_div_multiples_vanish(40, 320);
            vstd::arithmetic::div_mod::lemma_div_pos_is_pos(60 * (x as int), 480);
            vstd::arithmetic::div_mod::lemma_div_is_ordered(60 * (x as int), 60int * 480, 480);
            vstd::arithmetic::div_mod::lemma_div_multiples_vanish(60, 480);
            assert(0 <= 80 * ((x as int) * (y as int)) <= 80 * 153600) by (nonlinear_arith)
                requires
                    0 <= x < 480,
                    0 <= y < 320,
            ;
            vstd::arithmetic::div_mod::lemma_div_pos_is_pos(80 * ((x as int) * (y as int)), 153600);
            vstd::arithmetic::div_mod::lemma_div_is_ordered(
                80 * ((x as int) * (y as int)),
                80int * 153600,
                153600,
            );
            vstd::arithmetic::div_mod::lemma_div_multiples_vanish(80, 153600);
        }
        let red: i64 = 220 - (40 * (y as i64)) / 320;
        let green: i64 = 230 - (60 * (x as i64)) / 480;
        let blue: i64 = 245 - (80 * ((x as i64) * (y as i64))) / 153600;
        let base: usize = 4 * p;
        img.data[base] = red as u8;
        img.data[base + 1] = green as u8;
        img.data[base + 2] = blue as u8;
        img.data[base + 3] = 255u8;
        proof {
            assert forall|q: int| #![trigger sp_ph_pixel_ok(img.data@, q)] 0 <= q < p + 1 implies
                sp_ph_pixel_ok(img.data@, q) by {
                if q == p as int {
                    assert(q % 480 == x as int);
                    assert(q / 480 == y as int);
                    assert(sp_ph_pixel_ok(img.data@, q));
                } else {
                    assert(sp_ph_pixel_ok(d0, q));
                    assert(4 * q + 3 < 4 * (p as int));
                    assert(img.data@[4 * q] == d0[4 * q]);
                    assert(img.data@[4 * q + 1] == d0[4 * q + 1]);
                    assert(img.data@[4 * q + 2] == d0[4 * q + 2]);
                    assert(img.data@[4 * q + 3] == d0[4 * q + 3]);
                    assert(sp_ph_pixel_ok(img.data@, q));
                }
            }
        }
        p = p + 1;
    }
    proof {
        assert forall|j: int| 0 <= j < img.data@.len() implies img.data@[j]
            == sp_placeholder_data()[j] by {
            vstd::arithmetic::div_mod::lemma_fundamental_div_mod(j, 4);
            vstd::arithmetic::div_mod::lemma_mod_division_less_than_divisor(j, 4);
            let q = j / 4;
            assert(0 <= q < 480 * 320) by (nonlinear_arith)
                requires
                    0 <= j < 4 * (480 * 320),
                    q == j / 4,
                    j == 4 * q + j % 4,
                    0 <= j % 4 < 4,
            ;
            assert(sp_ph_pixel_ok(img.data@, q));
        }
        assert(img.data@ =~= sp_placeholder_data());
    }
    img
}

/// Produce thumbnail pixels for a byte stream: decode and scale to the
/// thumbnail size, or fall back to the scaled synthetic placeholder so a
/// thumbnail never fails outward.
pub fn thumbnail_pixels(bytes: &Vec<u8>) -> (r: ImageBuf)
    ensures
        r.wf(),
        !sp_decodable(bytes@) ==> {
            &&& r.width == 360
            &&& r.height == 240
            &&& r.data@ == sp_resized_bytes(sp_placeholder_data(), 480, 320, 360, 240)
        },
        sp_image_backend_ok(bytes@) ==> {
            let d = crate::codec::image_decode(bytes@);
            let side = if d.1 >= d.2 {
                d.1 as int
            } else {
                d.2 as int
            };
            let tgt = if THUMBNAIL_DIM <= side {
                THUMBNAIL_DIM as int
            } else {
                side
            };
            &&& (r.width as int, r.height as int) == crate::dims::spec_target_size(
                d.1 as int,
                d.2 as int,
                tgt,
            )
            &&& r.data@ == sp_resized_bytes(d.3, d.1 as int, d.2 as int, r.width as int, r.height as int)
        },
{
    match render_resized(bytes, THUMBNAIL_DIM) {
        Ok(img) => img,
        Err(_) => {
            let ph = placeholder_rgba();
            let out = resize_rgba_preserve_aspect(&ph, THUMBNAIL_DIM);
            proof {
                vstd::arithmetic::div_mod::lemma_fundamental_div_mod_converse(
                    360int * 320,
                    480,
                    240,
                    0,
                );
                assert(crate::dims::spec_target_size(480, 320, 360) == (360int, 240int));
            }
            out
        },
    }
}

/// Thumbnail bytes for a byte stream: the thumbnail pixels encoded as PNG.
/// Decode failures fall back to the placeholder; only an encoding failure
/// is reported.
pub fn thumbnail_png(bytes: &Vec<u8>) -> (r: Result<Vec<u8>, String>)
    ensures
        !sp_decodable(bytes@) ==> {
            let px = sp_resized_bytes(sp_placeholder_data(), 480, 320, 360, 240);
            &&& (r is Ok <==> png_encoding(360 as nat, 240 as nat, px).0)
            &&& (r matches Ok(out) ==> out@ == png_encoding(360 as nat, 240 as nat, px).1)
        },
        sp_image_backend_ok(bytes@) ==> {
            let d = crate::codec::image_decode(bytes@);
            let side = if d.1 >= d.2 {
                d.1 as int
            } else {
                d.2 as int
            };
            let tgt = if THUMBNAIL_DIM <= side {
                THUMBNAIL_DIM as int
            } else {
                side
            };
            let (nw, nh) = crate::dims::spec_target_size(d.1 as int, d.2 as int, tgt);
            let px = sp_resized_bytes(d.3, d.1 as int, d.2 as int, nw, nh);
            &&& (r is Ok <==> png_encoding(nw as nat, nh as nat, px).0)
            &&& (r matches Ok(out) ==> out@ == png_encoding(nw as nat, nh as nat, px).1)
        },
{
    let img = thumbnail_pixels(bytes);
    encode_png_bytes(&img)
}

} // verus!
