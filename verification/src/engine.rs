//! Buffer-level application of a recipe: the global pass over every pixel,
//! then each effective local layer in list order over the accumulated
//! result.

use vstd::prelude::*;

use crate::adjust::{apply_global_px, apply_local_px, sp_global_px, sp_local_px};
use crate::img::ImageBuf;
use crate::recipe::{
    globals_are_identity, layers_have_effect, sp_layers_have_effect, AdjustmentLayer, EditRecipe,
    GlobalAdjustments,
};

verus! {

/// A buffer of `4 * w * h` bytes holds `w * h` four-byte pixels.
proof fn lemma_scale_assoc(a: int, b: int)
    ensures
        4 * a * b == 4 * (a * b),
{
    assert(4 * a * b == 4 * (a * b)) by (nonlinear_arith);
}

/// The buffer after the global pass: every pixel's RGB mapped through
/// `sp_global_px`, alpha bytes untouched.
pub open spec fn sp_globals_buf(data: Seq<u8>, g: GlobalAdjustments) -> Seq<u8> {
    Seq::new(
        data.len(),
        |j: int|
            {
                let base = 4 * (j / 4);
                if j % 4 == 3 {
                    data[j]
                } else {
                    let c = sp_global_px(
                        g,
                        data[base] as int,
                        data[base + 1] as int,
                        data[base + 2] as int,
                    );
                    if j % 4 == 0 {
                        c.0 as u8
                    } else if j % 4 == 1 {
                        c.1 as u8
                    } else {
                        c.2 as u8
                    }
                }
            },
    )
}

/// Even without the skip, the global pass with identity sliders maps every
/// buffer to itself, pixel for pixel.
pub proof fn lemma_globals_buf_identity(data: Seq<u8>, g: GlobalAdjustments)
    requires
        g.sp_is_identity(),
        data.len() % 4 == 0,
    ensures
        sp_globals_buf(data, g) == data,
{
    let len = data.len() as int;
    assert forall|j: int| 0 <= j < len implies sp_globals_buf(data, g)[j] == data[j] by {
        vstd::arithmetic::div_mod::lemma_fundamental_div_mod(j, 4);
        vstd::arithmetic::div_mod::lemma_mod_division_less_than_divisor(j, 4);
        if j % 4 != 3 {
            let base = 4 * (j / 4);
            vstd::arithmetic::div_mod::lemma_fundamental_div_mod(len, 4);
            vstd::arithmetic::div_mod::lemma_fundamental_div_mod_converse(
                len - 1,
                4,
                len / 4 - 1,
                3,
            );
            vstd::arithmetic::div_mod::lemma_div_is_ordered(j, len - 1, 4);
            assert(base + 3 < len);
            crate::adjust::lemma_global_px_identity(
                g,
                data[base] as int,
                data[base + 1] as int,
                data[base + 2] as int,
            );
        }
    }
    assert(sp_globals_buf(data, g) =~= data);
}

/// Apply the global adjustments to every pixel of the buffer in place.
pub fn apply_globals_in_place(img: &mut ImageBuf, g: &GlobalAdjustments)
    requires
        old(img).wf(),
        g.wf(),
    ensures
        final(img).wf(),
        final(img).width == old(img).width,
        final(img).height == old(img).height,
        final(img).data@ == sp_globals_buf(old(img).data@, *g),
{
    let ghost orig = img.data@;
    let n: usize = img.data.len();
    let np: usize = n / 4;
    proof {
        let w0 = old(img).width as int;
        let h0 = old(img).height as int;
        let wh = w0 * h0;
        lemma_scale_assoc(w0, h0);
        assert(n == 4 * wh);
        vstd::arithmetic::div_mod::lemma_div_multiples_vanish(wh, 4);
        assert(np == wh);
    }
    let mut p: usize = 0;
    while p < np
        invariant
            img.data@.len() == n,
            n == orig.len(),
            n == 4 * np,
            p <= np,
            g.wf(),
            img.width == old(img).width,
            img.height == old(img).height,
            forall|j: int| 0 <= j < 4 * p ==> img.data@[j] == sp_globals_buf(orig, *g)[j],
            forall|j: int| 4 * p <= j < n ==> img.data@[j] == orig[j],
        decreases np - p,
    {
        let base: usize = 4 * p;
        let pr = img.data[base];
        let pg = img.data[base + 1];
        let pb = img.data[base + 2];
        let px = apply_global_px(g, pr, pg, pb);
        img.data[base] = px.0;
        img.data[base + 1] = px.1;
        img.data[base + 2] = px.2;
        proof {
            let pi = p as int;
            vstd::arithmetic::div_mod::lemma_fundamental_div_mod_converse(4 * pi, 4, pi, 0);
            vstd::arithmetic::div_mod::lemma_fundamental_div_mod_converse(4 * pi + 1, 4, pi, 1);
            vstd::arithmetic::div_mod::lemma_fundamental_div_mod_converse(4 * pi + 2, 4, pi, 2);
            vstd::arithmetic::div_mod::lemma_fundamental_div_mod_converse(4 * pi + 3, 4, pi, 3);
            assert forall|j: int| 0 <= j < 4 * (p + 1) implies img.data@[j] == sp_globals_buf(
                orig,
                *g,
            )[j] by {
                vstd::arithmetic::div_mod::lemma_fundamental_div_mod(j, 4);
                vstd::arithmetic::div_mod::lemma_mod_division_less_than_divisor(j, 4);
            }
        }
        p = p + 1;
    }
    proof {
        assert(img.data@ =~= sp_globals_buf(orig, *g));
    }
}

/// The buffer after one local layer: for an effective layer, every pixel's
/// RGB mapped through `sp_local_px` at its normalized coordinates; an
/// ineffective layer leaves the buffer alone.
pub open spec fn sp_layer_buf(data: Seq<u8>, w: int, h: int, layer: AdjustmentLayer) -> Seq<u8> {
    if !layer.sp_has_effect() {
        data
    } else {
        Seq::new(
            data.len(),
            |j: int|
                {
                    let p = j / 4;
                    let base = 4 * p;
                    let x = ((p % w) * 4096) / w;
                    let y = ((p / w) * 4096) / h;
                    if j % 4 == 3 {
                        data[j]
                    } else {
                        let c = sp_local_px(
                            layer,
                            x,
                            y,
                            data[base] as int,
                            data[base + 1] as int,
                            data[base + 2] as int,
                        );
                        if j % 4 == 0 {
                            c.0 as u8
                        } else if j % 4 == 1 {
                            c.1 as u8
                        } else {
                            c.2 as u8
                        }
                    }
                },
        )
    }
}

/// Apply one local layer to every pixel of the buffer in place.
pub fn apply_local_layer_in_place(img: &mut ImageBuf, layer: &AdjustmentLayer)
    requires
        old(img).wf(),
        layer.wf(),
    ensures
        final(img).wf(),
        final(img).width == old(img).width,
        final(img).height == old(img).height,
        final(img).data@ == sp_layer_buf(
            old(img).data@,
            old(img).width as int,
            old(img).height as int,
            *layer,
        ),
{
    if !(layer.enabled && layer.opacity > 0) {
        return ;
    }
    let ghost orig = img.data@;
    let w: u32 = img.width;
    let h: u32 = img.height;
    let n: usize = img.data.len();
    let np: usize = n / 4;
    proof {
        let wh = (w as int) * (h as int);
        lemma_scale_assoc(w as int, h as int);
        assert(n == 4 * wh);
        vstd::arithmetic::div_mod::lemma_div_multiples_vanish(wh, 4);
        assert(np == wh);
    }
    let mut p: usize = 0;
    while p < np
        invariant
            img.data@.len() == n,
            n == orig.len(),
            n == 4 * np,
            p <= np,
            layer.wf(),
            layer.sp_has_effect(),
            img.width == w,
            img.height == h,
            1 <= w,
            1 <= h,
            np == (w as int) * (h as int),
            forall|j: int|
                0 <= j < 4 * p ==> img.data@[j] == sp_layer_buf(orig, w as int, h as int, *layer)[j],
            forall|j: int| 4 * p <= j < n ==> img.data@[j] == orig[j],
        decreases np - p,
    {
        let base: usize = 4 * p;
        let col: usize = p % (w as usize);
        let row: usize = p / (w as usize);
        proof {
            vstd::arithmetic::div_mod::lemma_fundamental_div_mod(p as int, w as int);
            vstd::arithmetic::div_mod::lemma_mod_division_less_than_divisor(p as int, w as int);
            assert(row < h) by (nonlinear_arith)
                requires
                    p as int == (w as int) * (row as int) + (col as int),
                    0 <= col < w,
                    (p as int) < (w as int) * (h as int),
                    0 <= row,
                    1 <= w,
            ;
            assert((col as int) * 4096 <= (w as int) * 4096 && (row as int) * 4096 <= (h as int)
                * 4096) by (nonlinear_arith)
                requires
                    0 <= col <= w,
                    0 <= row <= h,
            ;
            vstd::arithmetic::div_mod::lemma_div_pos_is_pos((col as int) * 4096, w as int);
            vstd::arithmetic::div_mod::lemma_div_is_ordered(
                (col as int) * 4096,
                (w as int) * 4096,
                w as int,
            );
            vstd::arithmetic::div_mod::lemma_div_multiples_vanish(4096, w as int);
            vstd::arithmetic::div_mod::lemma_div_pos_is_pos((row as int) * 4096, h as int);
            vstd::arithmetic::div_mod::lemma_div_is_ordered(
                (row as int) * 4096,
                (h as int) * 4096,
                h as int,
            );
            vstd::arithmetic::div_mod::lemma_div_multiples_vanish(4096, h as int);
        }
        let x: i64 = ((col as i64) * 4096) / (w as i64);
        let y: i64 = ((row as i64) * 4096) / (h as i64);
        let pr = img.data[base];
        let pg = img.data[base + 1];
        let pb = img.data[base + 2];
        let px = apply_local_px(layer, x, y, pr, pg, pb);
        img.data[base] = px.0;
        img.data[base + 1] = px.1;
        img.data[base + 2] = px.2;
        proof {
            let pi = p as int;
            vstd::arithmetic::div_mod::lemma_fundamental_div_mod_converse(4 * pi, 4, pi, 0);
            vstd::arithmetic::div_mod::lemma_fundamental_div_mod_converse(4 * pi + 1, 4, pi, 1);
            vstd::arithmetic::div_mod::lemma_fundamental_div_mod_converse(4 * pi + 2, 4, pi, 2);
            vstd::arithmetic::div_mod::lemma_fundamental_div_mod_converse(4 * pi + 3, 4, pi, 3);
            assert forall|j: int| 0 <= j < 4 * (p + 1) implies img.data@[j] == sp_layer_buf(
                orig,
                w as int,
                h as int,
                *layer,
            )[j] by {
                vstd::arithmetic::div_mod::lemma_fundamental_div_mod(j, 4);
                vstd::arithmetic::div_mod::lemma_mod_division_less_than_divisor(j, 4);
            }
        }
        p = p + 1;
    }
    proof {
        assert(img.data@ =~= sp_layer_buf(orig, w as int, h as int, *layer));
    }
}

/// The buffer after a whole layer list, applied in order: each layer sees
/// the accumulated result of all prior layers, never the pristine base.
pub open spec fn sp_layers_buf(data: Seq<u8>, w: int, h: int, layers: Seq<AdjustmentLayer>) -> Seq<
    u8,
>
    decreases layers.len(),
{
    if layers.len() == 0 {
        data
    } else {
        sp_layers_buf(sp_layer_buf(data, w, h, layers[0]), w, h, layers.drop_first())
    }
}

proof fn lemma_layers_buf_snoc(
    data: Seq<u8>,
    w: int,
    h: int,
    layers: Seq<AdjustmentLayer>,
    l: AdjustmentLayer,
)
    ensures
        sp_layers_buf(data, w, h, layers.push(l)) == sp_layer_buf(
            sp_layers_buf(data, w, h, layers),
            w,
            h,
            l,
        ),
    decreases layers.len(),
{
    if layers.len() == 0 {
        let single = layers.push(l);
        assert(single[0] == l);
        assert(single.drop_first() =~= Seq::<AdjustmentLayer>::empty());
        let d1 = sp_layer_buf(data, w, h, l);
        assert(sp_layers_buf(data, w, h, single) == sp_layers_buf(d1, w, h, single.drop_first()));
        assert(sp_layers_buf(d1, w, h, single.drop_first()) == d1);
        assert(sp_layers_buf(data, w, h, layers) == data);
    } else {
        let ext = layers.push(l);
        assert(ext[0] == layers[0]);
        assert(ext.drop_first() =~= layers.drop_first().push(l));
        let d0 = sp_layer_buf(data, w, h, layers[0]);
        assert(sp_layers_buf(data, w, h, ext) == sp_layers_buf(d0, w, h, ext.drop_first()));
        lemma_layers_buf_snoc(d0, w, h, layers.drop_first(), l);
        assert(sp_layers_buf(data, w, h, layers) == sp_layers_buf(d0, w, h, layers.drop_first()));
    }
}

/// Apply every layer of the list, in list order, over the accumulated
/// buffer.
pub fn apply_layers_in_place(img: &mut ImageBuf, layers: &Vec<AdjustmentLayer>)
    requires
        old(img).wf(),
        forall|i: int| 0 <= i < layers@.len() ==> layers@[i].wf(),
    ensures
        final(img).wf(),
        final(img).width == old(img).width,
        final(img).height == old(img).height,
        final(img).data@ == sp_layers_buf(
            old(img).data@,
            old(img).width as int,
            old(img).height as int,
            layers@,
        ),
{
    let ghost orig = img.data@;
    let ghost w = old(img).width as int;
    let ghost h = old(img).height as int;
    let mut i: usize = 0;
    while i < layers.len()
        invariant
            i <= layers@.len(),
            img.wf(),
            img.width == old(img).width,
            img.height == old(img).height,
            w == old(img).width as int,
            h == old(img).height as int,
            orig == old(img).data@,
            forall|k: int| 0 <= k < layers@.len() ==> layers@[k].wf(),
            img.data@ == sp_layers_buf(orig, w, h, layers@.subrange(0, i as int)),
        decreases layers@.len() - i,
    {
        apply_local_layer_in_place(img, &layers[i]);
        proof {
            lemma_layers_buf_snoc(orig, w, h, layers@.subrange(0, i as int), layers@[i as int]);
            assert(layers@.subrange(0, i + 1) =~= layers@.subrange(0, i as int).push(
                layers@[i as int],
            ));
        }
        i = i + 1;
    }
    proof {
        assert(layers@.subrange(0, layers@.len() as int) =~= layers@);
    }
}

/// The buffer after a whole recipe: the global pass when the globals are not
/// the identity, then the layer passes when any layer is effective.
pub open spec fn sp_recipe_buf(data: Seq<u8>, w: int, h: int, r: EditRecipe) -> Seq<u8> {
    let d1 = if r.globals.sp_is_identity() {
        data
    } else {
        sp_globals_buf(data, r.globals)
    };
    if sp_layers_have_effect(r.layers@) {
        sp_layers_buf(d1, w, h, r.layers@)
    } else {
        d1
    }
}

/// Apply a recipe to the buffer: globals first, then the layers in order;
/// identity globals and ineffective layer lists are skipped outright.
pub fn apply_recipe(img: &mut ImageBuf, r: &EditRecipe)
    requires
        old(img).wf(),
        r.wf(),
    ensures
        final(img).wf(),
        final(img).width == old(img).width,
        final(img).height == old(img).height,
        final(img).data@ == sp_recipe_buf(
            old(img).data@,
            old(img).width as int,
            old(img).height as int,
            *r,
        ),
{
    if !globals_are_identity(&r.globals) {
        apply_globals_in_place(img, &r.globals);
    }
    if layers_have_effect(&r.layers) {
        apply_layers_in_place(img, &r.layers);
    }
}

/// An identity recipe (zero globals, no effective layer) leaves the buffer
/// exactly as it was.
pub proof fn lemma_recipe_identity(data: Seq<u8>, w: int, h: int, r: EditRecipe)
    requires
        r.globals.sp_is_identity(),
        !sp_layers_have_effect(r.layers@),
    ensures
        sp_recipe_buf(data, w, h, r) == data,
{
}

} // verus!
