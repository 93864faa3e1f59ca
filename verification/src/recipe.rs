//! The non-destructive edit recipe: global tonal adjustments and ordered,
//! gradient-masked local layers.
//!
//! Slider values are carried in fixed point (`FP_ONE` is 1.0 after the
//! original percent scaling), so a slider of 50 percent is `FP_ONE / 2`.

use vstd::prelude::*;

use crate::fixed::{EV_ABS_MAX, FP_ONE};

verus! {

/// Largest normalized slider magnitude the engine accepts (2.0, i.e. a
/// 200-percent slider).
pub const SLIDER_ABS_MAX: i64 = 8192;

/// Largest mask coordinate magnitude the engine accepts (4.0 in normalized
/// image space).
pub const COORD_ABS_MAX: i64 = 16384;

/// The ten global sliders, all zero by default.
#[derive(Clone)]
pub struct GlobalAdjustments {
    pub exposure_ev: i64,
    pub contrast: i64,
    pub highlights: i64,
    pub shadows: i64,
    pub whites: i64,
    pub blacks: i64,
    pub temp: i64,
    pub tint: i64,
    pub vibrance: i64,
    pub saturation: i64,
}

impl GlobalAdjustments {
    /// All sliders within the engine's accepted range.
    pub open spec fn wf(self) -> bool {
        &&& -EV_ABS_MAX <= self.exposure_ev <= EV_ABS_MAX
        &&& -SLIDER_ABS_MAX <= self.contrast <= SLIDER_ABS_MAX
        &&& -SLIDER_ABS_MAX <= self.highlights <= SLIDER_ABS_MAX
        &&& -SLIDER_ABS_MAX <= self.shadows <= SLIDER_ABS_MAX
        &&& -SLIDER_ABS_MAX <= self.whites <= SLIDER_ABS_MAX
        &&& -SLIDER_ABS_MAX <= self.blacks <= SLIDER_ABS_MAX
        &&& -SLIDER_ABS_MAX <= self.temp <= SLIDER_ABS_MAX
        &&& -SLIDER_ABS_MAX <= self.tint <= SLIDER_ABS_MAX
        &&& -SLIDER_ABS_MAX <= self.vibrance <= SLIDER_ABS_MAX
        &&& -SLIDER_ABS_MAX <= self.saturation <= SLIDER_ABS_MAX
    }

    /// All sliders exactly zero: the adjustment is a no-op and the engine
    /// skips it.
    pub open spec fn sp_is_identity(self) -> bool {
        &&& self.exposure_ev == 0
        &&& self.contrast == 0
        &&& self.highlights == 0
        &&& self.shadows == 0
        &&& self.whites == 0
        &&& self.blacks == 0
        &&& self.temp == 0
        &&& self.tint == 0
        &&& self.vibrance == 0
        &&& self.saturation == 0
    }
}

impl Default for GlobalAdjustments {
    /// The default recipe: every slider at zero.
    fn default() -> (r: Self)
        ensures
            r.sp_is_identity(),
            r.wf(),
    {
        GlobalAdjustments {
            exposure_ev: 0,
            contrast: 0,
            highlights: 0,
            shadows: 0,
            whites: 0,
            blacks: 0,
            temp: 0,
            tint: 0,
            vibrance: 0,
            saturation: 0,
        }
    }
}

/// Decide whether a set of global adjustments is the identity.
pub fn globals_are_identity(g: &GlobalAdjustments) -> (r: bool)
    ensures
        r == g.sp_is_identity(),
{
    g.exposure_ev == 0 && g.contrast == 0 && g.highlights == 0 && g.shadows == 0 && g.whites == 0
        && g.blacks == 0 && g.temp == 0 && g.tint == 0 && g.vibrance == 0 && g.saturation == 0
}

/// The reduced slider set a local layer may adjust.
#[derive(Clone)]
pub struct LocalAdjustments {
    pub exposure_ev: i64,
    pub temp: i64,
    pub tint: i64,
    pub saturation: i64,
}

impl LocalAdjustments {
    /// All sliders within the engine's accepted range.
    pub open spec fn wf(self) -> bool {
        &&& -EV_ABS_MAX <= self.exposure_ev <= EV_ABS_MAX
        &&& -SLIDER_ABS_MAX <= self.temp <= SLIDER_ABS_MAX
        &&& -SLIDER_ABS_MAX <= self.tint <= SLIDER_ABS_MAX
        &&& -SLIDER_ABS_MAX <= self.saturation <= SLIDER_ABS_MAX
    }
}

impl Default for LocalAdjustments {
    /// No local adjustment.
    fn default() -> (r: Self)
        ensures
            r.exposure_ev == 0 && r.temp == 0 && r.tint == 0 && r.saturation == 0,
            r.wf(),
    {
        LocalAdjustments { exposure_ev: 0, temp: 0, tint: 0, saturation: 0 }
    }
}

/// A linear-gradient mask over normalized image coordinates.
#[derive(Clone)]
pub struct Mask {
    pub mask_type: String,
    pub start_x: i64,
    pub start_y: i64,
    pub end_x: i64,
    pub end_y: i64,
    pub feather: i64,
    pub invert: bool,
}

impl Mask {
    /// Coordinates bounded and feather within `[0, 1]`.
    pub open spec fn wf(self) -> bool {
        &&& -COORD_ABS_MAX <= self.start_x <= COORD_ABS_MAX
        &&& -COORD_ABS_MAX <= self.start_y <= COORD_ABS_MAX
        &&& -COORD_ABS_MAX <= self.end_x <= COORD_ABS_MAX
        &&& -COORD_ABS_MAX <= self.end_y <= COORD_ABS_MAX
        &&& 0 <= self.feather <= FP_ONE
    }
}

impl Default for Mask {
    /// The default diagonal gradient with a moderate feather.
    fn default() -> (r: Self)
        ensures
            r.wf(),
            !r.invert,
    {
        Mask {
            mask_type: String::new(),
            start_x: 1229,
            start_y: 819,
            end_x: 2867,
            end_y: 3277,
            feather: 819,
            invert: false,
        }
    }
}

/// One local adjustment layer: a mask, an opacity, and the reduced sliders.
#[derive(Clone)]
pub struct AdjustmentLayer {
    pub id: String,
    pub name: String,
    pub enabled: bool,
    pub opacity: i64,
    pub mask: Mask,
    pub adjustments: LocalAdjustments,
}

impl AdjustmentLayer {
    /// Opacity in `[0, 1]` and well-formed parts.
    pub open spec fn wf(self) -> bool {
        &&& 0 <= self.opacity <= FP_ONE
        &&& self.mask.wf()
        &&& self.adjustments.wf()
    }

    /// A layer contributes only when enabled with positive opacity.
    pub open spec fn sp_has_effect(self) -> bool {
        self.enabled && self.opacity > 0
    }
}

impl Default for AdjustmentLayer {
    /// An enabled, fully opaque layer with the default mask and no
    /// adjustment.
    fn default() -> (r: Self)
        ensures
            r.wf(),
            r.enabled,
            r.opacity == FP_ONE,
    {
        AdjustmentLayer {
            id: String::new(),
            name: String::new(),
            enabled: true,
            opacity: FP_ONE,
            mask: Mask::default(),
            adjustments: LocalAdjustments::default(),
        }
    }
}

/// A versioned recipe: global adjustments plus ordered local layers; the
/// layer order is the compositing order.
#[derive(Clone)]
pub struct EditRecipe {
    pub version: u8,
    pub globals: GlobalAdjustments,
    pub layers: Vec<AdjustmentLayer>,
}

impl EditRecipe {
    /// Globals and every layer well-formed.
    pub open spec fn wf(self) -> bool {
        &&& self.globals.wf()
        &&& forall|i: int| 0 <= i < self.layers@.len() ==> self.layers@[i].wf()
    }
}

impl Default for EditRecipe {
    /// Version 1, identity globals, no layers.
    fn default() -> (r: Self)
        ensures
            r.wf(),
            r.version == 1,
            r.globals.sp_is_identity(),
            r.layers@.len() == 0,
    {
        EditRecipe { version: 1, globals: GlobalAdjustments::default(), layers: Vec::new() }
    }
}

/// Whether any layer in the list contributes to the output.
pub open spec fn sp_layers_have_effect(layers: Seq<AdjustmentLayer>) -> bool {
    exists|i: int| 0 <= i < layers.len() && layers[i].sp_has_effect()
}

/// Decide whether a layer list has any visible effect.
pub fn layers_have_effect(layers: &Vec<AdjustmentLayer>) -> (r: bool)
    ensures
        r == sp_layers_have_effect(layers@),
{
    let mut i: usize = 0;
    while i < layers.len()
        invariant
            i <= layers@.len(),
            forall|j: int| 0 <= j < i ==> !layers@[j].sp_has_effect(),
        decreases layers@.len() - i,
    {
        if layers[i].enabled && layers[i].opacity > 0 {
            return true;
        }
        i = i + 1;
    }
    false
}

} // verus!
