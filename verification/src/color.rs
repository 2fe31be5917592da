//! Colours of the drawing layer, as far as the data types name them.

use vstd::prelude::*;

verus! {

/// The drawing layer's colour type, carried through as it is.
#[verifier::external_type_specification]
#[verifier::external_body]
pub struct ExColor32(egui::Color32);

/// The four channels of a colour: red, green, blue, alpha.
pub uninterp spec fn color_channels(c: egui::Color32) -> (u8, u8, u8, u8);

/// Calls `egui::Color32::from_rgb`, which stores the three channels given
/// and full opacity (alpha 255).
#[verifier::external_body]
pub(crate) fn color_from_rgb(r: u8, g: u8, b: u8) -> (c: egui::Color32)
    ensures
        color_channels(c) == (r, g, b, 255u8),
{
    egui::Color32::from_rgb(r, g, b)
}

} // verus!
