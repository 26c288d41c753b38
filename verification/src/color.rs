//! Colours of the `egui` crate, as the raster makes them.

use vstd::prelude::*;

verus! {

/// `egui::Color32`, a colour in four bytes. Verus sees nothing inside it:
/// what it holds goes by the name `color_channels`.
#[verifier::external_type_specification]
#[verifier::external_body]
pub struct ExColor32(egui::Color32);

/// The red, green, blue and alpha bytes of a colour, in this order.
pub uninterp spec fn color_channels(color: egui::Color32) -> (u8, u8, u8, u8);

/// `egui::Color32::from_rgb`: the colour with the given red, green and blue
/// and with full alpha. This is not proved; it is what the source of the
/// `ecolor` crate, from which `egui` takes the type, shows.
pub assume_specification[ egui::Color32::from_rgb ](r: u8, g: u8, b: u8) -> (color: egui::Color32)
    ensures
        color_channels(color) == (r, g, b, 255u8),
;

/// The channels of the opaque gray of intensity `g`.
pub open spec fn gray(g: u8) -> (u8, u8, u8, u8) {
    (g, g, g, 255u8)
}

/// Turns raw RGB bytes, three to a pixel, into opaque colours: colour `i`
/// has bytes `3 * i`, `3 * i + 1` and `3 * i + 2` as its red, green and blue.
pub fn colors_from_rgb(raw: &Vec<u8>) -> (colors: Vec<egui::Color32>)
    requires
        raw.len() % 3 == 0,
    ensures
        colors.len() == raw.len() / 3,
        forall|i: int|
            0 <= i < colors.len() ==> color_channels(#[trigger] colors[i]) == (
                raw[3 * i],
                raw[3 * i + 1],
                raw[3 * i + 2],
                255u8,
            ),
{
    let mut colors: Vec<egui::Color32> = Vec::new();
    let mut at: usize = 0;
    while at < raw.len()
        invariant
            raw.len() % 3 == 0,
            at <= raw.len(),
            at == 3 * colors.len(),
            forall|i: int|
                0 <= i < colors.len() ==> color_channels(#[trigger] colors[i]) == (
                    raw[3 * i],
                    raw[3 * i + 1],
                    raw[3 * i + 2],
                    255u8,
                ),
        decreases raw.len() - at,
    {
        let color = egui::Color32::from_rgb(raw[at], raw[at + 1], raw[at + 2]);
        colors.push(color);
        at = at + 3;
    }
    colors
}

} // verus!
