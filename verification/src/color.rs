//! The colour type of the drawing library, as far as the engine needs it: the
//! engine makes colours from channel bytes and carries them in the cells of the
//! board.

use vstd::prelude::*;

verus! {

/// `macroquad::color::Color`, carried through as an opaque value.
#[verifier::external_type_specification]
#[verifier::external_body]
pub struct ExColor(macroquad::color::Color);

/// The colour that `macroquad::color::Color::from_rgba` makes of four channel
/// bytes.
pub uninterp spec fn rgba(r: u8, g: u8, b: u8, a: u8) -> macroquad::color::Color;

/// What is taken on trust of `macroquad::color::Color::from_rgba`: its result
/// depends on the four bytes alone. It divides each byte by 255 and reads
/// nothing else, so equal bytes give equal colours.
pub assume_specification[ macroquad::color::Color::from_rgba ](r: u8, g: u8, b: u8, a: u8) -> (color:
    macroquad::color::Color)
    ensures
        color == rgba(r, g, b, a),
;

} // verus!
