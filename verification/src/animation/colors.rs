//! Colours used by the animations.
use vstd::prelude::*;

use crate::ef_led::Rgb;

verus! {

pub const BLACK: Rgb = (0, 0, 0);

pub const WHITE: Rgb = (255, 255, 255);

pub const PINK: Rgb = (230, 0, 100);

pub const LIGHT_BLUE: Rgb = (100, 100, 230);

/// Pure red. The badge's colour list does not come with the firmware, so this
/// value is this library's own choice.
pub const RED: Rgb = (255, 0, 0);

/// The teal of Emery, the shark of the badge's owner. The badge's colour
/// list does not come with the firmware, so this value is this library's own
/// choice.
pub const EMERY_TEAL: Rgb = (0, 128, 128);

} // verus!
