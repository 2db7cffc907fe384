//! Map data, dialog, item and widget logic of a turn based RPG.
use vstd::prelude::*;

pub mod area;
pub mod area_widget;
pub mod codec;
pub mod dialog;
pub mod geometry;
pub mod item_button;
pub mod item_text;
pub mod script_menu;
pub mod text;

verus! {

} // verus!
