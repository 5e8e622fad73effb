//! Transliteration of romanized Manchu into the Manchu script.
use vstd::prelude::*;

pub mod converter;
pub mod matcher;
pub mod table;
pub mod text;

pub use converter::{words_to_manchu_unicode, ManchuConverter};
pub use matcher::{convert_graphemes, convert_latin_to_manchu_unicode};
pub use table::{get_latin_manchu_map, LatinManchuMap};

verus! {

} // verus!
