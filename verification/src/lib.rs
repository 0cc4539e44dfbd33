//! Core logic of an Ainu-language input method: forgiving romaji
//! normalization, romaji → katakana conversion, candidate lists, and the
//! key / composition decision logic of the text service.

use vstd::prelude::*;

pub mod text;
pub mod romaji;
pub mod config;
pub mod kana;
pub mod reader;
pub mod suggest;
pub mod candidates;
pub mod keys;
pub mod lang_bar;
pub mod display_attribute;
pub mod guids;
pub mod factory;
pub mod registry;
pub mod composition;
pub mod popup;
pub mod model_file;
pub mod settings;

verus! {

} // verus!
