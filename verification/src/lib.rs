//! Canonical page names: arbitrary text is rewritten into a restricted slug
//! made of folded letters, digits, `-`, `:` and `_`.

pub mod category;
pub mod class;
pub mod collapse;
pub mod collapse_facts;
pub mod decode;
pub mod filter;
pub mod laws;
pub mod normal;
pub mod occurrence;
pub mod shape;
pub mod slug_facts;
pub mod text;
pub mod underscore;
pub mod unicode;

pub use crate::category::merge_multi_categories;
pub use crate::class::WordClass;
pub use crate::decode::{decode_escapes, normalize_decode, normalize_decode_with};
pub use crate::normal::{is_normal, is_normal_with, normalize, normalize_with};
pub use crate::underscore::replace_underscores;
pub use crate::unicode::{casefold, normalize_nfkc};
