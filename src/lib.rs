//! Decoding of the packed search index that rustdoc embeds in a generated
//! documentation site: unwrapping the script literal, reading its per-crate
//! schema, decoding the parent-index stream and resolving every item.
//!
//! - `extract`: takes the literal out of its script wrapper.
//! - `json` and `schema`: read the literal as JSON, then as crate entries.
//! - `search_index`: the per-crate data, its views and the whole-index reader.
//! - `vlq`: the hex-alphabet variable-length number stream.
//! - `search_items`: resolves each position of a crate into a search item.
//! - `item_type`: the item kinds and their codes.
//! - `text`: small string operations the others share.
pub mod item_type;
pub mod vlq;
pub mod text;
pub mod json;
pub mod search_index;
pub mod schema;
pub mod search_items;
pub mod extract;
