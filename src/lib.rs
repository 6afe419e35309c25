//! Conversion between a scripting runtime's values and JSON.
//!
//! The host runtime's values are modelled by [`host::LuaValue`], JSON trees by
//! [`json::Json`]. The two converters in [`convert`] are verified against spec
//! functions, and [`laws`] proves what holds of them together: the round trip,
//! how tables are classified, the empty table, the refusal of non-finite
//! floats. [`codec`] reaches the JSON text codec of `serde_json`, and [`text`]
//! holds the text-to-text operations built on it.

pub mod json;
pub mod host;
pub mod convert;
pub mod laws;
pub mod codec;
pub mod text;
