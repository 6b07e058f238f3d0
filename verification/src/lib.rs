//! Verified rendering of hierarchical lists (unordered, ordered, menu) into
//! flat, indented plain-text list syntax.
//!
//! Two handlers cooperate: `ListHandler` brackets a list container and
//! maintains the ordered-list numbering context, and `ListItemHandler`
//! emits each item's bullet or ordinal prefix and re-indents the item's
//! rendered content.

pub mod container;
pub mod element;
pub mod item;
pub mod laws;
pub mod printer;
pub mod text;

pub use container::ListHandler;
pub use item::ListItemHandler;
pub use printer::StructuredPrinter;
