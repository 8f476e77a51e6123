//! Ordering, equality and hashing implementations synthesized from a small
//! annotation language: a type-level list of selectors (member paths and
//! zero-argument calls) and per-field participation markers.
//!
//! The generators read a structural description of the annotated type and
//! return the text of the implementations, or the reason there are none.
mod derive;
mod grammar;
mod laws;
mod render;
mod resolve;

pub use derive::{
    cmp_by_derive, generate_impls, hash_by_derive, impl_sort_by_derive, Attribute, Field,
    GenError, Generator, Shape, TypeDescription,
};
pub use grammar::{parse_selector_list, Act, Mode};
pub use laws::{
    law_chain_is_lexicographic, law_chain_short_circuits, law_duplicate_marker_fails,
    law_empty_selection_fails, law_fields_only, law_marker_in_place, law_same_text_same_result,
    law_type_level_first,
};
pub use render::{render_hash_impl, render_ord_chain, render_ord_impls};
pub use resolve::{decimal_text, is_marker, resolve_selectors};
