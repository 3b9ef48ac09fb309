//! Renders cross-section datasets (reactions, states, tabulated data and
//! metadata) in a fixed legacy plain-text layout.
//!
//! `types` holds the data model, `species` derives captions and equations
//! from reactions, `block` and `render` lay out one record, and `legacy`
//! assembles whole datasets and mixtures. `laws` states properties of the
//! layout that hold for every input.

pub mod block;
pub mod decimal;
pub mod error;
pub mod laws;
pub mod legacy;
pub mod lookup;
pub mod render;
pub mod species;
pub mod text;
pub mod types;
