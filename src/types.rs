use vstd::prelude::*;

use crate::decimal::Decimal;

verus! {

/// `count` times one species, on one side of a reaction.
pub struct StateEntry<StateType> {
    pub count: u32,
    pub state: StateType,
}

pub struct Reaction<StateType> {
    pub lhs: Vec<StateEntry<StateType>>,
    pub rhs: Vec<StateEntry<StateType>>,
    pub reversible: bool,
    /// The first tag decides how the reaction is classified.
    pub type_tags: Vec<String>,
}

pub struct Parameters {
    pub mass_ratio: Option<Decimal>,
    pub statistical_weight_ratio: Option<Decimal>,
}

/// A lookup table: two labelled columns with units, and the rows.
pub struct LUT {
    pub labels: (String, String),
    pub units: (String, String),
    pub values: Vec<(Decimal, Decimal)>,
}

pub struct ReferenceWithComments {
    pub id: String,
    pub comments: Vec<String>,
}

/// A bibliographic reference, by key, optionally with extra comments.
pub enum ReferenceRef {
    Id(String),
    WithComment(ReferenceWithComments),
}

/// One measurement or parametrization of a reaction.
pub struct ProcessInfo {
    pub id: String,
    pub parameters: Option<Parameters>,
    pub comments: Option<Vec<String>>,
    pub references: Vec<ReferenceRef>,
    pub threshold: Decimal,
    /// Keys of the sets of a mixture that this record belongs to.
    pub is_part_of: Option<Vec<String>>,
    pub data: LUT,
}

pub struct Process {
    pub reaction: Reaction<String>,
    pub info: Vec<ProcessInfo>,
}

pub struct SerializedState {
    pub particle: String,
    pub charge: i32,
    pub summary: String,
    pub latex: String,
}

pub struct State {
    pub id: Option<String>,
    pub serialized: SerializedState,
}

pub struct Contributor {
    pub name: String,
    pub description: String,
    pub contact: String,
    pub how_to_reference: String,
}

/// A single dataset. `states` and `references` are keyed lists; a key is
/// resolved to its first entry.
pub struct Document {
    pub name: String,
    pub contributor: Contributor,
    pub description: String,
    pub complete: bool,
    pub processes: Vec<Process>,
    pub states: Vec<(String, State)>,
    pub references: Vec<(String, String)>,
    pub url: String,
    pub terms_of_use: String,
}

/// Processes drawn from several datasets ("sets"), each with its own header.
pub struct Mixture {
    pub sets: Vec<(String, SetHeader)>,
    pub processes: Vec<Process>,
    pub states: Vec<(String, State)>,
    pub references: Vec<(String, String)>,
    pub url: String,
    pub terms_of_use: String,
}

pub struct SetHeader {
    pub name: String,
    pub description: String,
    pub complete: bool,
    pub contributor: Contributor,
}

} // verus!
