//! A sandbox of competing cellular automata: a fixed grid whose cells each
//! follow one of a closed set of rulesets, advanced one generation at a time.
pub mod growth;
pub mod laws;
pub mod model;
pub mod neighborhood;
pub mod rules;
pub mod world;
