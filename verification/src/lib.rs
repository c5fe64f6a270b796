//! The coordination core of a pool of simulation workers, with what the engine and the graph
//! around it decide without a collaborator: the order of a step's columns, the query paths
//! into entities, and the references between the schemas of the interface description.

pub mod comms;
pub mod controller;
pub mod counting;
pub mod distribution;
pub mod error;
pub mod knowledge;
pub mod laws;
pub mod model;
pub mod ontology;
pub mod packages;
pub mod pending;
pub mod query;
pub mod rest;
pub mod runs;
pub mod task;
pub mod text;
pub mod types;
