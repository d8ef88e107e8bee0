//! Agent-based economic simulation: the verified core.
pub mod component;
pub mod crisis;
pub mod auction;
pub mod environment;
pub mod insurance;
pub mod investment;
pub mod text;
pub mod config;
pub mod credit_rating;
pub mod invariants;
pub mod completion;
pub mod causal_analysis;
pub mod contract;
pub mod lending_marketplace;
pub mod event;
pub mod entity;
pub mod centrality;
pub mod shortest_paths;
