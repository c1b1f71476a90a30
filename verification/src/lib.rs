//! Models and decision logic of a generator and runner of routing
//! experiments on emulated networks: hardware profiles, network interfaces,
//! operating-system command templates, topologies and their instantiation
//! into concrete experiments.

pub mod args;
pub mod models;
pub mod text;
pub mod string_map;
pub mod index_maps;
pub mod commands;
pub mod laws;
pub mod console_laws;
