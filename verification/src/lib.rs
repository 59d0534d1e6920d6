//! Xtal: the verified core of a report tool for electronics lab work.
pub mod texto;
pub mod refs;
pub mod git;
pub mod ordenes;
pub mod update;
pub mod deps;
pub mod inventory;
pub mod rutas;
pub mod agents;
pub mod vigia;
pub mod orden;
pub mod arbol;
pub mod secciones;
pub mod xtal_cli;
pub mod modelo;
pub mod proyecto;
pub mod cli;
pub mod csv_scope;
pub mod random;
pub mod compile;
pub mod mcp;
pub mod synctex;
pub mod commands;
pub mod tools;
pub mod esquemas;
pub mod proceso;
pub mod doctor;
pub mod numeros;
pub mod setup;
pub mod plan;
pub mod store;
pub mod config;
