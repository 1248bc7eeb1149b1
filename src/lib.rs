//! A lightweight knowledge graph of a source tree: code entities found by a
//! line scanner, typed relationships between them, file hashes for change
//! detection, and a relational store that saves and loads whole snapshots.

pub mod entities;
pub mod memory;
pub mod pairs;
pub mod parser;
pub mod relationships;
pub mod stamps;
pub mod storage;
pub mod text;
