//! Building blocks of a benchmark suite for Iceberg REST catalogs.

pub mod catalog;
pub mod columns;
pub mod commits;
pub mod comparison;
pub mod config;
pub mod doc;
pub mod driver;
pub mod json;
pub mod measure;
pub mod pages;
pub mod plan;
pub mod query;
pub mod registry;
pub mod report;
pub mod runs;
pub mod scaffolds;
pub mod spark;
pub mod text;
pub mod wire;
pub mod write_data;
