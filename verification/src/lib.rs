//! Soroban contract arithmetic and static-analysis rules, with their contracts.
pub mod amm;
pub mod cache;
pub mod cli;
pub mod report;
pub mod rules;
pub mod smt;
pub mod storage_collision;
pub mod syntax;
pub mod text;
pub mod token;
pub mod token_with_bugs;
