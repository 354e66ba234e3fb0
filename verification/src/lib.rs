//! A semicolon-placement checker for a statement-oriented language with
//! automatic statement termination hazards.
//!
//! Given an already-built syntax tree (modelled as plain data: node kinds,
//! byte spans, parent links and statement lists) and a policy mode, the
//! checker flags statements whose semicolon usage violates the policy and
//! pairs each diagnostic with exactly one corrective edit.

pub mod diagnostic;
pub mod laws;
pub mod rule;
pub mod span;
pub mod text;
pub mod tree;
