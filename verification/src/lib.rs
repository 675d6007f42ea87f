//! Spell retrieval with a bounded cache and stale fallback, spell filtering and
//! selection, and dice throws.

pub mod config;
pub mod dice;
pub mod dice_set;
pub mod local_datasource;
pub mod spell_model;
pub mod spells_datasource;
pub mod spells_repository;
pub mod text;
