//! What the processors share: budgets and the metadata of finished outputs.

pub mod budget;
