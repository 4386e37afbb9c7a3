pub mod aggregate;
pub mod evaluate;
pub mod logical;
pub mod physical;
pub mod planner;
