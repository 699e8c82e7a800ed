//! Daily planner: the plan, review and schedule logic of a desktop day
//! planner, with its contracts proved by Verus.
pub mod text;
pub mod json;
pub mod calendar;
pub mod plan;
pub mod config;
pub mod review;
pub mod mode;
pub mod window;
pub mod store;
pub mod listing;
