pub mod error;
pub mod schema;
pub mod batch;
pub mod expression;
pub mod datasource;
pub mod physical_plan;
