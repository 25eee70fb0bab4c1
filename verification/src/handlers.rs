pub mod crud;
pub mod ddl;
pub mod metadata;
pub mod models;
pub mod query;
