pub mod dynamodb;
pub mod error;
pub mod handlers;
pub mod json;
pub mod rpc;
pub mod text;
pub mod utils;
