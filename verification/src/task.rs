//! Credentials, transport, the task model and its decoder, and the client
//! that puts them together.

pub mod api_credentials;
pub mod habitica_client;
pub mod json;
pub mod laws;
pub mod repeat;
pub mod rest_client;
pub mod schema;
pub mod tasks;
