pub mod loader;
pub mod models;
pub mod validator;
