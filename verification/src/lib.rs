pub mod decimal;
pub mod routes;
pub mod server;
pub mod services;
pub mod split;
pub mod text;
pub mod utils;
