pub mod connection;
pub mod errors;
pub mod grammar;
pub mod methods;
pub mod request;
pub mod response;
pub mod round_trip;
pub mod route;
pub mod router;
pub mod string_map;
pub mod wire;
