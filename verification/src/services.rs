pub mod data_sync;
pub mod stock_client;
