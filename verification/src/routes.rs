pub mod detail;
pub mod root;
pub mod static_files;
