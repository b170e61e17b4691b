pub mod models;
pub mod kdbx;
pub mod csv;
pub mod quality;
pub mod naming;
