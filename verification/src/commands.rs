pub mod config;
pub mod doctor;
pub mod init;
