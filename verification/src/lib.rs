pub mod text;
pub mod errors;
pub mod config;
pub mod num;
pub mod docker;
pub mod models;
pub mod ssh;
pub mod listing;
pub mod files;
pub mod cgi;
pub mod routing;
pub mod access;
pub mod deploy;
pub mod markdown;
pub mod todo;
pub mod secrets;
pub mod git;
pub mod tracker;
pub mod requests;
pub mod hosting;
pub mod auth;
