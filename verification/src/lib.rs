//! Planning library for provisioning a web-server vhost for a domain: the
//! answers that describe a site, the shell steps that set it up, and the
//! text that the command-line front end shows.

pub mod cli;
pub mod config;
pub mod execute;
pub mod generate;
pub mod password;
pub mod shell;
pub mod text;
pub mod ui;
pub mod laws;
