//! The rules of gigabytectl, a control panel for laptops with the
//! `gigabyte-laptop-wmi` kernel module: what its files, nodes and commands mean,
//! what each command and key press comes down to, and what the screen shows.
//!
//! Everything here is a function of plain values. Reading and writing files,
//! running commands and drawing on the terminal are left to the program around
//! the library, which hands in what it read and carries out what it is told.

pub mod app;
pub mod cli;
pub mod config;
pub mod degrees;
pub mod doctor;
pub mod error;
pub mod history;
pub mod notify;
pub mod order;
pub mod path;
pub mod ppd;
pub mod profile;
pub mod selfcmd;
pub mod sensors;
pub mod sysfs;
pub mod system;
pub mod text;
pub mod tui;
pub mod ui;
