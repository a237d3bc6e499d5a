//! `wanix serve`: its command line and the decisions the server makes
//! around connections.

pub mod command;
pub mod boot;
pub mod diagnostics;
pub mod grant;
pub mod html;
pub mod discovery;
pub mod ws_reader;
pub mod webdoor;
