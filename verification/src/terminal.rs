//! The shell terminal served over a websocket: what typed input is expected
//! to change, the records the shell embeds in its output, and the JSON
//! messages sent back to the browser.

pub mod activity;
pub mod command_record;
pub mod observation;
pub mod protocol;
pub mod resize;
pub mod route;
pub mod history;
pub mod root_changes;
