//! Photo-booth control logic: the countdown/trigger state machine, the
//! event coordinator that sequences a snapshot, premultiplied-alpha
//! overlay compositing, and collision-free snapshot naming.

pub mod args;
pub mod auto_trigger;
pub mod alpha_image;
pub mod ui_thread;
pub mod coordinator;
pub mod snapshot_repo;
