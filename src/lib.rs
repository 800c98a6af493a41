pub mod valset;
pub mod consensus;
pub mod event;
pub mod discovery;
