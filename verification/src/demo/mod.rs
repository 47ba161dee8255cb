//! A small system of services: disks that go offline and block groups that are
//! rebuilt.
pub mod backend;
pub mod disk_service;
pub mod handlers;
pub mod protocol;
pub mod state;
