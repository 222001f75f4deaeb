//! MacMTP: browsing, previewing, copying and mounting the files of MTP devices.
//!
//! - [`session`] holds the devices, the open one, and its mount; [`browse`], [`copy`] and
//!   [`drag`] are what the user does with it, and [`action`] what there is to do then.
//! - [`tree`] and [`model`] are the browser's nodes, [`rows`], [`detail`] and [`status`]
//!   what the window shows; [`compact`] is a smaller window.
//! - [`export`] copies a folder with everything below it.
//! - [`fs`] is the read-only file system of a mounted device, and [`mount`] plans the mount.
//! - [`phrases`] is what the user is told, in English and in Simplified Chinese.
//! - [`dates`], [`device`], [`names`], [`paths`], [`text`] and [`util`] are what the others
//!   build on.
pub mod action;
pub mod browse;
pub mod compact;
pub mod copy;
pub mod dates;
pub mod detail;
pub mod device;
pub mod drag;
pub mod export;
pub mod fs;
pub mod model;
pub mod mount;
pub mod names;
pub mod paths;
pub mod phrases;
pub mod rows;
pub mod session;
pub mod status;
pub mod text;
pub mod tree;
pub mod util;
