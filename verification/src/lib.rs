//! Directory listings, the drives of a host, and the steps that mount and
//! unmount them.
//!
//! The library decides; it reads nothing and runs nothing. Its callers hand
//! it what they read from the host and carry out the actions it asks for.

pub mod devices;
pub mod drives;
pub mod listing;
pub mod mount;
pub mod network;
pub mod platform;
pub mod sorting;
pub mod text;

pub use crate::devices::{get_mountable_devices, MountableDevice};
pub use crate::drives::{get_system_drives, DriveInfo};
pub use crate::listing::{read_dir, DirContents, DirEntry};
pub use crate::mount::{mount_drive, unmount_drive};
pub use crate::network::{mount_network_share, NetworkShareParams};
pub use crate::platform::Platform;
