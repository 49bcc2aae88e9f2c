//! Partition-table synthesis for bootable raw disk images.
//!
//! The library checks a device description for consistency, resolves
//! partition types, places partitions on the usable area of a disk and
//! assembles GPT or MBR entries, all as plain values. Writing those entries
//! to a block device is left to the caller.
//!
//! - `device`: the device description and its architecture.
//! - `partition`: partitions, their types and filesystems.
//! - `validate`: the consistency check run before any table is built.
//! - `space`: free ranges and first-fit placement on a disk.
//! - `layout`: where each partition of a description goes.
//! - `guid`: GUID byte order and text.
//! - `table`: GPT and MBR entries and the partition map handed on.
pub mod device;
pub mod guid;
pub mod layout;
pub mod partition;
pub mod space;
pub mod table;
pub mod validate;
