//! Host-side protocol engine of a paravirtualized SCSI controller.
//!
//! The engine decodes packets that a guest places on a shared ring, gates
//! them behind a version handshake, tracks in-flight transactions, resolves
//! guest memory descriptors and turns backing-disk results into completion
//! packets. Disk I/O itself is performed by the caller: the engine hands out
//! a description of each disk operation and takes its outcome back.
pub mod codec;
pub mod driver;
pub mod efi_time;
pub mod registry;
pub mod resolver;
pub mod scsi;
pub mod session;
pub mod table;
