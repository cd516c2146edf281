//! A verified model of the file-system core of a UNIX V6++ style kernel:
//! block buffers, in-memory inodes and their block map, the mounted
//! super blocks with their free-block and free-inode caches, the in-memory
//! inode table, directory entries, user credentials and PE image headers.
//!
//! Shared kernel objects are held by the table that owns them and named by
//! their index there; locking, device drivers, disk reads and the scheduler
//! stay with the caller, which hands results in and carries requests out.

mod bytes;
pub mod constants;
pub mod dev;
pub mod fs;
pub mod laws;
pub mod loader;
pub mod user;
