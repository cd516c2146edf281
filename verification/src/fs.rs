//! The file system: in-memory inodes, mounted super blocks, the inode and
//! open-file tables, and directory entries.

pub mod file;
pub mod file_manager;
pub mod file_system;
pub mod inode;
pub mod open_file_manager;
