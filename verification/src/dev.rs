pub mod buffer;
