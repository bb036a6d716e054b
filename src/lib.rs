//! Command-queue transport, DMA memory management and wire formats for a
//! NIC firmware command interface.

pub mod allocator;
pub mod checksum;
pub mod cmdif;
pub mod commands;
pub mod cqe;
pub mod error;
pub mod lifecycle;
pub mod mailbox;
pub mod mtcr;
pub mod registers;
pub mod transport;
pub mod wire;
