//! The buffer-exchange core of an AF_XDP socket.
//!
//! Userspace and the kernel pass packet buffers to one another through
//! single-producer/single-consumer rings of descriptors. This crate holds the
//! part of that exchange that can be reasoned about: the ring arithmetic, the
//! transmit queue built on it, and the reading of what the operating system
//! answers to the few calls the exchange needs. It makes no system call
//! itself: each such call is described as a value, performed by the caller,
//! and its outcome handed back.

pub mod os;
pub mod ring;
pub mod socket;
pub mod umem;
