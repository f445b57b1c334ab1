//! State machines of a virtio-gpu display transport.
//!
//! The crate holds every decision such a transport takes: the bounded resource
//! tables, the host-visible window allocator, the in-flight control queue, wire
//! fences, present streams, scan-out publication and the completion FIFO. It
//! performs no device access. A caller drives the device and hands plain values
//! in; the functions return plain values and lists of actions to perform.
pub mod bind;
pub mod blob_map;
pub mod blt_ops;
pub mod config;
pub mod counters;
pub mod ctrl;
pub mod drain;
pub mod enqueue;
pub mod error;
pub mod fast_bind;
pub mod fences;
pub mod flows;
pub mod gpu;
pub mod hal;
pub mod inflight;
pub mod init;
pub mod lifecycle;
pub mod owner;
pub mod pci_caps;
pub mod present_stream;
pub mod progress;
pub mod promises;
pub mod protocol;
pub mod queue;
pub mod scanout;
pub mod seqs;
pub mod streams;
pub mod submit;
pub mod tables;
pub mod wddm;
pub mod window;
pub mod windowed_blt;
