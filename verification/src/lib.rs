//! Driver stack for a register-mapped serial LCD controller.
//!
//! The crate models a small display pipeline — one connector, one encoder,
//! one CRTC, one plane — together with the controller's command/data FIFO
//! protocol. The register block is represented by a scripted
//! [`transport::TransportSession`]: every register write is logged, and the
//! readiness of the FIFO status bits over time is driven by per-wait delay
//! scripts, so the busy-poll protocol is deterministic and fully checkable.
//!
//! Modules, leaves first:
//! - [`error`]: the error taxonomy.
//! - [`timing`]: durations and the poll interval / deadline constants.
//! - [`regs`]: register offsets, status bits and the write log entry.
//! - [`pixel`]: source pixel formats and packing into RGB565 wire words.
//! - [`rect`]: damage rectangles and clipping.
//! - [`transport`]: the polling transaction protocol.
//! - [`registry`]: the display object graph and its one-way registration.
//! - [`commit`]: the atomic commit pipeline.
//! - [`driver`]: device probe, tying the pieces together.

pub mod commit;
pub mod driver;
pub mod error;
pub mod pixel;
pub mod rect;
pub mod registry;
pub mod regs;
pub mod timing;
pub mod transport;
