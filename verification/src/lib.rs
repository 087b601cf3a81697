//! Verified frame, statistics and receive-queue logic of a driver for the
//! can2040 software CAN controller on RP2040 and RP2350 PIO blocks.

#![allow(unused_imports)]

mod modular;
pub mod frame;
pub mod stats;
pub mod rx_queue;
pub mod driver;
pub mod text;

pub use frame::{CanFrame, FrameId, FrameModel};
pub use stats::CanStatistics;
pub use rx_queue::{QueueOp, RxQueue};
pub use driver::{
    Can2040, CanError, Chip, NbError, Notification, has_transmit_space, notify_carries_frame,
    transmit_status,
};
