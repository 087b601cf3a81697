//! Driver-side state of a can2040 bus and the decisions the driver takes on
//! what the controller reports: notifications, transmit status, received
//! frames.
//!
//! The controller itself runs on a PIO block and is driven through the
//! can2040 C library; the state here is what the driver keeps beside it.

use vstd::prelude::*;
use crate::frame::CanFrame;
use crate::rx_queue::RxQueue;

verus! {

/// Default system clock frequency in Hz of the RP2040.
pub const RP2040_DEFAULT_SYS_FREQ: u32 = 125_000_000;

/// Default system clock frequency in Hz of the RP2350.
pub const RP2350_DEFAULT_SYS_FREQ: u32 = 150_000_000;

/// Highest PIO block number of the RP2040 (PIO0 and PIO1).
pub const RP2040_MAX_PIO_NUM: u32 = 1;

/// Highest PIO block number of the RP2350 (PIO0, PIO1 and PIO2).
pub const RP2350_MAX_PIO_NUM: u32 = 2;

/// The target chip, which fixes the PIO blocks there are and the default
/// system clock.
#[derive(Debug, Clone, Copy, PartialEq, Eq, Structural)]
pub enum Chip {
    Rp2040,
    Rp2350,
}

impl Chip {
    pub open spec fn spec_max_pio_num(self) -> u32 {
        match self {
            Chip::Rp2040 => RP2040_MAX_PIO_NUM,
            Chip::Rp2350 => RP2350_MAX_PIO_NUM,
        }
    }

    pub open spec fn spec_default_sys_freq(self) -> u32 {
        match self {
            Chip::Rp2040 => RP2040_DEFAULT_SYS_FREQ,
            Chip::Rp2350 => RP2350_DEFAULT_SYS_FREQ,
        }
    }

    /// Highest PIO block number of the chip.
    pub fn max_pio_num(self) -> (r: u32)
        ensures
            r == self.spec_max_pio_num(),
    {
        match self {
            Chip::Rp2040 => RP2040_MAX_PIO_NUM,
            Chip::Rp2350 => RP2350_MAX_PIO_NUM,
        }
    }

    /// Default system clock frequency in Hz of the chip. Pass it when
    /// starting or resetting the bus at the standard clock rate.
    pub fn default_sys_freq(self) -> (r: u32)
        ensures
            r == self.spec_default_sys_freq(),
    {
        match self {
            Chip::Rp2040 => RP2040_DEFAULT_SYS_FREQ,
            Chip::Rp2350 => RP2350_DEFAULT_SYS_FREQ,
        }
    }
}

/// Notification code of can2040 for a received frame.
pub const NOTIFY_RX: u32 = 0x0010_0000;

/// Notification code of can2040 for a transmitted frame.
pub const NOTIFY_TX: u32 = 0x0020_0000;

/// Notification code of can2040 for a bus error.
pub const NOTIFY_ERROR: u32 = 0x0080_0000;

/// Errors reported by the CAN bus.
///
/// can2040's error notification does not distinguish between error types,
/// so only a single variant is possible.
#[derive(Debug, Clone, Copy, PartialEq, Eq, Structural)]
pub enum CanError {
    Overrun,
}

/// Outcome of a non-blocking operation that did not complete: it would have
/// to wait, or it failed with an error.
#[derive(Debug, PartialEq, Eq)]
pub enum NbError<E> {
    Other(E),
    WouldBlock,
}

/// Event delivered to the user callback from interrupt context.
pub enum Notification {
    Rx(CanFrame),
    Tx(CanFrame),
    Error,
}

/// Whether can2040's code `notify` comes with a message: received and
/// transmitted frames do, errors and unknown codes do not.
pub open spec fn spec_notify_carries_frame(notify: u32) -> bool {
    notify == NOTIFY_RX || notify == NOTIFY_TX
}

/// Whether can2040's code `notify` comes with a message to be read.
pub fn notify_carries_frame(notify: u32) -> (r: bool)
    ensures
        r == spec_notify_carries_frame(notify),
{
    notify == NOTIFY_RX || notify == NOTIFY_TX
}

/// The notification, if any, that can2040's code `notify` with message `msg`
/// stands for. A received or transmitted frame needs its message.
pub open spec fn spec_notification(notify: u32, msg: Option<CanFrame>) -> Option<Notification> {
    if notify == NOTIFY_RX {
        match msg {
            Some(f) => Some(Notification::Rx(f)),
            None => None,
        }
    } else if notify == NOTIFY_TX {
        match msg {
            Some(f) => Some(Notification::Tx(f)),
            None => None,
        }
    } else if notify == NOTIFY_ERROR {
        Some(Notification::Error)
    } else {
        None
    }
}

/// What a call to can2040's transmit that returned `status` means: a negative
/// status says the four-frame transmit queue is full.
pub fn transmit_status(status: i32) -> (r: Result<(), NbError<CanError>>)
    ensures
        r == (if status < 0 { Err(NbError::WouldBlock) } else { Ok::<(), NbError<CanError>>(()) }),
{
    if status < 0 {
        Err(NbError::WouldBlock)
    } else {
        Ok(())
    }
}

/// Whether can2040's check for transmit space, returning `status`, found room
/// in the transmit queue.
pub fn has_transmit_space(status: i32) -> (r: bool)
    ensures
        r == (status != 0),
{
    status != 0
}

/// Driver state of one CAN bus: the PIO block it runs on and the queue of
/// received frames, of capacity `N`.
pub struct Can2040<const N: usize> {
    pio_num: u32,
    rx_queue: RxQueue<N>,
}

impl<const N: usize> Can2040<N> {
    /// The PIO block number.
    pub closed spec fn spec_pio_num(&self) -> u32 {
        self.pio_num
    }

    /// The queue of received frames.
    pub closed spec fn queue(&self) -> RxQueue<N> {
        self.rx_queue
    }

    pub open spec fn wf(&self) -> bool {
        self.queue().wf()
    }

    /// Driver state for a bus on PIO block `pio_num` of `chip`, with no
    /// frame received. The RP2040 has PIO blocks 0–1, the RP2350 0–2; the
    /// queue needs room for at least one frame.
    pub fn new(chip: Chip, pio_num: u32) -> (r: Can2040<N>)
        requires
            pio_num <= chip.spec_max_pio_num(),
            N > 0,
        ensures
            r.wf(),
            r.spec_pio_num() == pio_num,
            r.queue().frames() == Seq::<CanFrame>::empty(),
    {
        Can2040 { pio_num, rx_queue: RxQueue::new() }
    }

    /// The PIO block number the bus runs on.
    pub fn pio_num(&self) -> (r: u32)
        ensures
            r == self.spec_pio_num(),
    {
        self.pio_num
    }

    /// Handles a notification of can2040 with its message, if it has one: a
    /// received frame is queued for [`receive`](Self::receive) (and dropped
    /// if the queue is full); the result is what the user callback is to be
    /// given.
    pub fn on_notify(&mut self, notify: u32, msg: Option<CanFrame>) -> (r: Option<Notification>)
        requires
            old(self).wf(),
        ensures
            final(self).wf(),
            r == spec_notification(notify, msg),
            final(self).spec_pio_num() == old(self).spec_pio_num(),
            notify == NOTIFY_RX && old(self).queue().len() < N && msg is Some
                ==> final(self).queue().frames() == old(self).queue().frames().push(msg->0),
            !(notify == NOTIFY_RX && old(self).queue().len() < N && msg is Some)
                ==> final(self).queue() == old(self).queue(),
    {
        if notify == NOTIFY_RX {
            match msg {
                Some(frame) => {
                    let _ = self.rx_queue.push(frame);
                    Some(Notification::Rx(frame))
                },
                None => None,
            }
        } else if notify == NOTIFY_TX {
            match msg {
                Some(frame) => Some(Notification::Tx(frame)),
                None => None,
            }
        } else if notify == NOTIFY_ERROR {
            Some(Notification::Error)
        } else {
            None
        }
    }

    /// Returns the oldest received frame, or `WouldBlock` if none is queued.
    pub fn receive(&mut self) -> (r: Result<CanFrame, NbError<CanError>>)
        requires
            old(self).wf(),
        ensures
            final(self).wf(),
            final(self).spec_pio_num() == old(self).spec_pio_num(),
            r is Err <==> old(self).queue().len() == 0,
            r is Err ==> r == Err::<CanFrame, NbError<CanError>>(NbError::WouldBlock)
                && final(self).queue() == old(self).queue(),
            r matches Ok(f) ==> f == old(self).queue().frames()[0]
                && final(self).queue().frames() == old(self).queue().frames().drop_first(),
    {
        match self.rx_queue.pop() {
            Some(frame) => Ok(frame),
            None => Err(NbError::WouldBlock),
        }
    }
}

/// The PIO blocks and default clocks of the two chips: PIO0–PIO1 at
/// 125 MHz on the RP2040, PIO0–PIO2 at 150 MHz on the RP2350.
pub proof fn lemma_chip_parameters()
    ensures
        Chip::Rp2040.spec_max_pio_num() == 1,
        Chip::Rp2350.spec_max_pio_num() == 2,
        Chip::Rp2040.spec_default_sys_freq() == 125_000_000,
        Chip::Rp2350.spec_default_sys_freq() == 150_000_000,
{
}

/// can2040's notification codes (bits 20, 21 and 23) and what each stands
/// for: a received frame, a transmitted frame, an error; every other code,
/// and a frame code without its message, stands for nothing.
pub proof fn lemma_notification_codes(notify: u32, msg: Option<CanFrame>)
    ensures
        spec_notify_carries_frame(notify) == (notify == 0x0010_0000 || notify == 0x0020_0000),
        notify == 0x0010_0000 ==> spec_notification(notify, msg) == (match msg {
            Some(f) => Some(Notification::Rx(f)),
            None => None::<Notification>,
        }),
        notify == 0x0020_0000 ==> spec_notification(notify, msg) == (match msg {
            Some(f) => Some(Notification::Tx(f)),
            None => None::<Notification>,
        }),
        notify == 0x0080_0000 ==> spec_notification(notify, msg) == Some(Notification::Error),
        (notify != 0x0010_0000 && notify != 0x0020_0000 && notify != 0x0080_0000) ==> spec_notification(
            notify,
            msg,
        ) is None,
{
}

} // verus!
