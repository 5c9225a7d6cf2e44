//! The console: one serial line, fed from a transmit buffer that the
//! transmit interrupt drains byte by byte.
//!
//! The serial port belongs to the caller. What is here are the decisions:
//! what goes into the transmit buffer, and which byte goes to the port next.
//! Code that runs in thread mode masks the port's interrupt before it calls
//! any of these functions.

use crate::fifo::{accepted, pop_model, FIFO};
use vstd::prelude::*;

verus! {

/// Size of the console's transmit buffer in bytes.
pub const TX_BUFFER_SIZE: usize = 1280;

/// What the transmit interrupt has to do at the port.
#[derive(Clone, Copy, Debug, PartialEq, Eq, Structural)]
pub enum TxAction {
    /// Nothing: the port is still busy with the last byte.
    Nothing,
    /// Write the byte to the port's data register, which also clears the
    /// interrupt.
    Send(u8),
    /// Clear the transmission-complete flag, so that the interrupt stays
    /// quiet until there is something to send.
    ClearTransmissionComplete,
}

/// What the transmit interrupt does when the transmit buffer holds `queued`
/// and the port says `tx_empty`.
pub open spec fn interrupt_model(queued: Seq<u8>, tx_empty: bool) -> (Seq<u8>, TxAction) {
    if !tx_empty {
        (queued, TxAction::Nothing)
    } else if queued.len() > 0 {
        (queued.drop_first(), TxAction::Send(queued[0]))
    } else {
        (queued, TxAction::ClearTransmissionComplete)
    }
}

/// The transmit interrupt: when the port can take a byte, the oldest byte
/// of the transmit buffer is sent; when there is none, the interrupt is
/// silenced.
pub fn transmit_interrupt<const N: usize>(fifo: &mut FIFO<u8, N>, tx_empty: bool) -> (action:
    TxAction)
    requires
        old(fifo).wf(),
    ensures
        final(fifo).wf(),
        (final(fifo)@, action) == interrupt_model(old(fifo)@, tx_empty),
{
    if tx_empty {
        if let Some(byte) = fifo.pop_front() {
            TxAction::Send(byte)
        } else {
            TxAction::ClearTransmissionComplete
        }
    } else {
        TxAction::Nothing
    }
}

/// Starts a transmission: takes the oldest byte out of the transmit buffer,
/// for the caller to write to the port, if the buffer holds one.
pub fn send_next<const N: usize>(fifo: &mut FIFO<u8, N>) -> (byte: Option<u8>)
    requires
        old(fifo).wf(),
    ensures
        final(fifo).wf(),
        (final(fifo)@, byte) == pop_model(old(fifo)@),
{
    fifo.pop_front()
}

/// Output through the transmit buffer, which the interrupt sends on.
#[derive(Clone, Copy, Debug, PartialEq, Eq, Structural)]
pub struct BufferedOutput {}

/// A writer that queues its bytes in the transmit buffer.
pub fn buffered_output() -> (output: BufferedOutput)
    ensures
        output == (BufferedOutput {  }),
{
    BufferedOutput {  }
}

impl BufferedOutput {
    /// Queues the bytes of `bytes` from position `from` on for as long as
    /// the transmit buffer has room, and returns the position of the first
    /// byte that is not queued yet. A caller that gets less than the length
    /// of `bytes` lets the port send a byte and calls again with what it
    /// got; one that gets the length is done, starts the transmission with
    /// `send_next` and unmasks the interrupt.
    pub fn write_bytes<const N: usize>(
        &mut self,
        fifo: &mut FIFO<u8, N>,
        bytes: &[u8],
        from: usize,
    ) -> (reached: usize)
        requires
            old(fifo).wf(),
            from <= bytes@.len(),
        ensures
            final(fifo).wf(),
            reached == from + accepted(bytes@.len() - from, N - old(fifo)@.len()),
            final(fifo)@ == old(fifo)@ + bytes@.subrange(from as int, reached as int),
    {
        let (_, rest) = bytes.split_at(from);
        let count: usize = match fifo.append(rest) {
            Ok(count) => count,
            Err(count) => count,
        };
        proof {
            assert(rest@.len() == bytes@.len() - from);
            assert(bytes@.len() == bytes.len());
            assert(count == accepted(rest@.len() as int, N - old(fifo)@.len()));
            assert(rest@.take(count as int) =~= bytes@.subrange(from as int, from + count));
        }
        from + count
    }
}

/// Output straight to the port, past the transmit buffer.
#[derive(Clone, Copy, Debug, PartialEq, Eq, Structural)]
pub struct RawOutput {
    /// Whether the port's interrupt was enabled when the writer masked it.
    pub interrupt_was_enabled: bool,
}

/// What is left to do at the port once a raw write is through.
#[derive(Clone, Copy, Debug, PartialEq, Eq, Structural)]
pub struct RawFinish {
    /// The byte to write to the port so that the interrupt-driven
    /// transmission goes on.
    pub send: Option<u8>,
    /// Whether to unmask the port's interrupt.
    pub unmask: bool,
}

/// A writer that sends its bytes itself, with the port's interrupt masked.
/// Until `begin` is called it takes the interrupt to have been disabled.
pub fn raw_output() -> (output: RawOutput)
    ensures
        output == (RawOutput { interrupt_was_enabled: false }),
{
    RawOutput { interrupt_was_enabled: false }
}

impl RawOutput {
    /// Notes whether the port's interrupt was enabled before the writer
    /// masked it.
    pub fn begin(&mut self, interrupt_enabled: bool)
        ensures
            *final(self) == (RawOutput { interrupt_was_enabled: interrupt_enabled }),
    {
        self.interrupt_was_enabled = interrupt_enabled;
    }

    /// Ends a raw write, after the caller has sent its bytes and the port
    /// is idle again: the oldest byte of the transmit buffer, if there is
    /// one, is to be sent, and the interrupt is to be unmasked if it was
    /// enabled before.
    pub fn finish<const N: usize>(&mut self, fifo: &mut FIFO<u8, N>) -> (finish: RawFinish)
        requires
            old(fifo).wf(),
        ensures
            final(fifo).wf(),
            *final(self) == *old(self),
            (final(fifo)@, finish.send) == pop_model(old(fifo)@),
            finish.unmask == old(self).interrupt_was_enabled,
    {
        RawFinish { send: send_next(fifo), unmask: self.interrupt_was_enabled }
    }
}

} // verus!
