//! Frame assembler: gathers the bytes of the serial channel into one
//! bounded buffer until a line feed closes the frame.

use vstd::prelude::*;
use crate::ascii::LINE_FEED;
use crate::error::LinkError;
use crate::frame::{frame_meaning, parse_frame};
use crate::packet::ParsedMessage;

verus! {

/// Capacity of the receive buffer. The radio module carries payloads of up
/// to 240 bytes; this leaves room for the payloads in use and their framing.
pub const RX_BUFFER_SIZE: usize = 255;

/// `heapless::Vec`, the fixed-capacity vector that the receive buffer is
/// made of. Nothing is known of a value of it but what the functions below
/// state.
#[verifier::external_type_specification]
#[verifier::external_body]
#[verifier::reject_recursive_types(T)]
pub struct ExHeaplessVec<T, const N: usize>(heapless::Vec<T, N>);

/// The bytes that a receive buffer holds, oldest first.
pub uninterp spec fn rx_bytes(buffer: heapless::Vec<u8, RX_BUFFER_SIZE>) -> Seq<u8>;

/// Calls `heapless::Vec::new`, which makes a vector that holds nothing.
#[verifier::external_body]
fn rx_new() -> (buffer: heapless::Vec<u8, RX_BUFFER_SIZE>)
    ensures
        rx_bytes(buffer) == Seq::<u8>::empty(),
{
    heapless::Vec::new()
}

/// Calls `heapless::Vec::push`, which appends the item while the vector
/// holds fewer items than its capacity, and otherwise hands the item back
/// and leaves the vector as it was. It does not panic.
#[verifier::external_body]
fn rx_push(buffer: &mut heapless::Vec<u8, RX_BUFFER_SIZE>, byte: u8) -> (r: Result<(), u8>)
    ensures
        match r {
            Ok(_) => rx_bytes(*old(buffer)).len() < RX_BUFFER_SIZE && rx_bytes(*final(buffer))
                == rx_bytes(*old(buffer)).push(byte),
            Err(back) => rx_bytes(*old(buffer)).len() >= RX_BUFFER_SIZE && back == byte
                && rx_bytes(*final(buffer)) == rx_bytes(*old(buffer)),
        },
    no_unwind
{
    buffer.push(byte)
}

/// Calls `heapless::Vec::clear`, which removes every item. It does not
/// panic.
#[verifier::external_body]
fn rx_clear(buffer: &mut heapless::Vec<u8, RX_BUFFER_SIZE>)
    ensures
        rx_bytes(*final(buffer)) == Seq::<u8>::empty(),
    no_unwind
{
    buffer.clear()
}

/// Calls `heapless::Vec::as_slice`, which lends the items that the vector
/// holds, in order.
#[verifier::external_body]
fn rx_as_slice(buffer: &heapless::Vec<u8, RX_BUFFER_SIZE>) -> (bytes: &[u8])
    ensures
        bytes@ == rx_bytes(*buffer),
{
    buffer.as_slice()
}

/// Where the assembler stands between two frames.
#[derive(Debug, Clone, Copy, PartialEq, Eq, Structural)]
pub enum AssemblerState {
    /// Nothing is buffered.
    Idle,
    /// Bytes are buffered and no line feed has been seen.
    Accumulating,
    /// A line feed has been seen: the buffer waits to be parsed.
    Complete,
}

/// What a buffer of the given capacity that holds `held` holds after
/// `incoming` has arrived: bytes are taken in while there is room, and
/// dropped from then on.
pub open spec fn accumulated(held: Seq<u8>, incoming: Seq<u8>, capacity: nat) -> Seq<u8> {
    if held.len() + incoming.len() <= capacity {
        held + incoming
    } else {
        (held + incoming).take(capacity as int)
    }
}

/// The receive path's buffer and its frame-complete flag.
pub struct FrameAssembler {
    buffer: heapless::Vec<u8, RX_BUFFER_SIZE>,
    capacity: usize,
    complete: bool,
}

impl FrameAssembler {
    #[verifier::type_invariant]
    spec fn within_capacity(self) -> bool {
        rx_bytes(self.buffer).len() <= self.capacity <= RX_BUFFER_SIZE
    }

    /// The buffered bytes, oldest first.
    pub closed spec fn bytes(self) -> Seq<u8> {
        rx_bytes(self.buffer)
    }

    /// Whether a line feed has arrived since the buffer was last cleared.
    pub closed spec fn complete(self) -> bool {
        self.complete
    }

    /// The number of bytes that the buffer takes in before it drops any.
    pub closed spec fn capacity(self) -> nat {
        self.capacity as nat
    }

    /// The state of the assembler.
    pub open spec fn state(self) -> AssemblerState {
        if self.complete() {
            AssemblerState::Complete
        } else if self.bytes().len() == 0 {
            AssemblerState::Idle
        } else {
            AssemblerState::Accumulating
        }
    }

    /// An idle assembler that buffers up to `RX_BUFFER_SIZE` bytes.
    pub fn new() -> (assembler: FrameAssembler)
        ensures
            assembler.bytes() == Seq::<u8>::empty(),
            !assembler.complete(),
            assembler.capacity() == RX_BUFFER_SIZE,
    {
        FrameAssembler { buffer: rx_new(), capacity: RX_BUFFER_SIZE, complete: false }
    }

    /// An idle assembler that buffers up to `capacity` bytes; none where
    /// `capacity` is more than `RX_BUFFER_SIZE`.
    pub fn with_capacity(capacity: usize) -> (made: Option<FrameAssembler>)
        ensures
            made is Some == (capacity <= RX_BUFFER_SIZE),
            made matches Some(assembler) ==> assembler.bytes() == Seq::<u8>::empty()
                && !assembler.complete() && assembler.capacity() == capacity,
    {
        if capacity > RX_BUFFER_SIZE {
            None
        } else {
            Some(FrameAssembler { buffer: rx_new(), capacity, complete: false })
        }
    }

    /// The number of bytes that the buffer takes in before it drops any.
    pub fn max_len(&self) -> (n: usize)
        ensures
            n == self.capacity(),
            n <= RX_BUFFER_SIZE,
    {
        proof {
            use_type_invariant(self);
        }
        self.capacity
    }

    /// Number of buffered bytes.
    pub fn len(&self) -> (n: usize)
        ensures
            n == self.bytes().len(),
            n <= self.capacity(),
    {
        proof {
            use_type_invariant(self);
        }
        rx_as_slice(&self.buffer).len()
    }

    /// The buffered bytes.
    pub fn as_slice(&self) -> (bytes: &[u8])
        ensures
            bytes@ == self.bytes(),
            bytes@.len() <= self.capacity(),
    {
        proof {
            use_type_invariant(self);
        }
        rx_as_slice(&self.buffer)
    }

    /// The state of the assembler.
    pub fn current_state(&self) -> (state: AssemblerState)
        ensures
            state == self.state(),
    {
        if self.complete {
            AssemblerState::Complete
        } else if self.len() == 0 {
            AssemblerState::Idle
        } else {
            AssemblerState::Accumulating
        }
    }

    /// Whether a line feed has arrived since the buffer was last cleared.
    pub fn is_complete(&self) -> (r: bool)
        ensures
            r == self.complete(),
    {
        self.complete
    }

    /// Takes in one byte of the serial channel. The byte is buffered while
    /// there is room and dropped otherwise; a line feed marks the frame
    /// complete either way.
    pub fn push_byte(&mut self, byte: u8) -> (r: Result<(), LinkError>)
        ensures
            old(self).bytes().len() < old(self).capacity() ==> r == Ok::<(), LinkError>(())
                && final(self).bytes() == old(self).bytes().push(byte),
            old(self).bytes().len() >= old(self).capacity() ==> r == Err::<(), LinkError>(
                LinkError::BufferOverflowDrop,
            ) && final(self).bytes() == old(self).bytes(),
            final(self).complete() == (old(self).complete() || byte == LINE_FEED),
            final(self).capacity() == old(self).capacity(),
            final(self).bytes().len() <= final(self).capacity(),
    {
        proof {
            use_type_invariant(&*self);
        }
        if byte == LINE_FEED {
            self.complete = true;
        }
        if self.len() < self.capacity {
            match rx_push(&mut self.buffer, byte) {
                Ok(_) => Ok(()),
                Err(_) => Err(LinkError::BufferOverflowDrop),
            }
        } else {
            Err(LinkError::BufferOverflowDrop)
        }
    }

    /// Takes in every byte of `incoming`, in order, and tells how many of
    /// them were dropped for want of room.
    pub fn feed(&mut self, incoming: &[u8]) -> (dropped: usize)
        ensures
            final(self).bytes() == accumulated(
                old(self).bytes(),
                incoming@,
                old(self).capacity(),
            ),
            final(self).complete() == (old(self).complete() || incoming@.contains(LINE_FEED)),
            final(self).capacity() == old(self).capacity(),
            final(self).bytes().len() <= final(self).capacity(),
            dropped == old(self).bytes().len() + incoming@.len() - final(self).bytes().len(),
    {
        proof {
            use_type_invariant(&*self);
        }
        let ghost held = self.bytes();
        let ghost was_complete = self.complete();
        let ghost capacity = self.capacity();
        let n: usize = incoming.len();
        let mut dropped: usize = 0;
        let mut i: usize = 0;
        proof {
            assert(incoming@.take(0) =~= Seq::<u8>::empty());
            assert(held + incoming@.take(0) =~= held);
        }
        while i < n
            invariant
                i <= n,
                n == incoming@.len(),
                held.len() <= capacity <= RX_BUFFER_SIZE,
                self.capacity() == capacity,
                self.bytes() == accumulated(held, incoming@.take(i as int), capacity),
                self.complete() == (was_complete || incoming@.take(i as int).contains(LINE_FEED)),
                dropped == held.len() + i - self.bytes().len(),
            decreases n - i,
        {
            let byte: u8 = incoming[i];
            let ghost before = incoming@.take(i as int);
            let ghost after = incoming@.take(i + 1);
            proof {
                assert(after =~= before.push(byte));
                assert(held + after =~= (held + before).push(byte));
                assert(after.contains(LINE_FEED) == (before.contains(LINE_FEED) || byte
                    == LINE_FEED)) by {
                    if before.contains(LINE_FEED) {
                        let k = choose|k: int| 0 <= k < before.len() && before[k] == LINE_FEED;
                        assert(after[k] == LINE_FEED);
                    }
                    if byte == LINE_FEED {
                        assert(after[i as int] == LINE_FEED);
                    }
                }
                if held.len() + after.len() > capacity {
                    assert((held + after).take(capacity as int) =~= (held + before).take(
                        capacity as int,
                    ));
                }
            }
            match self.push_byte(byte) {
                Ok(_) => {},
                Err(_) => {
                    dropped += 1;
                },
            }
            i += 1;
        }
        proof {
            assert(incoming@.take(n as int) =~= incoming@);
        }
        dropped
    }

    /// Hands a complete frame to the parser and empties the buffer, whether
    /// or not the frame parses. Nothing happens while no line feed has been
    /// seen.
    pub fn take_frame(&mut self) -> (r: Option<Result<ParsedMessage, LinkError>>)
        ensures
            !old(self).complete() ==> r is None && final(self).bytes() == old(self).bytes()
                && !final(self).complete(),
            old(self).complete() ==> r == Some(frame_meaning(old(self).bytes()))
                && final(self).bytes() == Seq::<u8>::empty() && !final(self).complete(),
            final(self).capacity() == old(self).capacity(),
    {
        if !self.complete {
            return None;
        }
        let outcome: Result<ParsedMessage, LinkError> = parse_frame(rx_as_slice(&self.buffer));
        self.clear();
        Some(outcome)
    }

    /// Empties the buffer and forgets any line feed seen.
    pub fn clear(&mut self)
        ensures
            final(self).bytes() == Seq::<u8>::empty(),
            !final(self).complete(),
            final(self).capacity() == old(self).capacity(),
    {
        proof {
            use_type_invariant(&*self);
        }
        rx_clear(&mut self.buffer);
        self.complete = false;
    }
}

} // verus!
