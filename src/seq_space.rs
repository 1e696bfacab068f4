//! Send and receive sequence spaces and ring ordering of sequence numbers.

use vstd::prelude::*;

verus! {

/// Number of distinct sequence numbers.
pub open spec fn ring_size() -> int {
    0x1_0000_0000
}

/// How far `to` lies ahead of `from` when walking forward on the ring.
pub open spec fn ring_offset(from: u32, to: u32) -> int {
    (to as int - from as int) % ring_size()
}

/// `x` lies strictly inside the circular interval that runs forward from `start` to `end`.
pub open spec fn wrapped_between(start: u32, x: u32, end: u32) -> bool {
    0 < ring_offset(start, x) < ring_offset(start, end)
}

/// The forward distance on the ring, without the remainder.
pub proof fn lemma_ring_offset(from: u32, to: u32)
    ensures
        ring_offset(from, to) == if to >= from {
            to - from
        } else {
            to - from + ring_size()
        },
{
    if to >= from {
        vstd::arithmetic::div_mod::lemma_small_mod((to - from) as nat, ring_size() as nat);
    } else {
        vstd::arithmetic::div_mod::lemma_small_mod((to - from + ring_size()) as nat, ring_size() as nat);
        vstd::arithmetic::div_mod::lemma_mod_add_multiples_vanish(to - from, ring_size());
    }
}

/// Whether `x` lies strictly between `start` and `end` on the ring of sequence numbers.
pub fn is_between_wrapped(start: u32, x: u32, end: u32) -> (r: bool)
    ensures
        r == wrapped_between(start, x, end),
{
    proof {
        lemma_ring_offset(start, x);
        lemma_ring_offset(start, end);
    }
    if start == x {
        false
    } else if start < x {
        !(end >= start && end <= x)
    } else {
        end > x && end < start
    }
}

/// For distinct ends, a sequence number is between them exactly when, with the ring
/// rebased at `start`, it lies below `end`; and `start` itself is never between.
pub proof fn lemma_between_is_rebased_containment(start: u32, x: u32, end: u32)
    requires
        start != end,
    ensures
        x != start ==> (wrapped_between(start, x, end) <==> ring_offset(start, x) < ring_offset(
            start,
            end,
        )),
        !wrapped_between(start, start, end),
{
    lemma_ring_offset(start, x);
    lemma_ring_offset(start, start);
}

/// State of the send sequence space (RFC 793, section 3.2).
#[derive(Clone, Copy, Debug, PartialEq, Eq)]
pub struct SendSequenceSpace {
    /// oldest unacknowledged sequence number
    pub una: u32,
    /// next sequence number to send
    pub nxt: u32,
    /// send window
    pub wnd: u16,
    /// send urgent pointer
    pub up: bool,
    /// segment sequence number used for the last window update
    pub wl1: usize,
    /// segment acknowledgment number used for the last window update
    pub wl2: usize,
    /// initial send sequence number
    pub iss: u32,
}

/// State of the receive sequence space (RFC 793, section 3.2).
#[derive(Clone, Copy, Debug, PartialEq, Eq)]
pub struct RecvSequenceSpace {
    /// next sequence number expected from the peer
    pub nxt: u32,
    /// receive window
    pub wnd: u16,
    /// receive urgent pointer
    pub up: bool,
    /// initial receive sequence number
    pub irs: u32,
}

} // verus!
