use vstd::prelude::*;

verus! {

// Opcodes the host sends to the coprocessor.  Each opcode byte is followed by
// a payload of the fixed length that its contract defines.

/// Enable the bus engine; payload: one clock-divisor byte.
pub const CMD_ENABLE_I2C: u8 = 12;
/// Announce a transmit phase; payload: one length byte.
pub const CMD_TX: u8 = 16;
/// Announce a receive phase; payload: one length byte.
pub const CMD_RX: u8 = 17;
/// Issue a start condition; payload: one address-plus-direction byte.
pub const CMD_START: u8 = 19;
/// Issue a stop condition; no payload.
pub const CMD_STOP: u8 = 20;

/// Reply tag that precedes the payload bytes of a completed receive phase.
pub const REPLY_DATA: u8 = 132;

/// A single-byte opcode sent host-to-device.
pub struct Command(pub u8);

/// One unit of the wire protocol: the opcode byte followed by its payload.
pub open spec fn frame(op: u8, payload: Seq<u8>) -> Seq<u8> {
    seq![op] + payload
}

/// The frame that enables the bus with the given clock divisor.
pub open spec fn enable_frame(divisor: u8) -> Seq<u8> {
    frame(CMD_ENABLE_I2C, seq![divisor])
}

/// The frame that issues a start condition for the given address byte.
pub open spec fn start_frame(addr_byte: u8) -> Seq<u8> {
    frame(CMD_START, seq![addr_byte])
}

/// The frame that announces a transmit phase of `len` bytes.
pub open spec fn tx_frame(len: u8) -> Seq<u8> {
    frame(CMD_TX, seq![len])
}

/// The frame that announces a receive phase of `len` bytes.
pub open spec fn rx_frame(len: u8) -> Seq<u8> {
    frame(CMD_RX, seq![len])
}

/// The frame that issues a stop condition.
pub open spec fn stop_frame() -> Seq<u8> {
    frame(CMD_STOP, seq![])
}

/// The stream grew from `pre` to `post` by some prefix of `data`.
///
/// This is what remains true of the send history when an I/O failure aborts a
/// frame sequence: everything up to the failure was written, nothing after it.
pub open spec fn wrote_prefix(pre: Seq<u8>, post: Seq<u8>, data: Seq<u8>) -> bool {
    exists|k: int| 0 <= k <= data.len() && post == pre + data.take(k)
}

/// Writing all of `data` is one way of writing a prefix of it.
pub proof fn lemma_wrote_prefix_full(pre: Seq<u8>, post: Seq<u8>, data: Seq<u8>)
    requires
        post == pre + data,
    ensures
        wrote_prefix(pre, post, data),
{
    assert(data.take(data.len() as int) =~= data);
    assert(post == pre + data.take(data.len() as int));
}

/// A prefix of `d1` is also a prefix of `d1 + d2`: an abort inside the first
/// part of a sequence is an abort of the whole sequence.
pub proof fn lemma_wrote_prefix_abort(pre: Seq<u8>, post: Seq<u8>, d1: Seq<u8>, d2: Seq<u8>)
    requires
        wrote_prefix(pre, post, d1),
    ensures
        wrote_prefix(pre, post, d1 + d2),
{
    let k = choose|k: int| 0 <= k <= d1.len() && post == pre + d1.take(k);
    assert((d1 + d2).take(k) =~= d1.take(k));
    assert(post == pre + (d1 + d2).take(k));
}

/// After `d1` went out whole, a prefix of `d2` extends to a prefix of
/// `d1 + d2`.
pub proof fn lemma_wrote_prefix_step(
    pre: Seq<u8>,
    mid: Seq<u8>,
    post: Seq<u8>,
    d1: Seq<u8>,
    d2: Seq<u8>,
)
    requires
        mid == pre + d1,
        wrote_prefix(mid, post, d2),
    ensures
        wrote_prefix(pre, post, d1 + d2),
{
    let k = choose|k: int| 0 <= k <= d2.len() && post == mid + d2.take(k);
    assert((d1 + d2).take(d1.len() + k) =~= d1 + d2.take(k));
    assert(pre + (d1 + d2).take(d1.len() + k) =~= (pre + d1) + d2.take(k));
    assert(post == pre + (d1 + d2).take(d1.len() + k));
}

} // verus!
