use vstd::prelude::*;

use crate::channel::PortSocket;
use crate::error::Error;
use crate::port::Pin;
use crate::port::Port;
use crate::protocol::lemma_wrote_prefix_abort;
use crate::protocol::lemma_wrote_prefix_full;
use crate::protocol::lemma_wrote_prefix_step;
use crate::protocol::enable_frame;
use crate::protocol::frame;
use crate::protocol::rx_frame;
use crate::protocol::start_frame;
use crate::protocol::stop_frame;
use crate::protocol::tx_frame;
use crate::protocol::wrote_prefix;
use crate::protocol::Command;
use crate::protocol::CMD_ENABLE_I2C;
use crate::protocol::CMD_RX;
use crate::protocol::CMD_START;
use crate::protocol::CMD_STOP;
use crate::protocol::CMD_TX;
use crate::protocol::REPLY_DATA;

verus! {

/// Clock rate of the bus controller, in Hz.
pub const MCU_MAX_SPEED: u32 = 48_000_000;
/// Minimum rise time of the bus clock line, in nanoseconds.
pub const SCL_RISE_TIME_NS: u32 = 15;
/// Scale factor of the controller's divisor register.
pub const BAUD_DIV_FACTOR: u32 = 2;
/// Offset of the controller's divisor register.
pub const BAUD_SUB_FACTOR: u32 = 5;

/// Numerator of the divisor register value for `frequency`, over the common
/// denominator `divisor_den(frequency)`:
///
/// ```text
/// raw = (MCU_MAX_SPEED / frequency
///         - MCU_MAX_SPEED * SCL_RISE_TIME_NS / 1e9) / BAUD_DIV_FACTOR
///       - BAUD_SUB_FACTOR
/// ```
pub open spec fn divisor_num(frequency: int) -> int {
    1_000_000_000 * (MCU_MAX_SPEED as int)
        - (MCU_MAX_SPEED as int) * (SCL_RISE_TIME_NS as int) * frequency
        - (BAUD_SUB_FACTOR as int) * (BAUD_DIV_FACTOR as int) * 1_000_000_000 * frequency
}

/// Denominator of the divisor register value for `frequency`.
pub open spec fn divisor_den(frequency: int) -> int {
    (BAUD_DIV_FACTOR as int) * 1_000_000_000 * frequency
}

/// The divisor register byte for a requested bus frequency: the raw register
/// value `divisor_num / divisor_den`, saturated into `0 ..= 255`.  A zero
/// frequency stands for a raw value beyond every representable rate and
/// saturates to 255.
pub open spec fn i2c_divisor(frequency: u32) -> u8 {
    if frequency == 0 {
        255u8
    } else if divisor_num(frequency as int) < 0 {
        0u8
    } else {
        let q = divisor_num(frequency as int) / divisor_den(frequency as int);
        if q > 255 {
            255u8
        } else {
            q as u8
        }
    }
}

/// The register formula collapsed over its common denominator.
pub proof fn lemma_divisor_num_form(f: int)
    ensures
        divisor_num(f) == 48_000_000_000_000_000 - 10_720_000_000 * f,
        divisor_den(f) == 2_000_000_000 * f,
{
    assert((MCU_MAX_SPEED as int) * (SCL_RISE_TIME_NS as int) == 720_000_000);
    assert((BAUD_SUB_FACTOR as int) * (BAUD_DIV_FACTOR as int) * 1_000_000_000
        == 10_000_000_000);
    assert(720_000_000 * f + 10_000_000_000 * f == 10_720_000_000 * f);
}

/// The address byte of a start condition announcing a write: the 7-bit
/// device address shifted left, direction bit clear.
pub open spec fn addr_write(address: u8) -> u8 {
    address << 1
}

/// The address byte of a start condition announcing a read: the 7-bit device
/// address shifted left, direction bit set.
pub open spec fn addr_read(address: u8) -> u8 {
    (address << 1) | 1
}

/// Every frame a `send` emits, in order: start (write direction), transmit
/// announcement, the payload bytes themselves, stop.
pub open spec fn send_sequence(address: u8, data: Seq<u8>) -> Seq<u8> {
    start_frame(addr_write(address)) + tx_frame(data.len() as u8) + data + stop_frame()
}

/// Every frame a `read` emits, in order: start (read direction), receive
/// announcement for `len` bytes, stop.
pub open spec fn read_sequence(address: u8, len: u8) -> Seq<u8> {
    start_frame(addr_read(address)) + rx_frame(len) + stop_frame()
}

/// Every frame a `transfer` emits, in order: start, transmit announcement,
/// a repeated start, receive announcement, stop.
pub open spec fn transfer_sequence(address: u8, tx_len: u8, rx_len: u8) -> Seq<u8> {
    start_frame(addr_read(address)) + tx_frame(tx_len) + start_frame(addr_read(address))
        + rx_frame(rx_len) + stop_frame()
}

/// Validates the tag byte that precedes a data reply.  Exactly the data tag
/// passes; any other tag means the conversation with the coprocessor is out
/// of step, which is reported apart from an I/O fault.
pub fn check_reply_tag(tag: u8) -> (r: Result<(), Error>)
    ensures
        r is Ok <==> tag == REPLY_DATA,
        r is Err ==> r->Err_0 == Error::Desync,
{
    if tag == REPLY_DATA {
        Ok(())
    } else {
        Err(Error::Desync)
    }
}

/// Writes one frame whose payload is a single byte.
fn write_frame1(sock: &mut PortSocket, op: u8, arg: u8) -> (r: Result<(), Error>)
    ensures
        r is Ok ==> final(sock).sent() == old(sock).sent() + frame(op, seq![arg]),
        r is Err ==> r->Err_0 == Error::Io
            && wrote_prefix(old(sock).sent(), final(sock).sent(), frame(op, seq![arg])),
{
    let mut payload: Vec<u8> = Vec::new();
    payload.push(arg);
    proof {
        assert(payload@ =~= seq![arg]);
    }
    sock.write_command(Command(op), payload.as_slice())
}

/// Writes one frame that has no payload.
fn write_frame0(sock: &mut PortSocket, op: u8) -> (r: Result<(), Error>)
    ensures
        r is Ok ==> final(sock).sent() == old(sock).sent() + frame(op, seq![]),
        r is Err ==> r->Err_0 == Error::Io
            && wrote_prefix(old(sock).sent(), final(sock).sent(), frame(op, seq![])),
{
    let payload: Vec<u8> = Vec::new();
    proof {
        assert(payload@ =~= Seq::<u8>::empty());
    }
    sock.write_command(Command(op), payload.as_slice())
}

/// The bus engine of one port.
///
/// It owns the port's channel and the clock and data pins for its whole
/// lifetime, so its frame sequences can never interleave with anything else;
/// `Port::i2c` builds it and `release` gives the resources back.
pub struct I2C {
    socket: PortSocket,
    scl: Pin,
    sda: Pin,
    /// The bus frequency this engine was configured for, in Hz.
    pub frequency: u32,
}

impl I2C {
    /// The engine holds the clock line (index 0) and the data line (index 1).
    pub closed spec fn wf(self) -> bool {
        self.scl.idx() == 0 && self.sda.idx() == 1
    }

    /// The bus frequency this engine was configured for, in Hz.
    pub closed spec fn freq(self) -> u32 {
        self.frequency
    }

    /// All bytes written to the channel so far, by anyone who owned it.
    pub closed spec fn sent(self) -> Seq<u8> {
        self.socket.sent()
    }

    /// Builds the engine around resources the port has already acquired and
    /// immediately sends the enable frame, carrying the divisor byte for the
    /// requested frequency, over the channel.  No reply is expected.  If even
    /// that write fails, the resources come back through the error so the
    /// caller can restore them: a failed construction must not leak the pins.
    pub(crate) fn new(socket: PortSocket, scl: Pin, sda: Pin, frequency: u32) -> (r: Result<
        I2C,
        (PortSocket, Pin, Pin),
    >)
        requires
            scl.idx() == 0,
            sda.idx() == 1,
        ensures
            r is Ok ==> r->Ok_0.wf() && r->Ok_0.freq() == frequency
                && r->Ok_0.sent() == socket.sent() + enable_frame(i2c_divisor(frequency)),
            r is Err ==> r->Err_0.1 == scl && r->Err_0.2 == sda
                && wrote_prefix(
                    socket.sent(),
                    r->Err_0.0.sent(),
                    enable_frame(i2c_divisor(frequency)),
                ),
    {
        let baud = Self::compute_baud(frequency);
        let mut sock = socket;
        let mut payload: Vec<u8> = Vec::new();
        payload.push(baud);
        proof {
            assert(payload@ =~= seq![baud]);
        }
        match sock.write_command(Command(CMD_ENABLE_I2C), payload.as_slice()) {
            Ok(()) => Ok(I2C { socket: sock, scl, sda, frequency }),
            Err(_) => Err((sock, scl, sda)),
        }
    }

    /// Computes the divisor register byte for the requested clock frequency.
    ///
    /// This is a pure function: the closed-form register formula evaluated
    /// exactly, with raw values above 255 saturating to 255 and raw values
    /// below 0 saturating to 0.
    pub fn compute_baud(frequency: u32) -> (r: u8)
        ensures
            r == i2c_divisor(frequency),
    {
        if frequency == 0 {
            return 255;
        }
        let f = frequency as u128;
        // divisor_num(frequency) == 48e15 - (48e6 * 15 + 5 * 2 * 1e9) * frequency
        let scaled_sub: u128 = 10_720_000_000;
        let whole: u128 = 48_000_000_000_000_000;
        if scaled_sub * f > whole {
            proof {
                lemma_divisor_num_form(frequency as int);
            }
            return 0;
        }
        let num: u128 = whole - scaled_sub * f;
        let den: u128 = 2_000_000_000 * f;
        let q: u128 = num / den;
        proof {
            lemma_divisor_num_form(frequency as int);
            assert(num as int == divisor_num(frequency as int));
            assert(den as int == divisor_den(frequency as int));
        }
        if q > 255 {
            255
        } else {
            q as u8
        }
    }
}

impl I2C {
    /// Writes `write_buf` to the device at the 7-bit `address`.
    ///
    /// Emits exactly, in order: a start frame announcing a write to
    /// `address`, a transmit frame announcing the length, the payload bytes
    /// themselves, and a stop frame.  No reply is expected.  An I/O fault
    /// aborts the remaining frames and is surfaced.
    pub fn send(&mut self, address: u8, write_buf: &[u8]) -> (r: Result<(), Error>)
        requires
            old(self).wf(),
            address < 128,
            write_buf@.len() <= 255,
        ensures
            final(self).wf(),
            final(self).freq() == old(self).freq(),
            r is Ok ==> final(self).sent() == old(self).sent()
                + send_sequence(address, write_buf@),
            r is Err ==> r->Err_0 == Error::Io
                && wrote_prefix(
                    old(self).sent(),
                    final(self).sent(),
                    send_sequence(address, write_buf@),
                ),
    {
        let ghost pre = self.sent();
        let ghost f1 = start_frame(addr_write(address));
        let ghost f2 = tx_frame(write_buf@.len() as u8);
        let ghost f3 = write_buf@;
        let ghost f4 = stop_frame();
        let ghost full = send_sequence(address, write_buf@);
        let len_byte = write_buf.len() as u8;
        match write_frame1(&mut self.socket, CMD_START, address << 1) {
            Ok(()) => {}
            Err(e) => {
                proof {
                    lemma_wrote_prefix_abort(pre, self.sent(), f1, f2 + f3 + f4);
                    assert(f1 + (f2 + f3 + f4) =~= full);
                }
                return Err(e);
            }
        }
        let ghost mid1 = self.sent();
        match write_frame1(&mut self.socket, CMD_TX, len_byte) {
            Ok(()) => {}
            Err(e) => {
                proof {
                    lemma_wrote_prefix_step(pre, mid1, self.sent(), f1, f2);
                    lemma_wrote_prefix_abort(pre, self.sent(), f1 + f2, f3 + f4);
                    assert((f1 + f2) + (f3 + f4) =~= full);
                }
                return Err(e);
            }
        }
        let ghost mid2 = self.sent();
        proof {
            assert(mid2 == pre + (f1 + f2)) by {
                assert(pre + (f1 + f2) =~= (pre + f1) + f2);
            }
        }
        match self.socket.write(write_buf) {
            Ok(()) => {}
            Err(e) => {
                proof {
                    lemma_wrote_prefix_step(pre, mid2, self.sent(), f1 + f2, f3);
                    lemma_wrote_prefix_abort(pre, self.sent(), (f1 + f2) + f3, f4);
                }
                return Err(e);
            }
        }
        let ghost mid3 = self.sent();
        proof {
            assert(mid3 == pre + ((f1 + f2) + f3)) by {
                assert(pre + ((f1 + f2) + f3) =~= (pre + (f1 + f2)) + f3);
            }
        }
        match write_frame0(&mut self.socket, CMD_STOP) {
            Ok(()) => {
                proof {
                    assert(self.sent() == pre + full) by {
                        assert(pre + full =~= (pre + ((f1 + f2) + f3)) + f4);
                    }
                }
                Ok(())
            }
            Err(e) => {
                proof {
                    lemma_wrote_prefix_step(pre, mid3, self.sent(), (f1 + f2) + f3, f4);
                }
                Err(e)
            }
        }
    }

    /// Reads `read_buf.len()` bytes from the device at the 7-bit `address`.
    ///
    /// Emits exactly, in order: a start frame announcing a read from
    /// `address`, a receive frame announcing the length, and a stop frame;
    /// then blocks for the reply.  A reply whose tag byte is not the data tag
    /// is a desynchronized conversation and is reported as such, leaving the
    /// buffer untouched; with the right tag, exactly `read_buf.len()` payload
    /// bytes are read into the buffer.
    pub fn read(&mut self, address: u8, read_buf: &mut Vec<u8>) -> (r: Result<(), Error>)
        requires
            old(self).wf(),
            address < 128,
            old(read_buf)@.len() <= 255,
        ensures
            final(self).wf(),
            final(self).freq() == old(self).freq(),
            final(read_buf)@.len() == old(read_buf)@.len(),
            r is Ok ==> final(self).sent() == old(self).sent()
                + read_sequence(address, old(read_buf)@.len() as u8),
            r is Err ==> (r->Err_0 == Error::Io || r->Err_0 == Error::Desync)
                && wrote_prefix(
                    old(self).sent(),
                    final(self).sent(),
                    read_sequence(address, old(read_buf)@.len() as u8),
                ),
            r is Err && r->Err_0 == Error::Desync ==> final(self).sent() == old(self).sent()
                + read_sequence(address, old(read_buf)@.len() as u8)
                && final(read_buf)@ == old(read_buf)@,
    {
        let ghost pre = self.sent();
        let ghost f1 = start_frame(addr_read(address));
        let ghost f2 = rx_frame(old(read_buf)@.len() as u8);
        let ghost f3 = stop_frame();
        let ghost full = read_sequence(address, old(read_buf)@.len() as u8);
        let len_byte = read_buf.len() as u8;
        match write_frame1(&mut self.socket, CMD_START, (address << 1) | 1) {
            Ok(()) => {}
            Err(e) => {
                proof {
                    lemma_wrote_prefix_abort(pre, self.sent(), f1, f2 + f3);
                    assert(f1 + (f2 + f3) =~= full);
                }
                return Err(e);
            }
        }
        let ghost mid1 = self.sent();
        match write_frame1(&mut self.socket, CMD_RX, len_byte) {
            Ok(()) => {}
            Err(e) => {
                proof {
                    lemma_wrote_prefix_step(pre, mid1, self.sent(), f1, f2);
                    lemma_wrote_prefix_abort(pre, self.sent(), f1 + f2, f3);
                }
                return Err(e);
            }
        }
        let ghost mid2 = self.sent();
        proof {
            assert(mid2 == pre + (f1 + f2)) by {
                assert(pre + (f1 + f2) =~= (pre + f1) + f2);
            }
        }
        match write_frame0(&mut self.socket, CMD_STOP) {
            Ok(()) => {
                proof {
                    assert(self.sent() == pre + full) by {
                        assert(pre + full =~= (pre + (f1 + f2)) + f3);
                    }
                }
            }
            Err(e) => {
                proof {
                    lemma_wrote_prefix_step(pre, mid2, self.sent(), f1 + f2, f3);
                }
                return Err(e);
            }
        }
        let mut tag_buf: Vec<u8> = Vec::new();
        tag_buf.push(0);
        match self.socket.read_exact(&mut tag_buf) {
            Ok(()) => {}
            Err(e) => {
                proof {
                    lemma_wrote_prefix_full(pre, self.sent(), full);
                }
                return Err(e);
            }
        }
        let tag = tag_buf[0];
        match check_reply_tag(tag) {
            Ok(()) => {}
            Err(e) => {
                proof {
                    lemma_wrote_prefix_full(pre, self.sent(), full);
                }
                return Err(e);
            }
        }
        match self.socket.read_exact(read_buf) {
            Ok(()) => Ok(()),
            Err(e) => {
                proof {
                    lemma_wrote_prefix_full(pre, self.sent(), full);
                }
                Err(e)
            }
        }
    }

    /// A combined write-then-read on one transaction.
    ///
    /// Emits exactly, in order: a start frame announcing a read from
    /// `address`, a transmit frame announcing the write length, a repeated
    /// start frame (no intervening stop, as the bus protocol demands when a
    /// transaction switches direction), a receive frame announcing the read
    /// length, and a stop frame; then validates the reply tag and reads the
    /// payload exactly as `read` does.
    pub fn transfer(&mut self, address: u8, write_buf: &[u8], read_buf: &mut Vec<u8>) -> (r:
        Result<(), Error>)
        requires
            old(self).wf(),
            address < 128,
            write_buf@.len() <= 255,
            old(read_buf)@.len() <= 255,
        ensures
            final(self).wf(),
            final(self).freq() == old(self).freq(),
            final(read_buf)@.len() == old(read_buf)@.len(),
            r is Ok ==> final(self).sent() == old(self).sent()
                + transfer_sequence(
                    address,
                    write_buf@.len() as u8,
                    old(read_buf)@.len() as u8,
                ),
            r is Err ==> (r->Err_0 == Error::Io || r->Err_0 == Error::Desync)
                && wrote_prefix(
                    old(self).sent(),
                    final(self).sent(),
                    transfer_sequence(
                        address,
                        write_buf@.len() as u8,
                        old(read_buf)@.len() as u8,
                    ),
                ),
            r is Err && r->Err_0 == Error::Desync ==> final(self).sent() == old(self).sent()
                + transfer_sequence(address, write_buf@.len() as u8, old(read_buf)@.len() as u8)
                && final(read_buf)@ == old(read_buf)@,
    {
        let ghost pre = self.sent();
        let ghost f1 = start_frame(addr_read(address));
        let ghost f2 = tx_frame(write_buf@.len() as u8);
        let ghost f3 = start_frame(addr_read(address));
        let ghost f4 = rx_frame(old(read_buf)@.len() as u8);
        let ghost f5 = stop_frame();
        let ghost full = transfer_sequence(
            address,
            write_buf@.len() as u8,
            old(read_buf)@.len() as u8,
        );
        let tx_len = write_buf.len() as u8;
        let rx_len = read_buf.len() as u8;
        match write_frame1(&mut self.socket, CMD_START, (address << 1) | 1) {
            Ok(()) => {}
            Err(e) => {
                proof {
                    lemma_wrote_prefix_abort(pre, self.sent(), f1, f2 + f3 + f4 + f5);
                    assert(f1 + (f2 + f3 + f4 + f5) =~= full);
                }
                return Err(e);
            }
        }
        let ghost mid1 = self.sent();
        match write_frame1(&mut self.socket, CMD_TX, tx_len) {
            Ok(()) => {}
            Err(e) => {
                proof {
                    lemma_wrote_prefix_step(pre, mid1, self.sent(), f1, f2);
                    lemma_wrote_prefix_abort(pre, self.sent(), f1 + f2, f3 + f4 + f5);
                    assert((f1 + f2) + (f3 + f4 + f5) =~= full);
                }
                return Err(e);
            }
        }
        let ghost mid2 = self.sent();
        proof {
            assert(mid2 == pre + (f1 + f2)) by {
                assert(pre + (f1 + f2) =~= (pre + f1) + f2);
            }
        }
        match write_frame1(&mut self.socket, CMD_START, (address << 1) | 1) {
            Ok(()) => {}
            Err(e) => {
                proof {
                    lemma_wrote_prefix_step(pre, mid2, self.sent(), f1 + f2, f3);
                    lemma_wrote_prefix_abort(pre, self.sent(), (f1 + f2) + f3, f4 + f5);
                    assert(((f1 + f2) + f3) + (f4 + f5) =~= full);
                }
                return Err(e);
            }
        }
        let ghost mid3 = self.sent();
        proof {
            assert(mid3 == pre + ((f1 + f2) + f3)) by {
                assert(pre + ((f1 + f2) + f3) =~= (pre + (f1 + f2)) + f3);
            }
        }
        match write_frame1(&mut self.socket, CMD_RX, rx_len) {
            Ok(()) => {}
            Err(e) => {
                proof {
                    lemma_wrote_prefix_step(pre, mid3, self.sent(), (f1 + f2) + f3, f4);
                    lemma_wrote_prefix_abort(pre, self.sent(), ((f1 + f2) + f3) + f4, f5);
                }
                return Err(e);
            }
        }
        let ghost mid4 = self.sent();
        proof {
            assert(mid4 == pre + (((f1 + f2) + f3) + f4)) by {
                assert(pre + (((f1 + f2) + f3) + f4) =~= (pre + ((f1 + f2) + f3)) + f4);
            }
        }
        match write_frame0(&mut self.socket, CMD_STOP) {
            Ok(()) => {
                proof {
                    assert(self.sent() == pre + full) by {
                        assert(pre + full =~= (pre + (((f1 + f2) + f3) + f4)) + f5);
                    }
                }
            }
            Err(e) => {
                proof {
                    lemma_wrote_prefix_step(pre, mid4, self.sent(), ((f1 + f2) + f3) + f4, f5);
                }
                return Err(e);
            }
        }
        let mut tag_buf: Vec<u8> = Vec::new();
        tag_buf.push(0);
        match self.socket.read_exact(&mut tag_buf) {
            Ok(()) => {}
            Err(e) => {
                proof {
                    lemma_wrote_prefix_full(pre, self.sent(), full);
                }
                return Err(e);
            }
        }
        let tag = tag_buf[0];
        match check_reply_tag(tag) {
            Ok(()) => {}
            Err(e) => {
                proof {
                    lemma_wrote_prefix_full(pre, self.sent(), full);
                }
                return Err(e);
            }
        }
        match self.socket.read_exact(read_buf) {
            Ok(()) => Ok(()),
            Err(e) => {
                proof {
                    lemma_wrote_prefix_full(pre, self.sent(), full);
                }
                Err(e)
            }
        }
    }

    /// Dissolves the engine: the channel and both bus pins go back to the
    /// port that granted them, so the bus can be requested again.
    pub fn release(self, port: &mut Port)
        requires
            self.wf(),
            old(port).wf(),
            !old(port).channel_available(),
            old(port).pin_held(0),
            old(port).pin_held(1),
        ensures
            final(port).wf(),
            final(port).channel_available(),
            final(port).sent() == self.sent(),
            forall|j: int| final(port).pin_held(j)
                == (j != 0 && j != 1 && old(port).pin_held(j)),
    {
        let I2C { socket, scl, sda, frequency: _ } = self;
        port.put_back(socket, scl, sda);
    }
}

/// The divisor byte saturates instead of wrapping or failing: a raw register
/// value above 255 comes out as exactly 255, a negative one as exactly 0,
/// and an in-range one as exactly the closed-form value.
pub proof fn lemma_divisor_saturates(frequency: u32)
    requires
        frequency > 0,
    ensures
        divisor_num(frequency as int) >= 0
            && divisor_num(frequency as int) / divisor_den(frequency as int) > 255
            ==> i2c_divisor(frequency) == 255,
        divisor_num(frequency as int) < 0 ==> i2c_divisor(frequency) == 0,
        divisor_num(frequency as int) >= 0
            && divisor_num(frequency as int) / divisor_den(frequency as int) <= 255
            ==> i2c_divisor(frequency)
                == divisor_num(frequency as int) / divisor_den(frequency as int),
{
    lemma_divisor_num_form(frequency as int);
    if divisor_num(frequency as int) >= 0 {
        vstd::arithmetic::div_mod::lemma_div_pos_is_pos(
            divisor_num(frequency as int),
            divisor_den(frequency as int),
        );
    }
}

} // verus!
