use vstd::prelude::*;

use crate::channel::PortSocket;
use crate::error::Error;
use crate::i2c::i2c_divisor;
use crate::i2c::I2C;
use crate::protocol::enable_frame;
use crate::protocol::wrote_prefix;

verus! {

/// Number of addressable physical lines a module port exposes.
pub const PIN_COUNT: usize = 8;

/// Exclusive ownership of one physical line of a port.
///
/// A handle exists only between a successful `Port::pin` (or the engine
/// construction in `Port::i2c`) and the matching `Port::release`; it carries
/// nothing beyond its index.  Hand a pin back only to the port that granted
/// it.
pub struct Pin {
    index: usize,
}

impl Pin {
    /// The index of the line this handle owns.
    pub closed spec fn idx(self) -> int {
        self.index as int
    }

    /// The index of the line this handle owns.
    pub fn index(&self) -> (r: usize)
        ensures
            r as int == self.idx(),
    {
        self.index
    }
}

/// A port grants `index` exactly when the index is one it exposes and no
/// handle for it is outstanding.
pub open spec fn pin_grant_ok(p: Port, index: int) -> bool {
    0 <= index < PIN_COUNT && !p.pin_held(index)
}

/// A bus engine cannot be built while its clock pin, its data pin, or the
/// channel itself is already held.
pub open spec fn i2c_busy(p: Port) -> bool {
    p.pin_held(0) || p.pin_held(1) || !p.channel_available()
}

/// One hardware port: a channel to its coprocessor endpoint plus a registry
/// of exclusively acquirable pins.
///
/// The channel leaves the port while an `I2C` engine built from it is alive
/// (the engine serializes all its frames by owning it) and comes back when
/// the engine is released.
pub struct Port {
    socket: Option<PortSocket>,
    held: Vec<bool>,
}

impl Port {
    /// The registry covers every exposed pin index.
    pub closed spec fn wf(self) -> bool {
        self.held@.len() == PIN_COUNT
    }

    /// A handle for the line at `index` is outstanding.
    pub closed spec fn pin_held(self, index: int) -> bool {
        0 <= index < self.held@.len() && self.held@[index]
    }

    /// The channel is with the port (no engine owns it at the moment).
    pub closed spec fn channel_available(self) -> bool {
        self.socket is Some
    }

    /// The channel in its current state.
    pub closed spec fn channel(self) -> Option<PortSocket> {
        self.socket
    }

    /// All bytes written to the channel so far.
    pub closed spec fn sent(self) -> Seq<u8> {
        self.socket->Some_0.sent()
    }

    /// Everything a port built around a fresh channel satisfies.
    pub open spec fn fresh(self, history: Seq<u8>) -> bool {
        &&& self.wf()
        &&& self.channel_available()
        &&& self.sent() == history
        &&& forall|i: int| !self.pin_held(i)
    }

    /// Builds a port around an already-connected channel, with every pin free.
    pub fn from_socket(socket: PortSocket) -> (r: Port)
        ensures
            r.fresh(socket.sent()),
    {
        let mut held: Vec<bool> = Vec::new();
        while held.len() < PIN_COUNT
            invariant
                held@.len() <= PIN_COUNT,
                forall|i: int| 0 <= i < held@.len() ==> !held@[i],
            decreases PIN_COUNT - held.len(),
        {
            held.push(false);
        }
        Port { socket: Some(socket), held }
    }

    /// Connects to the coprocessor endpoint at `path` and builds the port.
    /// The connection failure, if any, is reported: without the channel the
    /// port cannot work at all.
    pub fn new(path: &str) -> (r: Result<Port, Error>)
        ensures
            r is Ok ==> r->Ok_0.fresh(Seq::<u8>::empty()),
            r is Err ==> r->Err_0 == Error::Connect,
    {
        let socket = match PortSocket::connect(path) {
            Ok(s) => s,
            Err(e) => {
                return Err(e);
            }
        };
        Ok(Port::from_socket(socket))
    }

    /// Acquires exclusive ownership of the line at `index`.
    ///
    /// Grants if and only if the index is one the port exposes and no handle
    /// for it is outstanding; an unknown index and a held pin are reported
    /// apart.  Nothing is sent on the channel either way.
    pub fn pin(&mut self, index: usize) -> (r: Result<Pin, Error>)
        requires
            old(self).wf(),
        ensures
            final(self).wf(),
            final(self).channel() == old(self).channel(),
            r is Ok <==> pin_grant_ok(*old(self), index as int),
            r is Ok ==> r->Ok_0.idx() == index as int
                && (forall|j: int| final(self).pin_held(j)
                       == (j == index as int || old(self).pin_held(j))),
            r is Err ==> *final(self) == *old(self),
            r is Err && index < PIN_COUNT ==> r->Err_0 == Error::Contention,
            r is Err && index >= PIN_COUNT ==> r->Err_0 == Error::UnknownPin,
    {
        if index >= PIN_COUNT {
            return Err(Error::UnknownPin);
        }
        if self.held[index] {
            return Err(Error::Contention);
        }
        self.held.set(index, true);
        Ok(Pin { index })
    }

    /// Gives a pin handle granted by this port back to its registry.
    pub fn release(&mut self, pin: Pin)
        requires
            old(self).wf(),
            old(self).pin_held(pin.idx()),
        ensures
            final(self).wf(),
            final(self).channel() == old(self).channel(),
            forall|j: int| final(self).pin_held(j) == (j != pin.idx() && old(self).pin_held(j)),
    {
        self.held.set(pin.index, false);
    }

    /// Builds the bus engine for this port at the requested frequency.
    ///
    /// Acquires the clock pin (index 0), then the data pin (index 1), in that
    /// fixed order, and only when both succeed takes the channel and enables
    /// the bus.  While either pin is held, or while another engine owns the
    /// channel, it fails with `Contention` and sends nothing.  When an I/O
    /// fault interrupts the enable frame, every acquired resource is given
    /// back before the fault is reported.
    pub fn i2c(&mut self, frequency: u32) -> (r: Result<I2C, Error>)
        requires
            old(self).wf(),
        ensures
            final(self).wf(),
            i2c_busy(*old(self)) ==> r is Err && r->Err_0 == Error::Contention
                && final(self).channel() == old(self).channel()
                && final(self).sent() == old(self).sent()
                && (forall|j: int| final(self).pin_held(j) == old(self).pin_held(j)),
            !i2c_busy(*old(self)) && r is Err ==> r->Err_0 == Error::Io
                && final(self).channel_available()
                && (forall|j: int| final(self).pin_held(j) == old(self).pin_held(j))
                && wrote_prefix(
                    old(self).sent(),
                    final(self).sent(),
                    enable_frame(i2c_divisor(frequency)),
                ),
            !i2c_busy(*old(self)) && r is Ok ==> !final(self).channel_available()
                && (forall|j: int| final(self).pin_held(j)
                       == (j == 0 || j == 1 || old(self).pin_held(j)))
                && r->Ok_0.wf()
                && r->Ok_0.freq() == frequency
                && r->Ok_0.sent() == old(self).sent() + enable_frame(i2c_divisor(frequency)),
    {
        let scl = match self.pin(0) {
            Ok(p) => p,
            Err(_) => {
                return Err(Error::Contention);
            }
        };
        let sda = match self.pin(1) {
            Ok(p) => p,
            Err(_) => {
                self.release(scl);
                return Err(Error::Contention);
            }
        };
        let socket = match self.socket.take() {
            Some(s) => s,
            None => {
                self.release(sda);
                self.release(scl);
                return Err(Error::Contention);
            }
        };
        match I2C::new(socket, scl, sda, frequency) {
            Ok(engine) => Ok(engine),
            Err((socket, scl, sda)) => {
                self.put_back(socket, scl, sda);
                Err(Error::Io)
            }
        }
    }

    /// Restores an engine's resources: the channel comes back to the port and
    /// the two bus pins return to the registry.
    pub(crate) fn put_back(&mut self, socket: PortSocket, scl: Pin, sda: Pin)
        requires
            old(self).wf(),
            !old(self).channel_available(),
            scl.idx() == 0,
            sda.idx() == 1,
            old(self).pin_held(0),
            old(self).pin_held(1),
        ensures
            final(self).wf(),
            final(self).channel_available(),
            final(self).sent() == socket.sent(),
            forall|j: int| final(self).pin_held(j) == (j != 0 && j != 1 && old(self).pin_held(j)),
    {
        self.socket = Some(socket);
        self.release(sda);
        self.release(scl);
    }
}

/// Exclusivity: while a handle for a pin index is outstanding, a second
/// acquisition of the same index is refused.
pub proof fn lemma_pin_exclusive(p: Port, index: int)
    requires
        p.pin_held(index),
    ensures
        !pin_grant_ok(p, index),
{
}

/// Once the outstanding handle is given back, the same index can be granted
/// again.
pub proof fn lemma_release_reopens(p: Port, index: int)
    requires
        0 <= index < PIN_COUNT,
        !p.pin_held(index),
    ensures
        pin_grant_ok(p, index),
{
}

} // verus!
