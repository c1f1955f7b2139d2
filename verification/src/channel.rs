use vstd::prelude::*;

use crate::error::Error;
use crate::protocol::frame;
use crate::protocol::lemma_wrote_prefix_abort;
use crate::protocol::lemma_wrote_prefix_step;
use crate::protocol::wrote_prefix;
use crate::protocol::Command;

verus! {

#[verifier::external_type_specification]
#[verifier::external_body]
pub struct ExUnixStream(unix_socket::UnixStream);

/// One full-duplex byte stream to a port's coprocessor endpoint.
///
/// `sent()` is the model of the channel: the whole history of bytes this
/// socket has written to the stream, in order.  The trusted read and write
/// wrappers below maintain it; everything above them is verified against it.
pub struct PortSocket {
    stream: unix_socket::UnixStream,
    history: Ghost<Seq<u8>>,
}

impl PortSocket {
    /// All bytes written to the stream through this socket, in order.
    pub closed spec fn sent(self) -> Seq<u8> {
        self.history@
    }

    /// Relies on `unix_socket::UnixStream::connect`: on success it returns a
    /// stream connected to the endpoint at `path`, to which nothing has been
    /// written yet.
    #[verifier::external_body]
    pub fn connect(path: &str) -> (r: Result<PortSocket, Error>)
        ensures
            r is Ok ==> r->Ok_0.sent() == Seq::<u8>::empty(),
            r is Err ==> r->Err_0 == Error::Connect,
    {
        match unix_socket::UnixStream::connect(path) {
            Ok(stream) => Ok(PortSocket { stream, history: Ghost(Seq::empty()) }),
            Err(_) => Err(Error::Connect),
        }
    }

    /// Wraps an already-connected stream, with an empty send history.
    /// Relies on `unix_socket::UnixStream` being a connected byte stream.
    #[verifier::external_body]
    pub fn from_stream(stream: unix_socket::UnixStream) -> (r: PortSocket)
        ensures
            r.sent() == Seq::<u8>::empty(),
    {
        PortSocket { stream, history: Ghost(Seq::empty()) }
    }

    /// Relies on `std::io::Write::write_all` on `unix_socket::UnixStream`: on
    /// success the whole buffer was written to the stream; on failure some
    /// prefix of it was, and the error is surfaced.
    #[verifier::external_body]
    pub fn write(&mut self, buffer: &[u8]) -> (r: Result<(), Error>)
        ensures
            r is Ok ==> final(self).sent() == old(self).sent() + buffer@,
            r is Err ==> r->Err_0 == Error::Io
                && wrote_prefix(old(self).sent(), final(self).sent(), buffer@),
    {
        match std::io::Write::write_all(&mut self.stream, buffer) {
            Ok(()) => Ok(()),
            Err(_) => Err(Error::Io),
        }
    }

    /// Relies on `std::io::Read::read_exact` on `unix_socket::UnixStream`: on
    /// success the buffer was filled completely with the next bytes from the
    /// stream; nothing is ever written, and the buffer keeps its length.
    #[verifier::external_body]
    pub fn read_exact(&mut self, buffer: &mut Vec<u8>) -> (r: Result<(), Error>)
        ensures
            final(self).sent() == old(self).sent(),
            final(buffer)@.len() == old(buffer)@.len(),
            r is Err ==> r->Err_0 == Error::Io,
    {
        match std::io::Read::read_exact(&mut self.stream, buffer.as_mut_slice()) {
            Ok(()) => Ok(()),
            Err(_) => Err(Error::Io),
        }
    }

    /// Writes one frame: the opcode byte, then its payload.
    pub fn write_command(&mut self, cmd: Command, buffer: &[u8]) -> (r: Result<(), Error>)
        ensures
            r is Ok ==> final(self).sent() == old(self).sent() + frame(cmd.0, buffer@),
            r is Err ==> r->Err_0 == Error::Io
                && wrote_prefix(old(self).sent(), final(self).sent(), frame(cmd.0, buffer@)),
    {
        let ghost pre = self.sent();
        let mut head: Vec<u8> = Vec::new();
        head.push(cmd.0);
        proof {
            assert(head@ =~= seq![cmd.0]);
        }
        match self.write(head.as_slice()) {
            Ok(()) => {}
            Err(e) => {
                proof {
                    lemma_wrote_prefix_abort(pre, self.sent(), seq![cmd.0], buffer@);
                    assert(seq![cmd.0] + buffer@ == frame(cmd.0, buffer@));
                }
                return Err(e);
            }
        }
        let ghost mid = self.sent();
        match self.write(buffer) {
            Ok(()) => {
                proof {
                    assert(self.sent() =~= pre + frame(cmd.0, buffer@));
                }
                Ok(())
            }
            Err(e) => {
                proof {
                    lemma_wrote_prefix_step(pre, mid, self.sent(), seq![cmd.0], buffer@);
                    assert(seq![cmd.0] + buffer@ == frame(cmd.0, buffer@));
                }
                Err(e)
            }
        }
    }
}

} // verus!
