use vstd::prelude::*;

verus! {

/// The failures this driver reports.
///
/// - `Connect`: the channel endpoint could not be reached when a port was
///   built.
/// - `UnknownPin`: a caller asked for a pin index the port does not expose.
/// - `Contention`: the requested pin (or the channel itself) is already held
///   by another handle.
/// - `Io`: the underlying byte stream failed during a read or a write; the
///   remaining frames of the aborted sequence are not sent.
/// - `Desync`: a reply arrived whose tag is not the expected data tag, so the
///   conversation with the coprocessor is out of step.
#[derive(Clone, Copy, Debug, PartialEq, Eq, Structural)]
pub enum Error {
    Connect,
    UnknownPin,
    Contention,
    Io,
    Desync,
}

} // verus!
