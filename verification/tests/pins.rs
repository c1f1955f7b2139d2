use tessel::Error;
use tessel::Port;
use tessel::PortSocket;

/// A port wired to an in-process peer socket, so that registry behaviour can
/// be driven without a coprocessor; the peer end is returned to keep the
/// connection alive.
fn test_port() -> (Port, unix_socket::UnixStream) {
    let (ours, theirs) = unix_socket::UnixStream::pair().unwrap();
    (Port::from_socket(PortSocket::from_stream(ours)), theirs)
}

#[test]
fn pin_grants_each_free_index() {
    let (mut port, _peer) = test_port();
    for i in 0..8 {
        let pin = port.pin(i).unwrap();
        assert_eq!(pin.index(), i);
    }
}

#[test]
fn pin_is_exclusive_until_released() {
    let (mut port, _peer) = test_port();
    let held = port.pin(3).unwrap();
    // While the first handle is outstanding the same index is refused.
    assert_eq!(port.pin(3).err().unwrap(), Error::Contention);
    assert_eq!(port.pin(3).err().unwrap(), Error::Contention);
    // Other indexes are unaffected.
    let other = port.pin(4).unwrap();
    port.release(other);
    // Once the handle is given back, the index can be granted again.
    port.release(held);
    let again = port.pin(3).unwrap();
    assert_eq!(again.index(), 3);
}

#[test]
fn pin_unknown_index_is_reported() {
    let (mut port, _peer) = test_port();
    assert_eq!(port.pin(8).err().unwrap(), Error::UnknownPin);
    assert_eq!(port.pin(100).err().unwrap(), Error::UnknownPin);
    // An unknown index leaves the registry untouched.
    let pin = port.pin(7).unwrap();
    port.release(pin);
}
