use std::io::Read;
use std::io::Write;

use tessel::Error;
use tessel::Port;
use tessel::PortSocket;

// Wire constants, as the coprocessor protocol defines them.
const CMD_ENABLE_I2C: u8 = 12;
const CMD_TX: u8 = 16;
const CMD_RX: u8 = 17;
const CMD_START: u8 = 19;
const CMD_STOP: u8 = 20;
const REPLY_DATA: u8 = 132;

/// A port wired to an in-process peer socket standing in for the
/// coprocessor, so every frame the driver emits can be observed.
fn test_port() -> (Port, unix_socket::UnixStream) {
    let (ours, theirs) = unix_socket::UnixStream::pair().unwrap();
    (Port::from_socket(PortSocket::from_stream(ours)), theirs)
}

fn read_bytes(peer: &mut unix_socket::UnixStream, n: usize) -> Vec<u8> {
    let mut buf = vec![0u8; n];
    peer.read_exact(&mut buf).unwrap();
    buf
}

#[test]
fn enable_frame_is_first_on_the_channel() {
    let (mut port, mut peer) = test_port();
    // 2.4 MHz maps to divisor 4.
    let mut engine = port.i2c(2_400_000).unwrap();
    assert_eq!(engine.frequency, 2_400_000);
    assert_eq!(read_bytes(&mut peer, 2), vec![CMD_ENABLE_I2C, 4]);
    // The first transaction frames come only after the enable frame.
    engine.send(0x42, &[1]).unwrap();
    assert_eq!(
        read_bytes(&mut peer, 6),
        vec![CMD_START, 0x42 << 1, CMD_TX, 1, 1, CMD_STOP]
    );
}

#[test]
fn i2c_fails_without_enable_when_clock_pin_is_held() {
    let (mut port, mut peer) = test_port();
    let clock = port.pin(0).unwrap();
    assert_eq!(port.i2c(2_400_000).err().unwrap(), Error::Contention);
    port.release(clock);
    // Nothing was sent by the failed attempt: the very first bytes on the
    // channel are the enable frame of the attempt that succeeded.
    let engine = port.i2c(2_400_000).unwrap();
    assert_eq!(read_bytes(&mut peer, 2), vec![CMD_ENABLE_I2C, 4]);
    drop(engine);
}

#[test]
fn i2c_fails_without_enable_when_data_pin_is_held() {
    let (mut port, mut peer) = test_port();
    let data = port.pin(1).unwrap();
    assert_eq!(port.i2c(2_400_000).err().unwrap(), Error::Contention);
    port.release(data);
    let engine = port.i2c(2_400_000).unwrap();
    assert_eq!(read_bytes(&mut peer, 2), vec![CMD_ENABLE_I2C, 4]);
    drop(engine);
}

#[test]
fn i2c_holds_both_bus_pins() {
    let (mut port, _peer) = test_port();
    let engine = port.i2c(100_000).unwrap();
    assert_eq!(port.pin(0).err().unwrap(), Error::Contention);
    assert_eq!(port.pin(1).err().unwrap(), Error::Contention);
    // Pins that the bus does not use stay available.
    let other = port.pin(2).unwrap();
    port.release(other);
    drop(engine);
}

#[test]
fn send_emits_start_tx_payload_stop() {
    let (mut port, mut peer) = test_port();
    let mut engine = port.i2c(2_400_000).unwrap();
    read_bytes(&mut peer, 2);
    engine.send(0x42, &[10, 20, 30]).unwrap();
    assert_eq!(
        read_bytes(&mut peer, 8),
        vec![CMD_START, 0x42 << 1, CMD_TX, 3, 10, 20, 30, CMD_STOP]
    );
}

#[test]
fn send_with_empty_payload() {
    let (mut port, mut peer) = test_port();
    let mut engine = port.i2c(2_400_000).unwrap();
    read_bytes(&mut peer, 2);
    engine.send(0x42, &[]).unwrap();
    assert_eq!(
        read_bytes(&mut peer, 5),
        vec![CMD_START, 0x42 << 1, CMD_TX, 0, CMD_STOP]
    );
}

#[test]
fn read_emits_start_rx_stop_and_returns_payload() {
    let (mut port, mut peer) = test_port();
    let mut engine = port.i2c(2_400_000).unwrap();
    read_bytes(&mut peer, 2);
    // The coprocessor replies with the data tag and three payload bytes.
    peer.write_all(&[REPLY_DATA, 9, 8, 7]).unwrap();
    let mut buf = vec![0u8; 3];
    engine.read(0x42, &mut buf).unwrap();
    assert_eq!(buf, vec![9, 8, 7]);
    assert_eq!(
        read_bytes(&mut peer, 5),
        vec![CMD_START, (0x42 << 1) | 1, CMD_RX, 3, CMD_STOP]
    );
}

#[test]
fn read_reports_desync_on_wrong_reply_tag() {
    let (mut port, mut peer) = test_port();
    let mut engine = port.i2c(2_400_000).unwrap();
    read_bytes(&mut peer, 2);
    peer.write_all(&[REPLY_DATA + 1, 9, 8]).unwrap();
    let mut buf = vec![0u8; 2];
    assert_eq!(engine.read(0x42, &mut buf).err().unwrap(), Error::Desync);
    // The buffer is untouched on a desynchronized conversation.
    assert_eq!(buf, vec![0, 0]);
    // The frames went out whole before the reply was examined.
    assert_eq!(
        read_bytes(&mut peer, 5),
        vec![CMD_START, (0x42 << 1) | 1, CMD_RX, 2, CMD_STOP]
    );
}

#[test]
fn transfer_emits_repeated_start_and_returns_payload() {
    let (mut port, mut peer) = test_port();
    let mut engine = port.i2c(2_400_000).unwrap();
    read_bytes(&mut peer, 2);
    peer.write_all(&[REPLY_DATA, 5, 6]).unwrap();
    let mut buf = vec![0u8; 2];
    engine.transfer(0x42, &[77], &mut buf).unwrap();
    assert_eq!(buf, vec![5, 6]);
    assert_eq!(
        read_bytes(&mut peer, 9),
        vec![
            CMD_START,
            (0x42 << 1) | 1,
            CMD_TX,
            1,
            CMD_START,
            (0x42 << 1) | 1,
            CMD_RX,
            2,
            CMD_STOP,
        ]
    );
}

#[test]
fn transfer_reports_desync_on_wrong_reply_tag() {
    let (mut port, mut peer) = test_port();
    let mut engine = port.i2c(2_400_000).unwrap();
    read_bytes(&mut peer, 2);
    peer.write_all(&[0]).unwrap();
    let mut buf = vec![0u8; 1];
    assert_eq!(engine.transfer(0x42, &[1], &mut buf).err().unwrap(), Error::Desync);
    assert_eq!(buf, vec![0]);
}

#[test]
fn connect_failure_is_reported() {
    let err = Port::new("/this/endpoint/does/not/exist").err().unwrap();
    assert_eq!(err, Error::Connect);
}

#[test]
fn io_failure_is_reported_when_the_channel_breaks() {
    let (mut port, peer) = test_port();
    let mut engine = port.i2c(2_400_000).unwrap();
    // The coprocessor goes away mid-session: the next frame write fails and
    // the fault is surfaced instead of being swallowed.
    drop(peer);
    assert_eq!(engine.send(0x42, &[1, 2]).err().unwrap(), Error::Io);
}

#[test]
fn released_engine_frees_the_bus() {
    let (mut port, mut peer) = test_port();
    let engine = port.i2c(2_400_000).unwrap();
    assert_eq!(port.i2c(2_400_000).err().unwrap(), Error::Contention);
    engine.release(&mut port);
    let engine = port.i2c(100_000).unwrap();
    drop(engine);
    // Both enable frames appear, each with its own divisor.
    assert_eq!(read_bytes(&mut peer, 4), vec![CMD_ENABLE_I2C, 4, CMD_ENABLE_I2C, 234]);
}
