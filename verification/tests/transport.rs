use migtd_transport::VirtioSerialError;
use migtd_transport::adapt::{
    engine_recv_io, engine_send_io, poll_result, stream_error, EngineIo, StreamError,
    TransportPoll, ENGINE_RECV_FAIL, ENGINE_SEND_FAIL,
};
use migtd_transport::device::{SerialDevice, SerialDeviceHandle};
use migtd_transport::port::VirtioSerialPort;

fn sent_packets(handle: &SerialDeviceHandle, id: u32) -> Vec<Vec<u8>> {
    let dev = handle.device.as_ref().expect("device must be initialized");
    for p in &dev.ports {
        if p.id == id {
            return p.sent.clone();
        }
    }
    Vec::new()
}

#[test]
fn round_trip_preserves_order_across_buffer_slicing() {
    let mut handle = SerialDeviceHandle::with_device(SerialDevice::new());
    let mut port = VirtioSerialPort::new(3);
    port.open(&mut handle).unwrap();

    // Send three chunks; the device records them in order.
    assert_eq!(port.send_data(&mut handle, &[1, 2, 3]), Ok(3));
    assert_eq!(port.send_data(&mut handle, &[4, 5]), Ok(2));
    assert_eq!(port.send_data(&mut handle, &[6, 7, 8, 9]), Ok(4));
    let sent = sent_packets(&handle, 3);
    assert_eq!(sent, vec![vec![1, 2, 3], vec![4, 5], vec![6, 7, 8, 9]]);

    // Loop the sent packets back as inbound packets.
    let dev = handle.device.as_mut().unwrap();
    for p in sent {
        dev.deliver(3, p);
    }

    // Receive with buffer sizes that cut across the packet boundaries.
    let mut out: Vec<u8> = Vec::new();
    for size in [4usize, 1, 2, 5] {
        let mut buf = vec![0u8; size];
        match port.recv(&mut handle, &mut buf) {
            Ok(n) => out.extend_from_slice(&buf[..n]),
            Err(VirtioSerialError::NotReady) => break,
            Err(e) => panic!("unexpected error {:?}", e),
        }
    }
    assert_eq!(out, vec![1, 2, 3, 4, 5, 6, 7, 8, 9]);
}

#[test]
fn short_buffer_keeps_remainder_without_loss_or_duplication() {
    let mut handle = SerialDeviceHandle::with_device(SerialDevice::new());
    let mut port = VirtioSerialPort::new(1);
    port.open(&mut handle).unwrap();
    handle
        .device
        .as_mut()
        .unwrap()
        .deliver(1, vec![9, 8, 7, 6, 5, 4]);

    // A 2-byte buffer takes exactly 2 bytes; the remainder stays cached.
    let mut small = vec![0u8; 2];
    assert_eq!(port.recv(&mut handle, &mut small), Ok(2));
    assert_eq!(small, vec![9, 8]);
    assert_eq!(port.cached_chunks(), 1);

    // The next receive continues from the remainder: nothing lost, nothing twice.
    let mut rest = vec![0u8; 10];
    assert_eq!(port.recv(&mut handle, &mut rest), Ok(4));
    assert_eq!(&rest[..4], &[7, 6, 5, 4]);
    assert_eq!(port.cached_chunks(), 0);
}

#[test]
fn uninitialized_device_fails_every_operation_with_invalid_parameter() {
    let mut handle = SerialDeviceHandle::uninitialized();
    let mut port = VirtioSerialPort::new(7);

    assert_eq!(port.open(&mut handle), Err(VirtioSerialError::InvalidParameter));
    assert_eq!(port.close(&mut handle), Err(VirtioSerialError::InvalidParameter));
    assert_eq!(
        port.send_data(&mut handle, &[1, 2, 3]),
        Err(VirtioSerialError::InvalidParameter)
    );
    let mut buf = vec![0u8; 4];
    assert_eq!(
        port.recv(&mut handle, &mut buf),
        Err(VirtioSerialError::InvalidParameter)
    );

    // No side effects: the handle stays uninitialized, the buffer and the
    // cache stay untouched.
    assert!(handle.device.is_none());
    assert_eq!(buf, vec![0u8; 4]);
    assert_eq!(port.cached_chunks(), 0);
}

#[test]
fn not_ready_stays_distinct_at_every_adaptation_layer() {
    // Pure classification: pending exactly on not-ready, terminal otherwise.
    assert_eq!(poll_result(Ok(5)), TransportPoll::Ready(5));
    assert_eq!(
        poll_result(Err(VirtioSerialError::NotReady)),
        TransportPoll::Pending
    );
    assert_eq!(
        poll_result(Err(VirtioSerialError::Device)),
        TransportPoll::Failed(VirtioSerialError::Device)
    );
    assert_eq!(
        poll_result(Err(VirtioSerialError::InvalidParameter)),
        TransportPoll::Failed(VirtioSerialError::InvalidParameter)
    );

    // Stream layer: would-block exactly on not-ready.
    assert_eq!(stream_error(VirtioSerialError::NotReady), StreamError::WouldBlock);
    assert_eq!(stream_error(VirtioSerialError::Device), StreamError::Failed);
    assert_eq!(
        stream_error(VirtioSerialError::InvalidParameter),
        StreamError::Failed
    );

    // Protocol-engine layer: retry on not-ready, one generic code otherwise.
    assert_eq!(engine_send_io(Ok(8)), EngineIo::Done(8));
    assert_eq!(engine_send_io(Err(VirtioSerialError::NotReady)), EngineIo::Retry);
    assert_eq!(
        engine_send_io(Err(VirtioSerialError::Device)),
        EngineIo::Fail(ENGINE_SEND_FAIL)
    );
    assert_eq!(engine_recv_io(Err(VirtioSerialError::NotReady)), EngineIo::Retry);
    assert_eq!(
        engine_recv_io(Err(VirtioSerialError::InvalidParameter)),
        EngineIo::Fail(ENGINE_RECV_FAIL)
    );
}

#[test]
fn poll_operations_suspend_on_not_ready_and_fail_on_hard_errors() {
    // A full outbound queue makes a send poll pending, not failed.
    let mut dev = SerialDevice::new();
    dev.set_tx_ready(2, false);
    let mut handle = SerialDeviceHandle::with_device(dev);
    let mut port = VirtioSerialPort::new(2);
    port.open(&mut handle).unwrap();
    assert_eq!(port.poll_send(&mut handle, &[1, 2]), TransportPoll::Pending);

    // Nothing buffered makes a receive poll pending.
    let mut buf = vec![0u8; 4];
    assert_eq!(port.poll_recv(&mut handle, &mut buf), TransportPoll::Pending);

    // A ready queue completes the send poll.
    handle.device.as_mut().unwrap().set_tx_ready(2, true);
    assert_eq!(port.poll_send(&mut handle, &[1, 2]), TransportPoll::Ready(2));

    // An uninitialized device is a terminal failure, never pending.
    let mut bare = SerialDeviceHandle::uninitialized();
    assert_eq!(
        port.poll_send(&mut bare, &[1]),
        TransportPoll::Failed(VirtioSerialError::InvalidParameter)
    );
    assert_eq!(
        port.poll_recv(&mut bare, &mut buf),
        TransportPoll::Failed(VirtioSerialError::InvalidParameter)
    );
}

#[test]
fn send_on_full_queue_reports_not_ready_and_changes_nothing() {
    let mut dev = SerialDevice::new();
    dev.set_tx_ready(4, false);
    let mut handle = SerialDeviceHandle::with_device(dev);
    let port = VirtioSerialPort::new(4);
    port.open(&mut handle).unwrap();
    assert_eq!(
        port.send_data(&mut handle, &[1, 2, 3]),
        Err(VirtioSerialError::NotReady)
    );
    assert_eq!(sent_packets(&handle, 4), Vec::<Vec<u8>>::new());
}

#[test]
fn recv_with_nothing_buffered_reports_not_ready_not_zero_length() {
    let mut handle = SerialDeviceHandle::with_device(SerialDevice::new());
    let mut port = VirtioSerialPort::new(6);
    port.open(&mut handle).unwrap();
    let mut buf = vec![0u8; 8];
    assert_eq!(port.recv(&mut handle, &mut buf), Err(VirtioSerialError::NotReady));
    assert_eq!(buf, vec![0u8; 8]);
}

#[test]
fn open_close_claim_and_release_the_allocation() {
    let mut handle = SerialDeviceHandle::with_device(SerialDevice::new());
    let port = VirtioSerialPort::new(9);
    assert_eq!(port.open(&mut handle), Ok(()));
    let dev = handle.device.as_ref().unwrap();
    assert!(dev.ports.iter().any(|p| p.id == 9 && p.allocated));
    assert_eq!(port.close(&mut handle), Ok(()));
    let dev = handle.device.as_ref().unwrap();
    assert!(dev.ports.iter().any(|p| p.id == 9 && !p.allocated));
    // Closing again is accepted: the release is idempotent-safe.
    assert_eq!(port.close(&mut handle), Ok(()));
}

#[test]
fn end_to_end_scenario_six_then_four_bytes() {
    let mut handle = SerialDeviceHandle::with_device(SerialDevice::new());
    let mut port = VirtioSerialPort::new(11);
    port.open(&mut handle).unwrap();

    // Send 10 bytes out.
    assert_eq!(
        port.send_data(&mut handle, &[0, 1, 2, 3, 4, 5, 6, 7, 8, 9]),
        Ok(10)
    );

    // The device holds one 6-byte packet: after one dequeue it has no more.
    handle
        .device
        .as_mut()
        .unwrap()
        .deliver(11, vec![20, 21, 22, 23, 24, 25]);
    let mut buf = vec![0u8; 10];
    assert_eq!(port.recv(&mut handle, &mut buf), Ok(6));
    assert_eq!(&buf[..6], &[20, 21, 22, 23, 24, 25]);
    assert_eq!(port.cached_chunks(), 0);

    // The device then yields 4 more bytes; a 4-byte buffer takes them all.
    handle
        .device
        .as_mut()
        .unwrap()
        .deliver(11, vec![30, 31, 32, 33]);
    let mut buf2 = vec![0u8; 4];
    assert_eq!(port.recv(&mut handle, &mut buf2), Ok(4));
    assert_eq!(buf2, vec![30, 31, 32, 33]);
    assert_eq!(port.cached_chunks(), 0);
}

#[test]
fn empty_buffers_move_zero_bytes_and_lose_nothing() {
    let mut handle = SerialDeviceHandle::with_device(SerialDevice::new());
    let mut port = VirtioSerialPort::new(13);
    port.open(&mut handle).unwrap();

    // Sending nothing is accepted and accepted as zero bytes.
    assert_eq!(port.send_data(&mut handle, &[]), Ok(0));

    // Receiving into an empty buffer takes nothing and keeps the packet.
    handle.device.as_mut().unwrap().deliver(13, vec![1, 2, 3]);
    let mut empty: Vec<u8> = Vec::new();
    assert_eq!(port.recv(&mut handle, &mut empty), Ok(0));
    assert_eq!(port.cached_chunks(), 1);
    let mut buf = vec![0u8; 3];
    assert_eq!(port.recv(&mut handle, &mut buf), Ok(3));
    assert_eq!(buf, vec![1, 2, 3]);
}

#[test]
fn flush_has_nothing_to_do_and_succeeds() {
    let port = VirtioSerialPort::new(12);
    assert_eq!(port.flush(), Ok(()));
    assert_eq!(port.flush_all(), Ok(()));
}
