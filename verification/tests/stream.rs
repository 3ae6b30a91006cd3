use soapysdr::{
    Device, DriverReply, ErrorCode, ReadReply, StreamCall, FLAG_END_BURST, FLAG_HAS_TIME,
};

fn ok_reply() -> DriverReply {
    DriverReply { code: 0, message: String::new() }
}

fn err_reply(code: i32, message: &str) -> DriverReply {
    DriverReply { code, message: message.to_string() }
}

#[test]
fn activate_twice_fails_and_stays_active() {
    let dev = Device::null_device();
    let mut rx = dev.rx_stream::<i16>(&[0]).unwrap();
    rx.activate(None, ok_reply()).unwrap();
    assert!(rx.active);
    let second = rx.activate(None, ok_reply());
    let e = second.unwrap_err();
    assert_eq!(e.code, ErrorCode::Other);
    assert_eq!(e.message, "stream is already active");
    assert!(rx.active);
    assert_eq!(rx.calls.len(), 1);
}

#[test]
fn deactivate_before_activate_fails_and_leaves_stream_unchanged() {
    let dev = Device::null_device();
    let mut rx = dev.rx_stream::<i16>(&[0]).unwrap();
    let r = rx.deactivate(None, ok_reply());
    let e = r.unwrap_err();
    assert_eq!(e.code, ErrorCode::Other);
    assert_eq!(e.message, "stream is not active");
    assert!(!rx.active);
    assert!(rx.calls.is_empty());
}

#[test]
fn activate_passes_time_flag_only_with_a_time() {
    let dev = Device::null_device();
    let mut tx = dev.tx_stream::<i16>(&[0]).unwrap();
    tx.activate(Some(1_000), ok_reply()).unwrap();
    assert_eq!(tx.calls[0], StreamCall::Activate { flags: FLAG_HAS_TIME, time_ns: 1_000 });
    tx.deactivate(None, ok_reply()).unwrap();
    assert_eq!(tx.calls[1], StreamCall::Deactivate { flags: 0, time_ns: 0 });
}

#[test]
fn activate_failure_reports_translated_code() {
    let dev = Device::null_device();
    let mut rx = dev.rx_stream::<i16>(&[0]).unwrap();
    let e = rx.activate(None, err_reply(-5, "unsupported")).unwrap_err();
    assert_eq!(e.code, ErrorCode::NotSupported);
    assert_eq!(e.message, "unsupported");
    assert!(!rx.active);
    assert_eq!(rx.calls.len(), 1);
}

#[test]
fn read_returns_count_and_records_flags_and_time() {
    let dev = Device::null_device();
    let mut rx = dev.rx_stream::<i16>(&[0]).unwrap();
    rx.activate(None, ok_reply()).unwrap();
    let mut buffers = vec![vec![0i16; 10]];
    let reply = ReadReply { code: 4, flags: 8, time_ns: 99, message: String::new() };
    let n = rx.read(&mut buffers, 1_000_000, reply).unwrap();
    assert_eq!(n, 4);
    assert_eq!(rx.flags, 8);
    assert_eq!(rx.time_ns, 99);
    assert_eq!(rx.calls[1], StreamCall::Read { num_elems: 10, timeout_us: 1_000_000, code: 4 });
}

#[test]
fn read_requests_the_least_buffer_length_and_clamps() {
    let dev = Device::null_device();
    let mut rx = dev.rx_stream::<u8>(&[0, 1]).unwrap();
    let mut buffers = vec![vec![0u8; 5], vec![0u8; 3]];
    let reply = ReadReply { code: 50, flags: 0, time_ns: 0, message: String::new() };
    let n = rx.read(&mut buffers, 100, reply).unwrap();
    assert_eq!(n, 3);
    assert_eq!(rx.calls[0], StreamCall::Read { num_elems: 3, timeout_us: 100, code: 50 });
}

#[test]
fn read_error_is_translated() {
    let dev = Device::null_device();
    let mut rx = dev.rx_stream::<i16>(&[0]).unwrap();
    let mut buffers = vec![vec![0i16; 8]];
    let reply = ReadReply { code: -4, flags: 0, time_ns: 0, message: "ring full".to_string() };
    let e = rx.read(&mut buffers, 100, reply).unwrap_err();
    assert_eq!(e.code, ErrorCode::Overflow);
    assert_eq!(e.message, "ring full");
}

#[test]
fn write_builds_flags_from_time_and_burst() {
    let dev = Device::null_device();
    let mut tx = dev.tx_stream::<i16>(&[0]).unwrap();
    let buffers = vec![vec![0i16; 8]];
    let n = tx.write(&buffers, Some(5), true, 200, err_reply(8, "")).unwrap();
    assert_eq!(n, 8);
    assert_eq!(
        tx.calls[0],
        StreamCall::Write {
            num_elems: 8,
            flags: FLAG_HAS_TIME + FLAG_END_BURST,
            time_ns: 5,
            timeout_us: 200,
            code: 8,
        }
    );
}

#[test]
fn write_short_count_is_not_an_error() {
    let dev = Device::null_device();
    let mut tx = dev.tx_stream::<i16>(&[0]).unwrap();
    let buffers = vec![vec![0i16; 8]];
    let n = tx.write(&buffers, None, false, 200, err_reply(3, "")).unwrap();
    assert_eq!(n, 3);
}

#[test]
fn write_error_is_translated() {
    let dev = Device::null_device();
    let mut tx = dev.tx_stream::<i16>(&[0]).unwrap();
    let buffers = vec![vec![0i16; 8]];
    let e = tx.write(&buffers, None, false, 200, err_reply(-7, "drained")).unwrap_err();
    assert_eq!(e.code, ErrorCode::Underflow);
    assert_eq!(e.message, "drained");
}

#[test]
fn write_all_in_chunks_consumes_whole_buffer_with_time_on_first_call_only() {
    let dev = Device::null_device();
    let mut tx = dev.tx_stream::<i16>(&[0, 1]).unwrap();
    let buffers = vec![vec![0i16; 8], vec![1i16; 8]];
    let replies = vec![err_reply(3, ""), err_reply(5, "")];
    tx.write_all(&buffers, Some(777), false, 50, &replies).unwrap();
    assert_eq!(tx.calls.len(), 2);
    assert_eq!(
        tx.calls[0],
        StreamCall::Write { num_elems: 8, flags: FLAG_HAS_TIME, time_ns: 777, timeout_us: 50, code: 3 }
    );
    assert_eq!(
        tx.calls[1],
        StreamCall::Write { num_elems: 5, flags: 0, time_ns: 0, timeout_us: 50, code: 5 }
    );
    let accepted: usize = tx
        .calls
        .iter()
        .map(|c| match c {
            StreamCall::Write { num_elems, code, .. } => (*code as usize).min(*num_elems),
            _ => 0,
        })
        .sum();
    assert_eq!(accepted, 8);
}

#[test]
fn write_all_stops_at_a_driver_error() {
    let dev = Device::null_device();
    let mut tx = dev.tx_stream::<i16>(&[0]).unwrap();
    let buffers = vec![vec![0i16; 8]];
    let replies = vec![err_reply(3, ""), err_reply(-1, "late")];
    let e = tx.write_all(&buffers, None, false, 50, &replies).unwrap_err();
    assert_eq!(e.code, ErrorCode::Timeout);
    assert_eq!(e.message, "late");
    assert_eq!(tx.calls.len(), 2);
}

#[test]
fn write_all_fails_when_replies_run_out() {
    let dev = Device::null_device();
    let mut tx = dev.tx_stream::<i16>(&[0]).unwrap();
    let buffers = vec![vec![0i16; 8]];
    let replies = vec![err_reply(3, "")];
    let e = tx.write_all(&buffers, None, false, 50, &replies).unwrap_err();
    assert_eq!(e.code, ErrorCode::Other);
    assert_eq!(e.message, "transfer reply list exhausted");
}

#[test]
fn write_all_of_empty_buffers_issues_no_calls() {
    let dev = Device::null_device();
    let mut tx = dev.tx_stream::<i16>(&[0]).unwrap();
    let buffers = vec![vec![0i16; 0]];
    tx.write_all(&buffers, Some(1), true, 50, &Vec::new()).unwrap();
    assert!(tx.calls.is_empty());
}

#[test]
fn closing_an_active_stream_deactivates_once_then_closes_once() {
    let dev = Device::null_device();
    let mut rx = dev.rx_stream::<i16>(&[0]).unwrap();
    rx.activate(None, ok_reply()).unwrap();
    rx.close();
    assert!(rx.closed);
    assert!(!rx.active);
    assert_eq!(rx.calls.len(), 3);
    assert_eq!(rx.calls[1], StreamCall::Deactivate { flags: 0, time_ns: 0 });
    assert_eq!(rx.calls[2], StreamCall::Close);
}

#[test]
fn closing_an_inactive_stream_closes_without_deactivating() {
    let dev = Device::null_device();
    let mut tx = dev.tx_stream::<i16>(&[0]).unwrap();
    tx.close();
    assert!(tx.closed);
    assert_eq!(tx.calls.len(), 1);
    assert_eq!(tx.calls[0], StreamCall::Close);
}
