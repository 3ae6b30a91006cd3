use num_complex::Complex;
use soapysdr::{
    check_error, check_ret_error, enumerate, len_result, ArgInfo, ArgType, Args, Device,
    Direction, ErrorCode, Format,
};

#[test]
fn enumerate_with_no_matching_device_is_ok_and_empty() {
    let filter = Args::parse("driver=lime");
    let none: Vec<Args> = Vec::new();
    let found = enumerate(&filter, &none).unwrap();
    assert!(found.is_empty());

    let candidates = vec![Args::parse("driver=rtlsdr"), Args::parse("driver=airspy")];
    let found = enumerate(&filter, &candidates).unwrap();
    assert!(found.is_empty());
}

#[test]
fn enumerate_keeps_matching_candidates_in_order() {
    let candidates = vec![
        Args::parse("driver=lime, serial=1"),
        Args::parse("driver=rtlsdr, serial=2"),
        Args::parse("driver=lime, serial=3"),
    ];
    let found = enumerate(&Args::parse("driver=lime"), &candidates).unwrap();
    assert_eq!(found.len(), 2);
    assert_eq!(found[0].get("serial"), Some("1"));
    assert_eq!(found[1].get("serial"), Some("3"));
}

#[test]
fn enumerate_with_empty_filter_keeps_everything() {
    let candidates = vec![Args::parse("driver=lime"), Args::parse("driver=rtlsdr")];
    let found = enumerate(&Args::new(), &candidates).unwrap();
    assert_eq!(found.len(), 2);
}

#[test]
fn device_opens_from_args_when_the_driver_succeeds() {
    let args = Args::parse("driver=lime");
    assert!(Device::new(args, 0, String::new()).is_ok());
}

#[test]
fn device_open_failure_is_translated() {
    let args = Args::parse("driver=lime");
    let e = match Device::new(args, 1, "no such device".to_string()) {
        Ok(_) => panic!("opening must fail when the driver reports a status"),
        Err(e) => e,
    };
    assert_eq!(e.code, ErrorCode::Other);
    assert_eq!(e.message, "no such device");
}

#[test]
fn streams_start_created_with_their_channel_count_and_format() {
    let dev = Device::null_device();
    let rx = dev.rx_stream::<u8>(&[0]).unwrap();
    assert_eq!(rx.nchannels, 1);
    assert_eq!(rx.format, Format::U8);
    assert!(!rx.active);
    assert!(!rx.closed);
    assert!(rx.calls.is_empty());

    let tx = dev.tx_stream::<Complex<i16>>(&[0, 1]).unwrap();
    assert_eq!(tx.nchannels, 2);
    assert_eq!(tx.format, Format::CS16);
    assert!(!tx.active);
    assert!(tx.calls.is_empty());
}

#[test]
fn directions_map_to_their_native_integers() {
    assert_eq!(Direction::Tx.to_raw(), 0);
    assert_eq!(Direction::Rx.to_raw(), 1);
    assert_eq!(Direction::Rx, Direction::Rx);
    assert_ne!(Direction::Rx, Direction::Tx);
}

#[test]
fn error_codes_translate_from_native_returns() {
    assert_eq!(ErrorCode::from_code(-1), ErrorCode::Timeout);
    assert_eq!(ErrorCode::from_code(-2), ErrorCode::StreamError);
    assert_eq!(ErrorCode::from_code(-3), ErrorCode::Corruption);
    assert_eq!(ErrorCode::from_code(-4), ErrorCode::Overflow);
    assert_eq!(ErrorCode::from_code(-5), ErrorCode::NotSupported);
    assert_eq!(ErrorCode::from_code(-6), ErrorCode::TimeError);
    assert_eq!(ErrorCode::from_code(-7), ErrorCode::Underflow);
    assert_eq!(ErrorCode::from_code(0), ErrorCode::Other);
    assert_eq!(ErrorCode::from_code(-8), ErrorCode::Other);
    assert_eq!(ErrorCode::from_code(17), ErrorCode::Other);
}

#[test]
fn check_error_reads_the_status_flag() {
    assert_eq!(check_error(7u32, 0, String::new()).unwrap(), 7);
    let e = check_error(7u32, 1, "bad antenna".to_string()).unwrap_err();
    assert_eq!(e.code, ErrorCode::Other);
    assert_eq!(e.message, "bad antenna");
}

#[test]
fn check_ret_error_translates_the_code() {
    assert!(check_ret_error(0, String::new()).is_ok());
    let e = check_ret_error(-6, "too late".to_string()).unwrap_err();
    assert_eq!(e.code, ErrorCode::TimeError);
    assert_eq!(e.message, "too late");
}

#[test]
fn len_result_translates_counts_and_errors() {
    assert_eq!(len_result(42, String::new()).unwrap(), 42);
    assert_eq!(len_result(0, String::new()).unwrap(), 0);
    let e = len_result(-1, "timed out".to_string()).unwrap_err();
    assert_eq!(e.code, ErrorCode::Timeout);
    assert_eq!(e.message, "timed out");
}

#[test]
fn arg_info_zips_options_and_translates_the_type_tag() {
    let values = vec!["a".to_string(), "b".to_string()];
    let names = vec![Some("Alpha".to_string()), None];
    let info = ArgInfo::from_parts(
        "antenna".to_string(),
        "a".to_string(),
        Some("Antenna".to_string()),
        None,
        None,
        3,
        &values,
        &names,
    );
    assert_eq!(info.key, "antenna");
    assert_eq!(info.value, "a");
    assert_eq!(info.name.as_deref(), Some("Antenna"));
    assert_eq!(info.description, None);
    assert_eq!(info.units, None);
    assert_eq!(info.data_type, ArgType::String);
    assert_eq!(info.options.len(), 2);
    assert_eq!(info.options[0], ("a".to_string(), Some("Alpha".to_string())));
    assert_eq!(info.options[1], ("b".to_string(), None));
}

#[test]
fn arg_type_tags_translate_with_a_fallback() {
    assert_eq!(ArgType::from_tag(0), ArgType::Bool);
    assert_eq!(ArgType::from_tag(1), ArgType::Int);
    assert_eq!(ArgType::from_tag(2), ArgType::Float);
    assert_eq!(ArgType::from_tag(3), ArgType::String);
    assert_eq!(ArgType::from_tag(4), ArgType::__Nonexhaustive);
    assert_eq!(ArgType::from_tag(250), ArgType::__Nonexhaustive);
}
