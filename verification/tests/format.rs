use num_complex::Complex;
use soapysdr::{parse_stream_formats, Format, StreamSample};

#[test]
fn sizes_of_common_formats() {
    assert_eq!(Format::F32.size(), 4);
    assert_eq!(Format::CF32.size(), 8);
    assert_eq!(Format::S8.size(), 1);
    assert_eq!(Format::CS16.size(), 4);
}

#[test]
fn sizes_of_remaining_formats() {
    assert_eq!(Format::CF64.size(), 16);
    assert_eq!(Format::CS32.size(), 8);
    assert_eq!(Format::CU32.size(), 8);
    assert_eq!(Format::CU16.size(), 4);
    assert_eq!(Format::CS12.size(), 3);
    assert_eq!(Format::CU12.size(), 3);
    assert_eq!(Format::CS8.size(), 2);
    assert_eq!(Format::CU8.size(), 2);
    assert_eq!(Format::CS4.size(), 1);
    assert_eq!(Format::CU4.size(), 1);
    assert_eq!(Format::F64.size(), 8);
    assert_eq!(Format::S32.size(), 4);
    assert_eq!(Format::U32.size(), 4);
    assert_eq!(Format::S16.size(), 2);
    assert_eq!(Format::U16.size(), 2);
    assert_eq!(Format::U8.size(), 1);
}

#[test]
fn names_round_trip_through_from_str() {
    let all = [
        Format::CF64,
        Format::CF32,
        Format::CS32,
        Format::CU32,
        Format::CS16,
        Format::CU16,
        Format::CS12,
        Format::CU12,
        Format::CS8,
        Format::CU8,
        Format::CS4,
        Format::CU4,
        Format::F64,
        Format::F32,
        Format::S32,
        Format::U32,
        Format::S16,
        Format::U16,
        Format::S8,
        Format::U8,
    ];
    for f in all {
        assert_eq!(Format::from_str(f.as_str()), Ok(f));
    }
}

#[test]
fn as_str_gives_the_tag_name() {
    assert_eq!(Format::CF32.as_str(), "CF32");
    assert_eq!(Format::U8.as_str(), "U8");
    assert_eq!(Format::CS12.as_str(), "CS12");
}

#[test]
fn from_str_rejects_unknown_names() {
    assert_eq!(Format::from_str(""), Err(()));
    assert_eq!(Format::from_str("CF33"), Err(()));
    assert_eq!(Format::from_str("cf32"), Err(()));
    assert_eq!(Format::from_str("CF32 "), Err(()));
}

#[test]
fn parse_stream_formats_keeps_known_names() {
    let names = vec![
        "CF32".to_string(),
        "bogus".to_string(),
        "S8".to_string(),
        "".to_string(),
        "CS16".to_string(),
    ];
    let formats = parse_stream_formats(&names);
    assert_eq!(formats, vec![Format::CF32, Format::S8, Format::CS16]);
}

#[test]
fn real_element_types_bind_to_their_formats() {
    assert_eq!(<u8 as StreamSample>::stream_format(), Format::U8);
    assert_eq!(<u16 as StreamSample>::stream_format(), Format::U16);
    assert_eq!(<u32 as StreamSample>::stream_format(), Format::U32);
    assert_eq!(<i8 as StreamSample>::stream_format(), Format::S8);
    assert_eq!(<i16 as StreamSample>::stream_format(), Format::S16);
    assert_eq!(<i32 as StreamSample>::stream_format(), Format::S32);
}

#[test]
fn complex_element_types_bind_to_their_formats() {
    assert_eq!(<Complex<u8> as StreamSample>::stream_format(), Format::CU8);
    assert_eq!(<Complex<u16> as StreamSample>::stream_format(), Format::CU16);
    assert_eq!(<Complex<u32> as StreamSample>::stream_format(), Format::CU32);
    assert_eq!(<Complex<i8> as StreamSample>::stream_format(), Format::CS8);
    assert_eq!(<Complex<i16> as StreamSample>::stream_format(), Format::CS16);
    assert_eq!(<Complex<i32> as StreamSample>::stream_format(), Format::CS32);
}
