//! The closed registry of sample formats and the sample-type contract.
//!
//! A [`Format`] tag names the wire-level layout of one sample element.
//! Each tag has a fixed name and a fixed per-element byte size; the
//! sub-byte packed tags report the size of their smallest addressable
//! group.  The [`StreamSample`] trait is the compile-time mapping from a
//! byte-aligned host element type to the one tag whose wire layout the
//! type matches; sub-byte tags deliberately have no such host type.

use vstd::prelude::*;
use crate::args::str_eq;

verus! {

/// Data format of samples.
#[derive(Copy, Clone, Eq, PartialEq, Structural, Debug, Hash)]
#[non_exhaustive]
pub enum Format {
    /// Complex 64-bit floats (complex double)
    CF64,
    /// Complex 32-bit floats (complex float)
    CF32,
    /// Complex signed 32-bit integers (complex int32)
    CS32,
    /// Complex unsigned 32-bit integers (complex uint32)
    CU32,
    /// Complex signed 16-bit integers (complex int16)
    CS16,
    /// Complex unsigned 16-bit integers (complex uint16)
    CU16,
    /// Complex signed 12-bit integers (3 bytes)
    CS12,
    /// Complex unsigned 12-bit integers (3 bytes)
    CU12,
    /// Complex signed 8-bit integers (complex int8)
    CS8,
    /// Complex unsigned 8-bit integers (complex uint8)
    CU8,
    /// Complex signed 4-bit integers (1 byte)
    CS4,
    /// Complex unsigned 4-bit integers (1 byte)
    CU4,
    /// Real 64-bit floats (double)
    F64,
    /// Real 32-bit floats (float)
    F32,
    /// Real signed 32-bit integers (int32)
    S32,
    /// Real unsigned 32-bit integers (uint32)
    U32,
    /// Real signed 16-bit integers (int16)
    S16,
    /// Real unsigned 16-bit integers (uint16)
    U16,
    /// Real signed 8-bit integers (int8)
    S8,
    /// Real unsigned 8-bit integers (uint8)
    U8,
}

/// The name of a format tag.
pub open spec fn format_name(f: Format) -> Seq<char> {
    match f {
        Format::CF64 => "CF64"@,
        Format::CF32 => "CF32"@,
        Format::CS32 => "CS32"@,
        Format::CU32 => "CU32"@,
        Format::CS16 => "CS16"@,
        Format::CU16 => "CU16"@,
        Format::CS12 => "CS12"@,
        Format::CU12 => "CU12"@,
        Format::CS8 => "CS8"@,
        Format::CU8 => "CU8"@,
        Format::CS4 => "CS4"@,
        Format::CU4 => "CU4"@,
        Format::F64 => "F64"@,
        Format::F32 => "F32"@,
        Format::S32 => "S32"@,
        Format::U32 => "U32"@,
        Format::S16 => "S16"@,
        Format::U16 => "U16"@,
        Format::S8 => "S8"@,
        Format::U8 => "U8"@,
    }
}

/// The per-element byte size of a format tag.
///
/// A complex tag counts both components, so a pair of 64-bit floats is 16
/// bytes and a pair of 16-bit integers is 4.  The sub-byte packed 12- and
/// 4-bit tags report the bytes of their smallest addressable group, not an
/// integral per-sample size, and have no host element type.
pub open spec fn format_size(f: Format) -> usize {
    match f {
        Format::CF64 => 16,
        Format::CF32 => 8,
        Format::CS32 => 8,
        Format::CU32 => 8,
        Format::CS16 => 4,
        Format::CU16 => 4,
        Format::CS12 => 3,
        Format::CU12 => 3,
        Format::CS8 => 2,
        Format::CU8 => 2,
        Format::CS4 => 1,
        Format::CU4 => 1,
        Format::F64 => 8,
        Format::F32 => 4,
        Format::S32 => 4,
        Format::U32 => 4,
        Format::S16 => 2,
        Format::U16 => 2,
        Format::S8 => 1,
        Format::U8 => 1,
    }
}

/// The format tag a name denotes, if any.
pub open spec fn parse_format(s: Seq<char>) -> Result<Format, ()> {
    if s == "CF64"@ {
        Ok(Format::CF64)
    } else if s == "CF32"@ {
        Ok(Format::CF32)
    } else if s == "CS32"@ {
        Ok(Format::CS32)
    } else if s == "CU32"@ {
        Ok(Format::CU32)
    } else if s == "CS16"@ {
        Ok(Format::CS16)
    } else if s == "CU16"@ {
        Ok(Format::CU16)
    } else if s == "CS12"@ {
        Ok(Format::CS12)
    } else if s == "CU12"@ {
        Ok(Format::CU12)
    } else if s == "CS8"@ {
        Ok(Format::CS8)
    } else if s == "CU8"@ {
        Ok(Format::CU8)
    } else if s == "CS4"@ {
        Ok(Format::CS4)
    } else if s == "CU4"@ {
        Ok(Format::CU4)
    } else if s == "F64"@ {
        Ok(Format::F64)
    } else if s == "F32"@ {
        Ok(Format::F32)
    } else if s == "S32"@ {
        Ok(Format::S32)
    } else if s == "U32"@ {
        Ok(Format::U32)
    } else if s == "S16"@ {
        Ok(Format::S16)
    } else if s == "U16"@ {
        Ok(Format::U16)
    } else if s == "S8"@ {
        Ok(Format::S8)
    } else if s == "U8"@ {
        Ok(Format::U8)
    } else {
        Err(())
    }
}

impl Format {
    /// Parse a format tag from its name.
    pub fn from_str(s: &str) -> (r: Result<Format, ()>)
        ensures
            r == parse_format(s@),
    {
        if str_eq(s, "CF64") {
            Ok(Format::CF64)
        } else if str_eq(s, "CF32") {
            Ok(Format::CF32)
        } else if str_eq(s, "CS32") {
            Ok(Format::CS32)
        } else if str_eq(s, "CU32") {
            Ok(Format::CU32)
        } else if str_eq(s, "CS16") {
            Ok(Format::CS16)
        } else if str_eq(s, "CU16") {
            Ok(Format::CU16)
        } else if str_eq(s, "CS12") {
            Ok(Format::CS12)
        } else if str_eq(s, "CU12") {
            Ok(Format::CU12)
        } else if str_eq(s, "CS8") {
            Ok(Format::CS8)
        } else if str_eq(s, "CU8") {
            Ok(Format::CU8)
        } else if str_eq(s, "CS4") {
            Ok(Format::CS4)
        } else if str_eq(s, "CU4") {
            Ok(Format::CU4)
        } else if str_eq(s, "F64") {
            Ok(Format::F64)
        } else if str_eq(s, "F32") {
            Ok(Format::F32)
        } else if str_eq(s, "S32") {
            Ok(Format::S32)
        } else if str_eq(s, "U32") {
            Ok(Format::U32)
        } else if str_eq(s, "S16") {
            Ok(Format::S16)
        } else if str_eq(s, "U16") {
            Ok(Format::U16)
        } else if str_eq(s, "S8") {
            Ok(Format::S8)
        } else if str_eq(s, "U8") {
            Ok(Format::U8)
        } else {
            Err(())
        }
    }

    /// Get the name of the format.
    pub fn as_str(&self) -> (r: &'static str)
        ensures
            r@ == format_name(*self),
    {
        match *self {
            Format::CF64 => "CF64",
            Format::CF32 => "CF32",
            Format::CS32 => "CS32",
            Format::CU32 => "CU32",
            Format::CS16 => "CS16",
            Format::CU16 => "CU16",
            Format::CS12 => "CS12",
            Format::CU12 => "CU12",
            Format::CS8 => "CS8",
            Format::CU8 => "CU8",
            Format::CS4 => "CS4",
            Format::CU4 => "CU4",
            Format::F64 => "F64",
            Format::F32 => "F32",
            Format::S32 => "S32",
            Format::U32 => "U32",
            Format::S16 => "S16",
            Format::U16 => "U16",
            Format::S8 => "S8",
            Format::U8 => "U8",
        }
    }

    /// Get the size of one sample element in this format, in bytes.
    pub fn size(&self) -> (r: usize)
        ensures
            r == format_size(*self),
    {
        match *self {
            Format::CF64 => 16,
            Format::CF32 => 8,
            Format::CS32 => 8,
            Format::CU32 => 8,
            Format::CS16 => 4,
            Format::CU16 => 4,
            Format::CS12 => 3,
            Format::CU12 => 3,
            Format::CS8 => 2,
            Format::CU8 => 2,
            Format::CS4 => 1,
            Format::CU4 => 1,
            Format::F64 => 8,
            Format::F32 => 4,
            Format::S32 => 4,
            Format::U32 => 4,
            Format::S16 => 2,
            Format::U16 => 2,
            Format::S8 => 1,
            Format::U8 => 1,
        }
    }
}

/// The format tags a list of names denotes, names that denote none
/// skipped.
pub open spec fn formats_of(names: Seq<Seq<char>>) -> Seq<Format>
    decreases names.len(),
{
    if names.len() == 0 {
        Seq::empty()
    } else {
        match parse_format(names[0]) {
            Ok(f) => seq![f] + formats_of(names.skip(1)),
            Err(_) => formats_of(names.skip(1)),
        }
    }
}

/// Parse a list of format names, as the driver reports the stream formats
/// a channel offers, keeping the tags whose names this registry knows.
pub fn parse_stream_formats(names: &Vec<String>) -> (r: Vec<Format>)
    ensures
        r@ == formats_of(names.deep_view()),
{
    let ghost views = names.deep_view();
    let n = names.len();
    let mut out: Vec<Format> = Vec::new();
    let mut i: usize = 0;
    proof {
        assert(views.skip(0) =~= views);
        assert(out@ + formats_of(views) =~= formats_of(views));
    }
    while i < n
        invariant
            n == names@.len(),
            views == names.deep_view(),
            i <= n,
            formats_of(views) == out@ + formats_of(views.skip(i as int)),
        decreases n - i,
    {
        proof {
            assert(views[i as int] == names@[i as int]@);
            assert(views.skip(i as int)[0] == views[i as int]);
            assert(views.skip(i as int).skip(1) =~= views.skip(i as int + 1));
        }
        let ghost prev = out@;
        match Format::from_str(names[i].as_str()) {
            Ok(f) => {
                out.push(f);
                proof {
                    assert(prev + (seq![f] + formats_of(views.skip(i as int + 1))) =~= out@
                        + formats_of(views.skip(i as int + 1)));
                }
            },
            Err(_) => {},
        }
        i += 1;
    }
    proof {
        assert(views.skip(n as int) =~= Seq::<Seq<char>>::empty());
        assert(out@ + Seq::<Format>::empty() =~= out@);
    }
    out
}

/// A complex sample value of the foreign numeric library, a pair of a real
/// and an imaginary component.  Declared so that the sample-type contract
/// below can bind the complex host element types to their format tags.
#[verifier::external_type_specification]
#[verifier::external_body]
#[verifier::reject_recursive_types(T)]
pub struct ExComplex<T>(num_complex::Complex<T>);

/// The sample-type contract: binds one byte-aligned host element type to
/// the one format tag whose wire layout (size, alignment and component
/// order) the type matches.
///
/// Sub-byte packed tags and float tags this library cannot hold have no
/// implementation here.
pub trait StreamSample: Sized {
    /// The format tag this host element type is bound to.
    spec fn spec_format() -> Format;

    /// The format tag passed to stream setup for this element type.
    fn stream_format() -> (f: Format)
        ensures
            f == Self::spec_format(),
    ;
}

impl StreamSample for u8 {
    open spec fn spec_format() -> Format {
        Format::U8
    }

    fn stream_format() -> Format {
        Format::U8
    }
}

impl StreamSample for u16 {
    open spec fn spec_format() -> Format {
        Format::U16
    }

    fn stream_format() -> Format {
        Format::U16
    }
}

impl StreamSample for u32 {
    open spec fn spec_format() -> Format {
        Format::U32
    }

    fn stream_format() -> Format {
        Format::U32
    }
}

impl StreamSample for i8 {
    open spec fn spec_format() -> Format {
        Format::S8
    }

    fn stream_format() -> Format {
        Format::S8
    }
}

impl StreamSample for i16 {
    open spec fn spec_format() -> Format {
        Format::S16
    }

    fn stream_format() -> Format {
        Format::S16
    }
}

impl StreamSample for i32 {
    open spec fn spec_format() -> Format {
        Format::S32
    }

    fn stream_format() -> Format {
        Format::S32
    }
}

impl StreamSample for num_complex::Complex<u8> {
    open spec fn spec_format() -> Format {
        Format::CU8
    }

    fn stream_format() -> Format {
        Format::CU8
    }
}

impl StreamSample for num_complex::Complex<u16> {
    open spec fn spec_format() -> Format {
        Format::CU16
    }

    fn stream_format() -> Format {
        Format::CU16
    }
}

impl StreamSample for num_complex::Complex<u32> {
    open spec fn spec_format() -> Format {
        Format::CU32
    }

    fn stream_format() -> Format {
        Format::CU32
    }
}

impl StreamSample for num_complex::Complex<i8> {
    open spec fn spec_format() -> Format {
        Format::CS8
    }

    fn stream_format() -> Format {
        Format::CS8
    }
}

impl StreamSample for num_complex::Complex<i16> {
    open spec fn spec_format() -> Format {
        Format::CS16
    }

    fn stream_format() -> Format {
        Format::CS16
    }
}

impl StreamSample for num_complex::Complex<i32> {
    open spec fn spec_format() -> Format {
        Format::CS32
    }

    fn stream_format() -> Format {
        Format::CS32
    }
}

} // verus!
