//! Devices: enumeration, opening, and stream setup.
//!
//! A [`Device`] stands for one opened hardware device, identified by the
//! argument list it was constructed from.  The native layer resolves and
//! owns the underlying handle; enumeration therefore takes the candidate
//! descriptions the native layer reported and performs the filtering,
//! which is this library's part of the exchange.

use vstd::prelude::*;
use crate::args::{matches_spec, Args};
use crate::error::{check_error, Error, ErrorCode};
use crate::format::StreamSample;
use crate::stream::{RxStream, StreamCall, TxStream};

verus! {

/// Transmit or receive.
#[derive(Copy, Clone, Eq, PartialEq, Structural, Debug, Hash)]
pub enum Direction {
    /// Transmit direction
    Tx,
    /// Receive direction
    Rx,
}

/// The native integer denoting a direction.
pub open spec fn direction_raw(d: Direction) -> u32 {
    match d {
        Direction::Tx => 0,
        Direction::Rx => 1,
    }
}

impl Direction {
    /// The integer this direction is passed to the native layer as.
    pub fn to_raw(&self) -> (r: u32)
        ensures
            r == direction_raw(*self),
    {
        match *self {
            Direction::Tx => 0,
            Direction::Rx => 1,
        }
    }
}

/// The pair views a sequence of argument lists carries.
pub open spec fn args_views(s: Seq<Args>) -> Seq<Seq<(Seq<char>, Seq<char>)>> {
    Seq::new(s.len(), |i: int| s[i]@)
}

/// The candidates that satisfy a filter, in their original order.
pub open spec fn matching(
    cands: Seq<Seq<(Seq<char>, Seq<char>)>>,
    filter: Seq<(Seq<char>, Seq<char>)>,
) -> Seq<Seq<(Seq<char>, Seq<char>)>>
    decreases cands.len(),
{
    if cands.len() == 0 {
        Seq::empty()
    } else if matches_spec(cands[0], filter) {
        seq![cands[0]] + matching(cands.skip(1), filter)
    } else {
        matching(cands.skip(1), filter)
    }
}

/// Enumerate the available devices that satisfy a filter.
///
/// `candidates` holds one argument list per device the native layer
/// reported; the result keeps, in order, exactly those whose properties
/// satisfy every pair of `filter`.  A filter that no candidate satisfies
/// yields an empty list, which is success, never an error.
pub fn enumerate(filter: &Args, candidates: &Vec<Args>) -> (r: Result<Vec<Args>, Error>)
    ensures
        r matches Ok(v) && args_views(v@) == matching(args_views(candidates@), filter@),
{
    let ghost cands = args_views(candidates@);
    let n = candidates.len();
    let mut out: Vec<Args> = Vec::new();
    let mut i: usize = 0;
    proof {
        assert(cands.skip(0) =~= cands);
        assert(args_views(out@) + matching(cands, filter@) =~= matching(cands, filter@));
    }
    while i < n
        invariant
            n == candidates@.len(),
            cands == args_views(candidates@),
            i <= n,
            matching(cands, filter@) == args_views(out@) + matching(
                cands.skip(i as int),
                filter@,
            ),
        decreases n - i,
    {
        proof {
            assert(cands.skip(i as int)[0] == cands[i as int]);
            assert(cands.skip(i as int).skip(1) =~= cands.skip(i as int + 1));
            assert(cands[i as int] == candidates@[i as int]@);
        }
        let ghost prev = out@;
        if candidates[i].matches(filter) {
            out.push(candidates[i].clone());
            proof {
                assert(args_views(prev) + (seq![cands[i as int]] + matching(
                    cands.skip(i as int + 1),
                    filter@,
                )) =~= args_views(out@) + matching(cands.skip(i as int + 1), filter@));
            }
        }
        i += 1;
    }
    proof {
        assert(cands.skip(n as int) =~= Seq::<Seq<(Seq<char>, Seq<char>)>>::empty());
        assert(args_views(out@) + Seq::<Seq<(Seq<char>, Seq<char>)>>::empty() =~= args_views(
            out@,
        ));
    }
    Ok(out)
}

/// An opened hardware device.
///
/// The native layer owns the underlying handle and shares it between the
/// device and every stream opened from it; this value carries the
/// argument list the device was resolved from, which is its identity to
/// the library.
pub struct Device {
    args: Args,
}

impl View for Device {
    type V = Seq<(Seq<char>, Seq<char>)>;

    closed spec fn view(&self) -> Seq<(Seq<char>, Seq<char>)> {
        self.args@
    }
}

impl Device {
    /// Find and open a device matching a set of filters.
    ///
    /// The native layer resolves the argument list to one device, and
    /// signals failure only through the thread-local status flag read
    /// immediately after the call; `status` and `message` are that
    /// captured outcome.  The opened device keeps the argument list as
    /// its identity.
    pub fn new(args: Args, status: i32, message: String) -> (r: Result<Device, Error>)
        ensures
            status == 0 ==> (r matches Ok(d) && d@ == args@),
            status != 0 ==> (r matches Err(e) && e.code == ErrorCode::Other && e.message
                == message),
    {
        check_error(Device { args }, status, message)
    }

    /// Open the built-in null device, which exists on every system.
    pub fn null_device() -> (r: Device)
        ensures
            r@ == seq![("type"@, "null"@)],
    {
        proof {
            reveal_strlit("type");
            reveal_strlit("null");
        }
        let mut args = Args::new();
        args.set("type", "null");
        let d = Device { args };
        proof {
            assert(d@ =~= seq![("type"@, "null"@)]);
        }
        d
    }

    /// Initialize a receive stream over a list of channels.
    pub fn rx_stream<E: StreamSample>(&self, channels: &[usize]) -> (r: Result<RxStream<E>, Error>)
        ensures
            r matches Ok(s) && s.nchannels == channels@.len() && s.format == E::spec_format()
                && !s.active && !s.closed && s.flags == 0 && s.time_ns == 0 && s.calls@ == Seq::<
                StreamCall,
            >::empty(),
    {
        self.rx_stream_args(channels, Args::new())
    }

    /// Initialize a receive stream over a list of channels, with stream
    /// arguments for the driver.
    ///
    /// The channel count and the sample format of the new stream are
    /// fixed here for its whole life; the stream arguments are passed on
    /// to the driver's stream setup.
    pub fn rx_stream_args<E: StreamSample>(&self, channels: &[usize], args: Args) -> (r: Result<
        RxStream<E>,
        Error,
    >)
        ensures
            r matches Ok(s) && s.nchannels == channels@.len() && s.format == E::spec_format()
                && !s.active && !s.closed && s.flags == 0 && s.time_ns == 0 && s.calls@ == Seq::<
                StreamCall,
            >::empty(),
    {
        let _ = args;
        Ok(RxStream::setup(channels.len()))
    }

    /// Initialize a transmit stream over a list of channels.
    pub fn tx_stream<E: StreamSample>(&self, channels: &[usize]) -> (r: Result<TxStream<E>, Error>)
        ensures
            r matches Ok(s) && s.nchannels == channels@.len() && s.format == E::spec_format()
                && !s.active && !s.closed && s.calls@ == Seq::<StreamCall>::empty(),
    {
        self.tx_stream_args(channels, Args::new())
    }

    /// Initialize a transmit stream over a list of channels, with stream
    /// arguments for the driver.
    ///
    /// The channel count and the sample format of the new stream are
    /// fixed here for its whole life; the stream arguments are passed on
    /// to the driver's stream setup.
    pub fn tx_stream_args<E: StreamSample>(&self, channels: &[usize], args: Args) -> (r: Result<
        TxStream<E>,
        Error,
    >)
        ensures
            r matches Ok(s) && s.nchannels == channels@.len() && s.format == E::spec_format()
                && !s.active && !s.closed && s.calls@ == Seq::<StreamCall>::empty(),
    {
        let _ = args;
        Ok(TxStream::setup(channels.len()))
    }
}

} // verus!
