//! Stream sessions: the activation state machine and the buffer-transfer
//! protocol.
//!
//! A stream is a session bound to a fixed channel set and a fixed sample
//! format.  It is `Created` when set up, becomes `Active` through
//! [`RxStream::activate`] or [`TxStream::activate`], returns to `Created`
//! through `deactivate`, and ends `Closed` through `close`, which tears
//! the session down.
//!
//! The native driver runs outside this library, so every operation that
//! needs the driver's answer takes that answer as an explicit reply value
//! ([`DriverReply`], [`ReadReply`]), and each stream records the driver
//! calls it issues, with their transfer results, in a transcript of
//! [`StreamCall`] entries.  The session logic is thereby verified for
//! every possible driver behaviour, and the transcript pins down exactly
//! which calls a session issued and in what order.

use vstd::prelude::*;
use core::marker::PhantomData;
use crate::error::{check_ret_error, error_code_of, len_result, Error, ErrorCode};
use crate::format::{Format, StreamSample};

verus! {

/// The stream-flag bit marking the final chunk of a burst.
pub const FLAG_END_BURST: i32 = 2;

/// The stream-flag bit telling the driver that the call carries a
/// timestamp.
pub const FLAG_HAS_TIME: i32 = 4;

/// What the driver returned for one call: the return code, and the
/// thread-local error message captured immediately after the call, before
/// any other native call could overwrite it.
#[derive(Clone, Debug)]
pub struct DriverReply {
    /// The native return code: zero or a transferred count on success, an
    /// error code otherwise.
    pub code: i32,
    /// The per-call error message recorded by the driver.
    pub message: String,
}

/// What the driver returned for one receive call: the return code, the
/// two out-parameters, and the thread-local error message captured
/// immediately after the call.
#[derive(Clone, Debug)]
pub struct ReadReply {
    /// The native return code: the received count on success, an error
    /// code otherwise.
    pub code: i32,
    /// The status flags the driver wrote, such as overflow or fragment
    /// indicators, and whether a timestamp was attached.
    pub flags: i32,
    /// The timestamp the driver attached to the transfer, if any.
    pub time_ns: i64,
    /// The per-call error message recorded by the driver.
    pub message: String,
}

/// One native call a stream session issued, as recorded in the session's
/// transcript, together with the driver's raw return code for the
/// transfer calls.
#[derive(Copy, Clone, PartialEq, Eq, Structural, Debug)]
pub enum StreamCall {
    /// Stream activation, with the flags and start time passed.
    Activate { flags: i32, time_ns: i64 },
    /// Stream deactivation, with the flags and stop time passed.
    Deactivate { flags: i32, time_ns: i64 },
    /// One receive call: the element count requested, the timeout, and
    /// the driver's return code.
    Read { num_elems: usize, timeout_us: i64, code: i32 },
    /// One transmit call: the element count offered, the flags and
    /// timestamp passed, the timeout, and the driver's return code.
    Write { num_elems: usize, flags: i32, time_ns: i64, timeout_us: i64, code: i32 },
    /// The final close of the native stream handle.
    Close,
}

/// The flags word of an activation or deactivation call: the has-time bit
/// exactly when a time was supplied.
pub open spec fn time_flags(time_ns: Option<i64>) -> i32 {
    if time_ns is Some {
        FLAG_HAS_TIME
    } else {
        0
    }
}

/// The flags word of a transmit call: the has-time bit when a timestamp
/// is supplied and the end-burst bit when the chunk ends a burst.
pub open spec fn burst_flags(has_time: bool, end_burst: bool) -> i32 {
    ((if has_time {
        FLAG_HAS_TIME as int
    } else {
        0
    }) + (if end_burst {
        FLAG_END_BURST as int
    } else {
        0
    })) as i32
}

/// The time passed to the driver: the supplied time, or zero when none
/// was supplied.
pub open spec fn time_or_zero(t: Option<i64>) -> i64 {
    match t {
        Some(v) => v,
        None => 0,
    }
}

/// The element count a transfer yields: the driver's non-negative return
/// code, clamped to the count that was requested.
pub open spec fn clamped(code: i32, requested: int) -> int {
    if code as int <= requested {
        code as int
    } else {
        requested
    }
}

/// The least element count over a list of channel buffers, or zero for an
/// empty list.
pub open spec fn min_elems<E>(bufs: Seq<Vec<E>>) -> int
    decreases bufs.len(),
{
    if bufs.len() == 0 {
        0
    } else if bufs.len() == 1 {
        bufs[0]@.len() as int
    } else {
        let rest = min_elems(bufs.skip(1));
        if bufs[0]@.len() <= rest {
            bufs[0]@.len() as int
        } else {
            rest
        }
    }
}

/// The element count of the first channel buffer, or zero for an empty
/// list.
pub open spec fn first_len<E>(bufs: Seq<Vec<E>>) -> int {
    if bufs.len() == 0 {
        0
    } else {
        bufs[0]@.len() as int
    }
}

/// Computes the least element count over a list of channel buffers.
fn min_elems_exec<E>(bufs: &Vec<Vec<E>>) -> (r: usize)
    ensures
        r as int == min_elems(bufs@),
{
    let n = bufs.len();
    if n == 0 {
        return 0;
    }
    let mut m: usize = bufs[0].len();
    let mut i: usize = 1;
    while i < n
        invariant
            1 <= i <= n,
            n == bufs@.len(),
            i < n ==> min_elems(bufs@) == (if m as int <= min_elems(bufs@.skip(i as int)) {
                m as int
            } else {
                min_elems(bufs@.skip(i as int))
            }),
            i == n ==> min_elems(bufs@) == m as int,
        decreases n - i,
    {
        proof {
            assert(bufs@.skip(i as int)[0] == bufs@[i as int]);
            assert(bufs@.skip(i as int).skip(1) =~= bufs@.skip(i as int + 1));
        }
        if bufs[i].len() < m {
            m = bufs[i].len();
        }
        i += 1;
    }
    m
}

/// The outcome `write_all` has over a list of driver replies: the number
/// of replies consumed on success, or the error code and message of the
/// reply that failed, or the exhaustion error when the replies end before
/// the buffers are drained.
pub open spec fn write_all_spec(total: int, replies: Seq<DriverReply>) -> Result<
    int,
    (ErrorCode, Seq<char>),
>
    decreases replies.len(),
{
    if total <= 0 {
        Ok(0)
    } else if replies.len() == 0 {
        Err((ErrorCode::Other, "transfer reply list exhausted"@))
    } else if replies[0].code < 0 {
        Err((error_code_of(replies[0].code), replies[0].message@))
    } else {
        match write_all_spec(total - clamped(replies[0].code, total), replies.skip(1)) {
            Ok(k) => Ok(k + 1),
            Err(e) => Err(e),
        }
    }
}

/// The transmit calls `write_all` issues: one call per reply consumed,
/// each offering the elements still unwritten, the supplied timestamp on
/// the first call only, and the end-burst marker on every call.
pub open spec fn write_calls(
    total: int,
    at_ns: Option<i64>,
    end_burst: bool,
    timeout_us: i64,
    replies: Seq<DriverReply>,
) -> Seq<StreamCall>
    decreases replies.len(),
{
    if total <= 0 || replies.len() == 0 {
        Seq::empty()
    } else {
        let c = StreamCall::Write {
            num_elems: total as usize,
            flags: burst_flags(at_ns is Some, end_burst),
            time_ns: time_or_zero(at_ns),
            timeout_us,
            code: replies[0].code,
        };
        if replies[0].code < 0 {
            seq![c]
        } else {
            seq![c] + write_calls(
                total - clamped(replies[0].code, total),
                None,
                end_burst,
                timeout_us,
                replies.skip(1),
            )
        }
    }
}

/// The element count one transcript entry transferred: for a transmit
/// entry whose return code is non-negative, the code clamped to the
/// offered count; zero for every other entry.
pub open spec fn accepted_of(c: StreamCall) -> int {
    match c {
        StreamCall::Write { num_elems, code, .. } => if code >= 0 {
            clamped(code, num_elems as int)
        } else {
            0
        },
        _ => 0,
    }
}

/// The element count a sequence of transcript entries transferred.
pub open spec fn total_accepted(s: Seq<StreamCall>) -> int
    decreases s.len(),
{
    if s.len() == 0 {
        0
    } else {
        accepted_of(s[0]) + total_accepted(s.skip(1))
    }
}

/// A successful `write_all` transfers the buffers exactly: the counts the
/// driver accepted over the calls it issued sum to the buffers' length.
pub proof fn lemma_write_all_transfers_total(
    total: int,
    at_ns: Option<i64>,
    end_burst: bool,
    timeout_us: i64,
    replies: Seq<DriverReply>,
)
    requires
        0 <= total <= usize::MAX,
        write_all_spec(total, replies) is Ok,
    ensures
        total_accepted(write_calls(total, at_ns, end_burst, timeout_us, replies)) == total,
    decreases replies.len(),
{
    if total <= 0 {
    } else {
        let c0 = clamped(replies[0].code, total);
        let calls = write_calls(total, at_ns, end_burst, timeout_us, replies);
        let rest = write_calls(total - c0, None, end_burst, timeout_us, replies.skip(1));
        lemma_write_all_transfers_total(total - c0, None, end_burst, timeout_us, replies.skip(1));
        assert(calls[0] == (StreamCall::Write {
            num_elems: total as usize,
            flags: burst_flags(at_ns is Some, end_burst),
            time_ns: time_or_zero(at_ns),
            timeout_us,
            code: replies[0].code,
        }));
        assert(calls.skip(1) =~= rest);
        assert(accepted_of(calls[0]) == c0);
    }
}

/// Only the first call of a `write_all` carries the supplied timestamp:
/// the first call's flags and time are built from it, and every later
/// call passes no timestamp at all.
pub proof fn lemma_write_all_timestamp_once(
    total: int,
    at_ns: Option<i64>,
    end_burst: bool,
    timeout_us: i64,
    replies: Seq<DriverReply>,
)
    ensures
        write_calls(total, at_ns, end_burst, timeout_us, replies).len() > 0 ==> write_calls(
            total,
            at_ns,
            end_burst,
            timeout_us,
            replies,
        )[0] == (StreamCall::Write {
            num_elems: total as usize,
            flags: burst_flags(at_ns is Some, end_burst),
            time_ns: time_or_zero(at_ns),
            timeout_us,
            code: replies[0].code,
        }),
        forall|j: int|
            1 <= j < write_calls(total, at_ns, end_burst, timeout_us, replies).len() ==> (
            #[trigger] write_calls(total, at_ns, end_burst, timeout_us, replies)[j] matches
                StreamCall::Write { flags, time_ns, .. } && flags == burst_flags(false, end_burst)
                && time_ns == 0),
    decreases replies.len(),
{
    if total <= 0 || replies.len() == 0 {
    } else if replies[0].code < 0 {
    } else {
        let calls = write_calls(total, at_ns, end_burst, timeout_us, replies);
        let rest = write_calls(
            total - clamped(replies[0].code, total),
            None,
            end_burst,
            timeout_us,
            replies.skip(1),
        );
        lemma_write_all_timestamp_once(
            total - clamped(replies[0].code, total),
            None,
            end_burst,
            timeout_us,
            replies.skip(1),
        );
        assert(calls.skip(1) =~= rest);
        assert(forall|j: int| 1 <= j < calls.len() ==> #[trigger] calls[j] == rest[j - 1]);
    }
}

/// A stream open for receiving.
///
/// To obtain one, call [`crate::Device::rx_stream`].  The type parameter
/// `E` is the host element type of this stream's samples; it fixes the
/// negotiated [`Format`] for the stream's whole life.
///
/// A stream may serve several channels; every transfer then carries one
/// buffer per channel.
pub struct RxStream<E: StreamSample> {
    /// The number of channels the stream was configured for.
    pub nchannels: usize,
    /// The format the stream negotiated, fixed by `E` at setup.
    pub format: Format,
    /// Whether the stream is active.
    pub active: bool,
    /// Whether the stream has been closed; a closed stream is terminal.
    pub closed: bool,
    /// The status flags of the most recent transfer.
    pub flags: i32,
    /// The timestamp of the most recent transfer.
    pub time_ns: i64,
    /// The transcript of the native calls this session issued.
    pub calls: Vec<StreamCall>,
    /// Marker binding the stream to its host element type.
    pub elem: PhantomData<E>,
}

impl<E: StreamSample> RxStream<E> {
    /// Sets up a fresh receive stream over the given number of channels.
    pub(crate) fn setup(nchannels: usize) -> (r: RxStream<E>)
        ensures
            r.nchannels == nchannels,
            r.format == E::spec_format(),
            !r.active,
            !r.closed,
            r.flags == 0,
            r.time_ns == 0,
            r.calls@ == Seq::<StreamCall>::empty(),
    {
        RxStream {
            nchannels,
            format: E::stream_format(),
            active: false,
            closed: false,
            flags: 0,
            time_ns: 0,
            calls: Vec::new(),
            elem: PhantomData,
        }
    }

    /// Activate the stream, enabling `read`.
    ///
    /// An already-active stream is left unchanged and the call fails
    /// without reaching the driver.  Otherwise activation is issued with
    /// the optional absolute start time, whose presence sets the has-time
    /// flag, and the stream becomes active exactly when the driver
    /// reports success.
    pub fn activate(&mut self, time_ns: Option<i64>, reply: DriverReply) -> (r: Result<(), Error>)
        requires
            !old(self).closed,
        ensures
            old(self).active ==> *final(self) == *old(self) && (r matches Err(e) && e.code
                == ErrorCode::Other && e.message@ == "stream is already active"@),
            !old(self).active ==> final(self).calls@ == old(self).calls@.push(
                (StreamCall::Activate {
                    flags: time_flags(time_ns),
                    time_ns: time_or_zero(time_ns),
                }),
            ) && final(self).nchannels == old(self).nchannels && final(self).format == old(self).format && !final(self).closed && final(self).flags == old(self).flags && final(self).time_ns == old(self).time_ns,
            !old(self).active && reply.code == 0 ==> r is Ok && final(self).active,
            !old(self).active && reply.code != 0 ==> !final(self).active && (r matches Err(e)
                && e.code == error_code_of(reply.code) && e.message == reply.message),
    {
        if self.active {
            return Err(
                Error { code: ErrorCode::Other, message: "stream is already active".to_owned() },
            );
        }
        let flags = if time_ns.is_some() {
            FLAG_HAS_TIME
        } else {
            0
        };
        let t = match time_ns {
            Some(v) => v,
            None => 0,
        };
        self.calls.push(StreamCall::Activate { flags, time_ns: t });
        match check_ret_error(reply.code, reply.message) {
            Ok(_) => {
                self.active = true;
                Ok(())
            },
            Err(e) => Err(e),
        }
    }

    /// Deactivate the stream, halting data flow.
    ///
    /// A stream that is not active is left unchanged and the call fails
    /// without reaching the driver.  Otherwise deactivation is issued
    /// with the optional absolute stop time, whose presence sets the
    /// has-time flag, and the stream returns to its created state exactly
    /// when the driver reports success.
    pub fn deactivate(&mut self, time_ns: Option<i64>, reply: DriverReply) -> (r: Result<
        (),
        Error,
    >)
        requires
            !old(self).closed,
        ensures
            !old(self).active ==> *final(self) == *old(self) && (r matches Err(e) && e.code
                == ErrorCode::Other && e.message@ == "stream is not active"@),
            old(self).active ==> final(self).calls@ == old(self).calls@.push(
                (StreamCall::Deactivate {
                    flags: time_flags(time_ns),
                    time_ns: time_or_zero(time_ns),
                }),
            ) && final(self).nchannels == old(self).nchannels && final(self).format == old(self).format && !final(self).closed && final(self).flags == old(self).flags && final(self).time_ns == old(self).time_ns,
            old(self).active && reply.code == 0 ==> r is Ok && !final(self).active,
            old(self).active && reply.code != 0 ==> final(self).active && (r matches Err(e)
                && e.code == error_code_of(reply.code) && e.message == reply.message),
    {
        if !self.active {
            return Err(
                Error { code: ErrorCode::Other, message: "stream is not active".to_owned() },
            );
        }
        let flags = if time_ns.is_some() {
            FLAG_HAS_TIME
        } else {
            0
        };
        let t = match time_ns {
            Some(v) => v,
            None => 0,
        };
        self.calls.push(StreamCall::Deactivate { flags, time_ns: t });
        match check_ret_error(reply.code, reply.message) {
            Ok(_) => {
                self.active = false;
                Ok(())
            },
            Err(e) => Err(e),
        }
    }

    /// Read samples from the stream into the provided buffers.
    ///
    /// `buffers` must hold exactly one buffer per configured channel; a
    /// different count is a caller error ruled out by precondition, not a
    /// runtime result.  The count requested from the driver is the least
    /// buffer length; the driver fills the buffers outside this library
    /// and the count it reports is returned, clamped to the request.  A
    /// short transfer is not an error.  The flags and timestamp the
    /// driver attached are recorded on the stream for inspection.
    pub fn read(&mut self, buffers: &mut Vec<Vec<E>>, timeout_us: i64, reply: ReadReply) -> (r:
        Result<usize, Error>)
        requires
            !old(self).closed,
            old(buffers)@.len() == old(self).nchannels,
        ensures
            *final(buffers) == *old(buffers),
            final(self).nchannels == old(self).nchannels,
            final(self).format == old(self).format,
            final(self).active == old(self).active,
            !final(self).closed,
            final(self).flags == reply.flags,
            final(self).time_ns == reply.time_ns,
            final(self).calls@ == old(self).calls@.push(
                (StreamCall::Read {
                    num_elems: min_elems(old(buffers)@) as usize,
                    timeout_us,
                    code: reply.code,
                }),
            ),
            reply.code >= 0 ==> (r matches Ok(n) && n as int == clamped(
                reply.code,
                min_elems(old(buffers)@),
            )),
            reply.code < 0 ==> (r matches Err(e) && e.code == error_code_of(reply.code)
                && e.message == reply.message),
    {
        let num = min_elems_exec(buffers);
        self.flags = reply.flags;
        self.time_ns = reply.time_ns;
        self.calls.push(StreamCall::Read { num_elems: num, timeout_us, code: reply.code });
        match len_result(reply.code, reply.message) {
            Ok(n) => Ok(if n <= num {
                n
            } else {
                num
            }),
            Err(e) => Err(e),
        }
    }

    /// Tear the session down.
    ///
    /// An active stream first issues one deactivation attempt whose
    /// driver result is discarded, since teardown must not fail loudly;
    /// then, in every case, the native stream handle is closed exactly
    /// once and the stream is terminal.
    pub fn close(&mut self)
        requires
            !old(self).closed,
        ensures
            final(self).closed,
            !final(self).active,
            final(self).nchannels == old(self).nchannels,
            final(self).format == old(self).format,
            final(self).flags == old(self).flags,
            final(self).time_ns == old(self).time_ns,
            old(self).active ==> final(self).calls@ == old(self).calls@ + seq![
                (StreamCall::Deactivate { flags: 0, time_ns: 0 }),
                StreamCall::Close,
            ],
            !old(self).active ==> final(self).calls@ == old(self).calls@.push(StreamCall::Close),
    {
        let ghost orig = self.calls@;
        if self.active {
            self.calls.push(StreamCall::Deactivate { flags: 0, time_ns: 0 });
            self.active = false;
        }
        self.calls.push(StreamCall::Close);
        self.closed = true;
        proof {
            if old(self).active {
                assert(self.calls@ =~= orig + seq![
                    (StreamCall::Deactivate { flags: 0, time_ns: 0 }),
                    StreamCall::Close,
                ]);
            }
        }
    }
}

/// A stream open for transmitting.
///
/// To obtain one, call [`crate::Device::tx_stream`].  The type parameter
/// `E` is the host element type of this stream's samples; it fixes the
/// negotiated [`Format`] for the stream's whole life.
///
/// A stream may serve several channels; every transfer then carries one
/// buffer per channel, and all buffers of one transfer are equal in
/// length.
pub struct TxStream<E: StreamSample> {
    /// The number of channels the stream was configured for.
    pub nchannels: usize,
    /// The format the stream negotiated, fixed by `E` at setup.
    pub format: Format,
    /// Whether the stream is active.
    pub active: bool,
    /// Whether the stream has been closed; a closed stream is terminal.
    pub closed: bool,
    /// The transcript of the native calls this session issued.
    pub calls: Vec<StreamCall>,
    /// Marker binding the stream to its host element type.
    pub elem: PhantomData<E>,
}

impl<E: StreamSample> TxStream<E> {
    /// Sets up a fresh transmit stream over the given number of channels.
    pub(crate) fn setup(nchannels: usize) -> (r: TxStream<E>)
        ensures
            r.nchannels == nchannels,
            r.format == E::spec_format(),
            !r.active,
            !r.closed,
            r.calls@ == Seq::<StreamCall>::empty(),
    {
        TxStream {
            nchannels,
            format: E::stream_format(),
            active: false,
            closed: false,
            calls: Vec::new(),
            elem: PhantomData,
        }
    }

    /// Activate the stream, enabling `write`.
    ///
    /// An already-active stream is left unchanged and the call fails
    /// without reaching the driver.  Otherwise activation is issued with
    /// the optional absolute start time, whose presence sets the has-time
    /// flag, and the stream becomes active exactly when the driver
    /// reports success.
    pub fn activate(&mut self, time_ns: Option<i64>, reply: DriverReply) -> (r: Result<(), Error>)
        requires
            !old(self).closed,
        ensures
            old(self).active ==> *final(self) == *old(self) && (r matches Err(e) && e.code
                == ErrorCode::Other && e.message@ == "stream is already active"@),
            !old(self).active ==> final(self).calls@ == old(self).calls@.push(
                (StreamCall::Activate {
                    flags: time_flags(time_ns),
                    time_ns: time_or_zero(time_ns),
                }),
            ) && final(self).nchannels == old(self).nchannels && final(self).format == old(self).format && !final(self).closed,
            !old(self).active && reply.code == 0 ==> r is Ok && final(self).active,
            !old(self).active && reply.code != 0 ==> !final(self).active && (r matches Err(e)
                && e.code == error_code_of(reply.code) && e.message == reply.message),
    {
        if self.active {
            return Err(
                Error { code: ErrorCode::Other, message: "stream is already active".to_owned() },
            );
        }
        let flags = if time_ns.is_some() {
            FLAG_HAS_TIME
        } else {
            0
        };
        let t = match time_ns {
            Some(v) => v,
            None => 0,
        };
        self.calls.push(StreamCall::Activate { flags, time_ns: t });
        match check_ret_error(reply.code, reply.message) {
            Ok(_) => {
                self.active = true;
                Ok(())
            },
            Err(e) => Err(e),
        }
    }

    /// Deactivate the stream, halting data flow.
    ///
    /// A stream that is not active is left unchanged and the call fails
    /// without reaching the driver.  Otherwise deactivation is issued
    /// with the optional absolute stop time, whose presence sets the
    /// has-time flag, and the stream returns to its created state exactly
    /// when the driver reports success.
    pub fn deactivate(&mut self, time_ns: Option<i64>, reply: DriverReply) -> (r: Result<
        (),
        Error,
    >)
        requires
            !old(self).closed,
        ensures
            !old(self).active ==> *final(self) == *old(self) && (r matches Err(e) && e.code
                == ErrorCode::Other && e.message@ == "stream is not active"@),
            old(self).active ==> final(self).calls@ == old(self).calls@.push(
                (StreamCall::Deactivate {
                    flags: time_flags(time_ns),
                    time_ns: time_or_zero(time_ns),
                }),
            ) && final(self).nchannels == old(self).nchannels && final(self).format == old(self).format && !final(self).closed,
            old(self).active && reply.code == 0 ==> r is Ok && !final(self).active,
            old(self).active && reply.code != 0 ==> final(self).active && (r matches Err(e)
                && e.code == error_code_of(reply.code) && e.message == reply.message),
    {
        if !self.active {
            return Err(
                Error { code: ErrorCode::Other, message: "stream is not active".to_owned() },
            );
        }
        let flags = if time_ns.is_some() {
            FLAG_HAS_TIME
        } else {
            0
        };
        let t = match time_ns {
            Some(v) => v,
            None => 0,
        };
        self.calls.push(StreamCall::Deactivate { flags, time_ns: t });
        match check_ret_error(reply.code, reply.message) {
            Ok(_) => {
                self.active = false;
                Ok(())
            },
            Err(e) => Err(e),
        }
    }

    /// Offer a number of elements of the current burst position to the
    /// driver.
    ///
    /// This is the count-level heart of the transmit protocol:
    /// [`TxStream::write`] calls it once with the buffers' length, and
    /// [`TxStream::write_all`] calls it repeatedly with the count still
    /// unwritten.  The has-time flag and the time word are built from the
    /// optional timestamp, the end-burst flag from the burst marker.  The
    /// count the driver reports is returned, clamped to the offer; a
    /// short write is not an error.
    pub fn write_elems(
        &mut self,
        num_elems: usize,
        at_ns: Option<i64>,
        end_burst: bool,
        timeout_us: i64,
        reply: DriverReply,
    ) -> (r: Result<usize, Error>)
        requires
            !old(self).closed,
        ensures
            final(self).nchannels == old(self).nchannels,
            final(self).format == old(self).format,
            final(self).active == old(self).active,
            !final(self).closed,
            final(self).calls@ == old(self).calls@.push(
                (StreamCall::Write {
                    num_elems,
                    flags: burst_flags(at_ns is Some, end_burst),
                    time_ns: time_or_zero(at_ns),
                    timeout_us,
                    code: reply.code,
                }),
            ),
            reply.code >= 0 ==> (r matches Ok(n) && n as int == clamped(
                reply.code,
                num_elems as int,
            )),
            reply.code < 0 ==> (r matches Err(e) && e.code == error_code_of(reply.code)
                && e.message == reply.message),
    {
        let mut flags: i32 = 0;
        if at_ns.is_some() {
            flags = flags + FLAG_HAS_TIME;
        }
        if end_burst {
            flags = flags + FLAG_END_BURST;
        }
        let t = match at_ns {
            Some(v) => v,
            None => 0,
        };
        self.calls.push(
            StreamCall::Write { num_elems, flags, time_ns: t, timeout_us, code: reply.code },
        );
        match len_result(reply.code, reply.message) {
            Ok(n) => Ok(if n <= num_elems {
                n
            } else {
                num_elems
            }),
            Err(e) => Err(e),
        }
    }

    /// Write samples to the device from the provided buffers.
    ///
    /// `buffers` must hold exactly one buffer per configured channel, all
    /// of the same length; anything else is a caller error ruled out by
    /// precondition, not a runtime result.  `at_ns`, if present, asks the
    /// device to begin transmission at that absolute time; `end_burst`
    /// marks the final chunk of a burst.  The count the driver accepted
    /// is returned, clamped to the offer; a short write is device-side
    /// backpressure, not an error.
    pub fn write(
        &mut self,
        buffers: &Vec<Vec<E>>,
        at_ns: Option<i64>,
        end_burst: bool,
        timeout_us: i64,
        reply: DriverReply,
    ) -> (r: Result<usize, Error>)
        requires
            !old(self).closed,
            buffers@.len() == old(self).nchannels,
            forall|i: int|
                0 <= i < buffers@.len() ==> #[trigger] buffers@[i]@.len() == buffers@[0]@.len(),
        ensures
            final(self).nchannels == old(self).nchannels,
            final(self).format == old(self).format,
            final(self).active == old(self).active,
            !final(self).closed,
            final(self).calls@ == old(self).calls@.push(
                (StreamCall::Write {
                    num_elems: first_len(buffers@) as usize,
                    flags: burst_flags(at_ns is Some, end_burst),
                    time_ns: time_or_zero(at_ns),
                    timeout_us,
                    code: reply.code,
                }),
            ),
            reply.code >= 0 ==> (r matches Ok(n) && n as int == clamped(
                reply.code,
                first_len(buffers@),
            )),
            reply.code < 0 ==> (r matches Err(e) && e.code == error_code_of(reply.code)
                && e.message == reply.message),
    {
        let num = if buffers.len() == 0 {
            0
        } else {
            buffers[0].len()
        };
        self.write_elems(num, at_ns, end_burst, timeout_us, reply)
    }

    /// Write all samples to the device, retrying short writes.
    ///
    /// The transfer is offered to the driver chunk by chunk, each call
    /// consuming the next reply of `replies` and advancing by the count
    /// the driver accepted: the sum of the accepted counts of a
    /// successful call equals the buffers' length.  The supplied
    /// timestamp is passed on the first call only, since a continuation
    /// carries no meaningful start time; the end-burst marker is passed
    /// on every call.  The call fails with the failing reply's error, or
    /// with the exhaustion error when the replies end before the buffers
    /// are drained.
    pub fn write_all(
        &mut self,
        buffers: &Vec<Vec<E>>,
        at_ns: Option<i64>,
        end_burst: bool,
        timeout_us: i64,
        replies: &Vec<DriverReply>,
    ) -> (r: Result<(), Error>)
        requires
            !old(self).closed,
            buffers@.len() == old(self).nchannels,
            forall|i: int|
                0 <= i < buffers@.len() ==> #[trigger] buffers@[i]@.len() == buffers@[0]@.len(),
        ensures
            final(self).nchannels == old(self).nchannels,
            final(self).format == old(self).format,
            final(self).active == old(self).active,
            !final(self).closed,
            final(self).calls@ == old(self).calls@ + write_calls(
                first_len(buffers@),
                at_ns,
                end_burst,
                timeout_us,
                replies@,
            ),
            match write_all_spec(first_len(buffers@), replies@) {
                Ok(k) => r is Ok,
                Err(em) => r matches Err(e) && e.code == em.0 && e.message@ == em.1,
            },
    {
        let total = if buffers.len() == 0 {
            0
        } else {
            buffers[0].len()
        };
        let ghost t0 = total as int;
        let mut written: usize = 0;
        let mut i: usize = 0;
        let mut first = true;
        proof {
            assert(replies@.skip(0) =~= replies@);
            assert(old(self).calls@ + write_calls(t0, at_ns, end_burst, timeout_us, replies@)
                == self.calls@ + write_calls(t0 - 0, at_ns, end_burst, timeout_us, replies@));
            let w = write_all_spec(t0, replies@);
            if w is Ok {
            } else {
            }
        }
        while written < total
            invariant
                written <= total,
                i <= replies@.len(),
                t0 == total as int,
                t0 == first_len(buffers@),
                first == (i == 0),
                !self.closed,
                self.nchannels == old(self).nchannels,
                self.format == old(self).format,
                self.active == old(self).active,
                old(self).calls@ + write_calls(t0, at_ns, end_burst, timeout_us, replies@)
                    == self.calls@ + write_calls(
                    t0 - written,
                    if first {
                        at_ns
                    } else {
                        None
                    },
                    end_burst,
                    timeout_us,
                    replies@.skip(i as int),
                ),
                write_all_spec(t0, replies@) == (match write_all_spec(
                    t0 - written,
                    replies@.skip(i as int),
                ) {
                    Ok(k) => Ok::<int, (ErrorCode, Seq<char>)>(k + i),
                    Err(e) => Err(e),
                }),
            decreases replies@.len() - i,
        {
            let ghost entry_calls = self.calls@;
            let ghost cur_at = if first {
                at_ns
            } else {
                None
            };
            let ghost rem = t0 - written;
            if i >= replies.len() {
                proof {
                    assert(replies@.skip(i as int).len() == 0);
                    assert(write_calls(rem, cur_at, end_burst, timeout_us, replies@.skip(i as int))
                        =~= Seq::<StreamCall>::empty());
                    assert(entry_calls + Seq::<StreamCall>::empty() =~= entry_calls);
                }
                return Err(
                    Error {
                        code: ErrorCode::Other,
                        message: "transfer reply list exhausted".to_owned(),
                    },
                );
            }
            proof {
                assert(replies@.skip(i as int)[0] == replies@[i as int]);
                assert(replies@.skip(i as int).skip(1) =~= replies@.skip(i as int + 1));
            }
            let reply = DriverReply { code: replies[i].code, message: replies[i].message.clone() };
            let step = if first {
                self.write_elems(total - written, at_ns, end_burst, timeout_us, reply)
            } else {
                self.write_elems(total - written, None, end_burst, timeout_us, reply)
            };
            let ghost pushed = StreamCall::Write {
                num_elems: (total - written) as usize,
                flags: burst_flags(cur_at is Some, end_burst),
                time_ns: time_or_zero(cur_at),
                timeout_us,
                code: replies@[i as int].code,
            };
            proof {
                assert(self.calls@ == entry_calls.push(pushed));
            }
            match step {
                Ok(n) => {
                    let ghost rest = write_calls(
                        rem - (n as int),
                        None,
                        end_burst,
                        timeout_us,
                        replies@.skip(i as int + 1),
                    );
                    proof {
                        assert(n as int == clamped(replies@[i as int].code, rem));
                        assert(write_calls(
                            rem,
                            cur_at,
                            end_burst,
                            timeout_us,
                            replies@.skip(i as int),
                        ) == seq![pushed] + rest);
                        assert(entry_calls + (seq![pushed] + rest) =~= entry_calls.push(pushed)
                            + rest);
                        let inner = write_all_spec(rem - (n as int), replies@.skip(i as int + 1));
                        if inner is Ok {
                            assert(write_all_spec(rem, replies@.skip(i as int)) == Ok::<
                                int,
                                (ErrorCode, Seq<char>),
                            >(inner->Ok_0 + 1));
                        } else {
                            assert(write_all_spec(rem, replies@.skip(i as int)) == Err::<
                                int,
                                (ErrorCode, Seq<char>),
                            >(inner->Err_0));
                        }
                    }
                    written = written + n;
                    i = i + 1;
                    first = false;
                },
                Err(e) => {
                    proof {
                        assert(replies@[i as int].code < 0);
                        assert(write_calls(
                            rem,
                            cur_at,
                            end_burst,
                            timeout_us,
                            replies@.skip(i as int),
                        ) =~= seq![pushed]);
                        assert(entry_calls + seq![pushed] =~= entry_calls.push(pushed));
                        assert(write_all_spec(rem, replies@.skip(i as int)) == Err::<
                            int,
                            (ErrorCode, Seq<char>),
                        >((error_code_of(replies@[i as int].code), replies@[i as int].message@)));
                    }
                    return Err(e);
                },
            }
        }
        proof {
            assert(write_calls(
                t0 - written,
                if first {
                    at_ns
                } else {
                    None
                },
                end_burst,
                timeout_us,
                replies@.skip(i as int),
            ) =~= Seq::<StreamCall>::empty());
            assert(self.calls@ + Seq::<StreamCall>::empty() =~= self.calls@);
        }
        Ok(())
    }

    /// Tear the session down.
    ///
    /// An active stream first issues one deactivation attempt whose
    /// driver result is discarded, since teardown must not fail loudly;
    /// then, in every case, the native stream handle is closed exactly
    /// once and the stream is terminal.
    pub fn close(&mut self)
        requires
            !old(self).closed,
        ensures
            final(self).closed,
            !final(self).active,
            final(self).nchannels == old(self).nchannels,
            final(self).format == old(self).format,
            old(self).active ==> final(self).calls@ == old(self).calls@ + seq![
                (StreamCall::Deactivate { flags: 0, time_ns: 0 }),
                StreamCall::Close,
            ],
            !old(self).active ==> final(self).calls@ == old(self).calls@.push(StreamCall::Close),
    {
        let ghost orig = self.calls@;
        if self.active {
            self.calls.push(StreamCall::Deactivate { flags: 0, time_ns: 0 });
            self.active = false;
        }
        self.calls.push(StreamCall::Close);
        self.closed = true;
        proof {
            if old(self).active {
                assert(self.calls@ =~= orig + seq![
                    (StreamCall::Deactivate { flags: 0, time_ns: 0 }),
                    StreamCall::Close,
                ]);
            }
        }
    }
}

} // verus!
