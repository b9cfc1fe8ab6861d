//! The recording session: whether a recording runs, the rules for starting
//! and stopping one, and the name of the file it is saved to.

use vstd::prelude::*;
use std::path::PathBuf;
use crate::paths::{join_path, joined_path};
use crate::text::{law_signed_decimal_reads_back, signed_decimal_spec, signed_decimal_string};

verus! {

/// The message when a recording is started while one runs.
pub open spec fn already_recording_message() -> Seq<char> {
    "Recording is already in progress"@
}

/// The message when a running recording has no start time.
pub open spec fn invalid_state_message() -> Seq<char> {
    "Invalid state"@
}

/// A recording session: the running input stream `S`, if any, and the
/// moment `T` the recording started.
pub struct RecordingSession<S, T> {
    stream: Option<S>,
    start_time: Option<T>,
}

impl<S, T> RecordingSession<S, T> {
    /// The running stream.
    pub closed spec fn stream(&self) -> Option<S> {
        self.stream
    }

    /// When the running recording started.
    pub closed spec fn start_time(&self) -> Option<T> {
        self.start_time
    }

    /// Whether a recording runs.
    pub open spec fn recording(&self) -> bool {
        self.stream() is Some
    }

    /// The session once `stream` runs since `started`.
    pub closed spec fn began(self, stream: S, started: T) -> Self {
        RecordingSession { stream: Some(stream), start_time: Some(started) }
    }

    /// The session once the recording is ended.
    pub closed spec fn after_finish(self) -> Self {
        if self.stream is None {
            self
        } else {
            RecordingSession { stream: None, start_time: None }
        }
    }

    /// What ending the recording gives: `Some(v)` for the value `Ok(v)`,
    /// `None` for the invalid-state error.
    pub closed spec fn finish_outcome(self) -> Option<Option<T>> {
        if self.stream is None {
            Some(None)
        } else {
            match self.start_time {
                Some(t) => Some(Some(t)),
                None => None,
            }
        }
    }

    /// The session once the recording is abandoned.
    pub closed spec fn after_cancel(self) -> Self {
        RecordingSession { stream: None, start_time: None }
    }

    /// A session in which nothing is recorded.
    pub fn new() -> (r: Self)
        ensures
            r.stream() is None,
            r.start_time() is None,
    {
        RecordingSession { stream: None, start_time: None }
    }

    /// Whether a recording runs.
    pub fn is_recording(&self) -> (r: bool)
        ensures
            r == self.recording(),
    {
        self.stream.is_some()
    }

    /// Refuses to start while a recording runs.
    pub fn check_can_start(&self) -> (r: Result<(), String>)
        ensures
            r is Ok <==> !self.recording(),
            r matches Err(m) ==> m@ == already_recording_message(),
    {
        if self.stream.is_some() {
            Err(String::from_str("Recording is already in progress"))
        } else {
            Ok(())
        }
    }

    /// Records that `stream` runs since `started`.
    pub fn begin(&mut self, stream: S, started: T)
        ensures
            *final(self) == old(self).began(stream, started),
            final(self).stream() == Some(stream),
            final(self).start_time() == Some(started),
    {
        self.stream = Some(stream);
        self.start_time = Some(started);
    }

    /// Ends the running recording: the stream is dropped, which stops it.
    /// Gives `None` when nothing was recording, the start time when it was,
    /// and the invalid-state error when a stream ran without a start time.
    pub fn finish(&mut self) -> (r: Result<Option<T>, String>)
        ensures
            *final(self) == old(self).after_finish(),
            match old(self).finish_outcome() {
                Some(v) => r is Ok && r->Ok_0 == v,
                None => r is Err,
            },
            final(self).stream() is None,
            old(self).stream() is None ==> r is Ok && r->Ok_0 is None,
            old(self).stream() is None ==> final(self).start_time() == old(self).start_time(),
            old(self).stream() is Some ==> final(self).start_time() is None,
            old(self).stream() is Some && old(self).start_time() is Some ==> r is Ok && r->Ok_0
                == old(self).start_time(),
            old(self).stream() is Some && old(self).start_time() is None ==> r is Err,
            r matches Err(m) ==> m@ == invalid_state_message(),
    {
        let stream = self.stream.take();
        if stream.is_none() {
            return Ok(None);
        }
        match self.start_time.take() {
            Some(t) => Ok(Some(t)),
            None => Err(String::from_str("Invalid state")),
        }
    }

    /// Abandons the running recording, if any.
    pub fn cancel(&mut self)
        ensures
            *final(self) == old(self).after_cancel(),
            final(self).stream() is None,
            final(self).start_time() is None,
    {
        self.stream = None;
        self.start_time = None;
    }
}

/// Starting and then ending a recording gives back the moment it started
/// and leaves the session idle, so a new recording may start; while it runs
/// a second start is refused; abandoning it also leaves the session idle.
pub proof fn law_begin_then_finish<S, T>(s: RecordingSession<S, T>, stream: S, started: T)
    ensures
        s.began(stream, started).recording(),
        s.began(stream, started).finish_outcome() == Some(Some(started)),
        !s.began(stream, started).after_finish().recording(),
        s.began(stream, started).after_finish().start_time() is None,
        !s.began(stream, started).after_cancel().recording(),
        !s.after_cancel().recording(),
{
}

/// The sample formats an input device may deliver.
#[derive(Clone, Copy, Debug, PartialEq, Eq)]
pub enum DeviceSampleFormat {
    F32,
    I16,
    U16,
    /// Any other format.
    Other,
}

/// How captured samples are turned into floating point samples.
#[derive(Clone, Copy, Debug, PartialEq, Eq)]
pub enum CaptureConversion {
    /// They already are.
    AsIs,
    /// Signed 16-bit samples, scaled.
    FromI16,
    /// Unsigned 16-bit samples, shifted and scaled.
    FromU16,
}

/// The message for an input format that cannot be recorded.
pub open spec fn unsupported_format_message() -> Seq<char> {
    "Unsupported audio format"@
}

/// How samples of the device's format are captured; formats other than
/// 32-bit float and 16-bit integers are refused.
pub fn capture_conversion(format: DeviceSampleFormat) -> (r: Result<CaptureConversion, String>)
    ensures
        format == DeviceSampleFormat::F32 ==> r == Ok::<CaptureConversion, String>(
            CaptureConversion::AsIs,
        ),
        format == DeviceSampleFormat::I16 ==> r == Ok::<CaptureConversion, String>(
            CaptureConversion::FromI16,
        ),
        format == DeviceSampleFormat::U16 ==> r == Ok::<CaptureConversion, String>(
            CaptureConversion::FromU16,
        ),
        r is Err <==> format == DeviceSampleFormat::Other,
        r matches Err(m) ==> m@ == unsupported_format_message(),
{
    match format {
        DeviceSampleFormat::F32 => Ok(CaptureConversion::AsIs),
        DeviceSampleFormat::I16 => Ok(CaptureConversion::FromI16),
        DeviceSampleFormat::U16 => Ok(CaptureConversion::FromU16),
        DeviceSampleFormat::Other => Err(String::from_str("Unsupported audio format")),
    }
}

/// The file name a recording started at `timestamp` (seconds since the
/// Unix epoch) is saved under.
pub open spec fn recording_file_name_spec(timestamp: int) -> Seq<char> {
    signed_decimal_spec(timestamp) + ".wav"@
}

/// Recordings started at different seconds are saved under different
/// names, so one recording never overwrites another from another second.
pub proof fn law_recording_names_distinct(a: int, b: int)
    requires
        recording_file_name_spec(a) == recording_file_name_spec(b),
    ensures
        a == b,
{
    let sa = signed_decimal_spec(a);
    let sb = signed_decimal_spec(b);
    let w = ".wav"@;
    assert(sa.len() == sb.len()) by {
        assert((sa + w).len() == (sb + w).len());
    }
    assert(sa =~= (sa + w).subrange(0, sa.len() as int));
    assert(sb =~= (sb + w).subrange(0, sb.len() as int));
    law_signed_decimal_reads_back(a);
    law_signed_decimal_reads_back(b);
}

/// The file name a recording started at `timestamp` is saved under.
pub fn recording_file_name(timestamp: i64) -> (r: String)
    ensures
        r@ == recording_file_name_spec(timestamp as int),
{
    let mut r = signed_decimal_string(timestamp);
    r.append(".wav");
    r
}

/// The file a recording started at `timestamp` is saved to: its file name
/// in the recordings directory `output_dir`.
pub fn recording_path(output_dir: &PathBuf, timestamp: i64) -> (r: PathBuf)
    ensures
        r == joined_path(*output_dir, recording_file_name_spec(timestamp as int)),
{
    let name = recording_file_name(timestamp);
    join_path(output_dir, name.as_str())
}

} // verus!
