//! Binary frame stream of the session recorder.
//!
//! A recording is a sequence of frames with no header and no footer. Each
//! frame carries a wall-clock timestamp (whole seconds and sub-second
//! microseconds), a payload length, and the payload bytes; the three
//! numbers are stored as 4-byte little-endian unsigned integers. A reader
//! can only find the end of a recording by exhausting the stream.

use vstd::prelude::*;
use vstd::bytes::lemma_auto_spec_u32_to_from_le_bytes;
use vstd::bytes::spec_u32_from_le_bytes;
use vstd::bytes::spec_u32_to_le_bytes;
use vstd::bytes::u32_from_le_bytes;
use vstd::bytes::u32_to_le_bytes;
use vstd::slice::slice_subrange;
use vstd::slice::slice_to_vec;

verus! {

/// One captured chunk of child-process output, with the wall-clock time at
/// which the chunk was drained from the child's pipe.
pub struct Frame {
    pub seconds: u32,
    pub micros: u32,
    pub payload: Vec<u8>,
}

impl View for Frame {
    type V = (u32, u32, Seq<u8>);

    open spec fn view(&self) -> (u32, u32, Seq<u8>) {
        (self.seconds, self.micros, self.payload@)
    }
}

/// The exact bytes of one frame: the two timestamp fields and the payload
/// length, each as a 4-byte little-endian unsigned integer, then the
/// payload itself.
pub open spec fn spec_frame_bytes(seconds: u32, micros: u32, payload: Seq<u8>) -> Seq<u8> {
    spec_u32_to_le_bytes(seconds) + spec_u32_to_le_bytes(micros)
        + spec_u32_to_le_bytes(payload.len() as u32) + payload
}

/// The exact bytes of a whole recording: the frames in order, nothing else.
pub open spec fn spec_recording_bytes(frames: Seq<(u32, u32, Seq<u8>)>) -> Seq<u8>
    decreases frames.len(),
{
    if frames.len() == 0 {
        Seq::empty()
    } else {
        spec_frame_bytes(frames[0].0, frames[0].1, frames[0].2)
            + spec_recording_bytes(frames.drop_first())
    }
}

/// The payload bytes of every frame, concatenated in file order.
pub open spec fn spec_payload_concat(frames: Seq<(u32, u32, Seq<u8>)>) -> Seq<u8>
    decreases frames.len(),
{
    if frames.len() == 0 {
        Seq::empty()
    } else {
        frames[0].2 + spec_payload_concat(frames.drop_first())
    }
}

/// A sequence of byte chunks, concatenated in order.
pub open spec fn spec_chunks_concat(chunks: Seq<Seq<u8>>) -> Seq<u8>
    decreases chunks.len(),
{
    if chunks.len() == 0 {
        Seq::empty()
    } else {
        chunks[0] + spec_chunks_concat(chunks.drop_first())
    }
}

/// What a reader makes of a byte stream: `None` when the stream is cut off
/// inside a frame, otherwise the frames in file order.
pub open spec fn spec_decode(bytes: Seq<u8>) -> Option<Seq<(u32, u32, Seq<u8>)>>
    decreases bytes.len(),
{
    if bytes.len() == 0 {
        Some(Seq::empty())
    } else if bytes.len() < 12 {
        None
    } else {
        let seconds = spec_u32_from_le_bytes(bytes.subrange(0, 4));
        let micros = spec_u32_from_le_bytes(bytes.subrange(4, 8));
        let len = spec_u32_from_le_bytes(bytes.subrange(8, 12)) as int;
        if bytes.len() < 12 + len {
            None
        } else {
            match spec_decode(bytes.subrange(12 + len, bytes.len() as int)) {
                None => None,
                Some(rest) => Some(
                    seq![(seconds, micros, bytes.subrange(12, 12 + len))] + rest,
                ),
            }
        }
    }
}

/// Appends one frame to a recording. This is the only write step of the
/// recorder: a recording file is append-only and never rewritten in place.
pub fn append_frame(rec: &mut Vec<u8>, seconds: u32, micros: u32, payload: &[u8])
    requires
        payload@.len() <= u32::MAX,
    ensures
        final(rec)@ == old(rec)@ + spec_frame_bytes(seconds, micros, payload@),
{
    let len32: u32 = payload.len() as u32;
    let mut b0 = u32_to_le_bytes(seconds);
    rec.append(&mut b0);
    let mut b1 = u32_to_le_bytes(micros);
    rec.append(&mut b1);
    let mut b2 = u32_to_le_bytes(len32);
    rec.append(&mut b2);
    let ghost before_payload = rec@;
    let mut i: usize = 0;
    while i < payload.len()
        invariant
            i <= payload@.len(),
            rec@ == before_payload + payload@.subrange(0, i as int),
        decreases payload@.len() - i,
    {
        rec.push(payload[i]);
        assert(rec@ =~= before_payload + payload@.subrange(0, i + 1));
        i = i + 1;
    }
    assert(payload@.subrange(0, payload@.len() as int) =~= payload@);
    assert(rec@ =~= old(rec)@ + spec_frame_bytes(seconds, micros, payload@));
}

/// The view of a decoded frame list.
pub open spec fn frames_view(fs: Seq<Frame>) -> Seq<(u32, u32, Seq<u8>)> {
    fs.map_values(|f: Frame| f@)
}

/// Reads a recording back. Returns `None` exactly when the stream is cut
/// off inside a frame, and otherwise every frame in file order.
pub fn decode_recording(bytes: &[u8]) -> (r: Option<Vec<Frame>>)
    ensures
        match r {
            Some(fs) => spec_decode(bytes@) == Some(frames_view(fs@)),
            None => spec_decode(bytes@) is None,
        },
    decreases bytes@.len(),
{
    if bytes.len() == 0 {
        let fs: Vec<Frame> = Vec::new();
        assert(frames_view(fs@) =~= Seq::<(u32, u32, Seq<u8>)>::empty());
        Some(fs)
    } else if bytes.len() < 12 {
        None
    } else {
        let seconds = u32_from_le_bytes(slice_subrange(bytes, 0, 4));
        let micros = u32_from_le_bytes(slice_subrange(bytes, 4, 8));
        let len = u32_from_le_bytes(slice_subrange(bytes, 8, 12));
        if bytes.len() - 12 < len as usize {
            None
        } else {
            let end: usize = 12 + len as usize;
            let payload = slice_to_vec(slice_subrange(bytes, 12, end));
            match decode_recording(slice_subrange(bytes, end, bytes.len())) {
                None => None,
                Some(mut rest) => {
                    let mut fs: Vec<Frame> = Vec::new();
                    fs.push(Frame { seconds, micros, payload });
                    fs.append(&mut rest);
                    proof {
                        let tail = bytes@.subrange(12 + len as int, bytes@.len() as int);
                        if let Some(rv) = spec_decode(tail) {
                            assert(frames_view(fs@) =~= seq![
                                (seconds, micros, bytes@.subrange(12, 12 + len as int))
                            ] + rv);
                        } else {
                            assert(false);
                        }
                    }
                    Some(fs)
                },
            }
        }
    }
}

/// Round trip of the recording format: writing any frames in order and
/// reading the stream back yields exactly those frames — no frame, and no
/// byte of any payload, is lost, duplicated or reordered.
pub proof fn lemma_recording_round_trip(frames: Seq<(u32, u32, Seq<u8>)>)
    requires
        forall|i: int| 0 <= i < frames.len() ==> (#[trigger] frames[i]).2.len() <= u32::MAX,
    ensures
        spec_decode(spec_recording_bytes(frames)) == Some(frames),
    decreases frames.len(),
{
    lemma_auto_spec_u32_to_from_le_bytes();
    if frames.len() == 0 {
        assert(spec_recording_bytes(frames).len() == 0);
        assert(frames =~= Seq::<(u32, u32, Seq<u8>)>::empty());
    } else {
        let f = frames[0];
        let head = spec_frame_bytes(f.0, f.1, f.2);
        let rest = spec_recording_bytes(frames.drop_first());
        let bytes = spec_recording_bytes(frames);
        let plen = f.2.len() as int;
        assert(f.2.len() as u32 as int == plen);
        assert(head.len() == 12 + plen);
        assert(bytes.len() == 12 + plen + rest.len());
        assert(bytes.subrange(0, 4) =~= spec_u32_to_le_bytes(f.0));
        assert(bytes.subrange(4, 8) =~= spec_u32_to_le_bytes(f.1));
        assert(bytes.subrange(8, 12) =~= spec_u32_to_le_bytes(f.2.len() as u32));
        assert(bytes.subrange(12, 12 + plen) =~= f.2);
        assert(bytes.subrange(12 + plen, bytes.len() as int) =~= rest);
        lemma_recording_round_trip(frames.drop_first());
        assert(seq![(f.0, f.1, f.2)] + frames.drop_first() =~= frames);
    }
}

/// The payloads of a recording built from given chunks concatenate to
/// exactly the concatenation of those chunks: the recording reproduces the
/// bytes the child wrote, in order.
pub proof fn lemma_payload_concat_matches_chunks(
    frames: Seq<(u32, u32, Seq<u8>)>,
    chunks: Seq<Seq<u8>>,
)
    requires
        frames.len() == chunks.len(),
        forall|i: int| 0 <= i < frames.len() ==> (#[trigger] frames[i]).2 == chunks[i],
    ensures
        spec_payload_concat(frames) == spec_chunks_concat(chunks),
    decreases frames.len(),
{
    if frames.len() == 0 {
    } else {
        lemma_payload_concat_matches_chunks(frames.drop_first(), chunks.drop_first());
        assert(frames[0].2 == chunks[0]);
    }
}

/// Wall-clock timestamp split into whole seconds since the epoch and the
/// sub-second part in microseconds.
pub struct UnixTime {
    pub secs: u64,
    pub micros: u32,
}

#[verifier::external_type_specification]
#[verifier::external_body]
pub struct ExSystemTime(std::time::SystemTime);

#[verifier::external_type_specification]
#[verifier::external_body]
pub struct ExSystemTimeError(std::time::SystemTimeError);

/// Relies on std::time::SystemTime::now; nothing is promised of the value
/// the clock returns.
pub assume_specification[ std::time::SystemTime::now ]() -> std::time::SystemTime;

/// Relies on std::time::SystemTime::duration_since; nothing is promised of
/// the result beyond its type: the clock may sit before the given anchor.
pub assume_specification[ std::time::SystemTime::duration_since ](
    t: &std::time::SystemTime,
    earlier: std::time::SystemTime,
) -> Result<core::time::Duration, std::time::SystemTimeError>;

/// Relies on std::time::SystemTime::UNIX_EPOCH, the fixed reference point
/// of recording timestamps.
#[verifier::external_body]
fn epoch() -> std::time::SystemTime {
    std::time::SystemTime::UNIX_EPOCH
}

/// Relies on core::time::Duration::as_secs: the whole-second part of the
/// duration.
pub assume_specification[ core::time::Duration::as_secs ](d: &core::time::Duration) -> u64;

/// Relies on core::time::Duration::subsec_micros: the fractional part of
/// the duration in microseconds, which its documentation bounds below one
/// million.
pub assume_specification[ core::time::Duration::subsec_micros ](
    d: &core::time::Duration,
) -> (r: u32)
    ensures
        r < 1000000,
;

/// Reads the wall clock as seconds and microseconds since the epoch.
/// Returns `None` when the clock sits before the epoch, which the caller
/// treats as fatal.
pub fn unix_duration() -> (r: Option<UnixTime>)
    ensures
        r matches Some(t) ==> t.micros < 1000000,
{
    let now = std::time::SystemTime::now();
    match now.duration_since(epoch()) {
        Ok(d) => Some(UnixTime { secs: d.as_secs(), micros: d.subsec_micros() }),
        Err(_) => None,
    }
}

} // verus!

