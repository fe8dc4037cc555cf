//! What the real-time callbacks of a capture or playback do with a buffer,
//! expressed as index plans: which source sample lands in which slot. The
//! callbacks apply a plan to the actual samples.

use vstd::prelude::*;
use crate::audio::{AudioIoError};
use crate::text::push_str;

verus! {

// ---------------------------------------------------------------------------
// Playback
// ---------------------------------------------------------------------------

/// Where each slot of one output buffer takes its sample from.
#[derive(Clone, Debug, PartialEq, Eq)]
pub struct PlaybackWritePlan {
    /// Per interleaved output slot: the index of the source sample it copies,
    /// or `None` for silence.
    pub slots: Vec<Option<usize>>,
    /// The source frame the next buffer starts at.
    pub next_frame: usize,
    /// Every source frame has been handed over.
    pub source_exhausted: bool,
}

/// The source sample for output slot `slot`: device frame `slot / device`
/// plays source frame `start + slot / device`; device channel `c` copies
/// source channel `c` while both exist; everything else is silent.
pub open spec fn playback_slot_source(
    slot: int,
    device_channels: nat,
    source_channels: nat,
    frame_count: nat,
    start: nat,
) -> Option<usize> {
    let frame = start + slot / (device_channels as int);
    let channel = slot % (device_channels as int);
    if frame < frame_count && channel < source_channels {
        Some((frame * source_channels + channel) as usize)
    } else {
        None
    }
}

pub open spec fn min_nat(a: nat, b: nat) -> nat {
    if a < b {
        a
    } else {
        b
    }
}

/// Plans one output buffer of `output_len` interleaved samples for a device
/// with `device_channels` channels, continuing a source of `frame_count`
/// frames of `source_channels` channels from frame `next_frame` (clamped to
/// the source). `None` means the buffer is not a whole number of device
/// frames, which the callback reports as a format error.
pub fn plan_playback_write(
    output_len: usize,
    device_channels: usize,
    source_channels: usize,
    frame_count: usize,
    next_frame: u64,
) -> (plan: Option<PlaybackWritePlan>)
    requires
        frame_count * source_channels <= usize::MAX,
    ensures
        plan is None <==> (device_channels == 0 || output_len % device_channels != 0),
        plan matches Some(p) ==> {
            let start = min_nat(next_frame as nat, frame_count as nat);
            &&& p.slots@.len() == output_len
            &&& forall|s: int| 0 <= s < output_len ==> #[trigger] p.slots@[s] == playback_slot_source(
                s,
                device_channels as nat,
                source_channels as nat,
                frame_count as nat,
                start,
            )
            &&& p.next_frame == min_nat(start + (output_len as nat) / (device_channels as nat), frame_count as nat)
            &&& p.source_exhausted == (p.next_frame >= frame_count)
        },
{
    if device_channels == 0 || output_len % device_channels != 0 {
        return None;
    }
    let start: usize = if (next_frame as u128) < (frame_count as u128) {
        next_frame as usize
    } else {
        frame_count
    };
    let frames_in_output = output_len / device_channels;
    let mut slots: Vec<Option<usize>> = Vec::with_capacity(output_len);
    let mut frame_index: usize = 0;
    let mut current = start;
    proof {
        vstd::arithmetic::div_mod::lemma_fundamental_div_mod(output_len as int, device_channels as int);
    }
    while frame_index < frames_in_output
        invariant
            device_channels > 0,
            frames_in_output * device_channels == output_len,
            frame_count * source_channels <= usize::MAX,
            start <= frame_count,
            frame_index <= frames_in_output,
            current == min_nat((start + frame_index) as nat, frame_count as nat),
            slots@.len() == frame_index * device_channels,
            forall|s: int| 0 <= s < slots@.len() ==> #[trigger] slots@[s] == playback_slot_source(
                s,
                device_channels as nat,
                source_channels as nat,
                frame_count as nat,
                start as nat,
            ),
        decreases frames_in_output - frame_index,
    {
        let mut channel: usize = 0;
        let ghost base_len = slots@.len() as int;
        proof {
            assert((frame_index + 1) * device_channels <= output_len) by (nonlinear_arith)
                requires
                    frame_index < frames_in_output,
                    frames_in_output * device_channels == output_len,
            ;
            assert(base_len == frame_index * device_channels);
        }
        while channel < device_channels
            invariant
                device_channels > 0,
                frame_count * source_channels <= usize::MAX,
                start <= frame_count,
                channel <= device_channels,
                (frame_index + 1) * device_channels <= output_len,
                base_len == frame_index * device_channels,
                current == min_nat((start + frame_index) as nat, frame_count as nat),
                slots@.len() == base_len + channel,
                forall|s: int| 0 <= s < slots@.len() ==> #[trigger] slots@[s] == playback_slot_source(
                    s,
                    device_channels as nat,
                    source_channels as nat,
                    frame_count as nat,
                    start as nat,
                ),
            decreases device_channels - channel,
        {
            let ghost s = slots@.len() as int;
            proof {
                assert(s / (device_channels as int) == frame_index && s % (device_channels as int) == channel) by (nonlinear_arith)
                    requires
                        s == frame_index * device_channels + channel,
                        channel < device_channels,
                        device_channels > 0,
                ;
            }
            let value = if current < frame_count && channel < source_channels {
                proof {
                    assert(current * source_channels + channel < frame_count * source_channels) by (nonlinear_arith)
                        requires
                            current < frame_count,
                            channel < source_channels,
                    ;
                }
                Some(current * source_channels + channel)
            } else {
                None
            };
            slots.push(value);
            channel += 1;
        }
        if current < frame_count {
            current += 1;
        }
        frame_index += 1;
        proof {
            assert(slots@.len() == frame_index * device_channels) by (nonlinear_arith)
                requires
                    slots@.len() == base_len + device_channels,
                    base_len == (frame_index - 1) * device_channels,
            ;
        }
    }
    Some(PlaybackWritePlan { slots, next_frame: current, source_exhausted: current >= frame_count })
}

/// Playback resumes where the previous buffer stopped: planning a buffer of
/// `first_len` slots and then, from the frame it hands on, a second buffer,
/// gives each slot of the second buffer the source the same slot would get
/// in one buffer of both lengths.
pub proof fn lemma_playback_plans_continue(
    first_len: nat,
    device_channels: nat,
    source_channels: nat,
    frame_count: nat,
    start: nat,
    slot: nat,
)
    requires
        device_channels > 0,
        first_len % device_channels == 0,
        start <= frame_count,
    ensures
        playback_slot_source(
            slot as int,
            device_channels,
            source_channels,
            frame_count,
            min_nat(start + first_len / device_channels, frame_count),
        ) == playback_slot_source((first_len + slot) as int, device_channels, source_channels, frame_count, start),
{
    let dc = device_channels as int;
    let whole = first_len as int / dc;
    assert((first_len + slot) as int / dc == whole + slot as int / dc && (first_len + slot) as int % dc == slot as int
        % dc) by {
        vstd::arithmetic::div_mod::lemma_fundamental_div_mod(first_len as int, dc);
        vstd::arithmetic::div_mod::lemma_fundamental_div_mod(slot as int, dc);
        let q = slot as int / dc;
        let r = slot as int % dc;
        assert((first_len + slot) as int == (whole + q) * dc + r) by (nonlinear_arith)
            requires
                first_len as int == dc * whole,
                slot as int == dc * q + r,
        ;
        vstd::arithmetic::div_mod::lemma_fundamental_div_mod_converse(
            (first_len + slot) as int,
            dc,
            whole + slot as int / dc,
            slot as int % dc,
        );
    }
}

// ---------------------------------------------------------------------------
// Capture
// ---------------------------------------------------------------------------

/// Frames in one capture callback, or `None` when the buffer cannot hold
/// the selected channel: no channels, a channel index past the last one, or
/// a partial frame. The callback treats `None` as a format error.
pub fn callback_frame_count(data_len: usize, source_channels: u16, input_channel_index: u16) -> (frames: Option<usize>)
    ensures
        frames is None <==> (source_channels == 0 || input_channel_index >= source_channels || (data_len as nat)
            % (source_channels as nat) != 0),
        frames matches Some(n) ==> n == (data_len as nat) / (source_channels as nat),
{
    let channels = source_channels as usize;
    if channels == 0 || input_channel_index >= source_channels || data_len % channels != 0 {
        None
    } else {
        Some(data_len / channels)
    }
}

/// The indices of the input samples one capture callback appends: the
/// selected channel of each whole frame, in order, until the capture holds
/// `maximum_samples`. `None` when the buffer cannot hold the channel.
pub fn plan_channel_extraction(
    input_len: usize,
    source_channels: u16,
    input_channel_index: u16,
    already_captured: usize,
    maximum_samples: usize,
) -> (indices: Option<Vec<usize>>)
    ensures
        indices is None <==> (source_channels == 0 || input_channel_index >= source_channels || (input_len as nat)
            % (source_channels as nat) != 0),
        indices matches Some(v) ==> {
            let frames = (input_len as nat) / (source_channels as nat);
            let remaining: int = if maximum_samples > already_captured {
                maximum_samples - already_captured
            } else {
                0
            };
            &&& v@.len() == (if frames < remaining { frames as int } else { remaining })
            &&& forall|k: int| 0 <= k < v@.len() ==> #[trigger] v@[k] == k * source_channels + input_channel_index
            &&& forall|k: int| 0 <= k < v@.len() ==> #[trigger] v@[k] < input_len
        },
{
    let frames = match callback_frame_count(input_len, source_channels, input_channel_index) {
        Some(n) => n,
        None => {
            return None;
        },
    };
    let channels = source_channels as usize;
    let channel = input_channel_index as usize;
    let remaining = maximum_samples.saturating_sub(already_captured);
    let count = if frames < remaining {
        frames
    } else {
        remaining
    };
    let mut indices: Vec<usize> = Vec::with_capacity(count);
    let mut k: usize = 0;
    proof {
        vstd::arithmetic::div_mod::lemma_fundamental_div_mod(input_len as int, channels as int);
    }
    while k < count
        invariant
            channels > 0,
            channel < channels,
            count <= frames,
            frames * channels == input_len,
            k <= count,
            indices@.len() == k,
            forall|j: int| 0 <= j < k ==> #[trigger] indices@[j] == j * channels + channel,
            forall|j: int| 0 <= j < k ==> #[trigger] indices@[j] < input_len,
        decreases count - k,
    {
        proof {
            assert(k * channels + channel < input_len) by (nonlinear_arith)
                requires
                    k < frames,
                    channel < channels,
                    frames * channels == input_len,
            ;
        }
        indices.push(k * channels + channel);
        k += 1;
    }
    Some(indices)
}

/// A capture waits until the requested samples arrived, the stream failed
/// for good, a buffer had the wrong format, or the user cancelled.
pub fn capture_wait_is_over(
    captured_samples: u64,
    requested_samples: u64,
    terminal_stream_error: bool,
    callback_format_error: bool,
    cancelled: bool,
) -> (over: bool)
    ensures
        over == (captured_samples >= requested_samples || terminal_stream_error || callback_format_error
            || cancelled),
{
    captured_samples >= requested_samples || terminal_stream_error || callback_format_error || cancelled
}

/// Categories of stream errors that matter to a capture.
#[derive(Clone, Copy, Debug, PartialEq, Eq)]
pub enum StreamErrorKind {
    /// The stream was rerouted and keeps running.
    DeviceChanged,
    /// Real-time scheduling was refused; audio keeps flowing.
    RealtimeDenied,
    /// An overrun or underrun: samples were dropped but the stream runs on.
    Xrun,
    /// Anything else: the stream cannot be trusted to continue.
    Other,
}

/// Only reroutes, refused real-time scheduling and xruns leave a stream running.
pub fn is_terminal_stream_error(kind: StreamErrorKind) -> (terminal: bool)
    ensures
        terminal == !(kind is DeviceChanged || kind is RealtimeDenied || kind is Xrun),
{
    match kind {
        StreamErrorKind::DeviceChanged | StreamErrorKind::RealtimeDenied | StreamErrorKind::Xrun => false,
        StreamErrorKind::Other => true,
    }
}

/// At most this many stream errors keep their details; later ones are only counted.
pub const MAX_RECORDED_STREAM_ERRORS: usize = 16;

/// Whether a stream error's details are recorded: only while fewer than
/// [`MAX_RECORDED_STREAM_ERRORS`] are kept and the report list could be
/// locked without waiting.
pub fn keeps_stream_error_details(recorded: usize, lock_acquired: bool) -> (keep: bool)
    ensures
        keep == (lock_acquired && recorded < 16),
{
    lock_acquired && recorded < MAX_RECORDED_STREAM_ERRORS
}

/// Automatic completion inspects a bounded tail of the capture, which must
/// hold at least one sample.
pub fn check_snapshot_length(maximum_snapshot_samples: usize) -> (r: Result<(), AudioIoError>)
    ensures
        r is Ok <==> maximum_snapshot_samples > 0,
        r matches Err(e) ==> e@ == "automatic-completion snapshot length must be greater than zero"@,
{
    if maximum_snapshot_samples == 0 {
        let mut message = String::new();
        push_str(&mut message, "automatic-completion snapshot length must be greater than zero");
        return Err(AudioIoError::from_message(message));
    }
    Ok(())
}

/// Where the automatic-completion snapshot starts: the last
/// `snapshot_length` samples of the capture, or all of it when shorter.
pub fn snapshot_start(captured_len: usize, snapshot_length: usize) -> (start: usize)
    ensures
        start == (if captured_len > snapshot_length { captured_len - snapshot_length } else { 0 }),
{
    captured_len.saturating_sub(snapshot_length)
}

} // verus!
