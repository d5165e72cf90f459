//! The recorder's state, the limits on captured audio, and the sizes that
//! down-mixing and resampling produce.

use vstd::prelude::*;
use crate::error::{AuralFlowError, audio_error};
use crate::text::concat;

verus! {

/// The sample rate Whisper expects, in Hz.
pub const WHISPER_SAMPLE_RATE: u32 = 16_000;

/// The longest recording kept, in seconds.
pub const MAX_RECORDING_SECONDS: usize = 600;

/// What the interface is told about a recording that started.
#[derive(Debug, Clone, PartialEq, Eq)]
pub struct AudioInfo {
    pub device_name: String,
    pub sample_rate: u32,
    pub channels: u16,
}

/// The format of the audio a recording delivers: its rate and the number of
/// interleaved channels.
#[derive(Debug, Clone, Copy, PartialEq, Eq, Structural)]
pub struct RecordingFormat {
    pub source_rate: u32,
    pub channels: u16,
}

/// Whether a recording is under way, and in which format.
#[derive(Debug)]
pub struct AudioRecorder {
    active: Option<RecordingFormat>,
}

/// The detail of the error for starting while a recording is under way.
pub open spec fn already_recording_detail() -> Seq<char> {
    "ya hay una grabación activa"@
}

/// The detail of the error for stopping when nothing is being recorded.
pub open spec fn not_recording_detail() -> Seq<char> {
    "no hay una grabación activa"@
}

/// The recorder's state after a start at `sample_rate` Hz with `channels`
/// channels: unchanged when a recording was already under way.
pub open spec fn state_after_start(
    state: Option<RecordingFormat>,
    sample_rate: u32,
    channels: u16,
) -> Option<RecordingFormat> {
    if state is Some {
        state
    } else {
        Some(RecordingFormat { source_rate: sample_rate, channels })
    }
}

impl AudioRecorder {
    /// The format of the recording under way, if any.
    pub closed spec fn active_format(&self) -> Option<RecordingFormat> {
        self.active
    }

    /// A recorder with nothing under way.
    pub fn new() -> (r: AudioRecorder)
        ensures
            r.active_format() is None,
    {
        AudioRecorder { active: None }
    }

    /// Whether a recording is under way.
    pub fn is_recording(&self) -> (r: bool)
        ensures
            r == self.active_format() is Some,
    {
        self.active.is_some()
    }

    /// `Ok` when no recording is under way, so that a new one may begin.
    pub fn check_idle(&self) -> (r: Result<(), AuralFlowError>)
        ensures
            r is Ok <==> self.active_format() is None,
            r matches Err(e) ==> (e matches AuralFlowError::Audio(m) && m@
                == already_recording_detail()),
    {
        if self.active.is_some() {
            return Err(audio_error("ya hay una grabación activa"));
        }
        Ok(())
    }

    /// Marks a recording from `device_name` at `sample_rate` Hz with
    /// `channels` channels as under way, unless one already is.
    pub fn start(&mut self, device_name: String, sample_rate: u32, channels: u16) -> (r: Result<
        AudioInfo,
        AuralFlowError,
    >)
        ensures
            final(self).active_format() == state_after_start(
                old(self).active_format(),
                sample_rate,
                channels,
            ),
            r is Ok <==> old(self).active_format() is None,
            r matches Ok(info) ==> (info.device_name@ == device_name@ && info.sample_rate
                == sample_rate && info.channels == channels),
            r matches Err(e) ==> (e matches AuralFlowError::Audio(m) && m@
                == already_recording_detail()),
    {
        self.check_idle()?;
        self.active = Some(RecordingFormat { source_rate: sample_rate, channels });
        Ok(AudioInfo { device_name, sample_rate, channels })
    }

    /// Ends the recording under way and returns its format; an error when
    /// nothing was being recorded. Either way nothing is under way afterwards.
    pub fn stop(&mut self) -> (r: Result<RecordingFormat, AuralFlowError>)
        ensures
            final(self).active_format() is None,
            r is Ok <==> old(self).active_format() is Some,
            r matches Ok(f) ==> old(self).active_format() == Some(f),
            r matches Err(e) ==> (e matches AuralFlowError::Audio(m) && m@
                == not_recording_detail()),
    {
        match self.active.take() {
            Some(format) => Ok(format),
            None => Err(audio_error("no hay una grabación activa")),
        }
    }
}

/// Why the microphone could not be opened; the text is what the audio
/// system reported.
#[derive(Debug, Clone, PartialEq, Eq)]
pub enum DeviceFailure {
    NoMicrophone,
    ConfigUnavailable(String),
    UnsupportedFormat(String),
    OpenFailed(String),
    StartFailed(String),
}

/// The detail of the error for a microphone that could not be opened.
pub open spec fn device_failure_detail(f: DeviceFailure) -> Seq<char> {
    match f {
        DeviceFailure::NoMicrophone => "no se encontró un micrófono"@,
        DeviceFailure::ConfigUnavailable(d) => "configuración no disponible: "@ + d@,
        DeviceFailure::UnsupportedFormat(d) => "formato de micrófono no compatible: "@ + d@,
        DeviceFailure::OpenFailed(d) => "no se pudo abrir el micrófono: "@ + d@,
        DeviceFailure::StartFailed(d) => "no se pudo iniciar: "@ + d@,
    }
}

/// The error for a microphone that could not be opened.
pub fn device_error(f: &DeviceFailure) -> (e: AuralFlowError)
    ensures
        e matches AuralFlowError::Audio(m) && m@ == device_failure_detail(*f),
{
    match f {
        DeviceFailure::NoMicrophone => audio_error("no se encontró un micrófono"),
        DeviceFailure::ConfigUnavailable(d) => AuralFlowError::Audio(
            concat("configuración no disponible: ", d.as_str()),
        ),
        DeviceFailure::UnsupportedFormat(d) => AuralFlowError::Audio(
            concat("formato de micrófono no compatible: ", d.as_str()),
        ),
        DeviceFailure::OpenFailed(d) => AuralFlowError::Audio(
            concat("no se pudo abrir el micrófono: ", d.as_str()),
        ),
        DeviceFailure::StartFailed(d) => AuralFlowError::Audio(
            concat("no se pudo iniciar: ", d.as_str()),
        ),
    }
}

/// The error for a capture buffer that another thread left locked.
pub fn buffer_locked_error() -> (e: AuralFlowError)
    ensures
        e matches AuralFlowError::Audio(m) && m@ == "buffer de audio bloqueado"@,
{
    audio_error("buffer de audio bloqueado")
}

/// A microphone that was opened and is delivering audio.
#[derive(Debug, Clone, PartialEq, Eq)]
pub struct InputDevice {
    pub name: String,
    pub sample_rate: u32,
    pub channels: u16,
}

impl AudioRecorder {
    /// Starts recording once the microphone was opened (`Ok`) or failed to
    /// open (`Err`): an error while a recording is under way, the device's
    /// error when it failed, and otherwise the recording is under way in the
    /// device's format. Every error leaves the state as it was.
    pub fn start_recording(&mut self, opened: Result<InputDevice, DeviceFailure>) -> (r: Result<
        AudioInfo,
        AuralFlowError,
    >)
        ensures
            old(self).active_format() is Some ==> (r matches Err(e) && (e matches AuralFlowError::Audio(
                m,
            ) && m@ == already_recording_detail())),
            old(self).active_format() is None ==> (opened matches Err(f) ==> (r matches Err(e) && (
            e matches AuralFlowError::Audio(m) && m@ == device_failure_detail(f)))),
            r is Err ==> final(self).active_format() == old(self).active_format(),
            r is Ok <==> (old(self).active_format() is None && opened is Ok),
            r matches Ok(info) ==> (opened matches Ok(d) && info.device_name@ == d.name@
                && info.sample_rate == d.sample_rate && info.channels == d.channels
                && final(self).active_format() == Some(
                RecordingFormat { source_rate: d.sample_rate, channels: d.channels },
            )),
    {
        self.check_idle()?;
        match opened {
            Ok(device) => self.start(device.name, device.sample_rate, device.channels),
            Err(failure) => Err(device_error(&failure)),
        }
    }
}

impl Default for AudioRecorder {
    fn default() -> (r: AudioRecorder)
        ensures
            r.active_format() is None,
    {
        AudioRecorder::new()
    }
}

/// Starting an idle recorder puts exactly the started format under way, and
/// a second start while recording changes nothing: the state that `stop`
/// then returns (by its contract, the format under way) is the first
/// recording's format.
pub proof fn lemma_start_stop_round_trip(
    sample_rate: u32,
    channels: u16,
    other_rate: u32,
    other_channels: u16,
)
    ensures
        state_after_start(None, sample_rate, channels) == Some(
            RecordingFormat { source_rate: sample_rate, channels },
        ),
        state_after_start(
            state_after_start(None, sample_rate, channels),
            other_rate,
            other_channels,
        ) == state_after_start(None, sample_rate, channels),
{
}

/// The most interleaved samples one recording keeps:
/// rate × channels × [`MAX_RECORDING_SECONDS`].
pub open spec fn max_samples_view(sample_rate: u32, channels: u16) -> int {
    sample_rate * channels * MAX_RECORDING_SECONDS
}

/// Whether [`max_recording_samples`] accepts this rate and channel count.
pub fn max_samples_fit(sample_rate: u32, channels: u16) -> (r: bool)
    ensures
        r == (max_samples_view(sample_rate, channels) <= usize::MAX),
{
    let rate: u128 = sample_rate as u128;
    let count: u128 = channels as u128;
    let seconds: u128 = MAX_RECORDING_SECONDS as u128;
    proof {
        assert(rate * count <= 0xffff_ffff * 0xffff) by (nonlinear_arith)
            requires
                rate <= 0xffff_ffff,
                count <= 0xffff,
        ;
        assert(rate * count * seconds <= 0xffff_ffff * 0xffff * seconds) by (nonlinear_arith)
            requires
                rate * count <= 0xffff_ffff * 0xffff,
                seconds <= usize::MAX,
        ;
    }
    let total: u128 = rate * count * seconds;
    total <= usize::MAX as u128
}

/// The most interleaved samples one recording keeps.
pub fn max_recording_samples(sample_rate: u32, channels: u16) -> (r: usize)
    requires
        max_samples_view(sample_rate, channels) <= usize::MAX,
    ensures
        r == max_samples_view(sample_rate, channels),
{
    proof {
        assert(0 <= sample_rate * channels <= sample_rate * channels * MAX_RECORDING_SECONDS)
            by (nonlinear_arith);
    }
    sample_rate as usize * channels as usize * MAX_RECORDING_SECONDS
}

/// How many of `incoming` new samples fit into a buffer that holds
/// `buffered` samples and may hold at most `max_samples`.
pub open spec fn accepted_view(max_samples: int, buffered: int, incoming: int) -> int {
    if buffered >= max_samples {
        0
    } else if incoming < max_samples - buffered {
        incoming
    } else {
        max_samples - buffered
    }
}

/// How many of `incoming` new samples the buffer takes.
pub fn accepted_samples(max_samples: usize, buffered: usize, incoming: usize) -> (r: usize)
    ensures
        r == accepted_view(max_samples as int, buffered as int, incoming as int),
{
    let remaining = max_samples.saturating_sub(buffered);
    if incoming < remaining {
        incoming
    } else {
        remaining
    }
}

/// Appending the accepted samples never takes a buffer that was within the
/// limit beyond it, takes no more than was offered, and takes nothing into a
/// full buffer.
pub proof fn lemma_capture_stays_within_limit(max_samples: nat, buffered: nat, incoming: nat)
    ensures
        buffered <= max_samples ==> buffered + accepted_view(max_samples as int, buffered as int, incoming as int) <= max_samples,
        0 <= accepted_view(max_samples as int, buffered as int, incoming as int) <= incoming,
        buffered >= max_samples ==> accepted_view(max_samples as int, buffered as int, incoming as int) == 0,
{
}

/// `Ok` when the microphone delivered some audio.
pub fn check_captured(sample_count: usize) -> (r: Result<(), AuralFlowError>)
    ensures
        r is Ok <==> sample_count > 0,
        r matches Err(e) ==> (e matches AuralFlowError::Audio(m) && m@
            == "el micrófono no entregó audio"@),
{
    if sample_count == 0 {
        return Err(audio_error("el micrófono no entregó audio"));
    }
    Ok(())
}

/// The number of mono samples that down-mixing `input_len` interleaved
/// samples of `channels` channels gives: whole frames only, and the input
/// unchanged for one channel or fewer.
pub open spec fn downmixed_len_view(input_len: nat, channels: nat) -> nat {
    if channels <= 1 {
        input_len
    } else {
        input_len / channels
    }
}

/// Down-mixing keeps every whole frame and only whole frames: with more than
/// one channel, `r` frames of `channels` samples fit in the input and one
/// more would not; with one channel or none the length is unchanged.
pub proof fn lemma_downmix_whole_frames(input_len: nat, channels: nat)
    ensures
        channels > 1 ==> {
            let r = downmixed_len_view(input_len, channels);
            &&& r * channels <= input_len
            &&& input_len < (r + 1) * channels
        },
        channels <= 1 ==> downmixed_len_view(input_len, channels) == input_len,
{
    if channels > 1 {
        let r = input_len / channels;
        assert(r * channels <= input_len && input_len < (r + 1) * channels) by (nonlinear_arith)
            requires
                channels > 1,
                r == input_len / channels,
        ;
    }
}

/// The number of mono samples down-mixing yields.
pub fn downmixed_len(input_len: usize, channels: usize) -> (r: usize)
    ensures
        r == downmixed_len_view(input_len as nat, channels as nat),
{
    if channels <= 1 {
        input_len
    } else {
        input_len / channels
    }
}

/// The number of samples linear resampling of `input_len` samples from
/// `source_rate` to `target_rate` yields: none for empty input or a zero
/// rate, the input's length for equal rates, otherwise
/// ⌊input_len × target_rate / source_rate⌋.
pub open spec fn resampled_len_view(input_len: nat, source_rate: nat, target_rate: nat) -> nat {
    if input_len == 0 || source_rate == 0 || target_rate == 0 {
        0
    } else if source_rate == target_rate {
        input_len
    } else {
        input_len * target_rate / source_rate
    }
}

/// Resampling between equal non-zero rates keeps the length; going from a
/// rate to one third of it keeps a third of the samples (rounded down).
pub proof fn lemma_resampled_len_rates(input_len: nat, rate: nat)
    requires
        rate > 0,
    ensures
        resampled_len_view(input_len, rate, rate) == input_len,
        resampled_len_view(input_len, 3 * rate, rate) == input_len / 3,
{
    if input_len > 0 {
        assert(input_len * rate / (3 * rate) == input_len / 3) by (nonlinear_arith)
            requires
                rate > 0,
        ;
    }
}

/// The resampled recording lasts as long as the input: for non-empty input
/// and non-zero rates, the output length `r` is the largest count whose
/// duration at the target rate does not exceed the input's duration at the
/// source rate, `r × source_rate ≤ input_len × target_rate < (r + 1) ×
/// source_rate`; with no input or a zero rate it is empty.
pub proof fn lemma_resampled_len_keeps_duration(input_len: nat, source_rate: nat, target_rate: nat)
    ensures
        input_len > 0 && source_rate > 0 && target_rate > 0 ==> {
            let r = resampled_len_view(input_len, source_rate, target_rate);
            &&& r * source_rate <= input_len * target_rate
            &&& input_len * target_rate < (r + 1) * source_rate
        },
        (input_len == 0 || source_rate == 0 || target_rate == 0) ==> resampled_len_view(
            input_len,
            source_rate,
            target_rate,
        ) == 0,
{
    if input_len > 0 && source_rate > 0 && target_rate > 0 {
        let r = resampled_len_view(input_len, source_rate, target_rate);
        if source_rate == target_rate {
            assert(r == input_len);
            assert(input_len * target_rate < (input_len + 1) * source_rate) by (nonlinear_arith)
                requires
                    source_rate == target_rate,
                    source_rate > 0,
            ;
        } else {
            let x = input_len * target_rate;
            assert(r == x / source_rate);
            assert((x / source_rate) * source_rate <= x && x < (x / source_rate + 1)
                * source_rate) by (nonlinear_arith)
                requires
                    source_rate > 0,
                    x >= 0,
            ;
        }
    }
}

/// The number of samples linear resampling yields.
pub fn resampled_len(input_len: usize, source_rate: u32, target_rate: u32) -> (r: usize)
    requires
        input_len * target_rate <= u64::MAX,
    ensures
        r == (resampled_len_view(input_len as nat, source_rate as nat, target_rate as nat)
            as usize),
        resampled_len_view(input_len as nat, source_rate as nat, target_rate as nat)
            <= usize::MAX ==> r == resampled_len_view(
            input_len as nat,
            source_rate as nat,
            target_rate as nat,
        ),
{
    if input_len == 0 || source_rate == 0 || target_rate == 0 {
        return 0;
    }
    if source_rate == target_rate {
        return input_len;
    }
    let product: u64 = input_len as u64 * target_rate as u64;
    let length: u64 = product / source_rate as u64;
    length as usize
}

} // verus!
