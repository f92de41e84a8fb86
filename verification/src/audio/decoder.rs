use vstd::prelude::*;

use crate::paths::{extension_of, file_tail, occurs_in, path_extension, plain_path};
use crate::text::{chars_of, joined, push_str, string_from_chars};
use crate::timeline::state::clamp_i64;

verus! {

/// The audio formats that can be decoded.
#[derive(Clone, Copy, Debug, PartialEq, Eq, Structural)]
pub enum AudioFormat {
    Wav,
    Mp3,
}

/// `c` in lower case when it is an ASCII capital letter.
pub open spec fn lower_char(c: char) -> char {
    if 'A' <= c <= 'Z' {
        ((c as u8) + 32) as char
    } else {
        c
    }
}

/// `s` with ASCII letters in lower case, as `str::to_ascii_lowercase` gives it.
pub open spec fn ascii_lowercase(s: Seq<char>) -> Seq<char> {
    s.map_values(|c: char| lower_char(c))
}

/// `s` with ASCII letters in lower case.
pub fn to_ascii_lowercase(s: &str) -> (r: Vec<char>)
    ensures
        r@ == ascii_lowercase(s@),
{
    let chars = chars_of(s);
    let mut r: Vec<char> = Vec::new();
    let mut i: usize = 0;
    while i < chars.len()
        invariant
            i <= chars@.len(),
            r@ == ascii_lowercase(chars@.take(i as int)),
        decreases chars.len() - i,
    {
        let c = chars[i];
        let lower = if 'A' <= c && c <= 'Z' {
            (c as u8 + 32) as char
        } else {
            c
        };
        r.push(lower);
        proof {
            assert(ascii_lowercase(chars@.take(i as int + 1)) =~= ascii_lowercase(
                chars@.take(i as int),
            ).push(lower_char(c)));
        }
        i = i + 1;
    }
    proof {
        assert(chars@.take(chars@.len() as int) =~= chars@);
    }
    r
}

/// The format a file extension names, case aside, or the reason there is none.
pub open spec fn format_of_extension(ext: Seq<char>) -> Result<AudioFormat, Seq<char>> {
    let lower = ascii_lowercase(ext);
    if lower == "wav"@ {
        Ok(AudioFormat::Wav)
    } else if lower == "mp3"@ {
        Ok(AudioFormat::Mp3)
    } else {
        Err("unsupported audio format: ."@ + lower)
    }
}

/// The format a file extension names, or the reason there is none.
pub fn audio_format_of_extension(ext: &str) -> (r: Result<AudioFormat, String>)
    ensures
        match format_of_extension(ext@) {
            Ok(f) => r == Ok::<AudioFormat, String>(f),
            Err(e) => r matches Err(m) && m@ == e,
        },
{
    let lower = to_ascii_lowercase(ext);
    let text = string_from_chars(&lower);
    if text == "wav".to_string() {
        Ok(AudioFormat::Wav)
    } else if text == "mp3".to_string() {
        Ok(AudioFormat::Mp3)
    } else {
        Err(joined("unsupported audio format: .", text.as_str()))
    }
}

/// What picking a decoder gives for a file at `path` whose extension is
/// `ext`: the format it names, or the reason there is none.
pub open spec fn format_outcome(ext: Option<Seq<char>>, path: Seq<char>) -> Result<AudioFormat, Seq<char>> {
    match ext {
        None => Err("unsupported file type: "@ + path),
        Some(x) => format_of_extension(x),
    }
}

/// A picked format, or the reason there is none, as text.
pub open spec fn outcome_text(r: Result<AudioFormat, String>) -> Result<AudioFormat, Seq<char>> {
    match r {
        Ok(f) => Ok(f),
        Err(e) => Err(e@),
    }
}

/// Picks the decoder for the file at `path` by its extension: the
/// extension found in the path decides, and a path without one is refused.
pub fn audio_format_of_path(path: &str) -> (r: Result<AudioFormat, String>)
    ensures
        exists|ext: Option<Seq<char>>|
            (ext matches Some(x) ==> occurs_in("."@ + x, path@) && !x.contains('.'))
                && #[trigger] format_outcome(ext, path@) == outcome_text(r),
        !path@.contains('.') ==> outcome_text(r) == format_outcome(None, path@),
        plain_path(path@) ==> outcome_text(r) == format_outcome(
            extension_of(file_tail(path@)),
            path@,
        ),
{
    match path_extension(path) {
        Some(ext) => {
            let r = audio_format_of_extension(ext.as_str());
            assert(format_outcome(Some(ext@), path@) == outcome_text(r));
            r
        },
        None => {
            let r = joined("unsupported file type: ", path);
            assert(format_outcome(None, path@) == outcome_text(Err(r)));
            Err(r)
        },
    }
}

/// `text` followed by the path.
fn message_for(text: &str, path: &str) -> (r: String)
    ensures
        r@ == text@ + path@,
{
    joined(text, path)
}

/// What the check of one MP3 frame finds.
#[derive(Clone, Copy, Debug, PartialEq, Eq, Structural)]
pub enum FrameVerdict {
    BadSampleRate,
    BadChannelCount,
    VariableSampleRate,
    VariableChannelCount,
    Accepted,
}

/// The check of a frame of `rate` and `ch` channels after frames that set
/// `rate_seen` and `ch_seen`.
pub open spec fn frame_verdict(rate_seen: Option<u32>, ch_seen: Option<u16>, rate: i32, ch: usize) -> FrameVerdict {
    if rate < 0 {
        FrameVerdict::BadSampleRate
    } else if ch > u16::MAX {
        FrameVerdict::BadChannelCount
    } else if rate_seen is Some && rate_seen->0 != rate {
        FrameVerdict::VariableSampleRate
    } else if ch_seen is Some && ch_seen->0 != ch {
        FrameVerdict::VariableChannelCount
    } else {
        FrameVerdict::Accepted
    }
}

/// The start of the message that reports a rejected frame; the path follows.
pub open spec fn verdict_message(v: FrameVerdict) -> Seq<char> {
    match v {
        FrameVerdict::BadSampleRate => "invalid MP3 sample rate in "@,
        FrameVerdict::BadChannelCount => "invalid MP3 channel count in "@,
        FrameVerdict::VariableSampleRate => "unsupported variable sample rate MP3 in "@,
        FrameVerdict::VariableChannelCount => "unsupported variable channel count MP3 in "@,
        FrameVerdict::Accepted => Seq::empty(),
    }
}

/// The sample format and channel count that the first MP3 frame set and all
/// later frames must share.
pub struct Mp3StreamFormat {
    pub sample_rate: Option<u32>,
    pub channels: Option<u16>,
}

impl Mp3StreamFormat {
    pub fn new() -> (r: Self)
        ensures
            r.sample_rate is None,
            r.channels is None,
    {
        Mp3StreamFormat { sample_rate: None, channels: None }
    }

    /// Checks one decoded frame of the file at `path` against the frames
    /// before it; the first frame sets the format.
    pub fn accept_frame(&mut self, frame_sample_rate: i32, frame_channels: usize, path: &str) -> (r: Result<(), String>)
        ensures
            ({
                let v = frame_verdict(
                    old(self).sample_rate,
                    old(self).channels,
                    frame_sample_rate,
                    frame_channels,
                );
                &&& v == FrameVerdict::Accepted ==> {
                    &&& r is Ok
                    &&& final(self).sample_rate == Some(frame_sample_rate as u32)
                    &&& final(self).channels == Some(frame_channels as u16)
                }
                &&& v != FrameVerdict::Accepted ==> (r matches Err(e) && e@ == verdict_message(v)
                    + path@)
            }),
    {
        if frame_sample_rate < 0 {
            return Err(message_for("invalid MP3 sample rate in ", path));
        }
        if frame_channels > u16::MAX as usize {
            return Err(message_for("invalid MP3 channel count in ", path));
        }
        let rate = frame_sample_rate as u32;
        let channels = frame_channels as u16;
        match self.sample_rate {
            Some(value) => {
                if value != rate {
                    return Err(message_for("unsupported variable sample rate MP3 in ", path));
                }
            },
            None => {
                self.sample_rate = Some(rate);
            },
        }
        match self.channels {
            Some(value) => {
                if value != channels {
                    return Err(message_for("unsupported variable channel count MP3 in ", path));
                }
            },
            None => {
                self.channels = Some(channels);
            },
        }
        Ok(())
    }

    /// The format of the whole file at `path`, once every frame was read.
    pub fn finish(&self, path: &str) -> (r: Result<(u32, u16), String>)
        ensures
            self.sample_rate is None ==> (r matches Err(e) && e@ == "no audio frames found in "@
                + path@),
            self.sample_rate is Some && self.channels is None ==> (r matches Err(e) && e@
                == "no audio channels found in "@ + path@),
            self.sample_rate is Some && self.channels is Some ==> r == Ok::<(u32, u16), String>(
                (self.sample_rate->0, self.channels->0),
            ),
    {
        match self.sample_rate {
            None => Err(message_for("no audio frames found in ", path)),
            Some(rate) => match self.channels {
                None => Err(message_for("no audio channels found in ", path)),
                Some(c) => Ok((rate, c)),
            },
        }
    }
}

/// The largest sample value of signed integer WAV samples of this width.
pub open spec fn full_scale(bits: nat) -> int {
    if bits == 0 {
        0
    } else {
        vstd::arithmetic::power2::pow2((bits - 1) as nat) - 1
    }
}

/// The value that integer samples are divided by to scale them into
/// `[-1, 1]`: the largest value of the sample width, at least one bit wide.
pub fn wav_int_full_scale(bits_per_sample: u16, path: &str) -> (r: Result<i64, String>)
    requires
        bits_per_sample <= 64,
    ensures
        ({
            let bits: nat = if bits_per_sample == 0 { 1 } else { bits_per_sample as nat };
            &&& full_scale(bits) > 0 ==> r == Ok::<i64, String>(full_scale(bits) as i64)
            &&& full_scale(bits) <= 0 ==> (r matches Err(e) && e@ == "invalid WAV bit depth for "@
                + path@)
        }),
{
    let bits: u16 = if bits_per_sample == 0 { 1 } else { bits_per_sample };
    let mut power: u128 = 1;
    let mut k: u16 = 1;
    proof {
        vstd::arithmetic::power2::lemma2_to64();
    }
    while k < bits
        invariant
            1 <= k <= bits <= 64,
            power == vstd::arithmetic::power2::pow2((k - 1) as nat),
            power <= 0x8000_0000_0000_0000,
        decreases bits - k,
    {
        proof {
            vstd::arithmetic::power2::lemma_pow2_adds((k - 1) as nat, 1);
            vstd::arithmetic::power2::lemma2_to64();
            vstd::arithmetic::power2::lemma2_to64_rest();
            if k < 63 {
                vstd::arithmetic::power2::lemma_pow2_strictly_increases(k as nat, 63);
            }
        }
        power = power * 2;
        k = k + 1;
    }
    let max_value: i128 = power as i128 - 1;
    if max_value <= 0 {
        return Err(message_for("invalid WAV bit depth for ", path));
    }
    proof {
        vstd::arithmetic::power2::lemma2_to64();
    }
    if max_value > i64::MAX as i128 {
        return Ok(i64::MAX);
    }
    Ok(max_value as i64)
}

/// The length in microseconds of interleaved audio, rounded to the nearest
/// microsecond.
pub open spec fn audio_duration_us(sample_count: nat, channels: nat, sample_rate: nat) -> int {
    ((sample_count * 1_000_000 + channels * sample_rate / 2) / (channels * sample_rate)) as int
}

/// Checks a decoded buffer's format and gives its duration.
pub fn buffer_duration_us(sample_count: usize, sample_rate: u32, channels: u16) -> (r: Result<i64, String>)
    ensures
        channels == 0 ==> (r matches Err(e) && e@ == "audio channels cannot be zero"@),
        channels != 0 && sample_rate == 0 ==> (r matches Err(e) && e@ == "sample rate cannot be zero"@),
        channels != 0 && sample_rate != 0 && sample_count == 0 ==> (r matches Err(e) && e@
            == "audio file produced no samples"@),
        channels != 0 && sample_rate != 0 && sample_count != 0 ==> r == Ok::<i64, String>(
            clamp_i64(audio_duration_us(sample_count as nat, channels as nat, sample_rate as nat)),
        ),
{
    if channels == 0 {
        return Err("audio channels cannot be zero".to_string());
    }
    if sample_rate == 0 {
        return Err("sample rate cannot be zero".to_string());
    }
    if sample_count == 0 {
        return Err("audio file produced no samples".to_string());
    }
    let n = sample_count as u128;
    let c = channels as u128;
    let rate = sample_rate as u128;
    proof {
        assert(n * 1_000_000 <= 0xffff_ffff_ffff_ffff * 1_000_000) by (nonlinear_arith)
            requires
                n <= 0xffff_ffff_ffff_ffff,
        ;
        assert(c * rate <= 0xffff * 0xffff_ffff) by (nonlinear_arith)
            requires
                c <= 0xffff,
                rate <= 0xffff_ffff,
        ;
        assert(c * rate >= 1) by (nonlinear_arith)
            requires
                c >= 1,
                rate >= 1,
        ;
    }
    let denominator = c * rate;
    let value = (n * 1_000_000 + denominator / 2) / denominator;
    if value > i64::MAX as u128 {
        return Ok(i64::MAX);
    }
    Ok(value as i64)
}

} // verus!

verus! {

/// One frame that the MP3 decoder read: its sample rate, its channel count
/// and its samples, interleaved.
pub struct Mp3Frame {
    pub sample_rate: i32,
    pub channels: usize,
    pub data: Vec<i16>,
}

/// A decoded MP3 frame as plain values.
pub open spec fn frame_values(f: Mp3Frame) -> (i32, usize, Seq<i16>) {
    (f.sample_rate, f.channels, f.data@)
}

/// Decoded MP3 frames as plain values.
pub open spec fn frames_values(frames: Seq<Mp3Frame>) -> Seq<(i32, usize, Seq<i16>)> {
    frames.map_values(|f: Mp3Frame| frame_values(f))
}

/// A reason given as text, where there is one.
pub open spec fn reason_text(reason: Option<String>) -> Option<Seq<char>> {
    match reason {
        Some(e) => Some(e@),
        None => None,
    }
}

/// What the `minimp3` decoder reads from `bytes`: the frames it decoded, in
/// order, and the text of the error it stopped on, where it did not stop at
/// the end of the data. It is a function of the bytes alone.
pub uninterp spec fn mp3_frames(bytes: Seq<u8>) -> (Seq<(i32, usize, Seq<i16>)>, Option<Seq<char>>);

/// Runs `minimp3::Decoder::next_frame` over `bytes` until it reports the end
/// of the data or an error, and hands back the frames read and that error's
/// text: what `mp3_frames` names.
#[verifier::external_body]
pub(crate) fn decode_mp3_frames(bytes: &[u8]) -> (r: (Vec<Mp3Frame>, Option<String>))
    ensures
        (frames_values(r.0@), reason_text(r.1)) == mp3_frames(bytes@),
{
    let mut decoder = minimp3::Decoder::new(bytes);
    let mut frames = Vec::new();
    loop {
        match decoder.next_frame() {
            Ok(f) => frames.push(Mp3Frame { sample_rate: f.sample_rate, channels: f.channels, data: f.data }),
            Err(minimp3::Error::Eof) => return (frames, None),
            Err(err) => return (frames, Some(err.to_string())),
        }
    }
}

/// The format the first `frames` set, with their samples joined, or the
/// verdict on the first frame that does not fit the ones before it.
pub open spec fn mp3_scan(frames: Seq<(i32, usize, Seq<i16>)>) -> Result<
    (Option<u32>, Option<u16>, Seq<i16>),
    FrameVerdict,
>
    decreases frames.len(),
{
    if frames.len() == 0 {
        Ok((None, None, Seq::empty()))
    } else {
        match mp3_scan(frames.drop_last()) {
            Err(v) => Err(v),
            Ok((rate, ch, data)) => {
                let f = frames.last();
                let v = frame_verdict(rate, ch, f.0, f.1);
                if v == FrameVerdict::Accepted {
                    Ok((Some(f.0 as u32), Some(f.1 as u16), data + f.2))
                } else {
                    Err(v)
                }
            },
        }
    }
}

/// What decoding the MP3 file at `path` gives, from the frames the decoder
/// read and the error it stopped on: the first frame whose format differs
/// from those before it is refused; then a decoder error; then a file with
/// no frames; else the first frame's rate and channels with all samples.
pub open spec fn mp3_outcome(
    decoded: (Seq<(i32, usize, Seq<i16>)>, Option<Seq<char>>),
    path: Seq<char>,
) -> Result<(u32, u16, Seq<i16>), Seq<char>> {
    match mp3_scan(decoded.0) {
        Err(v) => Err(verdict_message(v) + path),
        Ok((rate, ch, data)) => match decoded.1 {
            Some(e) => Err("failed to decode MP3 frame in "@ + path + ": "@ + e),
            None => match rate {
                None => Err("no audio frames found in "@ + path),
                Some(r) => match ch {
                    None => Err("no audio channels found in "@ + path),
                    Some(c) => Ok((r, c, data)),
                },
            },
        },
    }
}

/// A decoded MP3 stream, or the reason there is none, as plain values.
pub open spec fn mp3_result_values(r: Result<(u32, u16, Vec<i16>), String>) -> Result<
    (u32, u16, Seq<i16>),
    Seq<char>,
> {
    match r {
        Ok((rate, ch, data)) => Ok((rate, ch, data@)),
        Err(e) => Err(e@),
    }
}

/// Checks the frames decoded from the MP3 file at `path`, and the error the
/// decoder stopped on, and joins their samples.
pub fn check_mp3_frames(frames: &Vec<Mp3Frame>, stop: Option<String>, path: &str) -> (r: Result<
    (u32, u16, Vec<i16>),
    String,
>)
    ensures
        mp3_result_values(r) == mp3_outcome((frames_values(frames@), reason_text(stop)), path@),
{
    let ghost all = frames_values(frames@);
    let mut format = Mp3StreamFormat::new();
    let mut samples: Vec<i16> = Vec::new();
    let mut i: usize = 0;
    while i < frames.len()
        invariant
            i <= frames@.len(),
            all == frames_values(frames@),
            mp3_scan(all.take(i as int)) == Ok::<(Option<u32>, Option<u16>, Seq<i16>), FrameVerdict>(
                (format.sample_rate, format.channels, samples@),
            ),
        decreases frames.len() - i,
    {
        let frame = &frames[i];
        assert(all.take(i + 1).drop_last() =~= all.take(i as int));
        assert(all.take(i + 1).last() == frame_values(*frame));
        match format.accept_frame(frame.sample_rate, frame.channels, path) {
            Ok(()) => {},
            Err(e) => {
                proof {
                    lemma_scan_refused(all, i as int);
                }
                return Err(e);
            },
        }
        let ghost before = samples@;
        let mut j: usize = 0;
        while j < frame.data.len()
            invariant
                j <= frame.data@.len(),
                samples@ == before + frame.data@.take(j as int),
            decreases frame.data.len() - j,
        {
            samples.push(frame.data[j]);
            j = j + 1;
            assert(before + frame.data@.take(j as int) =~= (before + frame.data@.take(j - 1)).push(
                frame.data@[j - 1],
            ));
        }
        assert(frame.data@.take(j as int) =~= frame.data@);
        i = i + 1;
    }
    assert(all.take(i as int) =~= all);
    match stop {
        Some(e) => Err(reason_message("failed to decode MP3 frame in ", path, e.as_str())),
        None => match format.finish(path) {
            Ok((rate, channels)) => Ok((rate, channels, samples)),
            Err(e) => Err(e),
        },
    }
}

/// Where the frame at `i` is refused, the scan of the first `i + 1` frames
/// is refused with the same verdict, and so is the scan of all of them.
proof fn lemma_scan_refused(all: Seq<(i32, usize, Seq<i16>)>, i: int)
    requires
        0 <= i < all.len(),
        mp3_scan(all.take(i + 1)) is Err,
    ensures
        mp3_scan(all) == mp3_scan(all.take(i + 1)),
    decreases all.len() - i,
{
    if i + 1 < all.len() {
        assert(all.take(i + 2).drop_last() =~= all.take(i + 1));
        lemma_scan_refused(all, i + 1);
    } else {
        assert(all.take(i + 1) =~= all);
    }
}

/// Decodes the MP3 data `bytes` of the file at `path` into its sample rate,
/// channel count and interleaved samples.
pub fn decode_mp3_bytes(bytes: &[u8], path: &str) -> (r: Result<(u32, u16, Vec<i16>), String>)
    ensures
        mp3_result_values(r) == mp3_outcome(mp3_frames(bytes@), path@),
{
    let (frames, stop) = decode_mp3_frames(bytes);
    check_mp3_frames(&frames, stop, path)
}

} // verus!

verus! {

/// The header of a WAV file: channels, sample rate, bits per sample, and
/// whether its samples are floating point.
pub struct WavHeader {
    pub channels: u16,
    pub sample_rate: u32,
    pub bits_per_sample: u16,
    pub float_samples: bool,
}

/// A WAV header read, or the reason there is none, as plain values.
pub open spec fn header_values(r: Result<WavHeader, String>) -> Result<(u16, u32, u16, bool), Seq<char>> {
    match r {
        Ok(h) => Ok((h.channels, h.sample_rate, h.bits_per_sample, h.float_samples)),
        Err(e) => Err(e@),
    }
}

/// Integer samples read, or the reason they could not be, as plain values.
pub open spec fn samples_values(r: Result<Vec<i32>, String>) -> Result<Seq<i32>, Seq<char>> {
    match r {
        Ok(v) => Ok(v@),
        Err(e) => Err(e@),
    }
}

/// What `hound::WavReader::new` reads of the header of the WAV data
/// `bytes`, or the text of its error. It is a function of the bytes alone.
pub uninterp spec fn wav_header(bytes: Seq<u8>) -> Result<(u16, u32, u16, bool), Seq<char>>;

/// What `hound` reads as `i32` samples from the WAV data `bytes`, in order,
/// or the text of the first error it meets. It is a function of the bytes alone.
pub uninterp spec fn wav_int_samples(bytes: Seq<u8>) -> Result<Seq<i32>, Seq<char>>;

/// `hound::WavReader::new` over `bytes`, and the reader's `spec`: what
/// `wav_header` names.
#[verifier::external_body]
pub(crate) fn read_wav_header(bytes: &[u8]) -> (r: Result<WavHeader, String>)
    ensures
        header_values(r) == wav_header(bytes@),
{
    match hound::WavReader::new(bytes) {
        Ok(reader) => {
            let spec = reader.spec();
            let float_samples = match spec.sample_format {
                hound::SampleFormat::Float => true,
                hound::SampleFormat::Int => false,
            };
            Ok(WavHeader { channels: spec.channels, sample_rate: spec.sample_rate, bits_per_sample: spec.bits_per_sample, float_samples })
        },
        Err(err) => Err(err.to_string()),
    }
}

/// `hound::WavReader::samples::<i32>` over `bytes`, collected up to the
/// first error: what `wav_int_samples` names.
#[verifier::external_body]
pub(crate) fn read_wav_int_samples(bytes: &[u8]) -> (r: Result<Vec<i32>, String>)
    ensures
        samples_values(r) == wav_int_samples(bytes@),
{
    match hound::WavReader::new(bytes) {
        Ok(mut reader) => reader.samples::<i32>().map(|s| s.map_err(|err| err.to_string())).collect(),
        Err(err) => Err(err.to_string()),
    }
}

/// The samples of a WAV file: integers with the value that scales them into
/// `[-1, 1]`, or floating point, which is read where floats can be held.
pub enum WavSamples {
    Int { full_scale: i64, samples: Vec<i32> },
    Float,
}

/// A decoded WAV file.
pub struct WavAudio {
    pub channels: u16,
    pub sample_rate: u32,
    pub samples: WavSamples,
}

/// What decoding the WAV file at `path` gives, from its header and its
/// integer samples: the header's error; for a float file its format; else a
/// bit depth too small or too large to scale by, then a sample's error, else
/// the samples with their full scale.
pub open spec fn wav_outcome(
    header: Result<(u16, u32, u16, bool), Seq<char>>,
    ints: Result<Seq<i32>, Seq<char>>,
    path: Seq<char>,
) -> Result<(u16, u32, Option<(i64, Seq<i32>)>), Seq<char>> {
    match header {
        Err(e) => Err("failed to open WAV file "@ + path + ": "@ + e),
        Ok((ch, rate, bits, float)) => {
            let width: nat = if bits == 0 { 1 } else { bits as nat };
            if float {
                Ok((ch, rate, None))
            } else if bits > 64 || full_scale(width) <= 0 {
                Err("invalid WAV bit depth for "@ + path)
            } else {
                match ints {
                    Err(e) => Err("failed to decode WAV sample in "@ + path + ": "@ + e),
                    Ok(xs) => Ok((ch, rate, Some((full_scale(width) as i64, xs)))),
                }
            }
        },
    }
}

/// A decoded WAV file, or the reason there is none, as plain values.
pub open spec fn wav_result_values(r: Result<WavAudio, String>) -> Result<
    (u16, u32, Option<(i64, Seq<i32>)>),
    Seq<char>,
> {
    match r {
        Ok(a) => Ok(
            (
                a.channels,
                a.sample_rate,
                match a.samples {
                    WavSamples::Int { full_scale, samples } => Some((full_scale, samples@)),
                    WavSamples::Float => None,
                },
            ),
        ),
        Err(e) => Err(e@),
    }
}

/// `prefix`, the path, `": "` and `reason`, as one text.
fn reason_message(prefix: &str, path: &str, reason: &str) -> (r: String)
    ensures
        r@ == prefix@ + path@ + ": "@ + reason@,
{
    let mut chars: Vec<char> = Vec::new();
    push_str(&mut chars, prefix);
    push_str(&mut chars, path);
    push_str(&mut chars, ": ");
    push_str(&mut chars, reason);
    proof {
        assert(chars@ =~= prefix@ + path@ + ": "@ + reason@);
    }
    string_from_chars(&chars)
}

/// Decodes the WAV data `bytes` of the file at `path`: its format, and its
/// samples where they are integers.
pub fn decode_wav_bytes(bytes: &[u8], path: &str) -> (r: Result<WavAudio, String>)
    ensures
        wav_result_values(r) == wav_outcome(wav_header(bytes@), wav_int_samples(bytes@), path@),
{
    let header = match read_wav_header(bytes) {
        Ok(h) => h,
        Err(e) => {
            return Err(reason_message("failed to open WAV file ", path, e.as_str()));
        },
    };
    if header.float_samples {
        return Ok(
            WavAudio {
                channels: header.channels,
                sample_rate: header.sample_rate,
                samples: WavSamples::Float,
            },
        );
    }
    if header.bits_per_sample > 64 {
        return Err(message_for("invalid WAV bit depth for ", path));
    }
    let full_scale = match wav_int_full_scale(header.bits_per_sample, path) {
        Ok(v) => v,
        Err(e) => {
            return Err(e);
        },
    };
    match read_wav_int_samples(bytes) {
        Ok(samples) => Ok(
            WavAudio {
                channels: header.channels,
                sample_rate: header.sample_rate,
                samples: WavSamples::Int { full_scale, samples },
            },
        ),
        Err(e) => Err(reason_message("failed to decode WAV sample in ", path, e.as_str())),
    }
}

} // verus!
