//! The online transcription service: the WAV file that is uploaded, and the
//! decisions taken on the request and on the reply.

use vstd::prelude::*;
use crate::error::{AuralFlowError, online_error};
use crate::text::{concat, is_blank_text, take_chars, text_equals, trim, trim_text};

verus! {

/// The sample rate of the uploaded audio, in Hz.
pub const UPLOAD_SAMPLE_RATE: u32 = 16_000;

/// The most characters of a rejection's body that are reported.
pub const MAX_DETAIL_CHARS: usize = 240;

/// `x` as two little-endian bytes.
pub open spec fn le16(x: u16) -> Seq<u8> {
    seq![(x % 256) as u8, (x / 256) as u8]
}

/// `x` as four little-endian bytes.
pub open spec fn le32(x: u32) -> Seq<u8> {
    seq![(x % 256) as u8, ((x / 256) % 256) as u8, ((x / 65536) % 256) as u8, (x / 16777216) as u8]
}

/// 16-bit samples as little-endian two's-complement bytes, in order.
pub open spec fn pcm_bytes(samples: Seq<i16>) -> Seq<u8>
    decreases samples.len(),
{
    if samples.len() == 0 {
        Seq::empty()
    } else {
        pcm_bytes(samples.drop_last()) + le16(samples.last() as u16)
    }
}

/// The size field of the data chunk for `sample_count` samples: twice the
/// count, truncated to 32 bits.
pub open spec fn wav_data_len(sample_count: nat) -> u32 {
    (sample_count * 2) as u32
}

/// The 44-byte header of a mono 16-bit PCM WAV file with `sample_count`
/// samples at `sample_rate` Hz.
pub open spec fn wav_header(sample_count: nat, sample_rate: u32) -> Seq<u8> {
    let data_len = wav_data_len(sample_count);
    seq![0x52u8, 0x49u8, 0x46u8, 0x46u8] // RIFF
    + le32((36 + data_len) as u32)
    + seq![0x57u8, 0x41u8, 0x56u8, 0x45u8, 0x66u8, 0x6du8, 0x74u8, 0x20u8] // "WAVEfmt "
    + le32(16)
    + le16(1)
    + le16(1)
    + le32(sample_rate)
    + le32((sample_rate * 2) as u32)
    + le16(2)
    + le16(16)
    + seq![0x64u8, 0x61u8, 0x74u8, 0x61u8] // data
    + le32(data_len)
}

/// A mono 16-bit PCM WAV file holding `samples` at `sample_rate` Hz.
pub open spec fn wav_file(samples: Seq<i16>, sample_rate: u32) -> Seq<u8> {
    wav_header(samples.len(), sample_rate) + pcm_bytes(samples)
}

/// Whether a WAV file of `sample_count` samples at `sample_rate` Hz can be
/// built without its size fields or its rate field overflowing.
pub open spec fn wav_fits(sample_count: nat, sample_rate: u32) -> bool {
    &&& sample_count * 2 <= usize::MAX
    &&& 36 + wav_data_len(sample_count) <= u32::MAX
    &&& 44 + wav_data_len(sample_count) <= usize::MAX
    &&& sample_rate * 2 <= u32::MAX
}

/// Whether [`pcm16_wav`] accepts `sample_count` samples at `sample_rate` Hz.
pub fn pcm16_wav_fits(sample_count: usize, sample_rate: u32) -> (r: bool)
    ensures
        r == wav_fits(sample_count as nat, sample_rate),
{
    if sample_count > usize::MAX / 2 {
        return false;
    }
    let data_len: u32 = (sample_count * 2) as u32;
    data_len <= u32::MAX - 36 && (data_len as usize) <= usize::MAX - 44 && sample_rate
        <= u32::MAX / 2
}

fn push_le16(out: &mut Vec<u8>, x: u16)
    ensures
        final(out)@ == old(out)@ + le16(x),
{
    out.push((x % 256) as u8);
    out.push((x / 256) as u8);
    assert(final(out)@ =~= old(out)@ + le16(x));
}

fn push_le32(out: &mut Vec<u8>, x: u32)
    ensures
        final(out)@ == old(out)@ + le32(x),
{
    out.push((x % 256) as u8);
    out.push(((x / 256) % 256) as u8);
    out.push(((x / 65536) % 256) as u8);
    out.push((x / 16777216) as u8);
    assert(final(out)@ =~= old(out)@ + le32(x));
}

fn push_four(out: &mut Vec<u8>, a: u8, b: u8, c: u8, d: u8)
    ensures
        final(out)@ == old(out)@ + seq![a, b, c, d],
{
    out.push(a);
    out.push(b);
    out.push(c);
    out.push(d);
    assert(final(out)@ =~= old(out)@ + seq![a, b, c, d]);
}

/// Encodes `samples` as a mono 16-bit PCM WAV file at `sample_rate` Hz.
pub fn pcm16_wav(samples: &[i16], sample_rate: u32) -> (wav: Vec<u8>)
    requires
        wav_fits(samples@.len(), sample_rate),
    ensures
        wav@ == wav_file(samples@, sample_rate),
{
    let data_len: u32 = (samples.len() * 2) as u32;
    let mut wav: Vec<u8> = Vec::with_capacity(44 + data_len as usize);
    push_four(&mut wav, 0x52, 0x49, 0x46, 0x46);
    push_le32(&mut wav, 36 + data_len);
    push_four(&mut wav, 0x57, 0x41, 0x56, 0x45);
    push_four(&mut wav, 0x66, 0x6d, 0x74, 0x20);
    push_le32(&mut wav, 16);
    push_le16(&mut wav, 1);
    push_le16(&mut wav, 1);
    push_le32(&mut wav, sample_rate);
    push_le32(&mut wav, sample_rate * 2);
    push_le16(&mut wav, 2);
    push_le16(&mut wav, 16);
    push_four(&mut wav, 0x64, 0x61, 0x74, 0x61);
    push_le32(&mut wav, data_len);
    assert(wav@ =~= wav_header(samples@.len(), sample_rate));
    let ghost header = wav@;
    let mut i: usize = 0;
    while i < samples.len()
        invariant
            i <= samples@.len(),
            wav@ == header + pcm_bytes(samples@.take(i as int)),
        decreases samples@.len() - i,
    {
        assert(samples@.take(i + 1).drop_last() =~= samples@.take(i as int));
        push_le16(&mut wav, samples[i] as u16);
        assert(header + pcm_bytes(samples@.take(i as int)) + le16(samples[i as int] as u16)
            =~= header + pcm_bytes(samples@.take(i + 1)));
        i = i + 1;
    }
    assert(samples@.take(samples@.len() as int) =~= samples@);
    wav
}

/// `pcm_bytes` gives two bytes per sample.
pub proof fn lemma_pcm_bytes_len(samples: Seq<i16>)
    ensures
        pcm_bytes(samples).len() == 2 * samples.len(),
    decreases samples.len(),
{
    if samples.len() > 0 {
        lemma_pcm_bytes_len(samples.drop_last());
    }
}

/// Every sample is written in order, little-endian, two bytes each: for every
/// index `k`, the data bytes at `2k` and `2k + 1` are the low and the high
/// byte of sample `k`'s 16-bit two's-complement pattern.
pub proof fn lemma_pcm_little_endian(samples: Seq<i16>)
    ensures
        pcm_bytes(samples).len() == 2 * samples.len(),
        forall|k: int|
            0 <= k < samples.len() ==> {
                &&& #[trigger] pcm_bytes(samples)[2 * k] == ((samples[k] as u16) % 256) as u8
                &&& pcm_bytes(samples)[2 * k + 1] == ((samples[k] as u16) / 256) as u8
            },
    decreases samples.len(),
{
    lemma_pcm_bytes_len(samples);
    if samples.len() > 0 {
        let p = pcm_bytes(samples);
        let rest = samples.drop_last();
        lemma_pcm_little_endian(rest);
        let q = pcm_bytes(rest);
        let n = rest.len() as int;
        let tail = le16(samples.last() as u16);
        assert(p == q + tail);
        assert forall|k: int| 0 <= k < samples.len() implies {
            &&& #[trigger] p[2 * k] == ((samples[k] as u16) % 256) as u8
            &&& p[2 * k + 1] == ((samples[k] as u16) / 256) as u8
        } by {
            if k < n {
                assert(rest[k] == samples[k]);
                assert(q[2 * k] == ((rest[k] as u16) % 256) as u8);
                assert(p[2 * k] == q[2 * k]);
                assert(p[2 * k + 1] == q[2 * k + 1]);
            } else {
                assert(samples.last() == samples[k]);
                assert(p[2 * k] == tail[0]);
                assert(p[2 * k + 1] == tail[1]);
            }
        }
    }
}

/// In the whole file, sample `k` sits at offsets `44 + 2k` (low byte) and
/// `45 + 2k` (high byte), after the 44-byte header.
pub proof fn lemma_wav_samples_little_endian(samples: Seq<i16>, sample_rate: u32)
    ensures
        wav_file(samples, sample_rate).len() == 44 + 2 * samples.len(),
        forall|k: int|
            0 <= k < samples.len() ==> {
                &&& #[trigger] wav_file(samples, sample_rate)[44 + 2 * k] == ((samples[k] as u16)
                    % 256) as u8
                &&& wav_file(samples, sample_rate)[45 + 2 * k] == ((samples[k] as u16) / 256) as u8
            },
{
    lemma_pcm_little_endian(samples);
    let p = pcm_bytes(samples);
    let h = wav_header(samples.len(), sample_rate);
    assert(h.len() == 44);
    let w = wav_file(samples, sample_rate);
    assert(w == h + p);
    assert forall|k: int| 0 <= k < samples.len() implies {
        &&& #[trigger] w[44 + 2 * k] == ((samples[k] as u16) % 256) as u8
        &&& w[45 + 2 * k] == ((samples[k] as u16) / 256) as u8
    } by {
        assert(p[2 * k] == ((samples[k] as u16) % 256) as u8);
        assert(w[44 + 2 * k] == p[2 * k]);
        assert(w[45 + 2 * k] == p[2 * k + 1]);
    }
}

/// A WAV file is its 44-byte header followed by two bytes per sample; it
/// starts with `RIFF`, has `WAVE` at offset 8 and `data` at offset 36, and
/// its RIFF size field says 36 bytes more than its data size field.
pub proof fn lemma_wav_layout(samples: Seq<i16>, sample_rate: u32)
    ensures
        wav_file(samples, sample_rate).len() == 44 + 2 * samples.len(),
        wav_file(samples, sample_rate).subrange(0, 4) == seq![0x52u8, 0x49u8, 0x46u8, 0x46u8],
        wav_file(samples, sample_rate).subrange(8, 12) == seq![0x57u8, 0x41u8, 0x56u8, 0x45u8],
        wav_file(samples, sample_rate).subrange(36, 40) == seq![0x64u8, 0x61u8, 0x74u8, 0x61u8],
        wav_file(samples, sample_rate).subrange(4, 8) == le32(
            (36 + wav_data_len(samples.len())) as u32,
        ),
        wav_file(samples, sample_rate).subrange(40, 44) == le32(wav_data_len(samples.len())),
{
    lemma_pcm_bytes_len(samples);
    let w = wav_file(samples, sample_rate);
    let h = wav_header(samples.len(), sample_rate);
    assert(h.len() == 44);
    assert(w.subrange(0, 4) =~= seq![0x52u8, 0x49u8, 0x46u8, 0x46u8]);
    assert(w.subrange(8, 12) =~= seq![0x57u8, 0x41u8, 0x56u8, 0x45u8]);
    assert(w.subrange(36, 40) =~= seq![0x64u8, 0x61u8, 0x74u8, 0x61u8]);
    assert(w.subrange(4, 8) =~= le32((36 + wav_data_len(samples.len())) as u32));
    assert(w.subrange(40, 44) =~= le32(wav_data_len(samples.len())));
}

/// The detail of the error for a missing API key.
pub open spec fn missing_key_detail() -> Seq<char> {
    "falta la clave API de Groq; añádela en Preferencias"@
}

/// The API key to send: the given key trimmed, or an error when it is blank.
pub fn groq_api_key(api_key: &str) -> (r: Result<String, AuralFlowError>)
    ensures
        r is Ok <==> trim(api_key@).len() > 0,
        r matches Ok(k) ==> k@ == trim(api_key@),
        r matches Err(e) ==> (e matches AuralFlowError::Online(m) && m@ == missing_key_detail()),
{
    if is_blank_text(api_key) {
        return Err(online_error("falta la clave API de Groq; añádela en Preferencias"));
    }
    Ok(trim_text(api_key))
}

/// The language to name in the request: none for `auto`, which lets the
/// service detect it, otherwise the given language.
pub fn groq_language(language: &str) -> (r: Option<String>)
    ensures
        language@ == "auto"@ ==> r is None,
        language@ != "auto"@ ==> (r matches Some(l) && l@ == language@),
{
    if text_equals(language, "auto") {
        None
    } else {
        Some(String::from_str(language))
    }
}

/// The address transcriptions are requested from.
pub const GROQ_TRANSCRIPTIONS_URL: &'static str = "https://api.groq.com/openai/v1/audio/transcriptions";

/// The model the service is asked to use.
pub const GROQ_MODEL: &'static str = "whisper-large-v3-turbo";

/// The format the reply is asked in.
pub const GROQ_RESPONSE_FORMAT: &'static str = "json";

/// The sampling temperature asked for.
pub const GROQ_TEMPERATURE: &'static str = "0";

/// The file name under which the audio is uploaded.
pub const UPLOAD_FILE_NAME: &'static str = "auralflow.wav";

/// The media type of the uploaded audio.
pub const UPLOAD_MIME_TYPE: &'static str = "audio/wav";

/// Everything a transcription request sends: a POST to `url` with the
/// bearer token and a multipart form holding the audio file and the text
/// fields (`language` only when present).
#[derive(Debug, Clone, PartialEq, Eq)]
pub struct GroqRequest {
    pub url: String,
    pub bearer_token: String,
    pub file_name: String,
    pub mime_type: String,
    pub audio: Vec<u8>,
    pub model: String,
    pub response_format: String,
    pub temperature: String,
    pub language: Option<String>,
}

/// The request that transcribes `samples` (16-bit, at
/// [`UPLOAD_SAMPLE_RATE`]) in `language` with `api_key`, or the error for a
/// blank key, which is checked first.
pub fn groq_request(samples: &[i16], language: &str, api_key: &str) -> (r: Result<
    GroqRequest,
    AuralFlowError,
>)
    requires
        trim(api_key@).len() > 0 ==> wav_fits(samples@.len(), UPLOAD_SAMPLE_RATE),
    ensures
        r is Ok <==> trim(api_key@).len() > 0,
        r matches Err(e) ==> (e matches AuralFlowError::Online(m) && m@ == missing_key_detail()),
        r matches Ok(q) ==> {
            &&& q.url@ == GROQ_TRANSCRIPTIONS_URL@
            &&& q.bearer_token@ == trim(api_key@)
            &&& q.file_name@ == UPLOAD_FILE_NAME@
            &&& q.mime_type@ == UPLOAD_MIME_TYPE@
            &&& q.audio@ == wav_file(samples@, UPLOAD_SAMPLE_RATE)
            &&& q.model@ == GROQ_MODEL@
            &&& q.response_format@ == GROQ_RESPONSE_FORMAT@
            &&& q.temperature@ == GROQ_TEMPERATURE@
            &&& (language@ == "auto"@ ==> q.language is None)
            &&& (language@ != "auto"@ ==> (q.language matches Some(l) && l@ == language@))
        },
{
    let bearer_token = groq_api_key(api_key)?;
    let audio = pcm16_wav(samples, UPLOAD_SAMPLE_RATE);
    Ok(GroqRequest {
        url: String::from_str(GROQ_TRANSCRIPTIONS_URL),
        bearer_token,
        file_name: String::from_str(UPLOAD_FILE_NAME),
        mime_type: String::from_str(UPLOAD_MIME_TYPE),
        audio,
        model: String::from_str(GROQ_MODEL),
        response_format: String::from_str(GROQ_RESPONSE_FORMAT),
        temperature: String::from_str(GROQ_TEMPERATURE),
        language: groq_language(language),
    })
}

/// The error for a request that could not reach the service; `detail` is
/// what the HTTP client reported.
pub fn groq_connection_error(detail: &str) -> (e: AuralFlowError)
    ensures
        e matches AuralFlowError::Online(m) && m@ == "no se pudo conectar con Groq: "@ + detail@,
{
    AuralFlowError::Online(concat("no se pudo conectar con Groq: ", detail))
}

/// The error for a successful reply that is not the expected JSON.
pub fn groq_invalid_reply_error(detail: &str) -> (e: AuralFlowError)
    ensures
        e matches AuralFlowError::Online(m) && m@ == "respuesta inválida de Groq: "@ + detail@,
{
    AuralFlowError::Online(concat("respuesta inválida de Groq: ", detail))
}

/// The status line of an HTTP status code as `reqwest::StatusCode` displays
/// it (the code, a space and its canonical reason).
pub uninterp spec fn http_status_line(code: u16) -> Seq<char>;

/// The displayed status line of `code`.
///
/// Trusted: converts `code` with `reqwest::StatusCode::from_u16`, which
/// accepts 100 to 999, and displays it with `StatusCode`'s `Display` impl; the
/// contract claims only that the text is a function of the code.
#[verifier::external_body]
fn status_line(code: u16) -> (r: String)
    requires
        100 <= code <= 999,
    ensures
        r@ == http_status_line(code),
{
    match reqwest::StatusCode::from_u16(code) {
        Ok(status) => status.to_string(),
        Err(_) => String::new(),
    }
}

/// Whether `code` reports success.
///
/// Trusted: converts `code` with `reqwest::StatusCode::from_u16`, which
/// accepts 100 to 999, and calls `StatusCode::is_success`, whose source
/// checks that the code lies within 200 to 299.
#[verifier::external_body]
pub fn status_is_success(code: u16) -> (r: bool)
    requires
        100 <= code <= 999,
    ensures
        r == (200 <= code <= 299),
{
    match reqwest::StatusCode::from_u16(code) {
        Ok(status) => status.is_success(),
        Err(_) => false,
    }
}

/// The detail of the error for a rejected request, given the displayed
/// status line and the body of the reply.
pub open spec fn rejection_detail(status_line: Seq<char>, body: Seq<char>) -> Seq<char> {
    "Groq respondió "@ + status_line + ": "@ + body.take(
        if body.len() < MAX_DETAIL_CHARS {
            body.len() as int
        } else {
            MAX_DETAIL_CHARS as int
        },
    )
}

/// The error for a rejected request: the status line and at most
/// [`MAX_DETAIL_CHARS`] characters of the reply's body.
pub fn groq_rejection_message(status_line: &str, body: &str) -> (e: AuralFlowError)
    ensures
        e matches AuralFlowError::Online(m) && m@ == rejection_detail(status_line@, body@),
{
    let mut detail = String::from_str("Groq respondió ");
    detail.append(status_line);
    detail.append(": ");
    let shown = take_chars(body, MAX_DETAIL_CHARS);
    detail.append(shown.as_str());
    AuralFlowError::Online(detail)
}

/// The error for a reply with status `code` that is not a success.
pub fn groq_rejection(code: u16, body: &str) -> (e: AuralFlowError)
    requires
        100 <= code <= 999,
    ensures
        e matches AuralFlowError::Online(m) && m@ == rejection_detail(http_status_line(code), body@),
{
    let line = status_line(code);
    groq_rejection_message(line.as_str(), body)
}

/// The transcript returned to the user: the service's text, trimmed.
pub fn groq_transcript_text(text: &str) -> (r: String)
    ensures
        r@ == trim(text@),
{
    trim_text(text)
}

} // verus!
