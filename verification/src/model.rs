//! The catalogue of Whisper models, their file names and download address,
//! and the checks that a finished download must pass.

use vstd::prelude::*;
use crate::error::{AuralFlowError, model_error};
use crate::text::{concat, text_equals};

verus! {

/// Where the models are downloaded from.
pub const MODEL_BASE_URL: &'static str = "https://huggingface.co/ggerganov/whisper.cpp/resolve/main";

/// A model file smaller than this many bytes is not a usable model.
pub const MIN_MODEL_BYTES: u64 = 1_000_000;

/// The models that may be selected and downloaded.
pub open spec fn is_supported_model_name(name: Seq<char>) -> bool {
    ||| name == "tiny-q5_1"@
    ||| name == "base-q5_1"@
    ||| name == "small-q5_1"@
    ||| name == "large-v3-turbo-q5_0"@
}

/// Whether `name` is one of the supported models.
pub fn is_supported_model(name: &str) -> (r: bool)
    ensures
        r == is_supported_model_name(name@),
{
    text_equals(name, "tiny-q5_1") || text_equals(name, "base-q5_1") || text_equals(name, "small-q5_1") || text_equals(
        name,
        "large-v3-turbo-q5_0",
    )
}

/// The file name under which a model is stored: `ggml-<name>.bin`.
pub open spec fn model_file_name_view(name: Seq<char>) -> Seq<char> {
    "ggml-"@ + name + ".bin"@
}

/// The error given for a model outside the catalogue.
pub open spec fn is_unsupported_model_error(e: AuralFlowError) -> bool {
    e matches AuralFlowError::Model(m) && m@ == "modelo no permitido"@
}

/// The file name of a supported model, or the error for an unsupported one.
pub fn model_file_name(name: &str) -> (r: Result<String, AuralFlowError>)
    ensures
        is_supported_model_name(name@) ==> (r matches Ok(f) && f@ == model_file_name_view(name@)),
        !is_supported_model_name(name@) ==> (r matches Err(e) && is_unsupported_model_error(e)),
{
    if !is_supported_model(name) {
        return Err(model_error("modelo no permitido"));
    }
    let mut file = String::from_str("ggml-");
    file.append(name);
    file.append(".bin");
    Ok(file)
}

/// The address a supported model is downloaded from.
pub open spec fn model_url_view(name: Seq<char>) -> Seq<char> {
    MODEL_BASE_URL@ + "/"@ + model_file_name_view(name)
}

/// The download address of a supported model, or the error for an unsupported one.
pub fn model_url(name: &str) -> (r: Result<String, AuralFlowError>)
    ensures
        is_supported_model_name(name@) ==> (r matches Ok(u) && u@ == model_url_view(name@)),
        !is_supported_model_name(name@) ==> (r matches Err(e) && is_unsupported_model_error(e)),
{
    let file = model_file_name(name)?;
    let mut url = String::from_str(MODEL_BASE_URL);
    url.append("/");
    url.append(file.as_str());
    proof {
        assert(url@ =~= model_url_view(name@));
    }
    Ok(url)
}

/// A model's file name holds the whole model name between the `ggml-`
/// prefix and the `.bin` extension, so it is nine characters longer than the
/// name and the name can be read back from it; the download address ends
/// with that file name after a `/`.
pub proof fn lemma_model_file_name_keeps_name(name: Seq<char>)
    ensures
        model_file_name_view(name).len() == name.len() + 9,
        model_file_name_view(name).subrange(5, name.len() + 5int) == name,
        model_file_name_view(name).take(5) == seq!['g', 'g', 'm', 'l', '-'],
        model_file_name_view(name).skip(name.len() + 5int) == seq!['.', 'b', 'i', 'n'],
        model_url_view(name).len() == MODEL_BASE_URL@.len() + 1 + model_file_name_view(name).len(),
        model_url_view(name).take(MODEL_BASE_URL@.len() as int) == MODEL_BASE_URL@,
        model_url_view(name)[MODEL_BASE_URL@.len() as int] == '/',
        model_url_view(name).skip(MODEL_BASE_URL@.len() + 1int) == model_file_name_view(name),
{
    reveal_strlit("ggml-");
    reveal_strlit(".bin");
    reveal_strlit("/");
    let f = model_file_name_view(name);
    assert(f.subrange(5, name.len() + 5int) =~= name);
    assert(f.take(5) =~= seq!['g', 'g', 'm', 'l', '-']);
    assert(f.skip(name.len() + 5int) =~= seq!['.', 'b', 'i', 'n']);
    let u = model_url_view(name);
    let b = MODEL_BASE_URL@;
    assert(u.take(b.len() as int) =~= b);
    assert(u.skip(b.len() + 1int) =~= f);
}

/// What the interface is told about a model.
#[derive(Debug, Clone, PartialEq, Eq)]
pub struct ModelStatus {
    pub model_name: String,
    pub installed: bool,
    pub path: String,
}

/// A model counts as installed when its file exists and is larger than
/// [`MIN_MODEL_BYTES`].
pub open spec fn is_installed_size(file_len: Option<u64>) -> bool {
    file_len matches Some(len) && len > MIN_MODEL_BYTES
}

/// The status of the model `name`, stored at `path`, whose file has length
/// `file_len` (`None` when it cannot be read).
pub fn status(name: &str, path: String, file_len: Option<u64>) -> (r: Result<
    ModelStatus,
    AuralFlowError,
>)
    ensures
        is_supported_model_name(name@) ==> (r matches Ok(s) && s.model_name@ == name@ && s.path@
            == path@ && s.installed == is_installed_size(file_len)),
        !is_supported_model_name(name@) ==> (r matches Err(e) && is_unsupported_model_error(e)),
{
    let _file = model_file_name(name)?;
    let installed = match file_len {
        Some(len) => len > MIN_MODEL_BYTES,
        None => false,
    };
    Ok(ModelStatus { model_name: String::from_str(name), installed, path })
}

/// Progress of a model download, as reported to the interface.
#[derive(Debug, Clone, Copy, PartialEq, Eq)]
pub struct DownloadProgress {
    pub downloaded_bytes: u64,
    pub total_bytes: Option<u64>,
}

/// A model download in progress: the bytes received so far and the size the
/// server announced.
pub struct ModelDownload {
    downloaded_bytes: u64,
    total_bytes: Option<u64>,
}

impl ModelDownload {
    /// Bytes received so far.
    pub closed spec fn downloaded(&self) -> u64 {
        self.downloaded_bytes
    }

    /// The size the server announced, if any.
    pub closed spec fn announced(&self) -> Option<u64> {
        self.total_bytes
    }

    /// A download that has received nothing yet.
    pub fn new(total_bytes: Option<u64>) -> (r: ModelDownload)
        ensures
            r.downloaded() == 0,
            r.announced() == total_bytes,
    {
        ModelDownload { downloaded_bytes: 0, total_bytes }
    }

    /// Bytes received so far.
    pub fn downloaded_bytes(&self) -> (r: u64)
        ensures
            r == self.downloaded(),
    {
        self.downloaded_bytes
    }

    /// Counts a received chunk of `len` bytes and returns the progress to report.
    pub fn record_chunk(&mut self, len: u64) -> (p: DownloadProgress)
        requires
            old(self).downloaded() + len <= u64::MAX,
        ensures
            final(self).downloaded() == old(self).downloaded() + len,
            final(self).announced() == old(self).announced(),
            p.downloaded_bytes == final(self).downloaded(),
            p.total_bytes == final(self).announced(),
    {
        self.downloaded_bytes = self.downloaded_bytes + len;
        DownloadProgress { downloaded_bytes: self.downloaded_bytes, total_bytes: self.total_bytes }
    }

    /// Whether enough bytes arrived for the file to be a model: an error when
    /// fewer than [`MIN_MODEL_BYTES`] were received.
    pub fn check_size(&self) -> (r: Result<(), AuralFlowError>)
        ensures
            r is Ok <==> self.downloaded() >= MIN_MODEL_BYTES,
            r matches Err(e) ==> (e matches AuralFlowError::Model(m) && m@
                == "el archivo descargado no parece un modelo válido"@),
    {
        if self.downloaded_bytes < MIN_MODEL_BYTES {
            return Err(model_error("el archivo descargado no parece un modelo válido"));
        }
        Ok(())
    }
}

/// What to do next with a downloaded file.
#[derive(Debug, Clone, PartialEq, Eq)]
pub enum DownloadStep {
    /// Read the file's first four bytes and decide again with them.
    ReadMagic,
    /// Replace any installed model with the downloaded file.
    Install,
    /// Remove the downloaded file and fail with this error.
    Discard(AuralFlowError),
}

impl ModelDownload {
    /// The step after the transfer ended, given the file's first four bytes
    /// once they were read: the size is checked first, then the magic bytes,
    /// and the model is installed only when both pass; either failure
    /// discards the downloaded file.
    pub fn next_step(&self, magic: Option<[u8; 4]>) -> (r: DownloadStep)
        ensures
            self.downloaded() < MIN_MODEL_BYTES ==> (r matches DownloadStep::Discard(e) && (
            e matches AuralFlowError::Model(m) && m@
                == "el archivo descargado no parece un modelo válido"@)),
            self.downloaded() >= MIN_MODEL_BYTES && magic is None ==> r is ReadMagic,
            self.downloaded() >= MIN_MODEL_BYTES && (magic matches Some(b) && !is_ggml_magic(b@))
                ==> (r matches DownloadStep::Discard(e) && (e matches AuralFlowError::Model(m) && m@
                == "la descarga no tiene el formato GGML esperado"@)),
            r is Install <==> (self.downloaded() >= MIN_MODEL_BYTES && (magic matches Some(b)
                && is_ggml_magic(b@))),
    {
        if let Err(e) = self.check_size() {
            return DownloadStep::Discard(e);
        }
        match magic {
            None => DownloadStep::ReadMagic,
            Some(bytes) => match check_model_magic(bytes) {
                Ok(()) => DownloadStep::Install,
                Err(e) => DownloadStep::Discard(e),
            },
        }
    }
}

/// The error for a model path without a parent directory.
pub fn invalid_models_dir_error() -> (e: AuralFlowError)
    ensures
        e matches AuralFlowError::Model(m) && m@ == "ruta de modelos inválida"@,
{
    model_error("ruta de modelos inválida")
}

/// The error for a download request that could not be sent; `detail` is
/// what the HTTP client reported.
pub fn download_request_error(detail: &str) -> (e: AuralFlowError)
    ensures
        e matches AuralFlowError::Model(m) && m@ == "falló la descarga: "@ + detail@,
{
    AuralFlowError::Model(concat("falló la descarga: ", detail))
}

/// The error for a download the server answered with an error status.
pub fn download_rejected_error(detail: &str) -> (e: AuralFlowError)
    ensures
        e matches AuralFlowError::Model(m) && m@ == "el servidor rechazó la descarga: "@ + detail@,
{
    AuralFlowError::Model(concat("el servidor rechazó la descarga: ", detail))
}

/// The bytes received once chunks of lengths `lens` arrived.
pub open spec fn total_received(lens: Seq<u64>) -> int
    decreases lens.len(),
{
    if lens.len() == 0 {
        0
    } else {
        total_received(lens.drop_last()) + lens.last()
    }
}

/// For a download that starts with nothing received ([`ModelDownload::new`])
/// and records chunks of lengths `lens` in order, each step adding the
/// chunk's length as [`ModelDownload::record_chunk`] does, the `j`-th
/// reported progress is the total of the first `j + 1` chunks, and the
/// reported progress never decreases.
pub proof fn lemma_progress_is_running_total(lens: Seq<u64>, reported: Seq<int>)
    requires
        reported.len() == lens.len(),
        forall|j: int|
            0 <= j < lens.len() ==> #[trigger] reported[j] == (if j == 0 {
                0
            } else {
                reported[j - 1]
            }) + lens[j],
    ensures
        forall|j: int| 0 <= j < lens.len() ==> #[trigger] reported[j] == total_received(lens.take(j + 1)),
        forall|i: int, j: int| 0 <= i <= j < lens.len() ==> reported[i] <= reported[j],
    decreases lens.len(),
{
    if lens.len() > 0 {
        let n = lens.len() - 1;
        let shorter = lens.drop_last();
        let prefix = reported.drop_last();
        assert forall|j: int| 0 <= j < shorter.len() implies #[trigger] prefix[j] == (if j == 0 {
            0
        } else {
            prefix[j - 1]
        }) + shorter[j] by {
            assert(reported[j] == (if j == 0 { 0 } else { reported[j - 1] }) + lens[j]);
        }
        lemma_progress_is_running_total(shorter, prefix);
        assert forall|j: int| 0 <= j < lens.len() implies #[trigger] reported[j] == total_received(lens.take(j + 1)) by {
            if j < n {
                assert(shorter.take(j + 1) =~= lens.take(j + 1));
                assert(prefix[j] == total_received(shorter.take(j + 1)));
            } else {
                let t = lens.take(j + 1);
                assert(t.drop_last() =~= lens.take(j));
                assert(t.last() == lens[j]);
                assert(total_received(t) == total_received(lens.take(j)) + lens[j]);
                assert(reported[j] == (if j == 0 { 0 } else { reported[j - 1] }) + lens[j]);
                if j > 0 {
                    assert(shorter.take(j) =~= lens.take(j));
                    assert(prefix[j - 1] == total_received(shorter.take(j)));
                    assert(prefix[j - 1] == reported[j - 1]);
                } else {
                    assert(lens.take(0) =~= Seq::<u64>::empty());
                }
            }
        }
        assert forall|i: int, j: int| 0 <= i <= j < lens.len() implies reported[i] <= reported[j] by {
            if j == n && i < j {
                assert(prefix[i] <= prefix[j - 1]);
                assert(reported[j] == reported[j - 1] + lens[j]);
            } else if i < n && j < n {
                assert(prefix[i] <= prefix[j]);
            }
        }
    }
}

/// The first four bytes of a GGML model file, in either byte order.
pub open spec fn is_ggml_magic(magic: Seq<u8>) -> bool {
    magic == seq![0x67u8, 0x67u8, 0x6du8, 0x6cu8] || magic == seq![0x6cu8, 0x6du8, 0x67u8, 0x67u8]
}

/// Whether the first four bytes of a downloaded file are `ggml` or `lmgg`.
pub fn check_model_magic(magic: [u8; 4]) -> (r: Result<(), AuralFlowError>)
    ensures
        r is Ok <==> is_ggml_magic(magic@),
        r matches Err(e) ==> (e matches AuralFlowError::Model(m) && m@
            == "la descarga no tiene el formato GGML esperado"@),
{
    let ggml = magic[0] == 0x67 && magic[1] == 0x67 && magic[2] == 0x6d && magic[3] == 0x6c;
    let lmgg = magic[0] == 0x6c && magic[1] == 0x6d && magic[2] == 0x67 && magic[3] == 0x67;
    proof {
        assert(ggml == (magic@ == seq![0x67u8, 0x67u8, 0x6du8, 0x6cu8])) by {
            if ggml {
                assert(magic@ =~= seq![0x67u8, 0x67u8, 0x6du8, 0x6cu8]);
            }
        }
        assert(lmgg == (magic@ == seq![0x6cu8, 0x6du8, 0x67u8, 0x67u8])) by {
            if lmgg {
                assert(magic@ =~= seq![0x6cu8, 0x6du8, 0x67u8, 0x67u8]);
            }
        }
    }
    if !ggml && !lmgg {
        return Err(model_error("la descarga no tiene el formato GGML esperado"));
    }
    Ok(())
}

} // verus!
