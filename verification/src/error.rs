//! The error type shared by every part of the application.

use vstd::prelude::*;

verus! {

/// What went wrong, by the part of the application that failed, with a
/// human-readable detail.
#[derive(Debug, Clone, PartialEq, Eq)]
pub enum AuralFlowError {
    Audio(String),
    Model(String),
    Transcription(String),
    Online(String),
    Config(String),
    Clipboard(String),
}

impl AuralFlowError {
    /// The text shown to the user: the part's label, a colon, and the detail.
    pub open spec fn message_view(&self) -> Seq<char> {
        match self {
            AuralFlowError::Audio(m) => "Audio: "@ + m@,
            AuralFlowError::Model(m) => "Modelo: "@ + m@,
            AuralFlowError::Transcription(m) => "Transcripción: "@ + m@,
            AuralFlowError::Online(m) => "Servicio online: "@ + m@,
            AuralFlowError::Config(m) => "Configuración: "@ + m@,
            AuralFlowError::Clipboard(m) => "Portapapeles: "@ + m@,
        }
    }

    /// The detail carried by the error, whatever its part.
    pub open spec fn detail_view(&self) -> Seq<char> {
        match self {
            AuralFlowError::Audio(m) => m@,
            AuralFlowError::Model(m) => m@,
            AuralFlowError::Transcription(m) => m@,
            AuralFlowError::Online(m) => m@,
            AuralFlowError::Config(m) => m@,
            AuralFlowError::Clipboard(m) => m@,
        }
    }

    /// The text shown to the user for this error.
    pub fn message(&self) -> (r: String)
        ensures
            r@ == self.message_view(),
    {
        let (label, detail) = match self {
            AuralFlowError::Audio(m) => ("Audio: ", m),
            AuralFlowError::Model(m) => ("Modelo: ", m),
            AuralFlowError::Transcription(m) => ("Transcripción: ", m),
            AuralFlowError::Online(m) => ("Servicio online: ", m),
            AuralFlowError::Config(m) => ("Configuración: ", m),
            AuralFlowError::Clipboard(m) => ("Portapapeles: ", m),
        };
        let mut r = String::from_str(label);
        r.append(detail.as_str());
        r
    }
}

/// An error of the audio part with the given detail.
pub fn audio_error(detail: &str) -> (e: AuralFlowError)
    ensures
        e matches AuralFlowError::Audio(m) && m@ == detail@,
{
    AuralFlowError::Audio(String::from_str(detail))
}

/// An error of the model part with the given detail.
pub fn model_error(detail: &str) -> (e: AuralFlowError)
    ensures
        e matches AuralFlowError::Model(m) && m@ == detail@,
{
    AuralFlowError::Model(String::from_str(detail))
}

/// An error of the transcription part with the given detail.
pub fn transcription_error(detail: &str) -> (e: AuralFlowError)
    ensures
        e matches AuralFlowError::Transcription(m) && m@ == detail@,
{
    AuralFlowError::Transcription(String::from_str(detail))
}

/// An error of the online service part with the given detail.
pub fn online_error(detail: &str) -> (e: AuralFlowError)
    ensures
        e matches AuralFlowError::Online(m) && m@ == detail@,
{
    AuralFlowError::Online(String::from_str(detail))
}

/// An error of the configuration part with the given detail.
pub fn config_error(detail: &str) -> (e: AuralFlowError)
    ensures
        e matches AuralFlowError::Config(m) && m@ == detail@,
{
    AuralFlowError::Config(String::from_str(detail))
}

} // verus!
