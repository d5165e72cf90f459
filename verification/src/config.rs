//! User preferences and the rules they must satisfy.

use vstd::prelude::*;
use crate::error::{AuralFlowError, config_error};
use crate::model::{is_supported_model, is_supported_model_name};
use crate::text::{concat, is_blank_text, text_equals, trim};

verus! {

/// The most bytes a global shortcut description may take.
pub const MAX_HOTKEY_BYTES: usize = 100;

/// The user's preferences.
#[derive(Debug, Clone, PartialEq, Eq)]
pub struct Settings {
    pub model_name: String,
    pub language: String,
    pub hotkey: String,
    pub auto_paste: bool,
}

/// The dictation languages that may be chosen; `auto` lets Whisper detect it.
pub open spec fn is_allowed_language(language: Seq<char>) -> bool {
    language == "es"@ || language == "en"@ || language == "auto"@
}

/// A shortcut description is usable when it is not blank and its length in
/// bytes, as `str::len` reports it, is at most [`MAX_HOTKEY_BYTES`].
pub open spec fn is_usable_hotkey(hotkey: Seq<char>) -> bool {
    trim(hotkey).len() > 0 && (vstd::utf8::encode_utf8(hotkey).len() as usize) <= MAX_HOTKEY_BYTES
}

impl Settings {
    /// The detail of the first rule these settings break, checked in the
    /// order model, language, shortcut; `None` when they break none.
    pub open spec fn validation_failure(&self) -> Option<Seq<char>> {
        if !is_supported_model_name(self.model_name@) {
            Some("modelo no permitido"@)
        } else if !is_allowed_language(self.language@) {
            Some("idioma no permitido"@)
        } else if !is_usable_hotkey(self.hotkey@) {
            Some("el atajo global no es válido"@)
        } else {
            None
        }
    }

    /// The settings a new installation starts with.
    pub open spec fn is_default_view(&self) -> bool {
        &&& self.model_name@ == "tiny-q5_1"@
        &&& self.language@ == "es"@
        &&& self.hotkey@ == "CommandOrControl+Shift+Space"@
        &&& self.auto_paste
    }

    /// Checks the settings: `Ok` when they break no rule, otherwise a
    /// configuration error naming the first rule broken.
    pub fn validate(&self) -> (r: Result<(), AuralFlowError>)
        ensures
            r is Ok <==> self.validation_failure() is None,
            r matches Err(e) ==> (e matches AuralFlowError::Config(m) && Some(m@)
                == self.validation_failure()),
    {
        if !is_supported_model(self.model_name.as_str()) {
            return Err(config_error("modelo no permitido"));
        }
        let language = self.language.as_str();
        if !(text_equals(language, "es") || text_equals(language, "en") || text_equals(
            language,
            "auto",
        )) {
            return Err(config_error("idioma no permitido"));
        }
        let hotkey = self.hotkey.as_str();
        if is_blank_text(hotkey) || hotkey.len() > MAX_HOTKEY_BYTES {
            return Err(config_error("el atajo global no es válido"));
        }
        Ok(())
    }
}

impl Default for Settings {
    fn default() -> (r: Settings)
        ensures
            r.is_default_view(),
    {
        Settings {
            model_name: String::from_str("tiny-q5_1"),
            language: String::from_str("es"),
            hotkey: String::from_str("CommandOrControl+Shift+Space"),
            auto_paste: true,
        }
    }
}

/// The default settings satisfy every rule.
pub proof fn lemma_default_settings_valid(s: Settings)
    requires
        s.is_default_view(),
    ensures
        s.validation_failure() is None,
{
    reveal_strlit("tiny-q5_1");
    reveal_strlit("es");
    reveal_strlit("CommandOrControl+Shift+Space");
    let h = s.hotkey@;
    assert(vstd::utf8::is_ascii_chars(h));
    vstd::utf8::is_ascii_chars_encode_utf8(h);
    assert(!crate::text::is_white_space(h[0]));
    crate::text::lemma_trim_empty_iff_blank(h);
}

/// Settings that pass validation name a supported model, an allowed
/// language and a non-blank shortcut.
pub proof fn lemma_valid_settings_are_usable(s: Settings)
    requires
        s.validation_failure() is None,
    ensures
        is_supported_model_name(s.model_name@),
        is_allowed_language(s.language@),
        trim(s.hotkey@).len() > 0,
{
}

/// The settings that take effect on start: the defaults when nothing was
/// stored, otherwise the stored settings if they satisfy every rule.
pub fn load(stored: Option<Settings>) -> (r: Result<Settings, AuralFlowError>)
    ensures
        stored is None ==> (r matches Ok(s) && s.is_default_view()),
        stored matches Some(s) ==> (r is Ok <==> s.validation_failure() is None),
        stored matches Some(s) ==> (s.validation_failure() is None <==> r == Ok::<
            Settings,
            AuralFlowError,
        >(s)),
        stored matches Some(s) ==> (r matches Err(e) ==> (e matches AuralFlowError::Config(m)
            && Some(m@) == s.validation_failure())),
{
    match stored {
        None => Ok(Settings::default()),
        Some(settings) => {
            settings.validate()?;
            Ok(settings)
        },
    }
}

/// The error for a settings file that cannot be read; `path_display` is how
/// the file's path is shown and `detail` what the system reported.
pub fn read_failure(path_display: &str, detail: &str) -> (e: AuralFlowError)
    ensures
        e matches AuralFlowError::Config(m) && m@ == "no se pudo leer "@ + path_display@ + ": "@
            + detail@,
{
    let mut m = concat("no se pudo leer ", path_display);
    m.append(": ");
    m.append(detail);
    AuralFlowError::Config(m)
}

/// The error for a settings file that is not valid settings JSON.
pub fn invalid_json(detail: &str) -> (e: AuralFlowError)
    ensures
        e matches AuralFlowError::Config(m) && m@ == "JSON inválido: "@ + detail@,
{
    AuralFlowError::Config(concat("JSON inválido: ", detail))
}

/// The error for a settings path without a parent directory.
pub fn invalid_config_path() -> (e: AuralFlowError)
    ensures
        e matches AuralFlowError::Config(m) && m@ == "ruta de configuración inválida"@,
{
    config_error("ruta de configuración inválida")
}

/// The error for a settings directory that cannot be created.
pub fn create_dir_failure(detail: &str) -> (e: AuralFlowError)
    ensures
        e matches AuralFlowError::Config(m) && m@ == "no se pudo crear la carpeta: "@ + detail@,
{
    AuralFlowError::Config(concat("no se pudo crear la carpeta: ", detail))
}

/// The error for a settings file that cannot be written.
pub fn write_failure(detail: &str) -> (e: AuralFlowError)
    ensures
        e matches AuralFlowError::Config(m) && m@ == "no se pudo guardar: "@ + detail@,
{
    AuralFlowError::Config(concat("no se pudo guardar: ", detail))
}

} // verus!
