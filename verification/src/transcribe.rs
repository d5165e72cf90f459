//! The decisions around local Whisper inference: which inputs are rejected,
//! how many threads run, which language is requested, how the loaded model is
//! cached, and how the segments become the transcript.

use vstd::prelude::*;
use crate::error::{AuralFlowError, transcription_error};
use crate::text::{collapse_whitespace, collapse_whitespace_text, glue, lemma_collapse_glue, text_equals};

verus! {

/// Recordings with fewer samples than this (0.3 s at 16 kHz) are too short.
pub const MIN_SAMPLES: usize = 4_800;

/// The most inference threads used.
pub const MAX_THREADS: usize = 12;

/// An error unless the model file exists; `path_display` is how the path is
/// shown to the user.
pub fn check_model_exists(exists: bool, path_display: &str) -> (r: Result<(), AuralFlowError>)
    ensures
        r is Ok <==> exists,
        r matches Err(e) ==> (e matches AuralFlowError::Model(m) && m@ == "no se encontró el modelo en "@
            + path_display@),
{
    if !exists {
        let mut detail = String::from_str("no se encontró el modelo en ");
        detail.append(path_display);
        return Err(AuralFlowError::Model(detail));
    }
    Ok(())
}

/// An error when a recording of `sample_count` samples is too short.
pub fn check_sample_count(sample_count: usize) -> (r: Result<(), AuralFlowError>)
    ensures
        r is Ok <==> sample_count >= MIN_SAMPLES,
        r matches Err(e) ==> (e matches AuralFlowError::Transcription(m) && m@
            == "la grabación es demasiado corta"@),
{
    if sample_count < MIN_SAMPLES {
        return Err(transcription_error("la grabación es demasiado corta"));
    }
    Ok(())
}

/// The number of inference threads for `available` hardware threads (4 when
/// unknown): one fewer than available when more than four, kept within
/// 1 to [`MAX_THREADS`].
pub open spec fn inference_threads_view(available: Option<usize>) -> int {
    let n: int = match available {
        Some(a) => a as int,
        None => 4,
    };
    let m = if n > 4 {
        n - 1
    } else {
        n
    };
    if m < 1 {
        1
    } else if m > MAX_THREADS {
        MAX_THREADS as int
    } else {
        m
    }
}

/// The number of inference threads to use.
pub fn inference_threads(available: Option<usize>) -> (r: i32)
    ensures
        r == inference_threads_view(available),
        1 <= r <= MAX_THREADS,
{
    let n = match available {
        Some(a) => a,
        None => 4,
    };
    let m = if n > 4 {
        n - 1
    } else {
        n
    };
    let clamped = if m < 1 {
        1
    } else if m > MAX_THREADS {
        MAX_THREADS
    } else {
        m
    };
    clamped as i32
}

/// The language to ask Whisper for: none for `auto`, which lets it detect
/// the language, otherwise the given one.
pub fn whisper_language(language: &str) -> (r: Option<&str>)
    ensures
        language@ == "auto"@ ==> r is None,
        language@ != "auto"@ ==> r == Some(language),
{
    if text_equals(language, "auto") {
        None
    } else {
        Some(language)
    }
}

/// The texts of `segments` joined by single spaces.
pub open spec fn join_with_spaces(segments: Seq<Seq<char>>) -> Seq<char>
    decreases segments.len(),
{
    if segments.len() == 0 {
        Seq::empty()
    } else if segments.len() == 1 {
        segments[0]
    } else {
        join_with_spaces(segments.drop_last()) + " "@ + segments.last()
    }
}

/// The transcript made of Whisper's segments: joined by spaces, with each
/// run of whitespace collapsed to one space and the ends trimmed.
pub open spec fn transcript_view(segments: Seq<Seq<char>>) -> Seq<char> {
    collapse_whitespace(join_with_spaces(segments))
}

/// The total number of characters in `segments`.
pub open spec fn total_chars(segments: Seq<Seq<char>>) -> int
    decreases segments.len(),
{
    if segments.len() == 0 {
        0
    } else {
        total_chars(segments.drop_last()) + segments.last().len()
    }
}

/// Where segment `i` starts in the joined text: after the earlier segments
/// and one space after each of them.
pub open spec fn segment_start(segments: Seq<Seq<char>>, i: int) -> int {
    total_chars(segments.take(i)) + i
}

/// Joining keeps every segment, whole and in order, with exactly one space
/// between neighbours: the joined text is as long as the segments plus one
/// space per gap, segment `i` stands at [`segment_start`], and a space
/// precedes every segment but the first.
pub proof fn lemma_join_keeps_every_segment(segments: Seq<Seq<char>>)
    requires
        segments.len() > 0,
    ensures
        join_with_spaces(segments).len() == total_chars(segments) + segments.len() - 1,
        forall|i: int|
            0 <= i < segments.len() ==> #[trigger] join_with_spaces(segments).subrange(
                segment_start(segments, i),
                segment_start(segments, i) + segments[i].len(),
            ) == segments[i],
        forall|i: int|
            0 < i < segments.len() ==> #[trigger] join_with_spaces(segments)[segment_start(
                segments,
                i,
            ) - 1] == ' ',
    decreases segments.len(),
{
    reveal_strlit(" ");
    let j = join_with_spaces(segments);
    let n = segments.len() as int;
    if n == 1 {
        assert(segments.drop_last() =~= Seq::<Seq<char>>::empty());
        assert(segments.take(0) =~= Seq::<Seq<char>>::empty());
        assert(j.subrange(0, segments[0].len() as int) =~= segments[0]);
    } else {
        let rest = segments.drop_last();
        lemma_join_keeps_every_segment(rest);
        let jr = join_with_spaces(rest);
        let last = segments.last();
        assert(j == jr + " "@ + last);
        assert(" "@ =~= seq![' ']);
        assert forall|i: int| 0 <= i < n implies #[trigger] segment_start(segments, i)
            == segment_start(rest, i) by {
            assert(segments.take(i) =~= rest.take(i));
        }
        assert(total_chars(segments) == total_chars(rest) + last.len());
        assert forall|i: int| 0 <= i < n implies #[trigger] j.subrange(
            segment_start(segments, i),
            segment_start(segments, i) + segments[i].len(),
        ) == segments[i] by {
            let st = segment_start(segments, i);
            if i < n - 1 {
                assert(segment_start(segments, i) == segment_start(rest, i));
                assert(rest[i] == segments[i]);
                lemma_segment_fits(rest, i);
                let sub = jr.subrange(st, st + rest[i].len());
                assert(sub == rest[i]);
                assert(j.subrange(st, st + segments[i].len()) =~= sub);
            } else {
                assert(segment_start(segments, n - 1) == segment_start(rest, n - 1));
                assert(rest.take(n - 1) =~= rest);
                assert(st == jr.len() + 1);
                assert(j.subrange(st, st + last.len()) =~= last);
            }
        }
        assert forall|i: int| 0 < i < n implies #[trigger] j[segment_start(segments, i) - 1]
            == ' ' by {
            assert(segment_start(segments, i) == segment_start(rest, i));
            if i < n - 1 {
                lemma_segment_fits(rest, i);
                assert(jr[segment_start(rest, i) - 1] == ' ');
            } else {
                assert(rest.take(n - 1) =~= rest);
            }
        }
    }
}

proof fn lemma_total_chars_nonnegative(segments: Seq<Seq<char>>)
    ensures
        total_chars(segments) >= 0,
    decreases segments.len(),
{
    if segments.len() > 0 {
        lemma_total_chars_nonnegative(segments.drop_last());
    }
}

proof fn lemma_segment_fits(segments: Seq<Seq<char>>, i: int)
    requires
        0 <= i < segments.len(),
    ensures
        segment_start(segments, i) >= i,
        segment_start(segments, i) + segments[i].len() <= total_chars(segments) + segments.len()
            - 1,
    decreases segments.len(),
{
    let n = segments.len() as int;
    let rest = segments.drop_last();
    lemma_total_chars_nonnegative(segments.take(i));
    if i < n - 1 {
        lemma_segment_fits(rest, i);
        assert(segments.take(i) =~= rest.take(i));
        assert(rest[i] == segments[i]);
    } else {
        assert(segments.take(i) =~= rest);
    }
}

/// The transcript keeps every segment's words: a single segment's transcript
/// is that segment collapsed, and appending a segment appends its collapsed
/// words after one space (or gives them alone when the earlier transcript was
/// empty). So the last segment's words end the transcript, and no segment is
/// dropped.
pub proof fn lemma_transcript_appends_segment(segments: Seq<Seq<char>>, s: Seq<char>)
    ensures
        transcript_view(Seq::empty()).len() == 0,
        transcript_view(seq![s]) == collapse_whitespace(s),
        segments.len() > 0 ==> transcript_view(segments.push(s)) == glue(
            transcript_view(segments),
            collapse_whitespace(s),
        ),
{
    reveal_strlit(" ");
    assert(" "@ =~= seq![' ']);
    if segments.len() > 0 {
        let all = segments.push(s);
        assert(all.drop_last() =~= segments);
        assert(all.last() == s);
        assert(join_with_spaces(all) == join_with_spaces(segments) + " "@ + s);
        lemma_collapse_glue(join_with_spaces(segments), s);
    }
}

/// The transcript of Whisper's segments, or an error when it holds no text.
pub fn finish_transcript(segments: &Vec<String>) -> (r: Result<String, AuralFlowError>)
    ensures
        r is Ok <==> transcript_view(segments@.map_values(|s: String| s@)).len() > 0,
        r matches Ok(t) ==> t@ == transcript_view(segments@.map_values(|s: String| s@)),
        r matches Err(e) ==> (e matches AuralFlowError::Transcription(m) && m@
            == "Whisper no devolvió texto"@),
{
    let ghost texts = segments@.map_values(|s: String| s@);
    let mut joined = String::new();
    let mut i: usize = 0;
    while i < segments.len()
        invariant
            i <= segments@.len(),
            texts == segments@.map_values(|s: String| s@),
            joined@ == join_with_spaces(texts.take(i as int)),
        decreases segments@.len() - i,
    {
        assert(texts.take(i + 1).drop_last() =~= texts.take(i as int));
        if i > 0 {
            joined.append(" ");
        } else {
            assert(texts.take(1) =~= seq![texts[0]]);
        }
        joined.append(segments[i].as_str());
        i = i + 1;
    }
    assert(texts.take(segments@.len() as int) =~= texts);
    let cleaned = collapse_whitespace_text(joined.as_str());
    let chars = crate::text::chars_of(cleaned.as_str());
    if chars.len() == 0 {
        return Err(transcription_error("Whisper no devolvió texto"));
    }
    Ok(cleaned)
}

/// Whether `a` and `b` hold the same bytes.
pub fn bytes_equal(a: &[u8], b: &[u8]) -> (r: bool)
    ensures
        r == (a@ == b@),
{
    if a.len() != b.len() {
        return false;
    }
    let mut i: usize = 0;
    while i < a.len()
        invariant
            i <= a@.len() == b@.len(),
            forall|k: int| 0 <= k < i ==> a@[k] == b@[k],
        decreases a@.len() - i,
    {
        if a[i] != b[i] {
            return false;
        }
        i = i + 1;
    }
    assert(a@ =~= b@);
    true
}

/// The components of a path key, each as the bytes that encode it.
pub open spec fn path_key_view(key: Seq<Vec<u8>>) -> Seq<Seq<u8>> {
    key.map_values(|c: Vec<u8>| c@)
}

/// A path key's view keeps every component and every byte of it: it has
/// one entry per component, and each entry is exactly that component's bytes.
/// So two keys have equal views exactly when they have the same number of
/// components with the same bytes in each, and a cache holding one path
/// gives nothing for a path that differs in any byte of any component.
pub proof fn lemma_path_key_view_is_exact(a: Seq<Vec<u8>>, b: Seq<Vec<u8>>, value: int)
    ensures
        path_key_view(a).len() == a.len(),
        forall|i: int| 0 <= i < a.len() ==> #[trigger] path_key_view(a)[i] == a[i]@,
        (path_key_view(a) == path_key_view(b)) <==> (a.len() == b.len() && forall|i: int|
            0 <= i < a.len() ==> #[trigger] a[i]@ == b[i]@),
        (exists|i: int| 0 <= i < a.len() && i < b.len() && #[trigger] a[i]@ != b[i]@)
            ==> cache_lookup(Some((path_key_view(a), value)), path_key_view(b)) is None,
{
    if a.len() == b.len() && forall|i: int| 0 <= i < a.len() ==> #[trigger] a[i]@ == b[i]@ {
        assert(path_key_view(a) =~= path_key_view(b));
    }
    if path_key_view(a) == path_key_view(b) {
        assert(a.len() == path_key_view(a).len());
        assert(b.len() == path_key_view(b).len());
        assert forall|i: int| 0 <= i < a.len() implies #[trigger] a[i]@ == b[i]@ by {
            assert(path_key_view(a)[i] == a[i]@);
            assert(path_key_view(b)[i] == b[i]@);
        }
    }
    if exists|i: int| 0 <= i < a.len() && i < b.len() && #[trigger] a[i]@ != b[i]@ {
        let i = choose|i: int| 0 <= i < a.len() && i < b.len() && #[trigger] a[i]@ != b[i]@;
        assert(path_key_view(a)[i] == a[i]@);
        assert(path_key_view(b)[i] == b[i]@);
        assert(path_key_view(a)[i] != path_key_view(b)[i]);
    }
}

/// Whether two paths, given component by component, are equal: the same
/// number of components and equal bytes in each (as `Path` compares).
pub fn path_keys_equal(a: &Vec<Vec<u8>>, b: &Vec<Vec<u8>>) -> (r: bool)
    ensures
        r == (path_key_view(a@) == path_key_view(b@)),
{
    if a.len() != b.len() {
        assert(path_key_view(a@).len() != path_key_view(b@).len());
        return false;
    }
    let mut i: usize = 0;
    while i < a.len()
        invariant
            i <= a@.len() == b@.len(),
            forall|k: int| 0 <= k < i ==> a@[k]@ == b@[k]@,
        decreases a@.len() - i,
    {
        if !bytes_equal(a[i].as_slice(), b[i].as_slice()) {
            assert(path_key_view(a@)[i as int] != path_key_view(b@)[i as int]);
            return false;
        }
        i = i + 1;
    }
    assert(path_key_view(a@) =~= path_key_view(b@));
    true
}

/// The most recently loaded model, kept so that it is loaded only once per
/// path. A path is keyed by its components, so paths that `Path` holds equal
/// share an entry.
pub struct ModelCache<T> {
    entry: Option<(Vec<Vec<u8>>, T)>,
}

/// What looking up `key` in a cache holding `cached` gives: the cached value
/// when it was loaded from the same path, otherwise nothing.
pub open spec fn cache_lookup<T>(cached: Option<(Seq<Seq<u8>>, T)>, key: Seq<Seq<u8>>) -> Option<T> {
    match cached {
        Some((k, v)) => if k == key {
            Some(v)
        } else {
            None
        },
        None => None,
    }
}

impl<T> ModelCache<T> {
    /// The path key and value held, if any.
    pub closed spec fn cached(&self) -> Option<(Seq<Seq<u8>>, T)> {
        match self.entry {
            Some((k, v)) => Some((path_key_view(k@), v)),
            None => None,
        }
    }

    /// An empty cache.
    pub fn new() -> (r: ModelCache<T>)
        ensures
            r.cached() is None,
    {
        ModelCache { entry: None }
    }

    /// The value loaded from the path with components `key`, if it is the
    /// one held.
    pub fn lookup(&self, key: &Vec<Vec<u8>>) -> (r: Option<&T>)
        ensures
            r matches Some(v) ==> cache_lookup(self.cached(), path_key_view(key@)) == Some(*v),
            r is None ==> cache_lookup(self.cached(), path_key_view(key@)) is None,
    {
        match &self.entry {
            Some((k, v)) => {
                if path_keys_equal(k, key) {
                    Some(v)
                } else {
                    None
                }
            },
            None => None,
        }
    }

    /// Holds `value`, loaded from the path with components `key`, in place
    /// of what was held.
    pub fn store(&mut self, key: Vec<Vec<u8>>, value: T)
        ensures
            final(self).cached() == Some((path_key_view(key@), value)),
    {
        self.entry = Some((key, value));
    }
}

/// After a value is stored for a path, looking up that path gives it back,
/// and looking up any other path gives nothing.
pub proof fn lemma_cache_store_then_lookup<T>(key: Seq<Seq<u8>>, other: Seq<Seq<u8>>, value: T)
    requires
        other != key,
    ensures
        cache_lookup(Some((key, value)), key) == Some(value),
        cache_lookup(Some((key, value)), other) is None,
{
}

/// How Whisper is run: greedy decoding of one candidate, no translation, no
/// printing, blank and non-speech tokens suppressed, no timestamps; a
/// preview (the partial text shown while speaking) asks for a single segment
/// without the previous context.
#[derive(Debug, Clone, Copy, PartialEq, Eq)]
pub struct WhisperSettings {
    pub best_of: i32,
    pub translate: bool,
    pub print_special: bool,
    pub print_progress: bool,
    pub print_realtime: bool,
    pub print_timestamps: bool,
    pub suppress_blank: bool,
    pub suppress_non_speech: bool,
    pub no_timestamps: bool,
    pub single_segment: bool,
    pub no_context: bool,
    pub threads: i32,
}

/// The inference settings for a preview or a final transcription, with
/// `available` hardware threads.
pub fn whisper_settings(preview: bool, available: Option<usize>) -> (r: WhisperSettings)
    ensures
        r.best_of == 1,
        !r.translate && !r.print_special && !r.print_progress && !r.print_realtime
            && !r.print_timestamps,
        r.suppress_blank && r.suppress_non_speech && r.no_timestamps,
        r.single_segment == preview,
        r.no_context == preview,
        r.threads == inference_threads_view(available),
{
    WhisperSettings {
        best_of: 1,
        translate: false,
        print_special: false,
        print_progress: false,
        print_realtime: false,
        print_timestamps: false,
        suppress_blank: true,
        suppress_non_speech: true,
        no_timestamps: true,
        single_segment: preview,
        no_context: preview,
        threads: inference_threads(available),
    }
}

/// The error for a recording in which no voice was detected.
pub fn no_voice_error() -> (e: AuralFlowError)
    ensures
        e matches AuralFlowError::Transcription(m) && m@
            == "no se ha detectado voz; revisa el micrófono"@,
{
    transcription_error("no se ha detectado voz; revisa el micrófono")
}

} // verus!
