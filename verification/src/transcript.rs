//! Transcription support: the cache of the loaded speech model, the
//! language handed to the model, the decoding of WAV samples, and the
//! clean-up of the text that the model produced.

use vstd::prelude::*;
use crate::text::{
    decimal_spec, is_white_space_spec, law_trim_edges, law_trim_idempotent, push_decimal, trim,
    trim_spec,
};

verus! {

/// Whether two strings hold the same characters.
pub fn str_eq(a: &str, b: &str) -> (r: bool)
    ensures
        r == (a@ == b@),
{
    let sa = String::from_str(a);
    let sb = String::from_str(b);
    sa == sb
}

/// Caches the speech model that was loaded last, together with the path it
/// was loaded from, so that transcribing again with the same model does not
/// load it again. `C` is the loaded model.
pub struct Transcriber<C> {
    cached_model_path: Option<String>,
    cached_context: Option<C>,
}

impl<C> Transcriber<C> {
    /// The path the cached model was loaded from.
    pub closed spec fn cached_path(&self) -> Option<Seq<char>> {
        match self.cached_model_path {
            Some(p) => Some(p@),
            None => None,
        }
    }

    /// The cached model.
    pub closed spec fn cached(&self) -> Option<C> {
        self.cached_context
    }

    /// The model that a request for `model_path` finds in the cache.
    pub open spec fn lookup(&self, model_path: Seq<char>) -> Option<C> {
        if self.cached_path() == Some(model_path) && self.cached() is Some {
            self.cached()
        } else {
            None
        }
    }

    /// A transcriber with nothing cached.
    pub fn new() -> (r: Self)
        ensures
            r.cached_path() is None,
            r.cached() is None,
    {
        Transcriber { cached_model_path: None, cached_context: None }
    }

    /// The cached model, where it was loaded from `model_path`. It is asked
    /// for only at the model stage of a transcription, once the audio is
    /// decoded and found not empty.
    pub fn cached_context(&self, _stage: &ModelStage, model_path: &str) -> (r: Option<&C>)
        ensures
            r is Some <==> self.lookup(model_path@) is Some,
            r matches Some(c) ==> *c == self.lookup(model_path@).unwrap(),
    {
        match (&self.cached_model_path, &self.cached_context) {
            (Some(p), Some(c)) => {
                if str_eq(p.as_str(), model_path) {
                    Some(c)
                } else {
                    None
                }
            },
            _ => None,
        }
    }

    /// Caches `ctx` as the model loaded from `model_path`, replacing what
    /// was cached before. It is done only at the model stage of a
    /// transcription.
    pub fn store_context(&mut self, _stage: &ModelStage, model_path: &str, ctx: C)
        ensures
            final(self).cached_path() == Some(model_path@),
            final(self).cached() == Some(ctx),
    {
        self.cached_model_path = Some(String::from_str(model_path));
        self.cached_context = Some(ctx);
    }
}

/// Once a model is cached for a path, a request for the same path finds
/// it and a request for any other path finds nothing.
pub proof fn law_cache_lookup_after_store<C>(
    after: Transcriber<C>,
    path: Seq<char>,
    ctx: C,
    other: Seq<char>,
)
    requires
        after.cached_path() == Some(path),
        after.cached() == Some(ctx),
    ensures
        after.lookup(path) == Some(ctx),
        other != path ==> after.lookup(other) is None,
{
}

/// The message when the model file does not exist.
pub fn model_not_found_message(model_path: &str) -> (r: String)
    ensures
        r@ == "Model file not found at: "@ + model_path@,
{
    let mut r = String::new();
    r.append("Model file not found at: ");
    r.append(model_path);
    assert(r@ =~= "Model file not found at: "@ + model_path@);
    r
}

/// The language setting that selects automatic detection.
pub open spec fn auto_language() -> Seq<char> {
    seq!['a', 'u', 't', 'o']
}

/// The language handed to the model: the chosen language, or automatic
/// detection when none is chosen.
pub open spec fn whisper_language_spec(language: Seq<char>) -> Seq<char> {
    if language != auto_language() && language.len() != 0 {
        language
    } else {
        auto_language()
    }
}

fn auto_string() -> (r: String)
    ensures
        r@ == auto_language(),
{
    let mut r = String::new();
    r.append("auto");
    proof {
        reveal_strlit("auto");
    }
    assert(r@ =~= auto_language());
    r
}

/// The language handed to the model is the setting itself unless the
/// setting is empty, in which case detection is automatic.
pub proof fn law_language_empty_means_auto(language: Seq<char>)
    ensures
        whisper_language_spec(language) == if language.len() == 0 {
            auto_language()
        } else {
            language
        },
{
}

/// The language handed to the model for the language setting `language`.
pub fn whisper_language(language: &str) -> (r: String)
    ensures
        r@ == whisper_language_spec(language@),
{
    let auto = auto_string();
    let given = String::from_str(language);
    if given != auto && !language.is_empty() {
        given
    } else {
        auto
    }
}

/// Whether the samples of a WAV file are integers or floating point.
#[derive(Clone, Copy, Debug, PartialEq, Eq)]
pub enum SampleFormat {
    Int,
    Float,
}

/// How the samples of a WAV file are read.
#[derive(Clone, Copy, Debug, PartialEq, Eq)]
pub enum SampleDecoder {
    Int8,
    Int16,
    Int32,
    Float32,
}

/// The message for a sample width that cannot be read.
pub open spec fn unsupported_bits_message(bits: u16) -> Seq<char> {
    seq![
        'U', 'n', 's', 'u', 'p', 'p', 'o', 'r', 't', 'e', 'd', ' ', 'b', 'i', 't', 's', ' ',
        'p', 'e', 'r', ' ', 's', 'a', 'm', 'p', 'l', 'e', ':', ' '
    ] + decimal_spec(bits as nat)
}

/// How samples of the given format and width are read: integers of 8, 16
/// or 32 bits, or floating point; any other integer width is refused.
pub fn sample_decoder(format: SampleFormat, bits_per_sample: u16) -> (r: Result<
    SampleDecoder,
    String,
>)
    ensures
        format == SampleFormat::Float ==> r == Ok::<SampleDecoder, String>(SampleDecoder::Float32),
        format == SampleFormat::Int && bits_per_sample == 8 ==> r == Ok::<SampleDecoder, String>(
            SampleDecoder::Int8,
        ),
        format == SampleFormat::Int && bits_per_sample == 16 ==> r == Ok::<SampleDecoder, String>(
            SampleDecoder::Int16,
        ),
        format == SampleFormat::Int && bits_per_sample == 32 ==> r == Ok::<SampleDecoder, String>(
            SampleDecoder::Int32,
        ),
        r is Err <==> (format == SampleFormat::Int && bits_per_sample != 8 && bits_per_sample != 16
            && bits_per_sample != 32),
        r matches Err(msg) ==> msg@ == unsupported_bits_message(bits_per_sample),
{
    match format {
        SampleFormat::Float => Ok(SampleDecoder::Float32),
        SampleFormat::Int => {
            if bits_per_sample == 16 {
                Ok(SampleDecoder::Int16)
            } else if bits_per_sample == 8 {
                Ok(SampleDecoder::Int8)
            } else if bits_per_sample == 32 {
                Ok(SampleDecoder::Int32)
            } else {
                let mut msg = String::new();
                msg.append("Unsupported bits per sample: ");
                proof {
                    reveal_strlit("Unsupported bits per sample: ");
                }
                push_decimal(&mut msg, bits_per_sample as u64);
                assert(msg@ =~= unsupported_bits_message(bits_per_sample));
                Err(msg)
            }
        },
    }
}

/// How samples of the given format and width are read, or the message
/// for a width that cannot be read.
pub open spec fn decoder_spec(format: SampleFormat, bits_per_sample: u16) -> Result<
    SampleDecoder,
    Seq<char>,
> {
    match format {
        SampleFormat::Float => Ok(SampleDecoder::Float32),
        SampleFormat::Int => if bits_per_sample == 8 {
            Ok(SampleDecoder::Int8)
        } else if bits_per_sample == 16 {
            Ok(SampleDecoder::Int16)
        } else if bits_per_sample == 32 {
            Ok(SampleDecoder::Int32)
        } else {
            Err(unsupported_bits_message(bits_per_sample))
        },
    }
}

/// The message for audio without samples.
pub open spec fn empty_audio_message() -> Seq<char> {
    "Audio file is empty"@
}

/// A transcription whose audio file is open and is to be decoded.
pub struct AudioDecoding {
    decoder: SampleDecoder,
}

/// A transcription whose audio was decoded into samples, and is to be
/// brought to mono at 16 kHz.
pub struct AudioResampling {
    decoded: usize,
}

/// A transcription whose audio is ready: only now is the model looked up
/// and run.
pub struct ModelStage {
    decoded: usize,
    samples: usize,
}

impl AudioResampling {
    #[verifier::type_invariant]
    closed spec fn has_samples(&self) -> bool {
        self.decoded > 0
    }

    /// How many samples were decoded.
    pub closed spec fn decoded_samples(&self) -> nat {
        self.decoded as nat
    }
}

impl ModelStage {
    #[verifier::type_invariant]
    closed spec fn has_samples(&self) -> bool {
        self.decoded > 0 && self.samples > 0
    }

    /// How many samples were decoded.
    pub closed spec fn decoded_samples(&self) -> nat {
        self.decoded as nat
    }

    /// How many samples go to the model.
    pub closed spec fn samples(&self) -> nat {
        self.samples as nat
    }

    /// The language handed to the model for the language setting `setting`.
    pub fn language(&self, setting: &str) -> (r: String)
        ensures
            r@ == whisper_language_spec(setting@),
    {
        whisper_language(setting)
    }
}

/// The first step of a transcription, once the audio file is open: how
/// its samples are read, or the refusal of a sample width that cannot be.
pub fn begin_transcription(format: SampleFormat, bits_per_sample: u16) -> (r: Result<
    AudioDecoding,
    String,
>)
    ensures
        match decoder_spec(format, bits_per_sample) {
            Ok(d) => r is Ok && r->Ok_0.decoder_spec() == d,
            Err(m) => r is Err && r->Err_0@ == m,
        },
{
    match sample_decoder(format, bits_per_sample) {
        Ok(decoder) => Ok(AudioDecoding { decoder }),
        Err(m) => Err(m),
    }
}

impl AudioDecoding {
    /// How the samples are read.
    pub closed spec fn decoder_spec(&self) -> SampleDecoder {
        self.decoder
    }

    /// How the samples are read.
    pub fn decoder(&self) -> (r: SampleDecoder)
        ensures
            r == self.decoder_spec(),
    {
        self.decoder
    }

    /// The next step once `sample_count` samples were decoded: audio
    /// without samples is refused.
    pub fn decoded(self, sample_count: usize) -> (r: Result<AudioResampling, String>)
        ensures
            r is Err <==> sample_count == 0,
            r matches Err(m) ==> m@ == empty_audio_message(),
            r matches Ok(n) ==> n.decoded_samples() == sample_count,
    {
        if sample_count == 0 {
            Err(String::from_str("Audio file is empty"))
        } else {
            Ok(AudioResampling { decoded: sample_count })
        }
    }
}

impl AudioResampling {
    /// The next step once the audio was brought to mono at 16 kHz and gave
    /// `sample_count` samples: audio without samples is refused, and
    /// otherwise the model may be looked up.
    pub fn resampled(self, sample_count: usize) -> (r: Result<ModelStage, String>)
        ensures
            r is Err <==> sample_count == 0,
            r matches Err(m) ==> m@ == empty_audio_message(),
            r matches Ok(m) ==> m.decoded_samples() == self.decoded_samples() && m.samples()
                == sample_count && m.decoded_samples() > 0 && m.samples() > 0,
    {
        proof {
            use_type_invariant(&self);
        }
        if sample_count == 0 {
            Err(String::from_str("Audio file is empty"))
        } else {
            Ok(ModelStage { decoded: self.decoded, samples: sample_count })
        }
    }
}

/// Wrapper for `autocorrect::format`: the text with spacing between CJK
/// and half-width characters (and the crate's other rules) corrected. The
/// result depends on the crate's process-wide configuration, which any code
/// in the process can replace (`autocorrect::config::load`), so the
/// contract states nothing about it.
#[verifier::external_body]
fn autocorrect_text(text: &str) -> String {
    autocorrect::format(text)
}

/// The segments joined in order.
pub open spec fn joined_segments(segments: Seq<Seq<char>>) -> Seq<char>
    decreases segments.len(),
{
    if segments.len() == 0 {
        seq![]
    } else {
        joined_segments(segments.drop_last()) + segments.last()
    }
}

/// Joining takes every segment, in order: the segments of two runs joined
/// are the two joined texts one after the other.
pub proof fn law_joined_segments_append(first: Seq<Seq<char>>, rest: Seq<Seq<char>>)
    ensures
        joined_segments(first + rest) == joined_segments(first) + joined_segments(rest),
    decreases rest.len(),
{
    if rest.len() == 0 {
        assert(first + rest =~= first);
        assert(joined_segments(first) + joined_segments(rest) =~= joined_segments(first));
    } else {
        let shorter = rest.drop_last();
        law_joined_segments_append(first, shorter);
        assert((first + rest).drop_last() =~= first + shorter);
        assert((first + rest).last() == rest.last());
        assert(joined_segments(first + rest) =~= joined_segments(first) + joined_segments(
            shorter,
        ) + rest.last());
    }
}

/// A single segment joined is that segment, and no segments join to the
/// empty text.
pub proof fn law_joined_single_segment(segment: Seq<char>)
    ensures
        joined_segments(seq![segment]) == segment,
        joined_segments(Seq::<Seq<char>>::empty()) == Seq::<char>::empty(),
{
    let one = seq![segment];
    assert(one.len() == 1 && one.last() == segment);
    assert(one.drop_last() =~= Seq::<Seq<char>>::empty());
    assert(joined_segments(Seq::<Seq<char>>::empty()) == Seq::<char>::empty());
    assert(joined_segments(one) == joined_segments(one.drop_last()) + segment);
    assert(Seq::<char>::empty() + segment =~= segment);
}

/// The joined text is as long as all segments together, and each segment
/// stands in it right after the segments before it.
pub proof fn law_joined_segments_contains_each(segments: Seq<Seq<char>>, k: int)
    requires
        0 <= k < segments.len(),
    ensures
        joined_segments(segments) == joined_segments(segments.take(k)) + segments[k]
            + joined_segments(segments.skip(k + 1)),
{
    let before = segments.take(k);
    let after = segments.skip(k + 1);
    assert(segments =~= before + (seq![segments[k]] + after));
    law_joined_segments_append(before, seq![segments[k]] + after);
    law_joined_segments_append(seq![segments[k]], after);
    law_joined_single_segment(segments[k]);
}

/// The transcript made of the model's segments, before autocorrect:
/// joined and trimmed.
pub open spec fn cleaned_transcript_spec(segments: Seq<Seq<char>>) -> Seq<char> {
    trim_spec(joined_segments(segments))
}

/// The views of the segments.
pub open spec fn segment_views(segments: Seq<String>) -> Seq<Seq<char>> {
    segments.map_values(|s: String| s@)
}

/// A cleaned transcript has no white space at either end, and trimming it
/// again changes nothing.
pub proof fn law_transcript_is_trimmed(segments: Seq<Seq<char>>)
    ensures
        ({
            let t = cleaned_transcript_spec(segments);
            &&& t.len() > 0 ==> !is_white_space_spec(t[0]) && !is_white_space_spec(t.last())
            &&& trim_spec(t) == t
        }),
{
    law_trim_edges(joined_segments(segments));
    law_trim_idempotent(joined_segments(segments));
}

/// The model's segments joined in order, with white space trimmed from
/// both ends.
pub fn clean_transcript(segments: &Vec<String>) -> (r: String)
    ensures
        r@ == cleaned_transcript_spec(segment_views(segments@)),
{
    let mut text = String::new();
    let mut i: usize = 0;
    while i < segments.len()
        invariant
            i <= segments.len(),
            text@ == joined_segments(segment_views(segments@).take(i as int)),
        decreases segments.len() - i,
    {
        text.append(segments[i].as_str());
        proof {
            let sv = segment_views(segments@);
            assert(sv.take(i + 1).drop_last() =~= sv.take(i as int));
        }
        i = i + 1;
    }
    proof {
        assert(segment_views(segments@).take(segments.len() as int) =~= segment_views(segments@));
    }
    trim(text.as_str())
}

/// The transcript text from the text of the model's segments: the cleaned
/// transcript, passed through autocorrect when `apply_autocorrect` is set.
/// What autocorrect makes of the text depends on its process-wide
/// configuration; without it the result is the cleaned transcript.
pub fn finish_transcript(segments: &Vec<String>, apply_autocorrect: bool) -> (r: String)
    ensures
        !apply_autocorrect ==> r@ == cleaned_transcript_spec(segment_views(segments@)),
{
    let cleaned = clean_transcript(segments);
    if apply_autocorrect {
        autocorrect_text(cleaned.as_str())
    } else {
        cleaned
    }
}

} // verus!
