//! What the library makes of the model's replies once they were read as
//! JSON: the exercises of a session, the analysis of a batch of answers,
//! and the errors reported when a reply is unusable.
use vstd::prelude::*;

use crate::curriculum::Topic;
use crate::error::AppError;
use crate::session::models::{AnalysisResult, Exercise, SentenceAnalysis};
use crate::llm::response::LlmResponse;
use crate::text::{
    char_is_whitespace, chars_of, copy_str, white_space, decimal, lower_text, push_decimal, push_str, substring,
    to_lowercase, trim, trim_spec,
};
use vstd::utf8::{decode_utf8, encode_utf8, is_char_boundary};

verus! {

/// The exercises of a session with the optional extra arrays of the reply.
#[derive(Debug, Clone)]
pub struct Exercises {
    pub exercises: Vec<Exercise>,
    /// Warm-up cards for the session's forced vocabulary, one per forced
    /// lemma. Optional: older prompts and bare-array replies have none.
    pub warmup: Vec<RawWarmupItem>,
    /// Content vocabulary the model used across the generated exercises.
    pub vocabulary: Vec<RawVocabularyItem>,
    /// Cloze items, one per word of `vocabulary`.
    pub cloze: Vec<RawClozeItem>,
}

/// Warm-up entry as returned by the model, before it is matched against the
/// session's forced lemmas. Every field is optional.
#[derive(Debug, Clone, Default)]
pub struct RawWarmupItem {
    pub lemma: String,
    pub pos: Option<String>,
    pub cefr_level: Option<String>,
    pub translation: Option<String>,
    pub example: Option<String>,
}

/// Content-vocabulary entry as returned by the model for the exercises it
/// generated. Every field is optional.
#[derive(Debug, Clone, Default)]
pub struct RawVocabularyItem {
    pub lemma: String,
    /// The exact inflected form as it appears in the sentence.
    pub surface: String,
    pub pos: Option<String>,
    pub cefr_level: Option<String>,
    pub translation: Option<String>,
}

/// Cloze entry as returned by the model, before it is validated. The
/// sentence is complete: the pipeline blanks the answer out itself.
#[derive(Debug, Clone, Default)]
pub struct RawClozeItem {
    pub lemma: String,
    pub sentence: String,
    pub answer: String,
    pub distractors: Vec<String>,
    pub translation: Option<String>,
    pub pos: Option<String>,
    pub cefr_level: Option<String>,
}

/// The topics of one CEFR level of a curriculum reply.
#[derive(Debug, Clone)]
pub struct LevelCurriculum {
    pub topics: Vec<Topic>,
}

/// Whether `r` is the model error with the message `msg`.
pub open spec fn is_llm_error<T>(r: Result<T, AppError>, msg: Seq<char>) -> bool {
    r matches Err(AppError::Llm(m)) && m@ == msg
}

/// Whether a reply holds nothing but whitespace.
pub open spec fn is_blank(s: Seq<char>) -> bool {
    trim_spec(s).len() == 0
}

/// The message for a reply without text.
pub open spec fn empty_response_text(content_chars: nat, reasoning_chars: nat) -> Seq<char> {
    "empty response (content "@ + decimal(content_chars) + " chars, reasoning "@ + decimal(
        reasoning_chars,
    ) + " chars)"@
}

fn empty_response_error(content_chars: usize, reasoning_chars: usize) -> (e: AppError)
    ensures
        e matches AppError::Llm(m) && m@ == empty_response_text(
            content_chars as nat,
            reasoning_chars as nat,
        ),
{
    let mut m = String::new();
    push_str(&mut m, "empty response (content ");
    push_decimal(&mut m, content_chars as u64);
    push_str(&mut m, " chars, reasoning ");
    push_decimal(&mut m, reasoning_chars as u64);
    push_str(&mut m, " chars)");
    AppError::Llm(m)
}

fn llm_error(msg: &str) -> (e: AppError)
    ensures
        e matches AppError::Llm(m) && m@ == msg@,
{
    let mut m = String::new();
    push_str(&mut m, msg);
    AppError::Llm(m)
}

pub const NO_EXERCISES: &'static str = "parsed JSON contains no exercises";

pub const EMPTY_EXERCISE_ARRAY: &'static str = "parsed JSON array is empty";

pub const NOT_EXERCISE_SCHEMA: &'static str = "JSON does not match expected exercise schema";

/// Whether `x` is a session made of the exercises `v` alone.
pub open spec fn exercises_alone(x: Exercises, v: Vec<Exercise>) -> bool {
    &&& x.exercises == v
    &&& x.warmup@.len() == 0
    &&& x.vocabulary@.len() == 0
    &&& x.cloze@.len() == 0
}

/// The exercises of a session from a cleaned reply. `as_wrapper` is what
/// reading `cleaned` as the object `{"exercises": [...], ...}` gave, and
/// `as_array` what reading it as a bare array of exercises gave (`None`
/// where the reading failed). A blank reply is an error; otherwise the
/// object reading is preferred, then the array one, and either must hold at
/// least one exercise.
pub fn parse_session_exercises(
    cleaned: &str,
    content_chars: usize,
    reasoning_chars: usize,
    as_wrapper: Option<Exercises>,
    as_array: Option<Vec<Exercise>>,
) -> (r: Result<Exercises, AppError>)
    ensures
        is_blank(cleaned@) ==> is_llm_error(
            r,
            empty_response_text(content_chars as nat, reasoning_chars as nat),
        ),
        !is_blank(cleaned@) ==> match as_wrapper {
            Some(w) => if w.exercises@.len() == 0 {
                is_llm_error(r, NO_EXERCISES@)
            } else {
                r == Ok::<Exercises, AppError>(w)
            },
            None => match as_array {
                Some(v) => if v@.len() == 0 {
                    is_llm_error(r, EMPTY_EXERCISE_ARRAY@)
                } else {
                    r matches Ok(x) && exercises_alone(x, v)
                },
                None => is_llm_error(r, NOT_EXERCISE_SCHEMA@),
            },
        },
{
    let trimmed = trim(cleaned);
    if trimmed.as_str().is_empty() {
        return Err(empty_response_error(content_chars, reasoning_chars));
    }
    if let Some(wrapper) = as_wrapper {
        if wrapper.exercises.len() == 0 {
            return Err(llm_error(NO_EXERCISES));
        }
        return Ok(wrapper);
    }
    if let Some(v) = as_array {
        if v.len() == 0 {
            return Err(llm_error(EMPTY_EXERCISE_ARRAY));
        }
        return Ok(
            Exercises { exercises: v, warmup: Vec::new(), vocabulary: Vec::new(), cloze: Vec::new() },
        );
    }
    Err(llm_error(NOT_EXERCISE_SCHEMA))
}

/// The exercises alone of `parse_session_exercises`.
pub fn parse_exercises(
    cleaned: &str,
    content_chars: usize,
    reasoning_chars: usize,
    as_wrapper: Option<Exercises>,
    as_array: Option<Vec<Exercise>>,
) -> (r: Result<Vec<Exercise>, AppError>)
    ensures
        is_blank(cleaned@) ==> is_llm_error(
            r,
            empty_response_text(content_chars as nat, reasoning_chars as nat),
        ),
        !is_blank(cleaned@) ==> match as_wrapper {
            Some(w) => if w.exercises@.len() == 0 {
                is_llm_error(r, NO_EXERCISES@)
            } else {
                r == Ok::<Vec<Exercise>, AppError>(w.exercises)
            },
            None => match as_array {
                Some(v) => if v@.len() == 0 {
                    is_llm_error(r, EMPTY_EXERCISE_ARRAY@)
                } else {
                    r == Ok::<Vec<Exercise>, AppError>(v)
                },
                None => is_llm_error(r, NOT_EXERCISE_SCHEMA@),
            },
        },
{
    match parse_session_exercises(cleaned, content_chars, reasoning_chars, as_wrapper, as_array) {
        Ok(w) => Ok(w.exercises),
        Err(e) => Err(e),
    }
}

/// The message for an analysis without sentences.
pub open spec fn no_sentences_text(content_chars: nat, reasoning_chars: nat) -> Seq<char> {
    "analysis has no sentences (content "@ + decimal(content_chars) + " chars, reasoning "@
        + decimal(reasoning_chars) + " chars)"@
}

/// The message for an analysis with the wrong number of sentences.
pub open spec fn sentence_count_text(expected: nat, actual: nat) -> Seq<char> {
    "expected "@ + decimal(expected) + " sentences, got "@ + decimal(actual)
}

/// A sentence with its number filled in from its position (counted from 1)
/// when the model left it out (zero or negative).
pub open spec fn renumbered(s: SentenceAnalysis, i: int) -> SentenceAnalysis {
    if s.sentence_number <= 0 {
        SentenceAnalysis { sentence_number: (i + 1) as i32, ..s }
    } else {
        s
    }
}

/// Whether `b` is `a` with every sentence renumbered.
pub open spec fn renumbered_analysis(a: AnalysisResult, b: AnalysisResult) -> bool {
    &&& b.sentences@.len() == a.sentences@.len()
    &&& forall|i: int|
        0 <= i < a.sentences@.len() ==> #[trigger] b.sentences@[i] == renumbered(a.sentences@[i], i)
    &&& b.session_score_bits == a.session_score_bits
    &&& b.evaluated_topics == a.evaluated_topics
    &&& b.new_topics == a.new_topics
    &&& b.new_learning_items == a.new_learning_items
    &&& b.new_lemmas == a.new_lemmas
    &&& b.new_forms == a.new_forms
}

/// Checks that an analysis covers exactly the expected number of sentences
/// and fills in the sentence numbers the model left out. With at most
/// `i32::MAX` sentences, every number of the result is positive.
pub fn validate_analysis_sentences(
    analysis: AnalysisResult,
    expected_sentence_count: usize,
    content_chars: usize,
    reasoning_chars: usize,
) -> (r: Result<AnalysisResult, AppError>)
    ensures
        analysis.sentences@.len() == 0 ==> is_llm_error(
            r,
            no_sentences_text(content_chars as nat, reasoning_chars as nat),
        ),
        analysis.sentences@.len() != 0 && analysis.sentences@.len() != expected_sentence_count
            ==> is_llm_error(
            r,
            sentence_count_text(expected_sentence_count as nat, analysis.sentences@.len()),
        ),
        analysis.sentences@.len() != 0 && analysis.sentences@.len() == expected_sentence_count
            ==> (r matches Ok(b) && renumbered_analysis(analysis, b)),
        r matches Ok(b) ==> (b.sentences@.len() <= i32::MAX ==> forall|i: int|
            0 <= i < b.sentences@.len() ==> (#[trigger] b.sentences@[i]).sentence_number > 0),
{
    let n = analysis.sentences.len();
    if n == 0 {
        let mut m = String::new();
        push_str(&mut m, "analysis has no sentences (content ");
        push_decimal(&mut m, content_chars as u64);
        push_str(&mut m, " chars, reasoning ");
        push_decimal(&mut m, reasoning_chars as u64);
        push_str(&mut m, " chars)");
        return Err(AppError::Llm(m));
    }
    if n != expected_sentence_count {
        let mut m = String::new();
        push_str(&mut m, "expected ");
        push_decimal(&mut m, expected_sentence_count as u64);
        push_str(&mut m, " sentences, got ");
        push_decimal(&mut m, n as u64);
        return Err(AppError::Llm(m));
    }
    let ghost input = analysis;
    let mut result = analysis;
    let mut i: usize = 0;
    while i < n
        invariant
            n == input.sentences@.len(),
            i <= n,
            result.sentences@.len() == n,
            forall|j: int| 0 <= j < i ==> #[trigger] result.sentences@[j] == renumbered(input.sentences@[j], j),
            forall|j: int| i <= j < n ==> #[trigger] result.sentences@[j] == input.sentences@[j],
            result.session_score_bits == input.session_score_bits,
            result.evaluated_topics == input.evaluated_topics,
            result.new_topics == input.new_topics,
            result.new_learning_items == input.new_learning_items,
            result.new_lemmas == input.new_lemmas,
            result.new_forms == input.new_forms,
        decreases n - i,
    {
        if result.sentences[i].sentence_number <= 0 {
            result.sentences[i].sentence_number = (i + 1) as i32;
        }
        i = i + 1;
    }
    proof {
        if n <= i32::MAX {
            assert forall|j: int| 0 <= j < n implies (#[trigger] result.sentences@[j]).sentence_number
                > 0 by {
                assert(result.sentences@[j] == renumbered(input.sentences@[j], j));
                assert(((j + 1) as i32) == j + 1);
            }
        }
    }
    Ok(result)
}

pub const NOT_ANALYSIS_SCHEMA: &'static str = "JSON does not match expected analysis schema";

/// Whether `a` is an analysis made of the sentences `v` alone.
pub open spec fn sentences_alone(a: AnalysisResult, v: Vec<SentenceAnalysis>) -> bool {
    &&& a.session_score_bits is None
    &&& a.sentences == v
    &&& a.evaluated_topics@.len() == 0
    &&& a.new_topics@.len() == 0
    &&& a.new_learning_items@.len() == 0
    &&& a.new_lemmas@.len() == 0
    &&& a.new_forms@.len() == 0
}

fn analysis_of_sentences(sentences: Vec<SentenceAnalysis>) -> (a: AnalysisResult)
    ensures
        sentences_alone(a, sentences),
{
    AnalysisResult {
        session_score_bits: None,
        sentences,
        evaluated_topics: Vec::new(),
        new_topics: Vec::new(),
        new_learning_items: Vec::new(),
        new_lemmas: Vec::new(),
        new_forms: Vec::new(),
    }
}

/// Whether `a` is the analysis of the first reading that succeeded: the
/// full object, else the bare array, else the `sentences` member.
pub open spec fn first_reading(
    as_result: Option<AnalysisResult>,
    as_array: Option<Vec<SentenceAnalysis>>,
    sentences_field: Option<Vec<SentenceAnalysis>>,
    a: AnalysisResult,
) -> bool {
    match as_result {
        Some(x) => a == x,
        None => match as_array {
            Some(v) => sentences_alone(a, v),
            None => match sentences_field {
                Some(v) => sentences_alone(a, v),
                None => false,
            },
        },
    }
}

/// Whether `r` is what `validate_analysis_sentences` gives for `a`.
pub open spec fn validated(
    r: Result<AnalysisResult, AppError>,
    a: AnalysisResult,
    expected: nat,
    content_chars: nat,
    reasoning_chars: nat,
) -> bool {
    &&& (a.sentences@.len() == 0 ==> is_llm_error(r, no_sentences_text(content_chars, reasoning_chars)))
    &&& (a.sentences@.len() != 0 && a.sentences@.len() != expected ==> is_llm_error(
        r,
        sentence_count_text(expected, a.sentences@.len()),
    ))
    &&& (a.sentences@.len() != 0 && a.sentences@.len() == expected ==> (r matches Ok(b)
        && renumbered_analysis(a, b)))
}

/// The analysis of a batch from a cleaned reply. `as_result` is what reading
/// `cleaned` as the full analysis object gave, `as_array` what reading it as
/// a bare array of sentences gave, and `sentences_field` what reading the
/// `sentences` member of the reply's top-level object gave (`None` where a
/// reading failed). A blank reply is an error; otherwise the first reading
/// that succeeded, in that order, is validated by
/// `validate_analysis_sentences`.
pub fn parse_analysis(
    cleaned: &str,
    expected_sentence_count: usize,
    content_chars: usize,
    reasoning_chars: usize,
    as_result: Option<AnalysisResult>,
    as_array: Option<Vec<SentenceAnalysis>>,
    sentences_field: Option<Vec<SentenceAnalysis>>,
) -> (r: Result<AnalysisResult, AppError>)
    ensures
        is_blank(cleaned@) ==> is_llm_error(
            r,
            empty_response_text(content_chars as nat, reasoning_chars as nat),
        ),
        !is_blank(cleaned@) && as_result is None && as_array is None && sentences_field is None
            ==> is_llm_error(r, NOT_ANALYSIS_SCHEMA@),
        !is_blank(cleaned@) && (as_result is Some || as_array is Some || sentences_field is Some)
            ==> exists|a: AnalysisResult|
            #[trigger] first_reading(as_result, as_array, sentences_field, a) && validated(
                r,
                a,
                expected_sentence_count as nat,
                content_chars as nat,
                reasoning_chars as nat,
            ),
{
    let trimmed = trim(cleaned);
    if trimmed.as_str().is_empty() {
        return Err(empty_response_error(content_chars, reasoning_chars));
    }
    let analysis = if let Some(a) = as_result {
        a
    } else if let Some(v) = as_array {
        analysis_of_sentences(v)
    } else if let Some(v) = sentences_field {
        analysis_of_sentences(v)
    } else {
        return Err(llm_error(NOT_ANALYSIS_SCHEMA));
    };
    let ghost chosen = analysis;
    let r = validate_analysis_sentences(
        analysis,
        expected_sentence_count,
        content_chars,
        reasoning_chars,
    );
    assert(first_reading(as_result, as_array, sentences_field, chosen));
    r
}

/// Whether a text can be cut after its first 500 bytes: it is no longer, or
/// a character starts there.
pub open spec fn cuttable(s: Seq<char>) -> bool {
    encode_utf8(s).len() > 500 ==> is_char_boundary(encode_utf8(s), 500)
}

/// A text as quoted in an error: whole when its UTF-8 encoding has at most
/// 500 bytes, else its first 500 bytes followed by a note with its total
/// size in bytes.
pub open spec fn preview_spec(s: Seq<char>) -> Seq<char> {
    let bytes = encode_utf8(s);
    if bytes.len() > 500 {
        decode_utf8(bytes.subrange(0, 500)) + "...[truncated, total "@ + decimal(bytes.len())
            + " chars]"@
    } else {
        s
    }
}

fn preview(s: &str) -> (r: String)
    requires
        cuttable(s@),
    ensures
        r@ == preview_spec(s@),
{
    let size = s.as_bytes().len();
    if size > 500 {
        let (head, _) = s.split_at(500);
        proof {
            broadcast use vstd::utf8::encode_utf8_decode_utf8;

            assert(head@ == decode_utf8(encode_utf8(head@)));
        }
        let mut out = copy_str(head);
        push_str(&mut out, "...[truncated, total ");
        push_decimal(&mut out, size as u64);
        push_str(&mut out, " chars]");
        out
    } else {
        copy_str(s)
    }
}

/// The message of the error reported when no reply could be used after all
/// retries.
pub open spec fn parse_error_text(
    kind: Seq<char>,
    response: LlmResponse,
    cleaned: Seq<char>,
    parse_errors: Seq<char>,
    dump_path: Option<Seq<char>>,
) -> Seq<char> {
    "Failed to generate "@ + kind + " after all retries.\nRaw ("@ + decimal(
        encode_utf8(response.raw@).len(),
    ) + " chars, content "@ + decimal(response.content_chars as nat) + " chars, reasoning "@
        + decimal(response.reasoning_chars as nat) + " chars): "@ + preview_spec(response.raw@)
        + "\nCleaned: "@ + preview_spec(cleaned) + "\nParse errors: "@ + parse_errors + match dump_path {
        Some(p) => "\nFull dump written to: "@ + p,
        None => Seq::empty(),
    }
}

/// The error reported when no reply could be used after all retries: what
/// was asked for, the sizes of the reply, previews of the raw and the
/// cleaned reply, the reading errors, and where the full reply was written.
pub fn build_parse_error(
    kind: &str,
    response: &LlmResponse,
    cleaned: &str,
    parse_errors: &str,
    dump_path: Option<&str>,
) -> (e: AppError)
    requires
        cuttable(response.raw@),
        cuttable(cleaned@),
    ensures
        e matches AppError::Llm(m) && m@ == parse_error_text(
            kind@,
            *response,
            cleaned@,
            parse_errors@,
            match dump_path {
                Some(p) => Some(p@),
                None => None,
            },
        ),
{
    let raw_preview = preview(response.raw.as_str());
    let cleaned_preview = preview(cleaned);
    let mut m = String::new();
    push_str(&mut m, "Failed to generate ");
    push_str(&mut m, kind);
    push_str(&mut m, " after all retries.\nRaw (");
    push_decimal(&mut m, response.raw.as_str().as_bytes().len() as u64);
    push_str(&mut m, " chars, content ");
    push_decimal(&mut m, response.content_chars as u64);
    push_str(&mut m, " chars, reasoning ");
    push_decimal(&mut m, response.reasoning_chars as u64);
    push_str(&mut m, " chars): ");
    push_str(&mut m, raw_preview.as_str());
    push_str(&mut m, "\nCleaned: ");
    push_str(&mut m, cleaned_preview.as_str());
    push_str(&mut m, "\nParse errors: ");
    push_str(&mut m, parse_errors);
    if let Some(p) = dump_path {
        push_str(&mut m, "\nFull dump written to: ");
        push_str(&mut m, p);
    }
    AppError::Llm(m)
}

/// Whether a character may stay in a sanitized id.
pub open spec fn is_id_char(c: char) -> bool {
    ('a' <= c && c <= 'z') || ('0' <= c && c <= '9') || c == '-'
}

/// An id value made kebab-case: lower-cased, then every character that is
/// not an ASCII lower-case letter, a digit or '-' replaced by '-'.
pub open spec fn sanitized_id_spec(value: Seq<char>) -> Seq<char> {
    let l = lower_text(value);
    Seq::new(
        l.len(),
        |i: int|
            if is_id_char(l[i]) {
                l[i]
            } else {
                '-'
            },
    )
}

/// A sanitized id is kebab-case: it holds only ASCII lower-case letters,
/// digits and hyphens, one for each character of the lower-cased value.
pub proof fn lemma_sanitized_id_is_kebab(value: Seq<char>)
    ensures
        sanitized_id_spec(value).len() == lower_text(value).len(),
        forall|i: int|
            0 <= i < sanitized_id_spec(value).len() ==> is_id_char(
                #[trigger] sanitized_id_spec(value)[i],
            ),
{
}

/// The `"id": "<value>"` member that replaces a malformed one.
pub fn id_member(value: &str) -> (r: String)
    ensures
        r@ == "\"id\": \""@ + sanitized_id_spec(value@) + "\""@,
{
    let lowered = to_lowercase(value);
    let chars = chars_of(lowered.as_str());
    let mut out = copy_str("\"id\": \"");
    let ghost head = out@;
    let mut i: usize = 0;
    while i < chars.len()
        invariant
            i <= chars@.len(),
            chars@ == lower_text(value@),
            out@ == head + sanitized_id_spec(value@).take(i as int),
        decreases chars.len() - i,
    {
        let c = chars[i];
        if ('a' <= c && c <= 'z') || ('0' <= c && c <= '9') || c == '-' {
            out.push(c);
        } else {
            out.push('-');
        }
        assert(sanitized_id_spec(value@).take(i + 1) =~= sanitized_id_spec(value@).take(
            i as int,
        ).push(sanitized_id_spec(value@)[i as int]));
        i = i + 1;
    }
    assert(sanitized_id_spec(value@).take(chars@.len() as int) =~= sanitized_id_spec(value@));
    push_str(&mut out, "\"");
    out
}

/// The first position from `j` on that holds no whitespace (the end of
/// the text when there is none).
pub open spec fn skip_ws(s: Seq<char>, j: int) -> int
    decreases s.len() - j,
{
    if j < 0 || j >= s.len() || !white_space(s[j]) {
        j
    } else {
        skip_ws(s, j + 1)
    }
}

/// The first position from `j` on that holds a `"`.
pub open spec fn next_quote(s: Seq<char>, j: int) -> Option<int>
    decreases s.len() - j,
{
    if j < 0 || j >= s.len() {
        None
    } else if s[j] == '"' {
        Some(j)
    } else {
        next_quote(s, j + 1)
    }
}

/// The id member that starts at position `i`, if one does: `"id"`, then
/// whitespace, `:`, whitespace and a quoted value without `"` in it. The
/// result is where the value starts and where its closing quote stands.
pub open spec fn id_match_at(s: Seq<char>, i: int) -> Option<(int, int)> {
    if 0 <= i && i + 4 <= s.len() && s[i] == '"' && s[i + 1] == 'i' && s[i + 2] == 'd' && s[i + 3] == '"' {
        let a = skip_ws(s, i + 4);
        if a < s.len() && s[a] == ':' {
            let b = skip_ws(s, a + 1);
            if b < s.len() && s[b] == '"' {
                match next_quote(s, b + 1) {
                    Some(e) => Some((b + 1, e)),
                    None => None,
                }
            } else {
                None
            }
        } else {
            None
        }
    } else {
        None
    }
}

/// The repaired member for an id value.
pub open spec fn id_member_spec(value: Seq<char>) -> Seq<char> {
    "\"id\": \""@ + sanitized_id_spec(value) + "\""@
}

/// The text from position `i` on with every id member repaired, scanning
/// from the left: a member found at a position is replaced by its repaired
/// form and the scan goes on after its closing quote; any other character
/// stays.
pub open spec fn ids_repaired_from(s: Seq<char>, i: int) -> Seq<char>
    decreases s.len() - i,
{
    if i < 0 || i >= s.len() {
        Seq::empty()
    } else {
        match id_match_at(s, i) {
            Some((v, e)) => if i < e < s.len() {
                id_member_spec(s.subrange(v, e)) + ids_repaired_from(s, e + 1)
            } else {
                Seq::empty()
            },
            None => seq![s[i]] + ids_repaired_from(s, i + 1),
        }
    }
}

fn skip_ws_exec(s: &Vec<char>, j: usize) -> (r: usize)
    requires
        j <= s@.len(),
    ensures
        r as int == skip_ws(s@, j as int),
        j <= r <= s@.len(),
{
    let mut k = j;
    while k < s.len() && char_is_whitespace(s[k])
        invariant
            j <= k <= s@.len(),
            skip_ws(s@, j as int) == skip_ws(s@, k as int),
        decreases s@.len() - k,
    {
        k = k + 1;
    }
    k
}

fn next_quote_exec(s: &Vec<char>, j: usize) -> (r: Option<usize>)
    requires
        j <= s@.len(),
    ensures
        match r {
            Some(k) => next_quote(s@, j as int) == Some(k as int) && j <= k < s@.len(),
            None => next_quote(s@, j as int) is None,
        },
{
    let mut k = j;
    while k < s.len()
        invariant
            j <= k <= s@.len(),
            next_quote(s@, j as int) == next_quote(s@, k as int),
        decreases s@.len() - k,
    {
        if s[k] == '"' {
            return Some(k);
        }
        k = k + 1;
    }
    None
}

fn id_match_exec(s: &Vec<char>, i: usize) -> (r: Option<(usize, usize)>)
    requires
        i < s@.len(),
    ensures
        match r {
            Some((v, e)) => id_match_at(s@, i as int) == Some((v as int, e as int)) && i < v <= e
                < s@.len(),
            None => id_match_at(s@, i as int) is None,
        },
{
    if !(s.len() - i >= 4 && s[i] == '"' && s[i + 1] == 'i' && s[i + 2] == 'd' && s[i + 3] == '"') {
        return None;
    }
    let a = skip_ws_exec(s, i + 4);
    if !(a < s.len() && s[a] == ':') {
        return None;
    }
    let b = skip_ws_exec(s, a + 1);
    if !(b < s.len() && s[b] == '"') {
        return None;
    }
    match next_quote_exec(s, b + 1) {
        Some(e) => Some((b + 1, e)),
        None => None,
    }
}

/// Repairs malformed topic ids in a curriculum reply: every
/// `"id": "<value>"` member, with any whitespace around the colon, becomes
/// `"id": "<sanitized value>"`, whose value is kebab-case (see
/// `sanitized_id_spec`); the members are found from the left and do not
/// overlap, and the rest of the text stays as it is.
pub fn sanitize_curriculum_ids(raw: &str) -> (r: String)
    ensures
        r@ == ids_repaired_from(raw@, 0),
{
    let s = chars_of(raw);
    let mut out = String::new();
    let mut i: usize = 0;
    while i < s.len()
        invariant
            s@ == raw@,
            i <= s@.len(),
            out@ + ids_repaired_from(s@, i as int) == ids_repaired_from(s@, 0),
        decreases s@.len() - i,
    {
        let ghost before = out@;
        match id_match_exec(&s, i) {
            Some((v, e)) => {
                let value = substring(&s, v, e);
                let member = id_member(value.as_str());
                push_str(&mut out, member.as_str());
                assert(out@ + ids_repaired_from(s@, e + 1) =~= before + ids_repaired_from(s@, i as int));
                i = e + 1;
            },
            None => {
                out.push(s[i]);
                assert(out@ + ids_repaired_from(s@, i + 1) =~= before + ids_repaired_from(s@, i as int));
                i = i + 1;
            },
        }
    }
    assert(ids_repaired_from(s@, i as int) =~= Seq::<char>::empty());
    assert(out@ =~= ids_repaired_from(s@, 0));
    out
}

/// How a reading of a reply as JSON failed: the reader's message and the
/// (1-based) column it reported.
#[derive(Debug, Clone)]
pub struct JsonFailure {
    pub message: String,
    pub column: usize,
}

/// The number of bytes of a character in UTF-8.
pub open spec fn utf8_width(c: char) -> nat {
    if (c as u32) < 0x80 {
        1
    } else if (c as u32) < 0x800 {
        2
    } else if (c as u32) < 0x10000 {
        3
    } else {
        4
    }
}

fn char_utf8_width(c: char) -> (r: usize)
    ensures
        r == utf8_width(c),
{
    let u = c as u32;
    if u < 0x80 {
        1
    } else if u < 0x800 {
        2
    } else if u < 0x10000 {
        3
    } else {
        4
    }
}

/// How many leading characters of `s` fit entirely in its first `p` bytes.
pub open spec fn chars_within(s: Seq<char>, p: int) -> nat
    decreases s.len(),
{
    if s.len() == 0 || utf8_width(s[0]) > p {
        0
    } else {
        1 + chars_within(s.drop_first(), p - utf8_width(s[0]))
    }
}

/// The excerpt of `text` around the point where reading failed at
/// `column`: up to 120 characters on each side of the last character
/// boundary at or before that byte, a marker between them, and an ellipsis
/// on each side where the text goes on.
pub open spec fn excerpt_spec(text: Seq<char>, column: nat) -> Seq<char> {
    let p = if column > 0 {
        column - 1
    } else {
        0
    };
    let k = chars_within(text, p) as int;
    let start: int = if k > 120 {
        k - 120
    } else {
        0
    };
    let end: int = if k + 120 < text.len() {
        k + 120
    } else {
        text.len() as int
    };
    (if start > 0 {
        "…"@
    } else {
        Seq::empty()
    }) + text.subrange(start, k) + " <<PARSE ERROR HERE>> "@ + text.subrange(k, end) + (if end
        < text.len() {
        "…"@
    } else {
        Seq::empty()
    })
}

proof fn lemma_chars_within_step(s: Seq<char>, p: int, j: int, used: int)
    requires
        0 <= j < s.len(),
        chars_within(s, p) == j + chars_within(s.subrange(j, s.len() as int), p - used),
    ensures
        utf8_width(s[j]) <= p - used ==> chars_within(s, p) == j + 1 + chars_within(
            s.subrange(j + 1, s.len() as int),
            p - used - utf8_width(s[j]),
        ),
        utf8_width(s[j]) > p - used ==> chars_within(s, p) == j,
{
    let rest = s.subrange(j, s.len() as int);
    assert(rest[0] == s[j]);
    assert(rest.drop_first() =~= s.subrange(j + 1, s.len() as int));
}

/// The excerpt of `text` around the byte where reading failed (see
/// `excerpt_spec`); it never splits a character.
pub fn error_excerpt(text: &str, column: usize) -> (r: String)
    ensures
        r@ == excerpt_spec(text@, column as nat),
{
    let chars = chars_of(text);
    let n = chars.len();
    let p: usize = if column > 0 {
        column - 1
    } else {
        0
    };
    let mut k: usize = 0;
    let mut used: usize = 0;
    assert(chars@.subrange(0, n as int) =~= chars@);
    while k < n
        invariant
            n == chars@.len(),
            chars@ == text@,
            k <= n,
            used <= p,
            chars_within(chars@, p as int) == k + chars_within(
                chars@.subrange(k as int, n as int),
                p - used,
            ),
        ensures
            k <= n,
            chars_within(chars@, p as int) == k,
        decreases n - k,
    {
        proof {
            lemma_chars_within_step(chars@, p as int, k as int, used as int);
        }
        let w = char_utf8_width(chars[k]);
        if w > p - used {
            break;
        }
        used = used + w;
        k = k + 1;
    }
    let start: usize = if k > 120 {
        k - 120
    } else {
        0
    };
    let end: usize = if k < n && n - k > 120 {
        k + 120
    } else {
        n
    };
    let mut out = String::new();
    if start > 0 {
        push_str(&mut out, "…");
    }
    let before = substring(&chars, start, k);
    push_str(&mut out, before.as_str());
    push_str(&mut out, " <<PARSE ERROR HERE>> ");
    let after = substring(&chars, k, end);
    push_str(&mut out, after.as_str());
    if end < n {
        push_str(&mut out, "…");
    }
    out
}

/// The message of the error for a curriculum reply that could not be read.
pub open spec fn curriculum_failure_text(
    level: Seq<char>,
    cleaned: Seq<char>,
    first: JsonFailure,
    retry: JsonFailure,
) -> Seq<char> {
    "Failed to parse "@ + level + " curriculum response: "@ + first.message@
        + " (sanitized retry: "@ + retry.message@ + "); response excerpt ("@ + decimal(
        encode_utf8(cleaned).len(),
    ) + " chars total): "@ + excerpt_spec(cleaned, first.column as nat)
}

/// The message for a level without topics.
pub open spec fn no_topics_text(level: Seq<char>) -> Seq<char> {
    "Level "@ + level + " curriculum returned no topics"@
}

/// The topics of one CEFR level from a cleaned curriculum reply. `first` is
/// what reading `cleaned` as `{"topics": [...]}` gave, and `retry` what
/// reading `sanitize_curriculum_ids(cleaned)` gave. A blank reply is an
/// error; otherwise the first reading is used, else the retry, else the
/// error quotes both failures with an excerpt around the first one; a level
/// without topics is an error.
pub fn parse_curriculum_level(
    cleaned: &str,
    level: &str,
    content_chars: usize,
    reasoning_chars: usize,
    first: Result<LevelCurriculum, JsonFailure>,
    retry: Result<LevelCurriculum, JsonFailure>,
) -> (r: Result<Vec<Topic>, AppError>)
    ensures
        is_blank(cleaned@) ==> is_llm_error(
            r,
            empty_response_text(content_chars as nat, reasoning_chars as nat),
        ),
        !is_blank(cleaned@) ==> match (first, retry) {
            (Err(pe), Err(re)) => is_llm_error(r, curriculum_failure_text(level@, cleaned@, pe, re)),
            (Ok(c), _) | (Err(_), Ok(c)) => if c.topics@.len() == 0 {
                is_llm_error(r, no_topics_text(level@))
            } else {
                r == Ok::<Vec<Topic>, AppError>(c.topics)
            },
        },
{
    let trimmed = trim(cleaned);
    if trimmed.as_str().is_empty() {
        return Err(empty_response_error(content_chars, reasoning_chars));
    }
    let curriculum = match first {
        Ok(c) => c,
        Err(pe) => match retry {
            Ok(c) => c,
            Err(re) => {
                let mut m = copy_str("Failed to parse ");
                push_str(&mut m, level);
                push_str(&mut m, " curriculum response: ");
                push_str(&mut m, pe.message.as_str());
                push_str(&mut m, " (sanitized retry: ");
                push_str(&mut m, re.message.as_str());
                push_str(&mut m, "); response excerpt (");
                push_decimal(&mut m, cleaned.as_bytes().len() as u64);
                push_str(&mut m, " chars total): ");
                let excerpt = error_excerpt(cleaned, pe.column);
                push_str(&mut m, excerpt.as_str());
                return Err(AppError::Llm(m));
            },
        },
    };
    if curriculum.topics.len() == 0 {
        let mut m = copy_str("Level ");
        push_str(&mut m, level);
        push_str(&mut m, " curriculum returned no topics");
        return Err(AppError::Llm(m));
    }
    Ok(curriculum.topics)
}

/// `prefix` followed by `error`, or nothing without an error.
pub open spec fn labelled_error(prefix: Seq<char>, error: Option<String>) -> Seq<char> {
    match error {
        Some(e) => prefix + e@,
        None => Seq::empty(),
    }
}

fn push_labelled(out: &mut String, prefix: &str, error: &Option<String>)
    ensures
        final(out)@ == old(out)@ + labelled_error(prefix@, *error),
{
    if let Some(e) = error {
        push_str(out, prefix);
        push_str(out, e.as_str());
    }
}

/// The reading errors of an exercises reply: the error of reading it as the
/// wrapper object and the error of reading it as a bare array (`None`
/// where the reading succeeded).
pub fn exercise_parse_errors(wrapper_error: Option<String>, array_error: Option<String>) -> (r:
    String)
    ensures
        r@ == labelled_error("as {exercises}: "@, wrapper_error) + "; "@ + labelled_error(
            "as array: "@,
            array_error,
        ),
{
    let mut out = String::new();
    push_labelled(&mut out, "as {exercises}: ", &wrapper_error);
    push_str(&mut out, "; ");
    push_labelled(&mut out, "as array: ", &array_error);
    out
}

/// The reading errors of an analysis reply: the error of reading it as the
/// full object and the error of reading it as a bare array.
pub fn analysis_parse_errors(
    expected_sentence_count: usize,
    top_error: Option<String>,
    array_error: Option<String>,
) -> (r: String)
    ensures
        r@ == "expected "@ + decimal(expected_sentence_count as nat) + " sentences; top-level: "@
            + labelled_error("top-level: "@, top_error) + "; array: "@ + labelled_error(
            "as array: "@,
            array_error,
        ),
{
    let mut out = copy_str("expected ");
    push_decimal(&mut out, expected_sentence_count as u64);
    push_str(&mut out, " sentences; top-level: ");
    push_labelled(&mut out, "top-level: ", &top_error);
    push_str(&mut out, "; array: ");
    push_labelled(&mut out, "as array: ", &array_error);
    out
}

/// The reading error of a curriculum reply (`None` where the reading
/// succeeded).
pub fn curriculum_parse_errors(level: &str, error: Option<String>) -> (r: String)
    ensures
        r@ == match error {
            Some(e) => level@ + " curriculum parse: "@ + e@,
            None => Seq::empty(),
        },
{
    let mut out = String::new();
    if let Some(e) = error {
        push_str(&mut out, level);
        push_str(&mut out, " curriculum parse: ");
        push_str(&mut out, e.as_str());
    }
    out
}

} // verus!
