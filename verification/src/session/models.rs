//! Data of the model contract: exercises requested from the language model,
//! the warm-up and cloze cards built for a session, and the analysis the
//! model returns.
use vstd::prelude::*;

use crate::curriculum::Topic;
use crate::learning_items::LearningItem;
use crate::text::copy_str;
use crate::vocabulary::{copy_opt, Form, Lemma};

verus! {

/// One translation exercise.
#[derive(Debug, Clone, PartialEq)]
pub struct Exercise {
    pub id: String,
    pub target_sentence: String,
    pub expected_translation: String,
    pub acceptable_translations: Vec<String>,
    pub target_topic_ids: Vec<String>,
    pub side_topic_ids: Vec<String>,
    pub expected_patterns: Vec<String>,
    pub hint: Option<String>,
    /// The module units the exercise practises, when it belongs to a module.
    pub target_unit_ids: Option<Vec<String>>,
}

/// Whether a warm-up card reinforces a word the learner has already been
/// evaluated on (`Review`) or introduces one they have not (`New`).
#[derive(Debug, Clone, Copy, Default, PartialEq, Eq, Structural)]
pub enum WarmupKind {
    #[default]
    Review,
    New,
}

/// One warm-up card shown before the session's exercises.
#[derive(Debug, Clone, PartialEq)]
pub struct WarmupItem {
    /// Id of the lemma this card was built from; `None` for a genuinely new
    /// word that has no lemma row yet.
    pub lemma_id: Option<String>,
    pub lemma: String,
    /// Universal Dependencies part-of-speech tag ("NOUN", "VERB", ...).
    pub pos: Option<String>,
    /// Approximate CEFR level ("A1"–"C2").
    pub cefr_level: Option<String>,
    /// Translation in the learner's native language.
    pub translation: String,
    /// Short example sentence in the target language.
    pub example: Option<String>,
    pub kind: WarmupKind,
}

/// The view of a warm-up card.
pub struct WarmupItemView {
    pub lemma_id: Option<Seq<char>>,
    pub lemma: Seq<char>,
    pub pos: Option<Seq<char>>,
    pub cefr_level: Option<Seq<char>>,
    pub translation: Seq<char>,
    pub example: Option<Seq<char>>,
    pub kind: WarmupKind,
}

/// The view of an optional string.
pub open spec fn opt_seq(o: Option<String>) -> Option<Seq<char>> {
    match o {
        Some(s) => Some(s@),
        None => None,
    }
}

impl View for WarmupItem {
    type V = WarmupItemView;

    open spec fn view(&self) -> WarmupItemView {
        WarmupItemView {
            lemma_id: opt_seq(self.lemma_id),
            lemma: self.lemma@,
            pos: opt_seq(self.pos),
            cefr_level: opt_seq(self.cefr_level),
            translation: self.translation@,
            example: opt_seq(self.example),
            kind: self.kind,
        }
    }
}

/// One cloze (fill-in-the-blank with a word bank) item.
#[derive(Debug, Clone, PartialEq)]
pub struct ClozeItem {
    /// Id of the lemma this item was built from; `None` for a word that has
    /// no lemma row yet.
    pub lemma_id: Option<String>,
    pub lemma: String,
    pub pos: Option<String>,
    pub cefr_level: Option<String>,
    /// Full target-language sentence with the target word replaced by a
    /// single `_____` placeholder.
    pub sentence: String,
    /// The correct word form as it appears in the sentence.
    pub answer: String,
    /// 3–4 choices including `answer`; order is shuffled by the caller.
    pub options: Vec<String>,
    /// Translation of the sentence in the learner's native language.
    pub translation: String,
}

/// The view of a cloze item.
pub struct ClozeItemView {
    pub lemma_id: Option<Seq<char>>,
    pub lemma: Seq<char>,
    pub pos: Option<Seq<char>>,
    pub cefr_level: Option<Seq<char>>,
    pub sentence: Seq<char>,
    pub answer: Seq<char>,
    pub options: Seq<Seq<char>>,
    pub translation: Seq<char>,
}

impl View for ClozeItem {
    type V = ClozeItemView;

    open spec fn view(&self) -> ClozeItemView {
        ClozeItemView {
            lemma_id: opt_seq(self.lemma_id),
            lemma: self.lemma@,
            pos: opt_seq(self.pos),
            cefr_level: opt_seq(self.cefr_level),
            sentence: self.sentence@,
            answer: self.answer@,
            options: self.options.deep_view(),
            translation: self.translation@,
        }
    }
}

/// The evaluation of a batch of answers, as the model returns it, together
/// with what the pipeline derives from it.
#[derive(Debug, Clone, PartialEq)]
pub struct AnalysisResult {
    /// The session score, when the model gave one, as the bit pattern of an
    /// IEEE-754 double.
    pub session_score_bits: Option<u64>,
    pub sentences: Vec<SentenceAnalysis>,
    pub evaluated_topics: Vec<EvaluatedTopic>,
    pub new_topics: Vec<Topic>,
    /// Word-specific items routed to the learning items instead of the
    /// curriculum; filled by the pipeline, never by the model.
    pub new_learning_items: Vec<LearningItem>,
    /// Vocabulary entries created or updated while applying the analysis.
    pub new_lemmas: Vec<Lemma>,
    pub new_forms: Vec<Form>,
}

/// A topic score the model gave.
#[derive(Debug, Clone, PartialEq)]
pub struct EvaluatedTopic {
    pub topic_id: String,
    /// The score as the bit pattern of an IEEE-754 double.
    pub score_bits: u64,
    /// The previous score, when known, as the bit pattern of a double.
    pub previous_score_bits: Option<u64>,
}

/// The plain content of an error.
pub struct GrammarErrorView {
    pub error_type: GrammarErrorType,
    pub pattern: Seq<char>,
    pub explanation: Seq<char>,
    pub topic_ids: Seq<Seq<char>>,
    pub new_topics: Seq<(Seq<char>, Seq<char>, Option<Seq<char>>)>,
}

/// The plain content of a proposed topic.
pub open spec fn new_topic_view(t: NewTopicRef) -> (Seq<char>, Seq<char>, Option<Seq<char>>) {
    (t.name@, t.description@, opt_seq(t.level))
}

/// The plain content of an error.
pub open spec fn error_view(e: GrammarError) -> GrammarErrorView {
    GrammarErrorView {
        error_type: e.error_type,
        pattern: e.pattern@,
        explanation: e.explanation@,
        topic_ids: e.topic_ids.deep_view(),
        new_topics: Seq::new(e.new_topics@.len(), |i: int| new_topic_view(e.new_topics@[i])),
    }
}

/// The plain contents of a list of errors.
pub open spec fn error_views(es: Seq<GrammarError>) -> Seq<GrammarErrorView> {
    Seq::new(es.len(), |i: int| error_view(es[i]))
}

/// A copy of an error with the same content.
pub fn copy_error(e: &GrammarError) -> (r: GrammarError)
    ensures
        error_view(r) == error_view(*e),
{
    let mut topic_ids: Vec<String> = Vec::new();
    let mut i: usize = 0;
    while i < e.topic_ids.len()
        invariant
            i <= e.topic_ids@.len(),
            topic_ids.deep_view() == e.topic_ids.deep_view().take(i as int),
        decreases e.topic_ids@.len() - i,
    {
        let ghost before = topic_ids.deep_view();
        topic_ids.push(copy_str(e.topic_ids[i].as_str()));
        assert(topic_ids.deep_view() =~= before.push(e.topic_ids@[i as int]@));
        assert(e.topic_ids.deep_view().take(i + 1) =~= e.topic_ids.deep_view().take(i as int).push(
            e.topic_ids@[i as int]@,
        ));
        i = i + 1;
    }
    assert(e.topic_ids.deep_view().take(e.topic_ids@.len() as int) =~= e.topic_ids.deep_view());
    let mut new_topics: Vec<NewTopicRef> = Vec::new();
    let mut j: usize = 0;
    while j < e.new_topics.len()
        invariant
            j <= e.new_topics@.len(),
            new_topics@.len() == j,
            forall|k: int|
                0 <= k < j ==> new_topic_view(#[trigger] new_topics@[k]) == new_topic_view(
                    e.new_topics@[k],
                ),
        decreases e.new_topics@.len() - j,
    {
        let t = &e.new_topics[j];
        new_topics.push(
            NewTopicRef {
                name: copy_str(t.name.as_str()),
                description: copy_str(t.description.as_str()),
                level: copy_opt(&t.level),
            },
        );
        j = j + 1;
    }
    let r = GrammarError {
        error_type: e.error_type,
        pattern: copy_str(e.pattern.as_str()),
        explanation: copy_str(e.explanation.as_str()),
        topic_ids,
        new_topics,
    };
    assert(error_view(r).new_topics =~= error_view(*e).new_topics);
    r
}

/// The analysis of one translated sentence.
#[derive(Debug, Clone, PartialEq)]
pub struct SentenceAnalysis {
    pub sentence_number: i32,
    pub student_translation: String,
    pub expected_translation: String,
    pub acceptable_translations: Vec<String>,
    pub semantic_verdict: SemanticVerdict,
    pub errors: Vec<GrammarError>,
    pub per_sentence_feedback: Vec<FeedbackComment>,
    /// Content words extracted from the expected translation (side
    /// "target") and from the student's translation (side "student", with
    /// per-use assessments).
    pub used_vocabulary: Vec<VocabularyUse>,
}

/// One content word used in a sentence.
#[derive(Debug, Clone, Default, PartialEq)]
pub struct VocabularyUse {
    /// The surface form as it appeared in the sentence.
    pub surface: String,
    /// Dictionary headword (lemma) of the surface form.
    pub lemma: String,
    /// Universal Dependencies part-of-speech tag.
    pub pos: String,
    /// UD features in "Attr=Val|..." format.
    pub feats: String,
    /// "target" (expected translation) or "student" (student translation).
    pub side: String,
    /// Student side only: whether the surface is spelled acceptably.
    pub spelling_ok: Option<bool>,
    /// Student side only: whether the word or form is used correctly.
    pub usage_ok: Option<bool>,
    /// Whether the surface matches a form of the expected translation.
    pub expected_form: bool,
    /// Approximate CEFR level of the lemma.
    pub cefr_level: Option<String>,
}

/// How well a translation preserves the meaning.
#[derive(Debug, Clone, Copy, Default, PartialEq, Eq, Structural)]
pub enum SemanticVerdict {
    #[default]
    Correct,
    Acceptable,
    NeedsCorrection,
}

/// A feedback remark on a sentence.
#[derive(Debug, Clone, PartialEq)]
pub struct FeedbackComment {
    pub comment: String,
}

/// One error in a translation.
#[derive(Debug, Clone, Default, PartialEq)]
pub struct GrammarError {
    pub error_type: GrammarErrorType,
    pub pattern: String,
    pub explanation: String,
    pub topic_ids: Vec<String>,
    pub new_topics: Vec<NewTopicRef>,
}

/// A topic the model proposes for an error that no known topic covers.
#[derive(Debug, Clone, Default, PartialEq)]
pub struct NewTopicRef {
    pub name: String,
    pub description: String,
    pub level: Option<String>,
}

/// Severity of an error.
#[derive(Debug, Clone, Copy, Default, PartialEq, Eq, Structural)]
pub enum GrammarErrorType {
    Critical,
    Major,
    Minor,
    #[default]
    Spelling,
}

} // verus!
