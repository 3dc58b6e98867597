//! The classification provider's side: provider configuration, reading a
//! provider's verdict, and the keyword-based mock provider.

use vstd::prelude::*;
use vstd::string::*;
use crate::policy::QualityLevel;
use crate::text::{lowercase, lower_of, str_eq, str_contains, seq_contains};

verus! {

/// A classification with its confidence (basis points) and reasoning.
#[derive(Debug, Clone)]
pub struct Evaluation {
    pub classification: QualityLevel,
    pub confidence: u32,
    pub reasoning: String,
}

impl Evaluation {
    pub fn new(classification: QualityLevel, confidence: u32, reasoning: String) -> (r: Evaluation)
        ensures
            r.classification == classification,
            r.confidence == confidence,
            r.reasoning == reasoning,
    {
        Evaluation { classification, confidence, reasoning }
    }
}

/// Why a classification could not be had.
#[derive(Debug)]
pub enum LlmError {
    ApiError(String),
    ParseError(String),
    AuthError,
    RateLimitError,
    InvalidClassification(String),
    NetworkError(String),
    ConfigError(String),
}

/// Which provider classifies, and how to reach it.
#[derive(Debug, Clone)]
pub enum LlmConfig {
    Claude { api_key: String, model: String, base_url: Option<String> },
    OpenAi { api_key: String, model: String, base_url: Option<String> },
    Mock { default_classification: Option<String> },
}

impl Default for LlmConfig {
    fn default() -> (r: LlmConfig)
        ensures
            r matches LlmConfig::Mock { default_classification } && default_classification is None,
    {
        LlmConfig::Mock { default_classification: None }
    }
}

/// The model used with the second cloud provider unless configured.
pub fn default_openai_model() -> (r: String)
    ensures
        r@ == "gpt-4o"@,
{
    String::from_str("gpt-4o")
}

/// The quality level a lower-case name denotes; `_quality` may follow any
/// of the four.
pub open spec fn quality_named(s: Seq<char>) -> Option<QualityLevel> {
    if s == "spam"@ || s == "spam_quality"@ {
        Some(QualityLevel::Spam)
    } else if s == "low"@ || s == "low_quality"@ {
        Some(QualityLevel::Low)
    } else if s == "acceptable"@ || s == "acceptable_quality"@ {
        Some(QualityLevel::Acceptable)
    } else if s == "high"@ || s == "high_quality"@ {
        Some(QualityLevel::High)
    } else {
        None
    }
}

/// The quality level an already lower-cased name denotes.
pub fn quality_of_lower(s: &str) -> (r: Option<QualityLevel>)
    ensures
        r == quality_named(s@),
{
    if str_eq(s, "spam") || str_eq(s, "spam_quality") {
        Some(QualityLevel::Spam)
    } else if str_eq(s, "low") || str_eq(s, "low_quality") {
        Some(QualityLevel::Low)
    } else if str_eq(s, "acceptable") || str_eq(s, "acceptable_quality") {
        Some(QualityLevel::Acceptable)
    } else if str_eq(s, "high") || str_eq(s, "high_quality") {
        Some(QualityLevel::High)
    } else {
        None
    }
}

/// Read a provider's classification, case aside.
pub fn parse_classification(s: &str) -> (r: Result<QualityLevel, LlmError>)
    ensures
        quality_named(lower_of(s@)) matches Some(q) ==> r matches Ok(p) && p == q,
        quality_named(lower_of(s@)) is None ==> (r matches Err(LlmError::InvalidClassification(t))
            && t@ == s@),
{
    let lower = lowercase(s);
    match quality_of_lower(lower.as_str()) {
        Some(q) => Ok(q),
        None => Err(LlmError::InvalidClassification(String::from_str(s))),
    }
}

/// A provider's confidence, in basis points, clamped into `[0, 1]`.
pub open spec fn clamped_confidence(bp: i64) -> u32 {
    if bp < 0 {
        0
    } else if bp > 10000 {
        10000
    } else {
        bp as u32
    }
}

/// The evaluation a provider's reply gives: its classification read case
/// aside, its confidence (in basis points) clamped into `[0, 1]`, its
/// reasoning as given.
pub fn evaluation_from_reply(classification: &str, confidence: i64, reasoning: String) -> (r: Result<
    Evaluation,
    LlmError,
>)
    ensures
        quality_named(lower_of(classification@)) matches Some(q) ==> (r matches Ok(e) && e.classification
            == q && e.confidence == clamped_confidence(confidence) && e.reasoning == reasoning),
        quality_named(lower_of(classification@)) is None ==> (r matches Err(LlmError::InvalidClassification(t))
            && t@ == classification@),
{
    let q = match parse_classification(classification) {
        Ok(q) => q,
        Err(e) => {
            return Err(e);
        },
    };
    let c: u32 = if confidence < 0 {
        0
    } else if confidence > 10000 {
        10000
    } else {
        confidence as u32
    };
    Ok(Evaluation::new(q, c, reasoning))
}

/// Read a configured quality level, case aside.
pub fn parse_quality_level(s: &str) -> (r: Result<QualityLevel, LlmError>)
    ensures
        quality_named(lower_of(s@)) matches Some(q) ==> r matches Ok(p) && p == q,
        quality_named(lower_of(s@)) is None ==> r matches Err(LlmError::ConfigError(_)),
{
    let lower = lowercase(s);
    match quality_of_lower(lower.as_str()) {
        Some(q) => Ok(q),
        None => Err(LlmError::ConfigError(String::from_str("Invalid quality level"))),
    }
}

fn find_first(s: &str, c: char) -> (r: Option<usize>)
    ensures
        r matches Some(i) ==> i < s@.len() && s@[i as int] == c && forall|j: int| 0 <= j < i ==> s@[j] != c,
        r is None ==> forall|j: int| 0 <= j < s@.len() ==> s@[j] != c,
{
    let n = s.unicode_len();
    let mut i: usize = 0;
    while i < n
        invariant
            n == s@.len(),
            i <= n,
            forall|j: int| 0 <= j < i ==> s@[j] != c,
        decreases n - i,
    {
        if s.get_char(i) == c {
            return Some(i);
        }
        i = i + 1;
    }
    None
}

fn find_last(s: &str, c: char) -> (r: Option<usize>)
    ensures
        r matches Some(i) ==> i < s@.len() && s@[i as int] == c && forall|j: int| i < j < s@.len() ==> s@[j] != c,
        r is None ==> forall|j: int| 0 <= j < s@.len() ==> s@[j] != c,
{
    let n = s.unicode_len();
    let mut i: usize = n;
    while i > 0
        invariant
            n == s@.len(),
            i <= n,
            forall|j: int| i <= j < n ==> s@[j] != c,
        decreases i,
    {
        if s.get_char(i - 1) == c {
            return Some(i - 1);
        }
        i = i - 1;
    }
    None
}

/// Where the JSON object of a provider's reply starts: its first `{`, or the
/// start of the text.
pub open spec fn span_start(s: Seq<char>) -> int {
    if exists|i: int| 0 <= i < s.len() && s[i] == '{' {
        choose|i: int| 0 <= i < s.len() && s[i] == '{' && forall|j: int| 0 <= j < i ==> s[j] != '{'
    } else {
        0
    }
}

/// Where it ends: just past its last `}`, or the end of the text.
pub open spec fn span_end(s: Seq<char>) -> int {
    if exists|i: int| 0 <= i < s.len() && s[i] == '}' {
        1 + choose|i: int| 0 <= i < s.len() && s[i] == '}' && forall|j: int| i < j < s.len() ==> s[j] != '}'
    } else {
        s.len() as int
    }
}

/// The part of a provider's reply from its first `{` to its last `}`;
/// leading and trailing text is dropped. `None` when the last `}` comes
/// before the first `{`.
pub fn json_span(text: &str) -> (r: Option<&str>)
    ensures
        span_start(text@) <= span_end(text@) ==> (r matches Some(t) && t@ == text@.subrange(
            span_start(text@),
            span_end(text@),
        )),
        span_start(text@) > span_end(text@) ==> r is None,
{
    let n = text.unicode_len();
    let start = match find_first(text, '{') {
        Some(i) => i,
        None => 0,
    };
    let end = match find_last(text, '}') {
        Some(i) => i + 1,
        None => n,
    };
    proof {
        let s = text@;
        if exists|i: int| 0 <= i < s.len() && s[i] == '{' {
            let k = span_start(s);
            if k != start as int {
                if k < start as int {
                    assert(s[k] == '{');
                } else {
                    assert(s[start as int] == '{');
                }
            }
        }
        if exists|i: int| 0 <= i < s.len() && s[i] == '}' {
            let k = span_end(s) - 1;
            if k != end as int - 1 {
                if k > end as int - 1 {
                    assert(s[k] == '}');
                } else {
                    assert(s[end as int - 1] == '}');
                }
            }
        }
    }
    if start > end {
        None
    } else {
        Some(text.substring_char(start, end))
    }
}

/// Provider that classifies by keywords, or always answers one level.
#[derive(Debug, Clone)]
pub struct MockEvaluator {
    default_classification: Option<QualityLevel>,
}

pub open spec fn any_of(text: Seq<char>, words: Seq<Seq<char>>) -> bool {
    exists|i: int| 0 <= i < words.len() && seq_contains(text, #[trigger] words[i])
}

pub open spec fn spam_words() -> Seq<Seq<char>> {
    seq!["spam"@, "buy now"@, "click here"@, "free money"@, "viagra"@]
}

pub open spec fn low_words() -> Seq<Seq<char>> {
    seq!["low quality"@, "trivial"@, "wip"@, "test commit"@]
}

pub open spec fn high_words() -> Seq<Seq<char>> {
    seq!["high quality"@, "well-structured"@, "comprehensive"@, "implements"@, "fixes #"@]
}

/// The length of a text in UTF-8 bytes (a text in memory always fits).
pub open spec fn utf8_len(s: Seq<char>) -> nat {
    (vstd::utf8::encode_utf8(s).len() as usize) as nat
}

/// The mock's verdict on lower-cased text of `byte_len` UTF-8 bytes.
pub open spec fn mock_verdict(lower: Seq<char>, byte_len: nat) -> (QualityLevel, u32) {
    if any_of(lower, spam_words()) {
        (QualityLevel::Spam, 9500)
    } else if any_of(lower, low_words()) || byte_len < 10 {
        (QualityLevel::Low, 8500)
    } else if any_of(lower, high_words()) || (seq_contains(lower, "test"@) && seq_contains(
        lower,
        "documentation"@,
    )) {
        (QualityLevel::High, 9000)
    } else {
        (QualityLevel::Acceptable, 8000)
    }
}

fn contains_any(text: &str, w0: &str, w1: &str, w2: &str, w3: &str, w4: &str) -> (r: bool)
    ensures
        r == (seq_contains(text@, w0@) || seq_contains(text@, w1@) || seq_contains(text@, w2@)
            || seq_contains(text@, w3@) || seq_contains(text@, w4@)),
{
    str_contains(text, w0) || str_contains(text, w1) || str_contains(text, w2) || str_contains(text, w3)
        || str_contains(text, w4)
}

fn contains_any4(text: &str, w0: &str, w1: &str, w2: &str, w3: &str) -> (r: bool)
    ensures
        r == (seq_contains(text@, w0@) || seq_contains(text@, w1@) || seq_contains(text@, w2@)
            || seq_contains(text@, w3@)),
{
    str_contains(text, w0) || str_contains(text, w1) || str_contains(text, w2) || str_contains(text, w3)
}

/// The mock's keyword verdict on an already lower-cased text.
pub fn classify_lowered(l: &str) -> (r: (QualityLevel, u32, String))
    ensures
        (r.0, r.1) == mock_verdict(l@, utf8_len(l@)),
{
    proof {
        reveal_strlit("spam");
        reveal_strlit("low quality");
        reveal_strlit("high quality");
    }
    assert(spam_words() =~= seq!["spam"@, "buy now"@, "click here"@, "free money"@, "viagra"@]);
    if contains_any(l, "spam", "buy now", "click here", "free money", "viagra") {
        assert(any_of(l@, spam_words())) by {
            if seq_contains(l@, "spam"@) { assert(spam_words()[0] == "spam"@); }
            else if seq_contains(l@, "buy now"@) { assert(spam_words()[1] == "buy now"@); }
            else if seq_contains(l@, "click here"@) { assert(spam_words()[2] == "click here"@); }
            else if seq_contains(l@, "free money"@) { assert(spam_words()[3] == "free money"@); }
            else { assert(spam_words()[4] == "viagra"@); }
        }
        return (QualityLevel::Spam, 9500, String::from_str("Content contains spam indicators"));
    }
    assert(!any_of(l@, spam_words())) by {
        if any_of(l@, spam_words()) {
            let i = choose|i: int| 0 <= i < spam_words().len() && seq_contains(l@, #[trigger] spam_words()[i]);
            assert(i == 0 || i == 1 || i == 2 || i == 3 || i == 4);
        }
    }
    if contains_any4(l, "low quality", "trivial", "wip", "test commit") || l.len() < 10 {
        proof {
            assert(low_words() =~= seq!["low quality"@, "trivial"@, "wip"@, "test commit"@]);
            if seq_contains(l@, "low quality"@) { assert(low_words()[0] == "low quality"@); }
            else if seq_contains(l@, "trivial"@) { assert(low_words()[1] == "trivial"@); }
            else if seq_contains(l@, "wip"@) { assert(low_words()[2] == "wip"@); }
            else if seq_contains(l@, "test commit"@) { assert(low_words()[3] == "test commit"@); }
        }
        return (
            QualityLevel::Low,
            8500,
            String::from_str("Content appears to be low quality or incomplete"),
        );
    }
    assert(!any_of(l@, low_words())) by {
        if any_of(l@, low_words()) {
            let i = choose|i: int| 0 <= i < low_words().len() && seq_contains(l@, #[trigger] low_words()[i]);
            assert(i == 0 || i == 1 || i == 2 || i == 3);
        }
    }
    if contains_any(l, "high quality", "well-structured", "comprehensive", "implements", "fixes #")
        || (str_contains(l, "test") && str_contains(l, "documentation")) {
        proof {
            if seq_contains(l@, "high quality"@) { assert(high_words()[0] == "high quality"@); }
            else if seq_contains(l@, "well-structured"@) { assert(high_words()[1] == "well-structured"@); }
            else if seq_contains(l@, "comprehensive"@) { assert(high_words()[2] == "comprehensive"@); }
            else if seq_contains(l@, "implements"@) { assert(high_words()[3] == "implements"@); }
            else if seq_contains(l@, "fixes #"@) { assert(high_words()[4] == "fixes #"@); }
        }
        return (
            QualityLevel::High,
            9000,
            String::from_str("Content demonstrates high quality and thoroughness"),
        );
    }
    assert(!any_of(l@, high_words())) by {
        if any_of(l@, high_words()) {
            let i = choose|i: int| 0 <= i < high_words().len() && seq_contains(l@, #[trigger] high_words()[i]);
            assert(i == 0 || i == 1 || i == 2 || i == 3 || i == 4);
        }
    }
    (QualityLevel::Acceptable, 8000, String::from_str("Content meets basic quality standards"))
}

impl MockEvaluator {
    pub closed spec fn default_of(&self) -> Option<QualityLevel> {
        self.default_classification
    }

    /// A mock that classifies by keywords.
    pub fn new() -> (r: MockEvaluator)
        ensures
            r.default_of() is None,
    {
        MockEvaluator { default_classification: None }
    }

    /// A mock that always answers `classification`.
    pub fn with_default(classification: QualityLevel) -> (r: MockEvaluator)
        ensures
            r.default_of() == Some(classification),
    {
        MockEvaluator { default_classification: Some(classification) }
    }

    /// Classify `content` by the keywords of its lower-cased text.
    pub fn classify_by_keywords(&self, content: &str) -> (r: (QualityLevel, u32, String))
        ensures
            (r.0, r.1) == mock_verdict(lower_of(content@), utf8_len(lower_of(content@))),
    {
        let lower = lowercase(content);
        classify_lowered(lower.as_str())
    }

    /// The mock's evaluation of `content`: the fixed level at 0.95 when one
    /// is set, the keyword verdict otherwise.
    pub fn evaluate(&self, content: &str) -> (r: Evaluation)
        ensures
            self.default_of() matches Some(q) ==> r.classification == q && r.confidence == 9500,
            self.default_of() is None ==> (r.classification, r.confidence) == mock_verdict(
                lower_of(content@),
                utf8_len(lower_of(content@)),
            ),
    {
        match self.default_classification {
            Some(q) => {
                let mut reasoning = String::from_str("Mock evaluation: ");
                let label = crate::ledger::quality_label_string(q);
                reasoning.append(label.as_str());
                Evaluation::new(q, 9500, reasoning)
            },
            None => {
                let (q, c, reasoning) = self.classify_by_keywords(content);
                Evaluation::new(q, c, reasoning)
            },
        }
    }

    /// The provider's name.
    pub fn provider_name(&self) -> (r: String)
        ensures
            r@ == "mock"@,
    {
        String::from_str("mock")
    }
}

} // verus!
