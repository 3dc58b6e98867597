//! The prompts handed to the classification provider.

use vstd::prelude::*;
use vstd::string::*;

verus! {

/// Kind of content being classified.
#[derive(Debug, Clone, Copy, PartialEq, Eq, Structural)]
pub enum ContentType {
    PullRequest,
    Comment,
    Review,
}

/// What the classifier is told about the content besides the content itself.
#[derive(Debug, Clone)]
pub struct EvalContext {
    pub content_type: ContentType,
    /// Title, for pull requests.
    pub title: Option<String>,
    pub body: String,
    /// Diff summary, for pull requests.
    pub diff_summary: Option<String>,
    /// The surrounding thread, for comments and reviews.
    pub thread_context: Option<String>,
}

/// The instructions that open every classification request.
pub const SYSTEM_PROMPT: &'static str = "Evaluate open source contributions for quality and spam detection.

Classify each contribution into one of four quality levels:
- spam: Obvious spam, promotional content, or malicious contributions
- low: Low-effort contributions with minimal value (trivial changes, poor quality, unclear intent)
- acceptable: Valid contributions that meet basic standards
- high: High-quality contributions (well-structured, clear intent, meaningful improvements)

Return your evaluation as JSON in this exact format:
{
  \"classification\": \"spam\" | \"low\" | \"acceptable\" | \"high\",
  \"confidence\": 0.0-1.0,
  \"reasoning\": \"Brief explanation of your classification\"
}

Be objective and focus on:
1. Intent and quality of the contribution
2. Clarity of communication
3. Technical merit
4. Effort and thoughtfulness
5. Potential value to the project";

/// The system prompt.
pub fn system_prompt() -> (r: &'static str)
    ensures
        r@ == SYSTEM_PROMPT@,
{
    SYSTEM_PROMPT
}

/// `"{label}{text}\n\n"` when `part` is present, nothing otherwise.
pub open spec fn optional_section(label: Seq<char>, part: Option<String>) -> Seq<char> {
    match part {
        Some(t) => label + t@ + "\n\n"@,
        None => Seq::empty(),
    }
}

pub open spec fn closing_line() -> Seq<char> {
    "Provide your evaluation as JSON."@
}

pub open spec fn pr_prompt(content: Seq<char>, ctx: EvalContext) -> Seq<char> {
    "Evaluate this pull request:\n\n"@ + optional_section("Title: "@, ctx.title) + "Description:\n"@
        + ctx.body@ + "\n\n"@ + optional_section("Diff Summary: "@, ctx.diff_summary)
        + "Full Content:\n"@ + content + "\n\n"@ + closing_line()
}

pub open spec fn comment_prompt(content: Seq<char>, ctx: EvalContext) -> Seq<char> {
    "Evaluate this comment:\n\n"@ + optional_section("Thread Context:\n"@, ctx.thread_context)
        + "Comment:\n"@ + content + "\n\n"@ + closing_line()
}

pub open spec fn review_prompt(content: Seq<char>, ctx: EvalContext) -> Seq<char> {
    "Evaluate this pull request review:\n\n"@ + optional_section("PR Context:\n"@, ctx.thread_context)
        + "Review:\n"@ + content + "\n\n"@ + closing_line()
}

/// The user prompt for `content`, by kind of content.
pub open spec fn user_prompt(content: Seq<char>, ctx: EvalContext) -> Seq<char> {
    match ctx.content_type {
        ContentType::PullRequest => pr_prompt(content, ctx),
        ContentType::Comment => comment_prompt(content, ctx),
        ContentType::Review => review_prompt(content, ctx),
    }
}

fn append_section(prompt: &mut String, label: &str, part: &Option<String>)
    ensures
        final(prompt)@ == old(prompt)@ + optional_section(label@, *part),
{
    match part {
        Some(t) => {
            prompt.append(label);
            prompt.append(t.as_str());
            prompt.append("\n\n");
            proof {
                assert(final(prompt)@ =~= old(prompt)@ + optional_section(label@, *part));
            }
        },
        None => {
            assert(prompt@ =~= old(prompt)@ + optional_section(label@, *part));
        },
    }
}

/// Build the user prompt for evaluating `content` in `context`.
pub fn build_user_prompt(content: &str, context: &EvalContext) -> (r: String)
    ensures
        r@ == user_prompt(content@, *context),
{
    match context.content_type {
        ContentType::PullRequest => build_pr_prompt(content, context),
        ContentType::Comment => build_comment_prompt(content, context),
        ContentType::Review => build_review_prompt(content, context),
    }
}

fn build_pr_prompt(content: &str, context: &EvalContext) -> (r: String)
    ensures
        r@ == pr_prompt(content@, *context),
{
    let mut prompt = String::from_str("Evaluate this pull request:\n\n");
    append_section(&mut prompt, "Title: ", &context.title);
    prompt.append("Description:\n");
    prompt.append(context.body.as_str());
    prompt.append("\n\n");
    append_section(&mut prompt, "Diff Summary: ", &context.diff_summary);
    prompt.append("Full Content:\n");
    prompt.append(content);
    prompt.append("\n\n");
    prompt.append("Provide your evaluation as JSON.");
    assert(prompt@ =~= pr_prompt(content@, *context));
    prompt
}

fn build_comment_prompt(content: &str, context: &EvalContext) -> (r: String)
    ensures
        r@ == comment_prompt(content@, *context),
{
    let mut prompt = String::from_str("Evaluate this comment:\n\n");
    append_section(&mut prompt, "Thread Context:\n", &context.thread_context);
    prompt.append("Comment:\n");
    prompt.append(content);
    prompt.append("\n\n");
    prompt.append("Provide your evaluation as JSON.");
    assert(prompt@ =~= comment_prompt(content@, *context));
    prompt
}

fn build_review_prompt(content: &str, context: &EvalContext) -> (r: String)
    ensures
        r@ == review_prompt(content@, *context),
{
    let mut prompt = String::from_str("Evaluate this pull request review:\n\n");
    append_section(&mut prompt, "PR Context:\n", &context.thread_context);
    prompt.append("Review:\n");
    prompt.append(content);
    prompt.append("\n\n");
    prompt.append("Provide your evaluation as JSON.");
    assert(prompt@ =~= review_prompt(content@, *context));
    prompt
}

} // verus!
