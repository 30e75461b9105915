//! The data that goes to and comes back from the scoring model.

use crate::text::{trim, trimmed};
use vstd::prelude::*;

verus! {

/// The reply of a locally served completion model.
#[derive(Debug)]
pub struct CompletionResponse {
    pub content: String,
}

/// A concern about a candidate, with how serious it is.
#[derive(Debug)]
pub struct RedFlag {
    pub severity: String,
    pub reason: String,
}

/// The model's assessment of a CV against one job description.
#[derive(Debug)]
pub struct AtsScoring {
    pub ats_score: u32,
    pub recruiter_score: u32,
    pub remote_type: String,
    pub b2b_friendly: bool,
    pub strengths: Vec<String>,
    pub red_flags: Vec<RedFlag>,
    pub summary: String,
}

/// One message of a chat request.
#[derive(Debug)]
pub struct ChatMessage {
    pub role: String,
    pub content: String,
}

/// The output format asked of the chat model.
#[derive(Debug)]
pub struct ResponseFormat {
    pub format_type: String,
}

/// Whether the chat model should reason before answering.
#[derive(Debug)]
pub struct ThinkingConfig {
    pub mode: String,
}

/// The reply of the chat completion endpoint.
#[derive(Debug)]
pub struct ChatResponse {
    pub choices: Vec<ChatChoice>,
    pub usage: Usage,
}

/// One candidate answer of a chat reply.
#[derive(Debug)]
pub struct ChatChoice {
    pub message: ChatResponseMessage,
    pub finish_reason: Option<String>,
}

/// The message of a chat answer.
#[derive(Debug)]
pub struct ChatResponseMessage {
    pub content: String,
    pub reasoning_content: Option<String>,
}

/// Token counts of one chat request.
#[derive(Debug, Clone, Copy)]
pub struct Usage {
    pub prompt_tokens: u32,
    pub completion_tokens: u32,
    pub total_tokens: u32,
    pub prompt_cache_hit_tokens: u32,
    pub prompt_cache_miss_tokens: u32,
}

impl ResponseFormat {
    /// The format that asks for a JSON object.
    pub fn json_object() -> (r: Self)
        ensures
            r.format_type@ == "json_object"@,
    {
        Self { format_type: "json_object".to_string() }
    }
}

/// Why a chat reply holds no usable answer.
#[derive(Debug, Clone, Copy, PartialEq, Eq)]
pub enum ReplyError {
    /// The reply has no choices.
    NoChoices,
    /// The first choice's content is empty or only whitespace.
    EmptyContent,
}

/// The answer text of a chat reply: the content of its first choice, refused
/// when there is no choice or when that content is blank.
pub fn reply_content(response: &ChatResponse) -> (r: Result<String, ReplyError>)
    ensures
        response.choices@.len() == 0 <==> r == Err::<String, ReplyError>(ReplyError::NoChoices),
        r == Err::<String, ReplyError>(ReplyError::EmptyContent) <==> response.choices@.len() > 0
            && trimmed(response.choices@[0].message.content@).len() == 0,
        r matches Ok(c) ==> c@ == response.choices@[0].message.content@,
{
    if response.choices.len() == 0 {
        return Err(ReplyError::NoChoices);
    }
    let content = &response.choices[0].message.content;
    let t = trim(content.as_str());
    if t.as_str().is_empty() {
        return Err(ReplyError::EmptyContent);
    }
    Ok(content.clone())
}

} // verus!

verus! {

/// The highest score a scoring may give (scores run from 0 to 100).
pub const MAX_SCORE: u32 = 100;

/// Why a scoring is refused.
#[derive(Debug, Clone, Copy, PartialEq, Eq)]
pub enum ScoreError {
    /// `ats_score` is above 100.
    AtsScoreOutOfRange,
    /// `recruiter_score` is above 100.
    RecruiterScoreOutOfRange,
}

/// Accepts a scoring only when both its scores lie in 0..=100.
pub fn checked_scoring(s: AtsScoring) -> (r: Result<AtsScoring, ScoreError>)
    ensures
        r is Ok <==> s.ats_score <= MAX_SCORE && s.recruiter_score <= MAX_SCORE,
        r matches Ok(x) ==> x == s,
        r == Err::<AtsScoring, ScoreError>(ScoreError::AtsScoreOutOfRange) <==> s.ats_score
            > MAX_SCORE,
        r == Err::<AtsScoring, ScoreError>(ScoreError::RecruiterScoreOutOfRange) <==> s.ats_score
            <= MAX_SCORE && s.recruiter_score > MAX_SCORE,
{
    if s.ats_score > MAX_SCORE {
        Err(ScoreError::AtsScoreOutOfRange)
    } else if s.recruiter_score > MAX_SCORE {
        Err(ScoreError::RecruiterScoreOutOfRange)
    } else {
        Ok(s)
    }
}

} // verus!
