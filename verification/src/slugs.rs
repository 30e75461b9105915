//! Board slugs found in a web-crawl index: which index records name a
//! Greenhouse job board, and what the board's slug is: the path segment of a
//! `boards.greenhouse.io/<slug>/` URL, or the subdomain of a
//! `<slug>.greenhouse.io` host.

use crate::json::{member, text_of, Json};
use crate::text::{
    contains, contains_seq, eq_text, lemma_trim_idempotent, replace, replace_all, trim, trimmed,
};
use vstd::prelude::*;

verus! {

#[verifier::external_type_specification]
#[verifier::external_body]
pub struct ExRegex(regex::Regex);

/// The pattern of a job-board URL on the boards host; its first group is the
/// board's slug: the path segment after `boards.greenhouse.io/` (as `acme` in
/// `https://boards.greenhouse.io/acme/jobs/1`).
pub const BOARD_URL_PATTERN: &'static str = "boards\\.greenhouse\\.io/([^/]+)/";

/// The pattern of a company's own Greenhouse host; its first group is the
/// board's slug: the subdomain in `<scheme>://<slug>.greenhouse.io` (as `acme`
/// in `https://acme.greenhouse.io/jobs/1`).
pub const BOARD_HOST_PATTERN: &'static str =
    "^[A-Za-z][A-Za-z0-9+.-]*://([^/.:@?#]+)\\.greenhouse\\.io(?:[/:?#]|$)";

/// A compiled regular expression together with the text it was compiled from.
pub struct Pattern {
    re: regex::Regex,
    source: String,
}

impl Pattern {
    /// The text this pattern was compiled from.
    pub closed spec fn source(&self) -> Seq<char> {
        self.source@
    }
}

/// What `regex::Regex::captures` yields as the text of group 1 when a regex
/// compiled from `pattern` searches `text`: `None` where there is no match or
/// the group took no part in it.
pub uninterp spec fn first_group(pattern: Seq<char>, text: Seq<char>) -> Option<Seq<char>>;

/// Whether `regex::Regex::new` accepts `pattern`: its syntax is valid and the
/// compiled program stays within the default size limits.
pub uninterp spec fn regex_compiles(pattern: Seq<char>) -> bool;

/// `regex::Regex::new`: compiles `pattern`, `None` exactly where it is refused.
#[verifier::external_body]
fn compile(pattern: &str) -> (r: Option<Pattern>)
    ensures
        r is Some <==> regex_compiles(pattern@),
        r matches Some(p) ==> p.source() == pattern@,
{
    match regex::Regex::new(pattern) {
        Ok(re) => Some(Pattern { re, source: pattern.to_string() }),
        Err(_) => None,
    }
}

/// `regex::Regex::captures`: the text of group 1 of the leftmost match of `p`
/// in `text`.
#[verifier::external_body]
fn captures_group1(p: &Pattern, text: &str) -> (r: Option<String>)
    ensures
        r matches Some(g) ==> first_group(p.source(), text@) == Some(g@),
        r is None ==> first_group(p.source(), text@) is None,
{
    p.re.captures(text).and_then(|c| c.get(1)).map(|m| m.as_str().to_string())
}

/// The pattern that finds a board's slug in a URL, compiled; `None` exactly
/// where the regex engine refuses that pattern.
pub fn board_pattern() -> (r: Option<Pattern>)
    ensures
        r is Some <==> regex_compiles(BOARD_URL_PATTERN@),
        r matches Some(p) ==> p.source() == BOARD_URL_PATTERN@,
{
    compile(BOARD_URL_PATTERN)
}

/// The pattern that finds a board's slug as a subdomain, compiled; `None`
/// exactly where the regex engine refuses that pattern.
pub fn host_pattern() -> (r: Option<Pattern>)
    ensures
        r is Some <==> regex_compiles(BOARD_HOST_PATTERN@),
        r matches Some(p) ==> p.source() == BOARD_HOST_PATTERN@,
{
    compile(BOARD_HOST_PATTERN)
}

/// The two compiled patterns that find a board's slug in a URL.
pub struct BoardMatcher {
    path: Pattern,
    host: Pattern,
}

impl BoardMatcher {
    /// The text of the pattern on the boards host.
    pub closed spec fn path_source(&self) -> Seq<char> {
        self.path.source()
    }

    /// The text of the pattern on a company's own host.
    pub closed spec fn host_source(&self) -> Seq<char> {
        self.host.source()
    }
}

/// Both slug patterns, compiled; `None` exactly where the regex engine
/// refuses one of them.
pub fn board_matcher() -> (r: Option<BoardMatcher>)
    ensures
        r is Some <==> regex_compiles(BOARD_URL_PATTERN@) && regex_compiles(BOARD_HOST_PATTERN@),
        r matches Some(m) ==> m.path_source() == BOARD_URL_PATTERN@ && m.host_source()
            == BOARD_HOST_PATTERN@,
{
    match (board_pattern(), host_pattern()) {
        (Some(path), Some(host)) => Some(BoardMatcher { path, host }),
        _ => None,
    }
}

/// Whether a subdomain names one of Greenhouse's own services rather than a
/// company's board.
pub open spec fn is_service_host(label: Seq<char>) -> bool {
    ||| label == "boards"@
    ||| label == "job-boards"@
    ||| label == "boards-api"@
    ||| label == "api"@
    ||| label == "app"@
    ||| label == "www"@
}

/// The URL segment that names a board: the path segment after
/// `boards.greenhouse.io/` where the URL has one, and otherwise the subdomain
/// of a `<slug>.greenhouse.io` host that is not one of Greenhouse's services.
pub open spec fn board_segment(path_source: Seq<char>, host_source: Seq<char>, url: Seq<char>) -> Option<Seq<char>> {
    match first_group(path_source, url) {
        Some(g) => Some(g),
        None => match first_group(host_source, url) {
            Some(h) => if is_service_host(h) {
                None
            } else {
                Some(h)
            },
            None => None,
        },
    }
}

/// The URL segment that names a board, found with `m`.
fn segment_of(m: &BoardMatcher, url: &str) -> (r: Option<String>)
    ensures
        r matches Some(s) ==> board_segment(m.path_source(), m.host_source(), url@) == Some(s@),
        r is None ==> board_segment(m.path_source(), m.host_source(), url@) is None,
{
    match captures_group1(&m.path, url) {
        Some(g) => Some(g),
        None => match captures_group1(&m.host, url) {
            Some(h) => {
                let hs = h.as_str();
                if eq_text(hs, "boards") || eq_text(hs, "job-boards") || eq_text(hs, "boards-api")
                    || eq_text(hs, "api") || eq_text(hs, "app") || eq_text(hs, "www") {
                    None
                } else {
                    Some(h)
                }
            },
            None => None,
        },
    }
}

/// What became of one index record.
#[derive(Debug, PartialEq, Eq)]
pub enum SlugOutcome {
    /// The record names no job board.
    NoBoard,
    /// The slug still holds a percent-encoded character after cleaning.
    PercentEncoded,
    /// The cleaned slug of the board.
    Board(String),
}

/// The slug made of a captured URL segment: `%20` removed, then trimmed.
pub open spec fn clean_slug(segment: Seq<char>) -> Seq<char> {
    trimmed(replace_all(segment, "%20"@, ""@))
}

/// `r` is what a captured URL segment (or the lack of one) gives.
pub open spec fn slug_outcome(segment: Option<Seq<char>>, r: SlugOutcome) -> bool {
    match segment {
        None => r == SlugOutcome::NoBoard,
        Some(seg) => if contains_seq(clean_slug(seg), "%"@) {
            r == SlugOutcome::PercentEncoded
        } else {
            r matches SlugOutcome::Board(b) && b@ == clean_slug(seg)
        },
    }
}

/// The outcome for a captured URL segment: no segment names no board; a
/// segment whose cleaned slug still holds `%` is refused; otherwise the
/// cleaned slug is the board.
pub fn board_from_segment(segment: Option<String>) -> (r: SlugOutcome)
    ensures
        slug_outcome(
            match segment {
                Some(s) => Some(s@),
                None => None,
            },
            r,
        ),
{
    match segment {
        None => SlugOutcome::NoBoard,
        Some(seg) => {
            let no_spaces = replace(seg.as_str(), "%20", "");
            let board = trim(no_spaces.as_str());
            if contains(board.as_str(), "%") {
                SlugOutcome::PercentEncoded
            } else {
                SlugOutcome::Board(board)
            }
        },
    }
}

/// The board named by an index record: the slug found by `matcher` in the
/// record's `url` string (the path segment after `boards.greenhouse.io/`, or
/// else the subdomain of a `<slug>.greenhouse.io` host), cleaned; no board
/// where the record has no `url` string or neither pattern names a board.
pub fn board_from_record(matcher: &BoardMatcher, record: &Json) -> (r: SlugOutcome)
    ensures
        slug_outcome(
            match text_of(member(*record, "url"@)) {
                Some(url) => board_segment(matcher.path_source(), matcher.host_source(), url),
                None => None,
            },
            r,
        ),
        text_of(member(*record, "url"@)) is None ==> r == SlugOutcome::NoBoard,
        text_of(member(*record, "url"@)) matches Some(url) && first_group(
            matcher.path_source(),
            url,
        ) is None && first_group(matcher.host_source(), url) is None ==> r == SlugOutcome::NoBoard,
        text_of(member(*record, "url"@)) matches Some(url) ==> (first_group(
            matcher.path_source(),
            url,
        ) is None && ({
            let h = first_group(matcher.host_source(), url);
            ||| h == Some("www"@)
            ||| h == Some("boards"@)
            ||| h == Some("job-boards"@)
            ||| h == Some("boards-api"@)
            ||| h == Some("api"@)
            ||| h == Some("app"@)
        }) ==> r == SlugOutcome::NoBoard),
{
    let url = match record.get("url") {
        Some(v) => v.as_str(),
        None => None,
    };
    match url {
        None => SlugOutcome::NoBoard,
        Some(u) => board_from_segment(segment_of(matcher, u)),
    }
}

} // verus!

verus! {

/// A board found in an index record has no surrounding whitespace and no `%`.
pub proof fn lemma_board_is_clean(segment: Option<Seq<char>>, r: SlugOutcome)
    requires
        slug_outcome(segment, r),
    ensures
        r matches SlugOutcome::Board(b) ==> trimmed(b@) == b@ && !contains_seq(b@, "%"@),
{
    if let Some(seg) = segment {
        lemma_trim_idempotent(replace_all(seg, "%20"@, ""@));
    }
}

} // verus!
