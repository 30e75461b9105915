//! The decisions around scoring a CV against a job description: the prompt
//! that is sent, how often a request is tried, and how the model's JSON answer
//! is brought into the expected shape.

use crate::json::Json;
use crate::model::ChatMessage;
use crate::text::{
    all_ws, contains, contains_seq, eq_text, join_two, lemma_trimmed_ignores_padding, occurs_at,
    replace, replace_all, trim, trimmed,
};
use vstd::prelude::*;

verus! {

/// What `str::to_lowercase` returns for `s`: its Unicode lowercase form.
pub uninterp spec fn lowercase(s: Seq<char>) -> Seq<char>;

/// ASCII lowercase of one character.
pub open spec fn ascii_lower_char(c: char) -> char {
    if 'A' <= c <= 'Z' {
        ((c as u32) + 32) as char
    } else {
        c
    }
}

/// Whether every character of `s` is ASCII.
pub open spec fn all_ascii(s: Seq<char>) -> bool {
    forall|i: int| 0 <= i < s.len() ==> (s[i] as u32) < 128
}

/// `str::to_lowercase`: the Unicode lowercase form of `s`; on ASCII text it
/// maps `A`..`Z` to `a`..`z` and keeps every other character.
#[verifier::external_body]
fn to_lowercase(s: &str) -> (r: String)
    ensures
        r@ == lowercase(s@),
        all_ascii(s@) ==> r@ == s@.map_values(|c: char| ascii_lower_char(c)),
{
    s.to_lowercase()
}

/// `s` with underscores and hyphens read as spaces.
pub open spec fn spaced(s: Seq<char>) -> Seq<char> {
    replace_all(replace_all(s, "_"@, " "@), "-"@, " "@)
}

/// The remote-work label of an already lowercased description whose
/// underscores and hyphens became spaces.
pub open spec fn remote_label(v: Seq<char>) -> Seq<char> {
    if contains_seq(v, "remote first"@) || v == "fully remote"@ {
        "remote_first"@
    } else if contains_seq(v, "remote"@) {
        "remote_friendly"@
    } else if contains_seq(v, "hybrid"@) {
        "hybrid"@
    } else if contains_seq(v, "onsite"@) || contains_seq(v, "on site"@) || contains_seq(
        v,
        "office"@,
    ) {
        "office"@
    } else {
        "unknown"@
    }
}

/// The remote-work label that a free-text description maps to.
pub open spec fn normalized_remote_type(value: Seq<char>) -> Seq<char> {
    remote_label(spaced(lowercase(value)))
}

/// The labels that a remote-work description can map to.
pub open spec fn is_remote_label(v: Seq<char>) -> bool {
    ||| v == "remote_first"@
    ||| v == "remote_friendly"@
    ||| v == "hybrid"@
    ||| v == "office"@
    ||| v == "unknown"@
}

/// The label of a lowercased remote-work description.
pub fn classify_remote_type(lowered: &str) -> (r: String)
    ensures
        r@ == remote_label(spaced(lowered@)),
        is_remote_label(r@),
        is_remote_label(lowered@) ==> r@ == lowered@,
        contains_seq(spaced(lowered@), "remote first"@) ==> r@ == "remote_first"@,
        spaced(lowered@) == "fully remote"@ ==> r@ == "remote_first"@,
        r@ == "remote_first"@ ==> contains_seq(spaced(lowered@), "remote first"@) || spaced(lowered@)
            == "fully remote"@,
        r@ == "remote_friendly"@ <==> contains_seq(spaced(lowered@), "remote"@) && !contains_seq(
            spaced(lowered@),
            "remote first"@,
        ) && spaced(lowered@) != "fully remote"@,
        r@ == "hybrid"@ <==> !contains_seq(spaced(lowered@), "remote"@) && contains_seq(
            spaced(lowered@),
            "hybrid"@,
        ),
        r@ == "office"@ <==> !contains_seq(spaced(lowered@), "remote"@) && !contains_seq(
            spaced(lowered@),
            "hybrid"@,
        ) && (contains_seq(spaced(lowered@), "onsite"@) || contains_seq(spaced(lowered@), "on site"@)
            || contains_seq(spaced(lowered@), "office"@)),
        r@ == "unknown"@ <==> !contains_seq(spaced(lowered@), "remote"@) && !contains_seq(
            spaced(lowered@),
            "hybrid"@,
        ) && !contains_seq(spaced(lowered@), "onsite"@) && !contains_seq(spaced(lowered@), "on site"@)
            && !contains_seq(spaced(lowered@), "office"@),
{
    proof {
        lemma_labels_differ();
        lemma_remote_first_has_remote(spaced(lowered@));
        if is_remote_label(lowered@) {
            lemma_label_is_fixed(lowered@);
        }
    }
    let a = replace(lowered, "_", " ");
    let v = replace(a.as_str(), "-", " ");
    let v = v.as_str();
    if contains(v, "remote first") || eq_text(v, "fully remote") {
        "remote_first".to_string()
    } else if contains(v, "remote") {
        "remote_friendly".to_string()
    } else if contains(v, "hybrid") {
        "hybrid".to_string()
    } else if contains(v, "onsite") || contains(v, "on site") || contains(v, "office") {
        "office".to_string()
    } else {
        "unknown".to_string()
    }
}

proof fn lemma_labels_differ()
    ensures
        "remote_first"@ != "remote_friendly"@,
        "remote_first"@ != "hybrid"@,
        "remote_first"@ != "office"@,
        "remote_first"@ != "unknown"@,
        "remote_friendly"@ != "hybrid"@,
        "remote_friendly"@ != "office"@,
        "remote_friendly"@ != "unknown"@,
        "hybrid"@ != "office"@,
        "hybrid"@ != "unknown"@,
        "office"@ != "unknown"@,
{
    reveal_strlit("remote_first");
    reveal_strlit("remote_friendly");
    reveal_strlit("hybrid");
    reveal_strlit("office");
    reveal_strlit("unknown");
    assert("remote_first"@.len() == 12);
    assert("remote_friendly"@.len() == 15);
    assert("hybrid"@.len() == 6);
    assert("office"@.len() == 6);
    assert("unknown"@.len() == 7);
    assert("hybrid"@[0] != "office"@[0]);
}

/// A text that holds `remote first`, or is `fully remote`, holds `remote`.
proof fn lemma_remote_first_has_remote(v: Seq<char>)
    ensures
        contains_seq(v, "remote first"@) ==> contains_seq(v, "remote"@),
        v == "fully remote"@ ==> contains_seq(v, "remote"@),
{
    reveal_strlit("remote first");
    reveal_strlit("remote");
    reveal_strlit("fully remote");
    if contains_seq(v, "remote first"@) {
        let i = choose|i: int| occurs_at(v, "remote first"@, i);
        assert(v.subrange(i, i + 6) =~= v.subrange(i, i + 12).subrange(0, 6));
        assert(v.subrange(i, i + 6) =~= "remote"@);
        assert(occurs_at(v, "remote"@, i));
    }
    if v == "fully remote"@ {
        assert(v.subrange(6, 12) =~= "remote"@);
        assert(occurs_at(v, "remote"@, 6));
    }
}

/// Maps a free-text remote-work description to one of `remote_first`,
/// `remote_friendly`, `hybrid`, `office` or `unknown`.
pub fn normalize_remote_type(value: &str) -> (r: String)
    ensures
        r@ == normalized_remote_type(value@),
        is_remote_label(r@),
        is_remote_label(value@) ==> r@ == value@,
        all_ascii(value@) ==> r@ == remote_label(
            spaced(value@.map_values(|c: char| ascii_lower_char(c))),
        ),
        all_ascii(value@) && contains_seq(
            spaced(value@.map_values(|c: char| ascii_lower_char(c))),
            "remote first"@,
        ) ==> r@ == "remote_first"@,
{
    let lowered = to_lowercase(value);
    proof {
        if is_remote_label(value@) {
            lemma_label_is_fixed(value@);
        }
    }
    classify_remote_type(lowered.as_str())
}

} // verus!

verus! {

/// `out` is the red-flag entry `item` brought into shape: a bare string
/// becomes an object with severity `unknown` and the string as its reason;
/// anything else stays as it is.
pub open spec fn coerced_flag(item: Json, out: Json) -> bool {
    match item {
        Json::Str(reason) => {
            &&& out matches Json::Object(ms)
            &&& ms@.len() == 2
            &&& ms@[0].0@ == "severity"@
            &&& ms@[0].1 matches Json::Str(sev)
            &&& sev@ == "unknown"@
            &&& ms@[1].0@ == "reason"@
            &&& ms@[1].1 == Json::Str(reason)
        },
        _ => out == item,
    }
}

/// `out` is the value `v` of the member named `key` brought into shape:
/// every bare string in a `red_flags` array becomes a red-flag object, a
/// `b2b_friendly` that is not a boolean becomes null, and a `remote_type`
/// string becomes its normalized label; all else stays as it is.
pub open spec fn coerced_member(key: Seq<char>, v: Json, out: Json) -> bool {
    if key == "red_flags"@ {
        match v {
            Json::Array(items) => out matches Json::Array(outs) && outs@.len() == items@.len()
                && forall|i: int| 0 <= i < items@.len() ==> coerced_flag(items@[i], outs@[i]),
            _ => out == v,
        }
    } else if key == "b2b_friendly"@ {
        if v is Bool {
            out == v
        } else {
            out == Json::Null
        }
    } else if key == "remote_type"@ {
        match v {
            Json::Str(s) => out matches Json::Str(t) && t@ == normalized_remote_type(s@),
            _ => out == v,
        }
    } else {
        out == v
    }
}

/// `out` is the model's answer `raw` brought into the shape of a scoring: an
/// object keeps its members in order, each brought into shape by its key;
/// any other value stays as it is.
pub open spec fn coerced_scoring(raw: Json, out: Json) -> bool {
    match raw {
        Json::Object(ms) => out matches Json::Object(outs) && outs@.len() == ms@.len() && forall|
            i: int,
        |
            0 <= i < ms@.len() ==> (#[trigger] outs@[i]).0 == ms@[i].0 && coerced_member(
                ms@[i].0@,
                ms@[i].1,
                outs@[i].1,
            ),
        _ => out == raw,
    }
}

/// Coercion keeps what it has no reason to change: every boolean
/// `b2b_friendly` (true or false), a `remote_type` that is no string, a
/// `red_flags` that is no array, and every member with another key.
pub proof fn lemma_coerced_members_kept(raw: Json, out: Json)
    requires
        coerced_scoring(raw, out),
    ensures
        !(raw is Object) ==> out == raw,
        raw is Object ==> out is Object,
        raw matches Json::Object(ms) ==> out->Object_0@.len() == ms@.len() && forall|i: int|
            0 <= i < ms@.len() ==> {
                let key = (#[trigger] ms@[i]).0@;
                let v = ms@[i].1;
                let w = out->Object_0@[i].1;
                &&& out->Object_0@[i].0 == ms@[i].0
                &&& key == "b2b_friendly"@ && v is Bool ==> w == v
                &&& key == "b2b_friendly"@ && !(v is Bool) ==> w == Json::Null
                &&& key == "remote_type"@ && !(v is Str) ==> w == v
                &&& key == "red_flags"@ && !(v is Array) ==> w == v
                &&& key != "b2b_friendly"@ && key != "remote_type"@ && key != "red_flags"@
                    ==> w == v
            },
{
    reveal_strlit("remote_type");
    reveal_strlit("b2b_friendly");
    reveal_strlit("red_flags");
    assert("red_flags"@.len() == 9);
    assert("b2b_friendly"@.len() == 12);
    assert("remote_type"@.len() == 11);
    if let Json::Object(ms) = raw {
        if let Json::Object(outs) = out {
            assert forall|i: int| 0 <= i < ms@.len() implies {
                let key = (#[trigger] ms@[i]).0@;
                let v = ms@[i].1;
                let w = out->Object_0@[i].1;
                &&& out->Object_0@[i].0 == ms@[i].0
                &&& key == "b2b_friendly"@ && v is Bool ==> w == v
                &&& key == "b2b_friendly"@ && !(v is Bool) ==> w == Json::Null
                &&& key == "remote_type"@ && !(v is Str) ==> w == v
                &&& key == "red_flags"@ && !(v is Array) ==> w == v
                &&& key != "b2b_friendly"@ && key != "remote_type"@ && key != "red_flags"@ ==> w == v
            } by {
                assert(outs@[i].0 == ms@[i].0);
                assert(coerced_member(ms@[i].0@, ms@[i].1, outs@[i].1));
            }
        }
    }
}

/// One red-flag entry brought into shape.
fn coerce_flag(item: Json) -> (out: Json)
    ensures
        coerced_flag(item, out),
{
    match item {
        Json::Str(reason) => {
            let mut ms: Vec<(String, Json)> = Vec::new();
            ms.push(("severity".to_string(), Json::Str("unknown".to_string())));
            ms.push(("reason".to_string(), Json::Str(reason)));
            Json::Object(ms)
        },
        other => other,
    }
}

/// The value of the member named `key` brought into shape.
fn coerce_member(key: &str, v: Json) -> (out: Json)
    ensures
        coerced_member(key@, v, out),
{
    if eq_text(key, "red_flags") {
        match v {
            Json::Array(items) => {
                let ghost old_items = items@;
                let mut outs: Vec<Json> = Vec::new();
                for item in it: items
                    invariant
                        it.seq() == old_items,
                        outs@.len() == it.index(),
                        forall|i: int| 0 <= i < outs@.len() ==> coerced_flag(old_items[i], outs@[i]),
                {
                    outs.push(coerce_flag(item));
                }
                Json::Array(outs)
            },
            other => other,
        }
    } else if eq_text(key, "b2b_friendly") {
        match v {
            Json::Bool(b) => Json::Bool(b),
            _ => Json::Null,
        }
    } else if eq_text(key, "remote_type") {
        match v {
            Json::Str(s) => Json::Str(normalize_remote_type(s.as_str())),
            other => other,
        }
    } else {
        v
    }
}

/// Brings the model's JSON answer into the shape of a scoring: bare-string red
/// flags become objects with severity `unknown`, a non-boolean `b2b_friendly`
/// becomes null, and `remote_type` is normalized.
pub fn coerce_scoring(raw: Json) -> (out: Json)
    ensures
        coerced_scoring(raw, out),
        !(raw is Object) ==> out == raw,
        raw is Object ==> out is Object,
        raw matches Json::Object(ms) ==> out->Object_0@.len() == ms@.len() && forall|i: int|
            0 <= i < ms@.len() ==> {
                let key = (#[trigger] ms@[i]).0@;
                let v = ms@[i].1;
                let w = out->Object_0@[i].1;
                &&& out->Object_0@[i].0 == ms@[i].0
                &&& key == "b2b_friendly"@ && v is Bool ==> w == v
                &&& key == "b2b_friendly"@ && !(v is Bool) ==> w == Json::Null
                &&& key == "remote_type"@ && !(v is Str) ==> w == v
                &&& key == "red_flags"@ && !(v is Array) ==> w == v
                &&& key != "b2b_friendly"@ && key != "remote_type"@ && key != "red_flags"@
                    ==> w == v
            },
{
    let ghost raw0 = raw;
    let out = match raw {
        Json::Object(ms) => {
            let ghost old_ms = ms@;
            let mut outs: Vec<(String, Json)> = Vec::new();
            for m in it: ms
                invariant
                    it.seq() == old_ms,
                    outs@.len() == it.index(),
                    forall|i: int|
                        0 <= i < outs@.len() ==> (#[trigger] outs@[i]).0 == old_ms[i].0
                            && coerced_member(old_ms[i].0@, old_ms[i].1, outs@[i].1),
            {
                let (k, v) = m;
                let nv = coerce_member(k.as_str(), v);
                outs.push((k, nv));
            }
            Json::Object(outs)
        },
        other => other,
    };
    proof {
        lemma_coerced_members_kept(raw0, out);
    }
    out
}

} // verus!

verus! {

/// How many times a job description is sent to the model before its scoring
/// is given up.
pub const SCORE_ATTEMPTS: u32 = 2;

/// Whether a scoring request that failed on attempt `attempt` (counted from 1)
/// is sent once more.
pub fn retry_after_failure(attempt: u32) -> (r: bool)
    ensures
        r == (attempt < SCORE_ATTEMPTS),
{
    attempt < SCORE_ATTEMPTS
}

/// The wait before the first retry, in milliseconds.
pub const RETRY_BASE_DELAY_MS: u64 = 1000;

/// The wait, in milliseconds, before the request that follows failed attempt
/// `attempt` (counted from 1): the base delay, doubled for each earlier
/// failure.
pub open spec fn backoff_ms(attempt: nat) -> nat
    decreases attempt,
{
    if attempt <= 1 {
        RETRY_BASE_DELAY_MS as nat
    } else {
        2 * backoff_ms((attempt - 1) as nat)
    }
}

proof fn lemma_backoff_grows(i: nat, j: nat)
    requires
        i <= j,
    ensures
        backoff_ms(i) <= backoff_ms(j),
    decreases j,
{
    if i < j {
        lemma_backoff_grows(i, (j - 1) as nat);
    }
}

/// Each retry waits twice as long as the one before it.
pub proof fn lemma_backoff_doubles(attempt: nat)
    requires
        attempt >= 1,
    ensures
        backoff_ms(attempt + 1) == 2 * backoff_ms(attempt),
        backoff_ms(1) == RETRY_BASE_DELAY_MS,
{
}

/// How long to wait before retrying after failed attempt `attempt` (counted
/// from 1): exponential backoff from `RETRY_BASE_DELAY_MS`.
pub fn retry_delay_ms(attempt: u32) -> (r: u64)
    requires
        backoff_ms(attempt as nat) <= u64::MAX,
    ensures
        r == backoff_ms(attempt as nat),
{
    let mut d: u64 = RETRY_BASE_DELAY_MS;
    let mut i: u32 = 1;
    while i < attempt
        invariant
            1 <= i,
            i <= attempt || i == 1,
            d == backoff_ms(i as nat),
            backoff_ms(attempt as nat) <= u64::MAX,
        decreases attempt - i,
    {
        proof {
            lemma_backoff_grows((i + 1) as nat, attempt as nat);
        }
        d = d * 2;
        i = i + 1;
    }
    d
}

/// The fixed part of every scoring prompt: `template` with the trimmed CV put
/// in place of each `{{resume}}`.
pub fn resume_prompt(template: &str, resume: &str) -> (r: String)
    ensures
        r@ == replace_all(template@, "{{resume}}"@, trimmed(resume@)),
{
    let cv = trim(resume);
    replace(template, "{{resume}}", cv.as_str())
}

/// The text of the scoring request for one job description: the fixed
/// prompt, a line break, and `template` with the trimmed job description put
/// in place of each `{{job}}`.
pub open spec fn job_prompt(prefix: Seq<char>, template: Seq<char>, job: Seq<char>) -> Seq<char> {
    prefix + "\n"@ + replace_all(template, "{{job}}"@, trimmed(job))
}

/// The user message that asks for the scoring of one job description: the
/// fixed prompt, a line break, and `template` with the trimmed job
/// description put in place of each `{{job}}`.
pub fn job_message(fixed_prefix: &str, template: &str, job_description: &str) -> (r: ChatMessage)
    ensures
        r.role@ == "user"@,
        r.content@ == job_prompt(fixed_prefix@, template@, job_description@),
{
    let job = trim(job_description);
    let suffix = replace(template, "{{job}}", job.as_str());
    let head = join_two(fixed_prefix, "\n");
    let content = join_two(head.as_str(), suffix.as_str());
    ChatMessage { role: "user".to_string(), content }
}

} // verus!

verus! {

proof fn lemma_replace_char(s: Seq<char>, c: char, d: char)
    ensures
        replace_all(s, seq![c], seq![d]) == s.map_values(|x: char| if x == c { d } else { x }),
    decreases s.len(),
{
    let f = |x: char| if x == c { d } else { x };
    if s.len() > 0 {
        lemma_replace_char(s.drop_first(), c, d);
        assert(s.drop_first().map_values(f) =~= s.map_values(f).drop_first());
        if s[0] == c {
            assert(s.take(1) =~= seq![c]);
            assert(s.skip(1) =~= s.drop_first());
            assert(seq![d] + s.drop_first().map_values(f) =~= s.map_values(f));
        } else {
            assert(s.take(1)[0] != seq![c][0]);
            assert(seq![s[0]] + s.drop_first().map_values(f) =~= s.map_values(f));
        }
    } else {
        assert(s.map_values(f) =~= s);
    }
}

proof fn lemma_spaced_label(l: Seq<char>)
    requires
        forall|i: int| 0 <= i < l.len() ==> 'a' <= #[trigger] l[i] <= 'z' || l[i] == '_',
    ensures
        all_ascii(l),
        l.map_values(|c: char| ascii_lower_char(c)) == l,
        spaced(l) == l.map_values(|x: char| if x == '_' { ' ' } else { x }),
{
    reveal_strlit("_");
    reveal_strlit("-");
    reveal_strlit(" ");
    assert(l.map_values(|c: char| ascii_lower_char(c)) =~= l);
    let s1 = l.map_values(|x: char| if x == '_' { ' ' } else { x });
    lemma_replace_char(l, '_', ' ');
    assert("_"@ =~= seq!['_']);
    assert(" "@ =~= seq![' ']);
    assert("-"@ =~= seq!['-']);
    lemma_replace_char(s1, '-', ' ');
    assert(s1.map_values(|x: char| if x == '-' { ' ' } else { x }) =~= s1);
}

/// Each label is the label of itself.
proof fn lemma_label_is_fixed(l: Seq<char>)
    requires
        is_remote_label(l),
    ensures
        remote_label(spaced(l)) == l,
        forall|i: int| 0 <= i < l.len() ==> 'a' <= #[trigger] l[i] <= 'z' || l[i] == '_',
        all_ascii(l),
        l.map_values(|c: char| ascii_lower_char(c)) == l,
{
    reveal_strlit("remote_first");
    reveal_strlit("remote_friendly");
    reveal_strlit("hybrid");
    reveal_strlit("office");
    reveal_strlit("unknown");
    reveal_strlit("remote first");
    reveal_strlit("fully remote");
    reveal_strlit("remote");
    reveal_strlit("onsite");
    reveal_strlit("on site");
    assert(forall|i: int| 0 <= i < l.len() ==> 'a' <= #[trigger] l[i] <= 'z' || l[i] == '_');
    lemma_spaced_label(l);
    let v = spaced(l);
    if l == "remote_first"@ {
        assert(v =~= "remote first"@);
        assert(v.subrange(0, 12) =~= "remote first"@);
        assert(occurs_at(v, "remote first"@, 0));
    } else if l == "remote_friendly"@ {
        assert(v =~= seq!['r', 'e', 'm', 'o', 't', 'e', ' ', 'f', 'r', 'i', 'e', 'n', 'd', 'l', 'y']);
        assert forall|i: int| !occurs_at(v, "remote first"@, i) by {
            if 0 <= i && i + 12 <= v.len() {
                if i == 0 {
                    assert(v.subrange(i, i + 12)[8] != "remote first"@[8]);
                } else {
                    assert(v.subrange(i, i + 12)[0] != "remote first"@[0]);
                }
            }
        }
        assert(v.subrange(0, 6) =~= "remote"@);
        assert(occurs_at(v, "remote"@, 0));
    } else if l == "hybrid"@ {
        assert(v =~= "hybrid"@);
        assert forall|i: int| !occurs_at(v, "remote"@, i) by {
            if 0 <= i && i + 6 <= v.len() {
                assert(v.subrange(i, i + 6)[0] != "remote"@[0]);
            }
        }
        assert(v.subrange(0, 6) =~= "hybrid"@);
        assert(occurs_at(v, "hybrid"@, 0));
    } else if l == "office"@ {
        assert(v =~= "office"@);
        assert forall|i: int| !occurs_at(v, "remote"@, i) by {
            if 0 <= i && i + 6 <= v.len() {
                assert(v.subrange(i, i + 6)[0] != "remote"@[0]);
            }
        }
        assert forall|i: int| !occurs_at(v, "hybrid"@, i) by {
            if 0 <= i && i + 6 <= v.len() {
                assert(v.subrange(i, i + 6)[0] != "hybrid"@[0]);
            }
        }
        assert forall|i: int| !occurs_at(v, "onsite"@, i) by {
            if 0 <= i && i + 6 <= v.len() {
                assert(v.subrange(i, i + 6)[1] != "onsite"@[1]);
            }
        }
        assert(v.subrange(0, 6) =~= "office"@);
        assert(occurs_at(v, "office"@, 0));
    } else {
        assert(l == "unknown"@);
        assert(v =~= "unknown"@);
        assert forall|i: int| !occurs_at(v, "remote"@, i) by {
            if 0 <= i && i + 6 <= v.len() {
                assert(v.subrange(i, i + 6)[0] != "remote"@[0]);
            }
        }
        assert forall|i: int| !occurs_at(v, "hybrid"@, i) by {
            if 0 <= i && i + 6 <= v.len() {
                assert(v.subrange(i, i + 6)[0] != "hybrid"@[0]);
            }
        }
        assert forall|i: int| !occurs_at(v, "onsite"@, i) by {
            if 0 <= i && i + 6 <= v.len() {
                assert(v.subrange(i, i + 6)[0] != "onsite"@[0]);
            }
        }
        assert forall|i: int| !occurs_at(v, "on site"@, i) by {
            if 0 <= i && i + 7 <= v.len() {
                assert(v.subrange(i, i + 7)[0] != "on site"@[0]);
            }
        }
        assert forall|i: int| !occurs_at(v, "office"@, i) by {
            if 0 <= i && i + 6 <= v.len() {
                assert(v.subrange(i, i + 6)[0] != "office"@[0]);
            }
        }
    }
}

} // verus!

verus! {

/// After coercion the answer has the shape a scoring needs: a `remote_type`
/// string is one of the five labels, `b2b_friendly` is a boolean or null, and
/// no `red_flags` entry is a bare string.
pub proof fn lemma_coerced_shape(raw: Json, out: Json)
    requires
        coerced_scoring(raw, out),
    ensures
        out is Object <==> raw is Object,
        out matches Json::Object(ms) ==> forall|i: int|
            0 <= i < ms@.len() ==> {
                &&& (#[trigger] ms@[i]).0@ == "remote_type"@ ==> (ms@[i].1 matches Json::Str(t)
                    ==> is_remote_label(t@))
                &&& ms@[i].0@ == "b2b_friendly"@ ==> (ms@[i].1 is Bool || ms@[i].1 is Null)
                &&& ms@[i].0@ == "red_flags"@ ==> (ms@[i].1 matches Json::Array(items)
                    ==> forall|k: int| 0 <= k < items@.len() ==> !(#[trigger] items@[k] is Str))
            },
{
    reveal_strlit("remote_type");
    reveal_strlit("b2b_friendly");
    reveal_strlit("red_flags");
    if let Json::Object(ins) = raw {
        if let Json::Object(ms) = out {
            assert forall|i: int| 0 <= i < ms@.len() implies {
                &&& (#[trigger] ms@[i]).0@ == "remote_type"@ ==> (ms@[i].1 matches Json::Str(t)
                    ==> is_remote_label(t@))
                &&& ms@[i].0@ == "b2b_friendly"@ ==> (ms@[i].1 is Bool || ms@[i].1 is Null)
                &&& ms@[i].0@ == "red_flags"@ ==> (ms@[i].1 matches Json::Array(items)
                    ==> forall|k: int| 0 <= k < items@.len() ==> !(#[trigger] items@[k] is Str))
            } by {
                let key = ins@[i].0@;
                assert(ms@[i].0 == ins@[i].0);
                assert(coerced_member(key, ins@[i].1, ms@[i].1));
                assert("red_flags"@.len() == 9);
                assert("b2b_friendly"@.len() == 12);
                assert("remote_type"@.len() == 11);
                if key == "remote_type"@ {
                    if let Json::Str(s) = ins@[i].1 {
                        assert(is_remote_label(normalized_remote_type(s@)));
                    }
                }
                if key == "red_flags"@ {
                    if let Json::Array(items) = ins@[i].1 {
                        if let Json::Array(outs) = ms@[i].1 {
                            assert forall|k: int| 0 <= k < outs@.len() implies !(
                            #[trigger] outs@[k] is Str) by {
                                assert(coerced_flag(items@[k], outs@[k]));
                            }
                        }
                    }
                }
            }
        }
    }
}

} // verus!

verus! {

/// A separator (`_` or `-`) read as a space.
pub open spec fn unseparated(c: char) -> char {
    if c == '_' || c == '-' {
        ' '
    } else {
        c
    }
}

/// An ASCII character with its letter case and separators ignored.
pub open spec fn folded(c: char) -> char {
    unseparated(ascii_lower_char(c))
}

proof fn lemma_spaced_is_map(s: Seq<char>)
    ensures
        spaced(s) == s.map_values(|c: char| unseparated(c)),
{
    reveal_strlit("_");
    reveal_strlit("-");
    reveal_strlit(" ");
    assert("_"@ =~= seq!['_']);
    assert(" "@ =~= seq![' ']);
    assert("-"@ =~= seq!['-']);
    lemma_replace_char(s, '_', ' ');
    let s1 = s.map_values(|x: char| if x == '_' { ' ' } else { x });
    lemma_replace_char(s1, '-', ' ');
    assert(s1.map_values(|x: char| if x == '-' { ' ' } else { x }) =~= s.map_values(
        |c: char| unseparated(c),
    ));
}

/// The label of a lowercased description depends on its separators only as
/// spaces: texts that agree once `_` and `-` are read as spaces get the same
/// label.
pub proof fn lemma_classify_ignores_separators(x: Seq<char>, y: Seq<char>)
    requires
        x.len() == y.len(),
        forall|i: int| 0 <= i < x.len() ==> unseparated(#[trigger] x[i]) == unseparated(y[i]),
    ensures
        remote_label(spaced(x)) == remote_label(spaced(y)),
{
    lemma_spaced_is_map(x);
    lemma_spaced_is_map(y);
    assert(x.map_values(|c: char| unseparated(c)) =~= y.map_values(|c: char| unseparated(c)));
}

/// For ASCII text, the label ignores letter case and the separators space,
/// `-` and `_`: texts that agree once lowercased and with `_` and `-` read as
/// spaces get the same label (the one `normalize_remote_type` returns).
pub proof fn lemma_normalize_ignores_case_and_separators(x: Seq<char>, y: Seq<char>)
    requires
        x.len() == y.len(),
        forall|i: int| 0 <= i < x.len() ==> folded(#[trigger] x[i]) == folded(y[i]),
    ensures
        remote_label(spaced(x.map_values(|c: char| ascii_lower_char(c)))) == remote_label(
            spaced(y.map_values(|c: char| ascii_lower_char(c))),
        ),
{
    let lx = x.map_values(|c: char| ascii_lower_char(c));
    let ly = y.map_values(|c: char| ascii_lower_char(c));
    assert forall|i: int| 0 <= i < lx.len() implies unseparated(#[trigger] lx[i]) == unseparated(
        ly[i],
    ) by {
        assert(folded(x[i]) == folded(y[i]));
    }
    lemma_classify_ignores_separators(lx, ly);
}

} // verus!

verus! {

/// Every scoring request starts with the fixed prompt and a line break (a
/// prefix the API can cache), and whitespace around the job description does
/// not change the request.
pub proof fn lemma_job_prompt_shape(
    prefix: Seq<char>,
    template: Seq<char>,
    job: Seq<char>,
    before: Seq<char>,
    after: Seq<char>,
)
    requires
        all_ws(before),
        all_ws(after),
    ensures
        job_prompt(prefix, template, job).take(prefix.len() + 1int) == prefix + "\n"@,
        job_prompt(prefix, template, before + job + after) == job_prompt(prefix, template, job),
{
    reveal_strlit("\n");
    let p = job_prompt(prefix, template, job);
    assert(p.take(prefix.len() + 1int) =~= prefix + "\n"@);
    lemma_trimmed_ignores_padding(before, job, after);
}

} // verus!
