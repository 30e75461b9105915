//! The JSON schema of a scoring: the shape the scoring model is asked to
//! answer in.

use crate::json::{
    items_view, json_array, json_bool, json_number, json_object, json_str, json_view, members_view,
    push_item, push_member, Json, JsonView,
};
use crate::scoring::is_remote_label;
use vstd::prelude::*;

verus! {

/// The member `"type": t`.
pub open spec fn typed(t: Seq<char>) -> (Seq<char>, JsonView) {
    ("type"@, JsonView::Str(t))
}

/// The labels a `remote_type` may take, in the schema's order.
pub open spec fn remote_type_labels() -> Seq<JsonView> {
    seq![
        JsonView::Str("remote_first"@),
        JsonView::Str("remote_friendly"@),
        JsonView::Str("hybrid"@),
        JsonView::Str("office"@),
        JsonView::Str("unknown"@),
    ]
}

/// A string of at most `max` characters.
pub open spec fn bounded_string(max: Seq<char>) -> JsonView {
    JsonView::Object(seq![typed("string"@), ("maxLength"@, JsonView::Number(max))])
}

/// A score: an integer from 0 to 100.
pub open spec fn score_schema() -> JsonView {
    JsonView::Object(
        seq![
            typed("integer"@),
            ("minimum"@, JsonView::Number("0"@)),
            ("maximum"@, JsonView::Number("100"@)),
        ],
    )
}

/// A red flag: a severity (high, medium or low) and a reason.
pub open spec fn red_flag_schema() -> JsonView {
    JsonView::Object(
        seq![
            typed("object"@),
            (
                "properties"@,
                JsonView::Object(
                    seq![
                        (
                            "severity"@,
                            JsonView::Object(
                                seq![
                                    typed("string"@),
                                    (
                                        "enum"@,
                                        JsonView::Array(
                                            seq![
                                                JsonView::Str("high"@),
                                                JsonView::Str("medium"@),
                                                JsonView::Str("low"@),
                                            ],
                                        ),
                                    ),
                                ],
                            ),
                        ),
                        ("reason"@, bounded_string("200"@)),
                    ],
                ),
            ),
            ("required"@, JsonView::Array(seq![JsonView::Str("severity"@), JsonView::Str("reason"@)])),
            ("additionalProperties"@, JsonView::Bool(false)),
        ],
    )
}

/// The properties of a scoring.
pub open spec fn scoring_properties() -> JsonView {
    JsonView::Object(
        seq![
            (
                "strengths"@,
                JsonView::Object(
                    seq![
                        typed("array"@),
                        ("items"@, bounded_string("200"@)),
                        ("maxItems"@, JsonView::Number("6"@)),
                    ],
                ),
            ),
            (
                "red_flags"@,
                JsonView::Object(
                    seq![
                        typed("array"@),
                        ("minItems"@, JsonView::Number("1"@)),
                        ("maxItems"@, JsonView::Number("6"@)),
                        ("items"@, red_flag_schema()),
                    ],
                ),
            ),
            (
                "summary"@,
                JsonView::Object(
                    seq![
                        typed("string"@),
                        ("minLength"@, JsonView::Number("20"@)),
                        ("maxLength"@, JsonView::Number("400"@)),
                    ],
                ),
            ),
            ("ats_score"@, score_schema()),
            ("recruiter_score"@, score_schema()),
            (
                "remote_type"@,
                JsonView::Object(
                    seq![typed("string"@), ("enum"@, JsonView::Array(remote_type_labels()))],
                ),
            ),
            ("b2b_friendly"@, JsonView::Object(seq![typed("boolean"@)])),
        ],
    )
}

/// The names every scoring must have.
pub open spec fn required_fields() -> Seq<JsonView> {
    seq![
        JsonView::Str("strengths"@),
        JsonView::Str("red_flags"@),
        JsonView::Str("summary"@),
        JsonView::Str("ats_score"@),
        JsonView::Str("recruiter_score"@),
        JsonView::Str("remote_type"@),
        JsonView::Str("b2b_friendly"@),
    ]
}

/// The JSON schema of a scoring.
pub open spec fn scoring_schema() -> JsonView {
    JsonView::Object(
        seq![
            typed("object"@),
            ("properties"@, scoring_properties()),
            ("required"@, JsonView::Array(required_fields())),
            ("additionalProperties"@, JsonView::Bool(false)),
        ],
    )
}

/// The labels the schema allows for `remote_type` are exactly the labels that
/// a remote-work description is normalized to.
pub proof fn lemma_schema_remote_labels(v: Seq<char>)
    ensures
        remote_type_labels().contains(JsonView::Str(v)) <==> is_remote_label(v),
{
    let ls = remote_type_labels();
    if is_remote_label(v) {
        if v == "remote_first"@ {
            assert(ls[0] == JsonView::Str(v));
        } else if v == "remote_friendly"@ {
            assert(ls[1] == JsonView::Str(v));
        } else if v == "hybrid"@ {
            assert(ls[2] == JsonView::Str(v));
        } else if v == "office"@ {
            assert(ls[3] == JsonView::Str(v));
        } else {
            assert(ls[4] == JsonView::Str(v));
        }
    }
}

proof fn lemma_empty_views()
    ensures
        members_view(Seq::<(String, Json)>::empty()) == Seq::<(Seq<char>, JsonView)>::empty(),
        items_view(Seq::<Json>::empty()) == Seq::<JsonView>::empty(),
{
}

fn typed_member(ms: &mut Vec<(String, Json)>, t: &str)
    ensures
        members_view(final(ms)@) == members_view(old(ms)@).push(typed(t@)),
{
    push_member(ms, "type", json_str(t));
}

fn bounded_string_json(max: &str) -> (r: Json)
    ensures
        json_view(r) == bounded_string(max@),
{
    proof {
        lemma_empty_views();
    }
    let mut ms: Vec<(String, Json)> = Vec::new();
    assert(members_view(ms@) == Seq::<(Seq<char>, JsonView)>::empty());
    typed_member(&mut ms, "string");
    assert(members_view(ms@) == seq![typed("string"@)]);
    push_member(&mut ms, "maxLength", json_number(max));
    assert(members_view(ms@) == seq![typed("string"@), ("maxLength"@, JsonView::Number(max@))]);
    json_object(ms)
}

fn score_schema_json() -> (r: Json)
    ensures
        json_view(r) == score_schema(),
{
    proof {
        lemma_empty_views();
    }
    let mut ms: Vec<(String, Json)> = Vec::new();
    assert(members_view(ms@) == Seq::<(Seq<char>, JsonView)>::empty());
    typed_member(&mut ms, "integer");
    assert(members_view(ms@) == seq![typed("integer"@)]);
    let zero = json_number("0");
    assert(json_view(zero) == JsonView::Number("0"@));
    push_member(&mut ms, "minimum", zero);
    assert(members_view(ms@) == seq![typed("integer"@), ("minimum"@, JsonView::Number("0"@))]);
    push_member(&mut ms, "maximum", json_number("100"));
    assert(members_view(ms@) == seq![typed("integer"@), ("minimum"@, JsonView::Number("0"@)), ("maximum"@, JsonView::Number("100"@))]);
    json_object(ms)
}

fn red_flag_schema_json() -> (r: Json)
    ensures
        json_view(r) == red_flag_schema(),
{
    proof {
        lemma_empty_views();
    }
    let mut levels: Vec<Json> = Vec::new();
    push_item(&mut levels, json_str("high"));
    push_item(&mut levels, json_str("medium"));
    push_item(&mut levels, json_str("low"));
    assert(items_view(levels@) =~= seq![
        JsonView::Str("high"@),
        JsonView::Str("medium"@),
        JsonView::Str("low"@),
    ]);
    let mut severity: Vec<(String, Json)> = Vec::new();
    typed_member(&mut severity, "string");
    assert(members_view(severity@) =~= seq![typed("string"@)]);
    let lv = json_array(levels);
    push_member(&mut severity, "enum", lv);
    assert(members_view(severity@) =~= seq![
        typed("string"@),
        ("enum"@, JsonView::Array(seq![
            JsonView::Str("high"@),
            JsonView::Str("medium"@),
            JsonView::Str("low"@),
        ])),
    ]);
    let sev = json_object(severity);
    let reason = bounded_string_json("200");
    let mut props: Vec<(String, Json)> = Vec::new();
    push_member(&mut props, "severity", sev);
    assert(members_view(props@) =~= seq![("severity"@, json_view(sev))]);
    push_member(&mut props, "reason", reason);
    assert(members_view(props@) =~= seq![
        ("severity"@, json_view(sev)),
        ("reason"@, bounded_string("200"@)),
    ]);
    let mut required: Vec<Json> = Vec::new();
    push_item(&mut required, json_str("severity"));
    push_item(&mut required, json_str("reason"));
    assert(items_view(required@) =~= seq![JsonView::Str("severity"@), JsonView::Str("reason"@)]);
    let pr = json_object(props);
    let rq = json_array(required);
    let fl = json_bool(false);
    let mut ms: Vec<(String, Json)> = Vec::new();
    typed_member(&mut ms, "object");
    assert(members_view(ms@) =~= seq![typed("object"@)]);
    push_member(&mut ms, "properties", pr);
    assert(members_view(ms@) =~= seq![typed("object"@), ("properties"@, json_view(pr))]);
    push_member(&mut ms, "required", rq);
    assert(members_view(ms@) =~= seq![
        typed("object"@),
        ("properties"@, json_view(pr)),
        ("required"@, json_view(rq)),
    ]);
    push_member(&mut ms, "additionalProperties", fl);
    assert(members_view(ms@) =~= seq![
        typed("object"@),
        ("properties"@, json_view(pr)),
        ("required"@, json_view(rq)),
        ("additionalProperties"@, JsonView::Bool(false)),
    ]);
    json_object(ms)
}

fn properties_json() -> (r: Json)
    ensures
        json_view(r) == scoring_properties(),
{
    proof {
        lemma_empty_views();
    }
    let items = bounded_string_json("200");
    let six = json_number("6");
    let mut strengths: Vec<(String, Json)> = Vec::new();
    typed_member(&mut strengths, "array");
    assert(members_view(strengths@) =~= seq![typed("array"@)]);
    push_member(&mut strengths, "items", items);
    assert(members_view(strengths@) =~= seq![typed("array"@), ("items"@, bounded_string("200"@))]);
    push_member(&mut strengths, "maxItems", six);
    assert(members_view(strengths@) =~= seq![typed("array"@), ("items"@, bounded_string("200"@)), ("maxItems"@, JsonView::Number("6"@))]);
    let st = json_object(strengths);
    let one = json_number("1");
    let six2 = json_number("6");
    let flag = red_flag_schema_json();
    let mut red_flags: Vec<(String, Json)> = Vec::new();
    typed_member(&mut red_flags, "array");
    assert(members_view(red_flags@) =~= seq![typed("array"@)]);
    push_member(&mut red_flags, "minItems", one);
    assert(members_view(red_flags@) =~= seq![typed("array"@), ("minItems"@, JsonView::Number("1"@))]);
    push_member(&mut red_flags, "maxItems", six2);
    assert(members_view(red_flags@) =~= seq![typed("array"@), ("minItems"@, JsonView::Number("1"@)), ("maxItems"@, JsonView::Number("6"@))]);
    push_member(&mut red_flags, "items", flag);
    assert(members_view(red_flags@) =~= seq![typed("array"@), ("minItems"@, JsonView::Number("1"@)), ("maxItems"@, JsonView::Number("6"@)), ("items"@, red_flag_schema())]);
    let rf = json_object(red_flags);
    let twenty = json_number("20");
    let four_hundred = json_number("400");
    let mut summary: Vec<(String, Json)> = Vec::new();
    typed_member(&mut summary, "string");
    assert(members_view(summary@) =~= seq![typed("string"@)]);
    push_member(&mut summary, "minLength", twenty);
    assert(members_view(summary@) =~= seq![typed("string"@), ("minLength"@, JsonView::Number("20"@))]);
    push_member(&mut summary, "maxLength", four_hundred);
    assert(members_view(summary@) =~= seq![typed("string"@), ("minLength"@, JsonView::Number("20"@)), ("maxLength"@, JsonView::Number("400"@))]);
    let su = json_object(summary);
    let mut labels: Vec<Json> = Vec::new();
    push_item(&mut labels, json_str("remote_first"));
    push_item(&mut labels, json_str("remote_friendly"));
    push_item(&mut labels, json_str("hybrid"));
    push_item(&mut labels, json_str("office"));
    push_item(&mut labels, json_str("unknown"));
    assert(items_view(labels@) =~= remote_type_labels());
    let lb = json_array(labels);
    let mut remote: Vec<(String, Json)> = Vec::new();
    typed_member(&mut remote, "string");
    assert(members_view(remote@) =~= seq![typed("string"@)]);
    push_member(&mut remote, "enum", lb);
    assert(members_view(remote@) =~= seq![typed("string"@), ("enum"@, JsonView::Array(remote_type_labels()))]);
    let re = json_object(remote);
    let mut b2b: Vec<(String, Json)> = Vec::new();
    typed_member(&mut b2b, "boolean");
    assert(members_view(b2b@) =~= seq![typed("boolean"@)]);
    let bb = json_object(b2b);
    let ats = score_schema_json();
    let rec = score_schema_json();
    let mut ms: Vec<(String, Json)> = Vec::new();
    push_member(&mut ms, "strengths", st);
    assert(members_view(ms@) =~= seq![("strengths"@, json_view(st))]);
    push_member(&mut ms, "red_flags", rf);
    assert(members_view(ms@) =~= seq![("strengths"@, json_view(st)), ("red_flags"@, json_view(rf))]);
    push_member(&mut ms, "summary", su);
    assert(members_view(ms@) =~= seq![("strengths"@, json_view(st)), ("red_flags"@, json_view(rf)), ("summary"@, json_view(su))]);
    push_member(&mut ms, "ats_score", ats);
    assert(members_view(ms@) =~= seq![("strengths"@, json_view(st)), ("red_flags"@, json_view(rf)), ("summary"@, json_view(su)), ("ats_score"@, score_schema())]);
    push_member(&mut ms, "recruiter_score", rec);
    assert(members_view(ms@) =~= seq![("strengths"@, json_view(st)), ("red_flags"@, json_view(rf)), ("summary"@, json_view(su)), ("ats_score"@, score_schema()), ("recruiter_score"@, score_schema())]);
    push_member(&mut ms, "remote_type", re);
    assert(members_view(ms@) =~= seq![("strengths"@, json_view(st)), ("red_flags"@, json_view(rf)), ("summary"@, json_view(su)), ("ats_score"@, score_schema()), ("recruiter_score"@, score_schema()), ("remote_type"@, json_view(re))]);
    push_member(&mut ms, "b2b_friendly", bb);
    assert(members_view(ms@) =~= seq![("strengths"@, json_view(st)), ("red_flags"@, json_view(rf)), ("summary"@, json_view(su)), ("ats_score"@, score_schema()), ("recruiter_score"@, score_schema()), ("remote_type"@, json_view(re)), ("b2b_friendly"@, json_view(bb))]);
    json_object(ms)
}

/// The JSON schema of a scoring: its seven fields, their types and bounds
/// (scores from 0 to 100, the five `remote_type` labels, one to six red
/// flags), all of them required and no others allowed.
pub fn build_schema() -> (r: Json)
    ensures
        json_view(r) == scoring_schema(),
{
    proof {
        lemma_empty_views();
    }
    let mut required: Vec<Json> = Vec::new();
    push_item(&mut required, json_str("strengths"));
    push_item(&mut required, json_str("red_flags"));
    push_item(&mut required, json_str("summary"));
    push_item(&mut required, json_str("ats_score"));
    push_item(&mut required, json_str("recruiter_score"));
    push_item(&mut required, json_str("remote_type"));
    push_item(&mut required, json_str("b2b_friendly"));
    assert(items_view(required@) =~= required_fields());
    let props = properties_json();
    let rq = json_array(required);
    let fl = json_bool(false);
    let mut ms: Vec<(String, Json)> = Vec::new();
    typed_member(&mut ms, "object");
    assert(members_view(ms@) =~= seq![typed("object"@)]);
    push_member(&mut ms, "properties", props);
    assert(members_view(ms@) =~= seq![typed("object"@), ("properties"@, scoring_properties())]);
    push_member(&mut ms, "required", rq);
    assert(members_view(ms@) =~= seq![typed("object"@), ("properties"@, scoring_properties()), ("required"@, JsonView::Array(required_fields()))]);
    push_member(&mut ms, "additionalProperties", fl);
    assert(members_view(ms@) =~= seq![typed("object"@), ("properties"@, scoring_properties()), ("required"@, JsonView::Array(required_fields())), ("additionalProperties"@, JsonView::Bool(false))]);
    json_object(ms)
}

} // verus!
