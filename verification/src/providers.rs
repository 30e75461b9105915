//! Job postings as a job board lists them, and which of them are kept and
//! written.

use vstd::prelude::*;

verus! {

/// A job as the Greenhouse board API lists it. Times are naive local times in
/// nanoseconds since 1970-01-01T00:00:00; JSON-valued fields hold their JSON
/// text.
#[derive(Debug)]
pub struct GreenhouseJob {
    pub id: i64,
    pub internal_job_id: Option<i64>,
    pub title: Option<String>,
    pub updated_at: Option<i128>,
    pub requisition_id: Option<String>,
    pub location: Option<String>,
    pub absolute_url: Option<String>,
    pub language: Option<String>,
    pub metadata: Option<String>,
    pub content: Option<String>,
    pub departments: Option<String>,
    pub offices: Option<String>,
}

/// A job posting ready to be stored. `updated_at` is a naive local time in
/// nanoseconds since 1970-01-01T00:00:00; `location`, `metadata`,
/// `departments` and `offices` hold JSON text.
#[derive(Debug)]
pub struct RawJobPosting {
    pub external_id: i64,
    pub internal_job_id: Option<i64>,
    pub title: String,
    pub updated_at: i128,
    pub requisition_id: Option<String>,
    pub location: String,
    pub absolute_url: String,
    pub language: Option<String>,
    pub metadata: String,
    pub content: String,
    pub departments: String,
    pub offices: String,
}

/// Whether a listed job has what a stored posting needs: a title, an update
/// time, a URL and a description.
pub open spec fn has_required_fields(j: GreenhouseJob) -> bool {
    &&& j.title is Some
    &&& j.updated_at is Some
    &&& j.absolute_url is Some
    &&& j.content is Some
}

/// The JSON text of an optional JSON value: `null` when it is absent.
pub open spec fn json_text_or_null(v: Option<String>) -> Seq<char> {
    match v {
        Some(t) => t@,
        None => "null"@,
    }
}

/// `p` is the posting made of the listed job `j`.
pub open spec fn posting_of(j: GreenhouseJob, p: RawJobPosting) -> bool {
    &&& p.external_id == j.id
    &&& p.internal_job_id == j.internal_job_id
    &&& j.title == Some(p.title)
    &&& j.updated_at == Some(p.updated_at)
    &&& p.requisition_id == j.requisition_id
    &&& p.location@ == json_text_or_null(j.location)
    &&& j.absolute_url == Some(p.absolute_url)
    &&& p.language == j.language
    &&& p.metadata@ == json_text_or_null(j.metadata)
    &&& j.content == Some(p.content)
    &&& p.departments@ == json_text_or_null(j.departments)
    &&& p.offices@ == json_text_or_null(j.offices)
}

/// The listed jobs that have what a stored posting needs, in order.
pub open spec fn complete_jobs(jobs: Seq<GreenhouseJob>) -> Seq<GreenhouseJob> {
    jobs.filter(|j: GreenhouseJob| has_required_fields(j))
}

/// The JSON text of an optional JSON value, `null` when it is absent.
fn json_or_null(v: Option<String>) -> (r: String)
    ensures
        r@ == json_text_or_null(v),
{
    match v {
        Some(t) => t,
        None => "null".to_string(),
    }
}

/// The posting made of a listed job, when the job has a title, an update
/// time, a URL and a description; absent JSON values become `null`.
pub fn posting_from_job(j: GreenhouseJob) -> (r: Option<RawJobPosting>)
    ensures
        r is Some <==> has_required_fields(j),
        r matches Some(p) ==> posting_of(j, p),
        r is Some <==> j.title is Some && j.updated_at is Some && j.absolute_url is Some
            && j.content is Some,
        r matches Some(p) ==> {
            &&& p.external_id == j.id
            &&& p.internal_job_id == j.internal_job_id
            &&& j.title == Some(p.title)
            &&& j.updated_at == Some(p.updated_at)
            &&& p.requisition_id == j.requisition_id
            &&& j.absolute_url == Some(p.absolute_url)
            &&& p.language == j.language
            &&& j.content == Some(p.content)
            &&& (j.location matches Some(t) ==> p.location@ == t@)
            &&& (j.location is None ==> p.location@ == "null"@)
            &&& (j.metadata matches Some(t) ==> p.metadata@ == t@)
            &&& (j.metadata is None ==> p.metadata@ == "null"@)
            &&& (j.departments matches Some(t) ==> p.departments@ == t@)
            &&& (j.departments is None ==> p.departments@ == "null"@)
            &&& (j.offices matches Some(t) ==> p.offices@ == t@)
            &&& (j.offices is None ==> p.offices@ == "null"@)
        },
{
    let GreenhouseJob {
        id,
        internal_job_id,
        title,
        updated_at,
        requisition_id,
        location,
        absolute_url,
        language,
        metadata,
        content,
        departments,
        offices,
    } = j;
    match (title, updated_at, absolute_url, content) {
        (Some(title), Some(updated_at), Some(absolute_url), Some(content)) => Some(
            RawJobPosting {
                external_id: id,
                internal_job_id,
                title,
                updated_at,
                requisition_id,
                location: json_or_null(location),
                absolute_url,
                language,
                metadata: json_or_null(metadata),
                content,
                departments: json_or_null(departments),
                offices: json_or_null(offices),
            },
        ),
        _ => None,
    }
}

/// The postings made of the listed jobs that have a title, an update time, a
/// URL and a description, in the order of the listing.
pub fn postings_from_jobs(jobs: Vec<GreenhouseJob>) -> (r: Vec<RawJobPosting>)
    ensures
        r@.len() == complete_jobs(jobs@).len(),
        r@.len() <= jobs@.len(),
        forall|i: int| 0 <= i < r@.len() ==> posting_of(complete_jobs(jobs@)[i], #[trigger] r@[i]),
        forall|i: int|
            0 <= i < r@.len() ==> {
                let j = complete_jobs(jobs@)[i];
                let p = #[trigger] r@[i];
                &&& p.external_id == j.id
                &&& p.internal_job_id == j.internal_job_id
                &&& j.title == Some(p.title)
                &&& j.updated_at == Some(p.updated_at)
                &&& p.requisition_id == j.requisition_id
                &&& j.absolute_url == Some(p.absolute_url)
                &&& p.language == j.language
                &&& j.content == Some(p.content)
            },
        forall|i: int|
            0 <= i < r@.len() ==> jobs@.contains(#[trigger] complete_jobs(jobs@)[i]),
        forall|k: int|
            0 <= k < jobs@.len() && (#[trigger] jobs@[k]).title is Some && jobs@[k].updated_at is Some
                && jobs@[k].absolute_url is Some && jobs@[k].content is Some ==> complete_jobs(
                jobs@,
            ).contains(jobs@[k]),
{
    let ghost all = jobs@;
    let mut r: Vec<RawJobPosting> = Vec::new();
    for j in it: jobs
        invariant
            it.seq() == all,
            r@.len() == complete_jobs(all.take(it.index() as int)).len(),
            forall|i: int|
                0 <= i < r@.len() ==> posting_of(
                    complete_jobs(all.take(it.index() as int))[i],
                    #[trigger] r@[i],
                ),
    {
        let ghost k = it.index() as int;
        let ghost before = complete_jobs(all.take(k));
        proof {
            let t = all.take(k + 1);
            assert(t.drop_last() =~= all.take(k));
            assert(t.last() == j);
            reveal(Seq::filter);
        }
        let ghost kept = has_required_fields(j);
        match posting_from_job(j) {
            Some(p) => {
                r.push(p);
            },
            None => {},
        }
        proof {
            let t = all.take(k + 1);
            if kept {
                assert(complete_jobs(t) == before.push(all[k]));
            } else {
                assert(complete_jobs(t) == before);
            }
        }
    }
    proof {
        assert(all.take(all.len() as int) =~= all);
        all.lemma_filter_len(|j: GreenhouseJob| has_required_fields(j));
        assert forall|i: int| 0 <= i < r@.len() implies all.contains(
            #[trigger] complete_jobs(all)[i],
        ) by {
            all.lemma_filter_contains_rev(
                |j: GreenhouseJob| has_required_fields(j),
                complete_jobs(all)[i],
            );
            assert(complete_jobs(all).contains(complete_jobs(all)[i]));
        }
        assert forall|k: int|
            0 <= k < all.len() && (#[trigger] all[k]).title is Some && all[k].updated_at is Some
                && all[k].absolute_url is Some && all[k].content is Some implies complete_jobs(
            all,
        ).contains(all[k]) by {
            all.lemma_filter_contains(|j: GreenhouseJob| has_required_fields(j), k);
        }
    }
    r
}

/// Whether a job updated at `updated_at` is written over a stored copy
/// updated at `stored` (none when the job is not stored yet).
pub open spec fn write_needed(stored: Option<i128>, updated_at: i128) -> bool {
    match stored {
        Some(s) => updated_at > s,
        None => true,
    }
}

/// Whether a listed job is written: always when it is not stored yet, and
/// otherwise only when it was updated after the stored copy.
pub fn should_write(stored_updated_at: Option<i128>, updated_at: i128) -> (r: bool)
    ensures
        r == write_needed(stored_updated_at, updated_at),
{
    match stored_updated_at {
        Some(s) => updated_at > s,
        None => true,
    }
}

} // verus!

verus! {

/// Refreshing a board twice writes a job once: once a job is stored with its
/// update time, the same version is not written again, while a later version
/// always is.
pub proof fn lemma_refresh_writes_each_version_once(stored: i128, updated_at: i128)
    ensures
        !write_needed(Some(stored), stored),
        updated_at > stored ==> write_needed(Some(stored), updated_at),
        write_needed(None, updated_at),
{
}

} // verus!
