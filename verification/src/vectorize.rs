//! Preparing job descriptions and CVs for embedding.

use crate::utils::{clean_html_content, hash_content, hex_lower, html_text, sha256};
use vstd::prelude::*;

verus! {

/// How many job descriptions are embedded together.
pub const BATCH_SIZE: usize = 32;

/// What one batch of job descriptions sends to the embedder and stores with
/// the embeddings.
#[derive(Debug)]
pub struct EmbeddingBatch {
    pub job_ids: Vec<i64>,
    pub hashes: Vec<String>,
    pub texts: Vec<String>,
}

/// The content hash stored with an embedding: the one the job already has,
/// or the hash of its description when it has none.
pub open spec fn batch_hash(content: Seq<char>, stored: Option<String>) -> Seq<char> {
    match stored {
        Some(h) => h@,
        None => hex_lower(sha256(vstd::utf8::encode_utf8(content))),
    }
}

/// The batch made of rows `(job id, description HTML, stored content hash)`:
/// the ids, the hashes to store, and the plain text of each description.
pub fn prepare_batch(rows: &[(i64, String, Option<String>)]) -> (r: EmbeddingBatch)
    ensures
        r.job_ids@.len() == rows@.len(),
        r.hashes@.len() == rows@.len(),
        r.texts@.len() == rows@.len(),
        forall|i: int|
            0 <= i < rows@.len() ==> {
                &&& r.job_ids@[i] == (#[trigger] rows@[i]).0
                &&& r.hashes@[i]@ == batch_hash(rows@[i].1@, rows@[i].2)
                &&& r.texts@[i]@ == html_text(rows@[i].1@)
            },
{
    let mut job_ids: Vec<i64> = Vec::new();
    let mut hashes: Vec<String> = Vec::new();
    let mut texts: Vec<String> = Vec::new();
    let mut i: usize = 0;
    while i < rows.len()
        invariant
            i <= rows@.len(),
            job_ids@.len() == i,
            hashes@.len() == i,
            texts@.len() == i,
            forall|k: int|
                0 <= k < i ==> {
                    &&& job_ids@[k] == (#[trigger] rows@[k]).0
                    &&& hashes@[k]@ == batch_hash(rows@[k].1@, rows@[k].2)
                    &&& texts@[k]@ == html_text(rows@[k].1@)
                },
        decreases rows.len() - i,
    {
        let row = &rows[i];
        job_ids.push(row.0);
        let h = match &row.2 {
            Some(h) => h.clone(),
            None => hash_content(row.1.as_str()),
        };
        hashes.push(h);
        texts.push(clean_html_content(row.1.as_str()));
        i = i + 1;
    }
    EmbeddingBatch { job_ids, hashes, texts }
}

/// How many job descriptions have been handled once batch `batch_idx`
/// (counted from 0) is done, out of `total`.
pub fn processed_after_batch(batch_idx: usize, total: usize) -> (r: usize)
    ensures
        r == if (batch_idx + 1) * BATCH_SIZE < total {
            (batch_idx + 1) * BATCH_SIZE
        } else {
            total as int
        },
{
    let whole = total / BATCH_SIZE;
    if batch_idx < whole {
        assert((batch_idx + 1) * 32 <= whole * 32 <= total) by (nonlinear_arith)
            requires
                batch_idx < whole,
                whole == total / 32,
        ;
        (batch_idx + 1) * BATCH_SIZE
    } else {
        assert((batch_idx + 1) * 32 >= total) by (nonlinear_arith)
            requires
                batch_idx >= whole,
                whole == total / 32,
        ;
        total
    }
}

/// The label of a CV: the file's name without its extension, or `cv` when it
/// has none.
pub fn cv_label(file_stem: Option<&str>) -> (r: String)
    ensures
        r@ == match file_stem {
            Some(s) => s@,
            None => "cv"@,
        },
{
    match file_stem {
        Some(s) => s.to_string(),
        None => "cv".to_string(),
    }
}

} // verus!
