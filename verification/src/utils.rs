//! Text preparation for embedding and scoring: HTML cleaning, word chunking and
//! content hashing.

use crate::text::{
    all_words, chars_of, is_white_space_char, is_ws, join, join_words, lemma_join_single_spaced,
    lemma_replace_absent, lemma_trimmed_unchanged, lemma_whitespace_chars, lemma_words_are_words,
    lemma_words_of_join, replace, replace_all, single_spaced, space, split_words, trimmed, views,
    words,
};
use sha2::Digest;
use vstd::prelude::*;

verus! {

/// Whether the characters of `s`, read left to right, leave an HTML tag open:
/// the last angle bracket in `s` is a `<`.
pub open spec fn inside_tag(s: Seq<char>) -> bool
    decreases s.len(),
{
    if s.len() == 0 {
        false
    } else if s.last() == '<' {
        true
    } else if s.last() == '>' {
        false
    } else {
        inside_tag(s.drop_last())
    }
}

/// `s` without its tags: every `<` and `>` is dropped, and so is every
/// character that stands between a `<` and the next `>`.
pub open spec fn strip_tags(s: Seq<char>) -> Seq<char>
    decreases s.len(),
{
    if s.len() == 0 {
        seq![]
    } else {
        let prev = strip_tags(s.drop_last());
        let c = s.last();
        if c == '<' || c == '>' || inside_tag(s.drop_last()) {
            prev
        } else {
            prev.push(c)
        }
    }
}

/// `s` with the entities `&lt;`, `&gt;`, `&nbsp;` and `&amp;` decoded, in that order.
pub open spec fn unescape_entities(s: Seq<char>) -> Seq<char> {
    replace_all(
        replace_all(replace_all(replace_all(s, "&lt;"@, "<"@), "&gt;"@, ">"@), "&nbsp;"@, " "@),
        "&amp;"@,
        "&"@,
    )
}

/// The plain text of an HTML fragment: entities decoded, tags removed, and the
/// remaining words joined by single spaces.
pub open spec fn html_text(s: Seq<char>) -> Seq<char> {
    join(words(strip_tags(unescape_entities(s))), space())
}

/// The characters of `cs` that lie outside tags.
fn strip_tags_exec(cs: &Vec<char>) -> (r: Vec<char>)
    ensures
        r@ == strip_tags(cs@),
{
    let mut r: Vec<char> = Vec::new();
    let mut in_tag = false;
    let mut i: usize = 0;
    while i < cs.len()
        invariant
            i <= cs@.len(),
            r@ == strip_tags(cs@.take(i as int)),
            in_tag == inside_tag(cs@.take(i as int)),
        decreases cs.len() - i,
    {
        let c = cs[i];
        let ghost t = cs@.take(i + 1);
        assert(t.drop_last() =~= cs@.take(i as int));
        assert(t.last() == c);
        if c == '<' {
            in_tag = true;
        } else if c == '>' {
            in_tag = false;
        } else if !in_tag {
            r.push(c);
        }
        i = i + 1;
    }
    assert(cs@.take(cs@.len() as int) =~= cs@);
    r
}

/// Turns an HTML job description into plain text: decodes `&lt;`, `&gt;`,
/// `&nbsp;` and `&amp;`, drops tags, and collapses whitespace to single spaces.
pub fn clean_html_content(input: &str) -> (r: String)
    ensures
        r@ == html_text(input@),
        forall|i: int|
            0 <= i < r@.len() ==> #[trigger] r@[i] == ' ' || !is_white_space_char(r@[i]),
        forall|i: int| 0 <= i < r@.len() ==> #[trigger] r@[i] != '<' && r@[i] != '>',
        r@.len() > 0 ==> r@[0] != ' ' && r@[r@.len() - 1] != ' ',
{
    let a = replace(input, "&lt;", "<");
    let b = replace(a.as_str(), "&gt;", ">");
    let c = replace(b.as_str(), "&nbsp;", " ");
    let d = replace(c.as_str(), "&amp;", "&");
    let cs = chars_of(d.as_str());
    let stripped = strip_tags_exec(&cs);
    let ws = split_words(&stripped);
    let r = join_words(&ws, 0, ws.len());
    assert(views(ws@).subrange(0, ws@.len() as int) =~= views(ws@));
    proof {
        lemma_html_text_is_plain(input@);
        assert forall|i: int| 0 <= i < r@.len() implies #[trigger] r@[i] == ' '
            || !is_white_space_char(r@[i]) by {
            lemma_whitespace_chars(r@[i]);
        }
        if r@.len() > 0 {
            assert(is_ws(' '));
        }
    }
    r
}

} // verus!

verus! {

/// The chunks of the word list `ws` taken from word `start` on: windows of at
/// most `max` words whose starts advance by `step` words, the last window
/// reaching the last word.
pub open spec fn windows(ws: Seq<Seq<char>>, max: nat, step: nat, start: nat) -> Seq<Seq<char>>
    decreases (if start < ws.len() {
        ws.len() - start
    } else {
        0
    }),
{
    if start >= ws.len() || step == 0 {
        seq![]
    } else {
        let end: nat = if start + max < ws.len() {
            start + max
        } else {
            ws.len()
        };
        let chunk = join(ws.subrange(start as int, end as int), space());
        if end == ws.len() {
            seq![chunk]
        } else {
            seq![chunk] + windows(ws, max, step, start + step)
        }
    }
}

/// The chunks of `text` for embedding: one empty chunk for a text without
/// words, the text itself when it has at most `max_words` words, and otherwise
/// windows of `max_words` words, neighbours sharing `overlap` words.
pub open spec fn chunks(text: Seq<char>, max_words: nat, overlap: nat) -> Seq<Seq<char>> {
    let ws = words(text);
    if ws.len() == 0 {
        seq![seq![]]
    } else if ws.len() <= max_words {
        seq![text]
    } else {
        windows(ws, max_words, (max_words - overlap) as nat, 0)
    }
}

/// The views of a vector of strings.
pub open spec fn string_views(v: Seq<String>) -> Seq<Seq<char>> {
    v.map_values(|s: String| s@)
}

/// Splits `text` into chunks of at most `max_words` words, neighbouring chunks
/// sharing `overlap` words; a text that fits in one chunk is returned whole.
pub fn chunk_text(text: &str, max_words: usize, overlap: usize) -> (r: Vec<String>)
    requires
        words(text@).len() > max_words ==> overlap < max_words,
    ensures
        string_views(r@) == chunks(text@, max_words as nat, overlap as nat),
{
    let cs = chars_of(text);
    let ws = split_words(&cs);
    let n = ws.len();
    if n == 0 {
        let mut r: Vec<String> = Vec::new();
        r.push(String::new());
        assert(string_views(r@) =~= seq![Seq::<char>::empty()]);
        return r;
    }
    if n <= max_words {
        let mut r: Vec<String> = Vec::new();
        r.push(text.to_string());
        assert(string_views(r@) =~= seq![text@]);
        return r;
    }
    let step = max_words - overlap;
    let ghost all = views(ws@);
    let mut r: Vec<String> = Vec::new();
    let mut start: usize = 0;
    loop
        invariant_except_break
            n == ws@.len() == all.len(),
            all == words(text@),
            all == views(ws@),
            step == max_words - overlap,
            step > 0,
            start < n,
            string_views(r@) + windows(all, max_words as nat, step as nat, start as nat) == windows(
                all,
                max_words as nat,
                step as nat,
                0,
            ),
        ensures
            string_views(r@) == windows(all, max_words as nat, step as nat, 0),
        decreases n - start,
    {
        let end = if max_words < n - start {
            start + max_words
        } else {
            n
        };
        let chunk = join_words(&ws, start, end);
        let ghost before = string_views(r@);
        r.push(chunk);
        assert(string_views(r@) =~= before.push(chunk@));
        if end == n {
            assert(windows(all, max_words as nat, step as nat, start as nat) =~= seq![chunk@]);
            break;
        }
        assert(windows(all, max_words as nat, step as nat, start as nat) =~= seq![chunk@]
            + windows(all, max_words as nat, step as nat, (start + step) as nat));
        start = start + step;
    }
    r
}

} // verus!

verus! {

/// What `sha2::Sha256::digest` returns for `data`: its SHA-256 digest.
pub uninterp spec fn sha256(data: Seq<u8>) -> Seq<u8>;

/// The lowercase hexadecimal digits, by value.
pub open spec fn hex_digits() -> Seq<char> {
    seq!['0', '1', '2', '3', '4', '5', '6', '7', '8', '9', 'a', 'b', 'c', 'd', 'e', 'f']
}

/// The lowercase hexadecimal text of `data`: two digits per byte, high half first.
pub open spec fn hex_lower(data: Seq<u8>) -> Seq<char>
    decreases data.len(),
{
    if data.len() == 0 {
        seq![]
    } else {
        let b = data.last();
        hex_lower(data.drop_last()) + seq![hex_digits()[(b / 16) as int], hex_digits()[(b % 16) as int]]
    }
}

/// The hexadecimal text of `data` has two characters per byte.
pub proof fn lemma_hex_lower_len(data: Seq<u8>)
    ensures
        hex_lower(data).len() == 2 * data.len(),
        forall|i: int| 0 <= i < hex_lower(data).len() ==> hex_digits().contains(#[trigger] hex_lower(data)[i]),
    decreases data.len(),
{
    if data.len() > 0 {
        let p = data.drop_last();
        lemma_hex_lower_len(p);
        let b = data.last();
        let h = hex_lower(data);
        let hp = hex_lower(p);
        assert forall|i: int| 0 <= i < h.len() implies hex_digits().contains(#[trigger] h[i]) by {
            if i < hp.len() {
                assert(h[i] == hp[i]);
            } else if i == hp.len() {
                assert(h[i] == hex_digits()[(b / 16) as int]);
            } else {
                assert(h[i] == hex_digits()[(b % 16) as int]);
            }
        }
    }
}

/// `sha2::Sha256::digest`: the SHA-256 digest of `data`, 32 bytes long.
#[verifier::external_body]
fn sha256_digest(data: &[u8]) -> (r: Vec<u8>)
    ensures
        r@ == sha256(data@),
        r@.len() == 32,
{
    sha2::Sha256::digest(data).to_vec()
}

/// `hex::encode`: the lowercase hexadecimal text of `data`.
#[verifier::external_body]
fn hex_encode(data: &[u8]) -> (r: String)
    ensures
        r@ == hex_lower(data@),
{
    hex::encode(data)
}

/// The fingerprint of a job description that tells whether its text changed:
/// the lowercase hex SHA-256 of its UTF-8 bytes, 64 characters long.
pub fn hash_content(content: &str) -> (r: String)
    ensures
        r@ == hex_lower(sha256(vstd::utf8::encode_utf8(content@))),
        r@.len() == 64,
        forall|i: int| 0 <= i < r@.len() ==> hex_digits().contains(#[trigger] r@[i]),
{
    let bytes = content.as_bytes();
    let digest = sha256_digest(bytes);
    proof {
        lemma_hex_lower_len(digest@);
    }
    hex_encode(digest.as_slice())
}

} // verus!

verus! {

/// Whether `c` is an angle bracket.
pub open spec fn is_angle(c: char) -> bool {
    c == '<' || c == '>'
}

proof fn lemma_strip_tags_no_angles(s: Seq<char>)
    ensures
        forall|i: int| 0 <= i < strip_tags(s).len() ==> !is_angle(#[trigger] strip_tags(s)[i]),
    decreases s.len(),
{
    if s.len() > 0 {
        let p = s.drop_last();
        lemma_strip_tags_no_angles(p);
        let r = strip_tags(s);
        assert forall|i: int| 0 <= i < r.len() implies !is_angle(#[trigger] r[i]) by {
            if i < strip_tags(p).len() {
                assert(r[i] == strip_tags(p)[i]);
            }
        }
    }
}

proof fn lemma_join_chars(ws: Seq<Seq<char>>)
    ensures
        forall|i: int|
            0 <= i < join(ws, space()).len() ==> #[trigger] join(ws, space())[i] == ' ' || exists|
                a: int,
                b: int,
            | 0 <= a < ws.len() && 0 <= b < ws[a].len() && #[trigger] ws[a][b] == join(ws, space())[i],
    decreases ws.len(),
{
    if ws.len() == 1 {
        assert forall|i: int| 0 <= i < join(ws, space()).len() implies #[trigger] join(ws, space())[i]
            == ' ' || exists|a: int, b: int|
            0 <= a < ws.len() && 0 <= b < ws[a].len() && #[trigger] ws[a][b] == join(ws, space())[i] by {
            assert(ws[0][i] == join(ws, space())[i]);
        }
    } else if ws.len() > 1 {
        let p = ws.drop_last();
        lemma_join_chars(p);
        let jp = join(p, space());
        let j = join(ws, space());
        let n = jp.len();
        assert forall|i: int| 0 <= i < j.len() implies #[trigger] j[i] == ' ' || exists|a: int, b: int|
            0 <= a < ws.len() && 0 <= b < ws[a].len() && #[trigger] ws[a][b] == j[i] by {
            if i < n {
                assert(j[i] == jp[i]);
                if jp[i] != ' ' {
                    let (a, b) = choose|a: int, b: int|
                        0 <= a < p.len() && 0 <= b < p[a].len() && #[trigger] p[a][b] == jp[i];
                    assert(ws[a][b] == j[i]);
                }
            } else if i > n {
                assert(j[i] == ws[ws.len() - 1][i - n - 1]);
            }
        }
    }
}

/// The plain text of an HTML fragment holds no angle bracket, is single
/// spaced (so it is its own trim), and has the words of the fragment's text
/// outside tags.
pub proof fn lemma_html_text_is_plain(s: Seq<char>)
    ensures
        forall|i: int| 0 <= i < html_text(s).len() ==> !is_angle(#[trigger] html_text(s)[i]),
        single_spaced(html_text(s)),
        trimmed(html_text(s)) == html_text(s),
        words(html_text(s)) == words(strip_tags(unescape_entities(s))),
{
    let t = strip_tags(unescape_entities(s));
    let ws = words(t);
    lemma_strip_tags_no_angles(unescape_entities(s));
    lemma_words_are_words(t);
    lemma_join_single_spaced(ws);
    lemma_words_of_join(ws);
    lemma_join_chars(ws);
    let j = html_text(s);
    assert forall|i: int| 0 <= i < j.len() implies !is_angle(#[trigger] j[i]) by {
        if j[i] != ' ' {
            let (a, b) = choose|a: int, b: int|
                0 <= a < ws.len() && 0 <= b < ws[a].len() && #[trigger] ws[a][b] == j[i];
            assert(t.contains(ws[a][b]));
            let k = choose|k: int| 0 <= k < t.len() && t[k] == ws[a][b];
            assert(!is_angle(t[k]));
        }
    }
    lemma_trimmed_unchanged(j);
}

proof fn lemma_windows_within_limit(ws: Seq<Seq<char>>, max: nat, step: nat, start: nat)
    requires
        all_words(ws),
    ensures
        forall|i: int|
            0 <= i < windows(ws, max, step, start).len() ==> words(
                #[trigger] windows(ws, max, step, start)[i],
            ).len() <= max,
    decreases (if start < ws.len() {
        ws.len() - start
    } else {
        0
    }),
{
    if start < ws.len() && step > 0 {
        let end: nat = if start + max < ws.len() {
            start + max
        } else {
            ws.len()
        };
        let sub = ws.subrange(start as int, end as int);
        assert(all_words(sub)) by {
            assert forall|i: int| 0 <= i < sub.len() implies (#[trigger] sub[i]).len() > 0 && forall|
                k: int,
            | 0 <= k < sub[i].len() ==> !is_ws(#[trigger] sub[i][k]) by {
                assert(sub[i] == ws[start + i]);
            }
        }
        lemma_words_of_join(sub);
        let w = windows(ws, max, step, start);
        if end < ws.len() {
            lemma_windows_within_limit(ws, max, step, start + step);
            let rest = windows(ws, max, step, start + step);
            assert forall|i: int| 0 <= i < w.len() implies words(#[trigger] w[i]).len() <= max by {
                if i > 0 {
                    assert(w[i] == rest[i - 1]);
                }
            }
        }
    }
}

/// No chunk of a text holds more than `max_words` words.
pub proof fn lemma_chunks_within_limit(text: Seq<char>, max_words: nat, overlap: nat)
    requires
        words(text).len() > max_words ==> overlap < max_words,
    ensures
        forall|i: int|
            0 <= i < chunks(text, max_words, overlap).len() ==> words(
                #[trigger] chunks(text, max_words, overlap)[i],
            ).len() <= max_words,
{
    let ws = words(text);
    lemma_words_are_words(text);
    if ws.len() == 0 {
        assert(words(Seq::<char>::empty()).len() == 0);
    } else if ws.len() > max_words {
        lemma_windows_within_limit(ws, max_words, (max_words - overlap) as nat, 0);
    }
}

} // verus!

verus! {

proof fn lemma_strip_tags_plain(s: Seq<char>)
    requires
        forall|i: int| 0 <= i < s.len() ==> !is_angle(#[trigger] s[i]),
    ensures
        strip_tags(s) == s,
        !inside_tag(s),
    decreases s.len(),
{
    if s.len() > 0 {
        let p = s.drop_last();
        assert forall|i: int| 0 <= i < p.len() implies !is_angle(#[trigger] p[i]) by {
            assert(p[i] == s[i]);
        }
        lemma_strip_tags_plain(p);
        assert(!is_angle(s[s.len() - 1]));
        assert(p.push(s.last()) =~= s);
    }
}

/// Cleaning an already cleaned text gives it back, provided it holds no `&`
/// (an `&` could start an entity that the first cleaning produced).
pub proof fn lemma_clean_text_is_fixed(s: Seq<char>)
    requires
        forall|i: int| 0 <= i < html_text(s).len() ==> #[trigger] html_text(s)[i] != '&',
    ensures
        html_text(html_text(s)) == html_text(s),
{
    let t = html_text(s);
    reveal_strlit("&lt;");
    reveal_strlit("&gt;");
    reveal_strlit("&nbsp;");
    reveal_strlit("&amp;");
    lemma_html_text_is_plain(s);
    lemma_replace_absent(t, "&lt;"@, "<"@);
    lemma_replace_absent(t, "&gt;"@, ">"@);
    lemma_replace_absent(t, "&nbsp;"@, " "@);
    lemma_replace_absent(t, "&amp;"@, "&"@);
    assert(unescape_entities(t) == t);
    lemma_strip_tags_plain(t);
}

} // verus!

verus! {

/// The word lists of the chunks, after the first, each without its first
/// `overlap` words, one after the other.
pub open spec fn stitch_tail(lists: Seq<Seq<Seq<char>>>, overlap: nat) -> Seq<Seq<char>>
    decreases lists.len(),
{
    if lists.len() == 0 {
        seq![]
    } else {
        lists[0].skip(overlap as int) + stitch_tail(lists.drop_first(), overlap)
    }
}

/// The word lists of chunks put back together: the first list whole, each
/// later one without the `overlap` words it shares with its predecessor.
pub open spec fn stitched(lists: Seq<Seq<Seq<char>>>, overlap: nat) -> Seq<Seq<char>> {
    if lists.len() == 0 {
        seq![]
    } else {
        lists[0] + stitch_tail(lists.drop_first(), overlap)
    }
}

/// The words of each chunk.
pub open spec fn chunk_words(cs: Seq<Seq<char>>) -> Seq<Seq<Seq<char>>> {
    cs.map_values(|c: Seq<char>| words(c))
}

proof fn lemma_window_words(ws: Seq<Seq<char>>, start: int, end: int)
    requires
        all_words(ws),
        0 <= start <= end <= ws.len(),
    ensures
        words(join(ws.subrange(start, end), space())) == ws.subrange(start, end),
{
    let sub = ws.subrange(start, end);
    assert(all_words(sub)) by {
        assert forall|i: int| 0 <= i < sub.len() implies (#[trigger] sub[i]).len() > 0 && forall|
            k: int,
        | 0 <= k < sub[i].len() ==> !is_ws(#[trigger] sub[i][k]) by {
            assert(sub[i] == ws[start + i]);
        }
    }
    lemma_words_of_join(sub);
}

proof fn lemma_windows_cover(ws: Seq<Seq<char>>, max: nat, overlap: nat, start: nat)
    requires
        all_words(ws),
        overlap < max,
        start < ws.len(),
    ensures
        stitched(chunk_words(windows(ws, max, (max - overlap) as nat, start)), overlap) == ws.skip(
            start as int,
        ),
    decreases ws.len() - start,
{
    let step = (max - overlap) as nat;
    let w = windows(ws, max, step, start);
    let cw = chunk_words(w);
    let end: nat = if start + max < ws.len() {
        start + max
    } else {
        ws.len()
    };
    lemma_window_words(ws, start as int, end as int);
    assert(cw[0] == ws.subrange(start as int, end as int));
    if end == ws.len() {
        assert(cw.drop_first() =~= Seq::<Seq<Seq<char>>>::empty());
        assert(ws.subrange(start as int, end as int) + Seq::<Seq<char>>::empty() =~= ws.skip(
            start as int,
        ));
    } else {
        let s2 = (start + step) as nat;
        let w2 = windows(ws, max, step, s2);
        let cw2 = chunk_words(w2);
        assert(cw.drop_first() =~= cw2);
        lemma_windows_cover(ws, max, overlap, s2);
        let end2: nat = if s2 + max < ws.len() {
            s2 + max
        } else {
            ws.len()
        };
        lemma_window_words(ws, s2 as int, end2 as int);
        assert(cw2[0] == ws.subrange(s2 as int, end2 as int));
        let t = stitch_tail(cw2.drop_first(), overlap);
        assert(cw2[0] + t == ws.skip(s2 as int));
        assert((cw2[0] + t).skip(overlap as int) =~= cw2[0].skip(overlap as int) + t);
        assert(ws.skip(s2 as int).skip(overlap as int) =~= ws.skip(end as int));
        assert(stitch_tail(cw2, overlap) == ws.skip(end as int));
        assert(ws.subrange(start as int, end as int) + ws.skip(end as int) =~= ws.skip(
            start as int,
        ));
    }
}

/// The chunks of a text, with the overlapping words of each later chunk
/// dropped, give back every word of the text, in order.
pub proof fn lemma_chunks_cover_words(text: Seq<char>, max_words: nat, overlap: nat)
    requires
        words(text).len() > max_words ==> overlap < max_words,
    ensures
        stitched(chunk_words(chunks(text, max_words, overlap)), overlap) == words(text),
{
    let ws = words(text);
    lemma_words_are_words(text);
    let cw = chunk_words(chunks(text, max_words, overlap));
    if ws.len() == 0 {
        assert(words(Seq::<char>::empty()).len() == 0);
        assert(cw.drop_first() =~= Seq::<Seq<Seq<char>>>::empty());
        assert(cw[0] + Seq::<Seq<char>>::empty() =~= ws);
    } else if ws.len() <= max_words {
        assert(cw.drop_first() =~= Seq::<Seq<Seq<char>>>::empty());
        assert(cw[0] + Seq::<Seq<char>>::empty() =~= ws);
    } else {
        lemma_windows_cover(ws, max_words, overlap, 0);
        assert(ws.skip(0) =~= ws);
    }
}

} // verus!
