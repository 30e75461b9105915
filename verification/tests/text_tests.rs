use ats_ranker::text::{chars_of, join_two, contains, eq_text, replace, split_words, string_of, trim};
use ats_ranker::utils::{chunk_text, clean_html_content, hash_content};

#[test]
fn replace_is_left_to_right_and_non_overlapping() {
    assert_eq!(replace("aaa", "aa", "b"), "ba");
    assert_eq!(replace("a&lt;b&lt;", "&lt;", "<"), "a<b<");
    assert_eq!(replace("no match", "xyz", "!"), "no match");
    assert_eq!(replace("", "x", "y"), "");
    assert_eq!(replace("a_b-c", "_", " "), "a b-c");
}

#[test]
fn trim_removes_unicode_whitespace_at_both_ends() {
    assert_eq!(trim("  hello world \t\n"), "hello world");
    assert_eq!(trim("\u{3000}x\u{00a0}"), "x");
    assert_eq!(trim("   "), "");
    assert_eq!(trim(""), "");
    assert_eq!(trim("a b"), "a b");
}

#[test]
fn contains_and_eq_text() {
    assert!(contains("remote first", "remote"));
    assert!(contains("abc", ""));
    assert!(!contains("ab", "abc"));
    assert!(!contains("hybrid", "remote"));
    assert!(eq_text("fully remote", "fully remote"));
    assert!(!eq_text("fully remote", "fully remote "));
    assert_eq!(join_two("ab", "cd"), "abcd");
}

#[test]
fn words_are_maximal_non_whitespace_runs() {
    let ws = split_words(&chars_of("  one\ttwo  three\n"));
    let got: Vec<String> = ws.iter().map(|w| string_of(w)).collect();
    assert_eq!(got, vec!["one", "two", "three"]);
    assert!(split_words(&chars_of(" \n ")).is_empty());
}

#[test]
fn clean_html_content_strips_tags_and_entities() {
    assert_eq!(
        clean_html_content("<p>Hello&nbsp;&amp; <b>world</b></p>"),
        "Hello & world"
    );
    assert_eq!(clean_html_content("&lt;script&gt;x"), "x");
    assert_eq!(clean_html_content("a\n\n  b\t c"), "a b c");
    assert_eq!(clean_html_content(""), "");
    assert_eq!(clean_html_content("<div>   </div>"), "");
}

#[test]
fn clean_html_content_decodes_amp_last() {
    // `&amp;` is decoded after `&lt;`, so an escaped entity stays an entity
    assert_eq!(clean_html_content("&amp;lt;b&amp;gt;"), "&lt;b&gt;");
}

#[test]
fn clean_html_content_output_has_no_angle_brackets() {
    let out = clean_html_content("1 &lt; 2 and 3 > 2 <i>x</i> y");
    assert!(!out.contains('<') && !out.contains('>'));
    assert!(!out.contains("  "));
    assert_eq!(out.trim(), out);
}

#[test]
fn chunk_text_of_empty_text_is_one_empty_chunk() {
    assert_eq!(chunk_text("", 350, 50), vec![String::new()]);
    assert_eq!(chunk_text("   ", 350, 50), vec![String::new()]);
}

#[test]
fn chunk_text_keeps_a_short_text_whole() {
    assert_eq!(chunk_text("a  b\tc", 5, 1), vec!["a  b\tc".to_string()]);
    assert_eq!(chunk_text("a b c d", 4, 9), vec!["a b c d".to_string()]);
}

#[test]
fn chunk_text_windows_overlap() {
    let text = "w0 w1 w2 w3 w4 w5 w6 w7 w8 w9";
    assert_eq!(
        chunk_text(text, 4, 1),
        vec!["w0 w1 w2 w3", "w3 w4 w5 w6", "w6 w7 w8 w9"]
    );
    assert_eq!(chunk_text("a b c", 2, 0), vec!["a b", "c"]);
    assert_eq!(chunk_text("a b c d e", 3, 2), vec!["a b c", "b c d", "c d e"]);
}

#[test]
fn chunk_text_chunks_never_exceed_the_limit() {
    let words: Vec<String> = (0..1000).map(|i| format!("w{i}")).collect();
    let text = words.join("  ");
    let chunks = chunk_text(&text, 350, 50);
    assert_eq!(chunks.len(), 4);
    for c in &chunks {
        assert!(c.split_whitespace().count() <= 350);
    }
    assert!(chunks[0].starts_with("w0 "));
    assert!(chunks[3].ends_with(" w999"));
    assert!(chunks[1].starts_with("w300 "));
}

#[test]
fn hash_content_is_lowercase_sha256_hex() {
    assert_eq!(
        hash_content(""),
        "e3b0c44298fc1c149afbf4c8996fb92427ae41e4649b934ca495991b7852b855"
    );
    assert_eq!(
        hash_content("abc"),
        "ba7816bf8f01cfea414140de5dae2223b00361a396177a9cb410ff61f20015ad"
    );
    let h = hash_content("héllo wörld");
    assert_eq!(h.len(), 64);
    assert!(h.chars().all(|c| c.is_ascii_hexdigit() && !c.is_ascii_uppercase()));
    assert_ne!(hash_content("a"), hash_content("b"));
}

#[test]
fn replace_with_an_empty_pattern_surrounds_each_character() {
    assert_eq!(replace("ab", "", "x"), "xaxbx");
    assert_eq!(replace("", "", "x"), "x");
}

#[test]
fn chunks_without_their_overlaps_give_back_every_word() {
    let text = "a b c d e f g h i j k";
    let (max, overlap) = (4usize, 1usize);
    let chunks = chunk_text(text, max, overlap);
    let mut stitched: Vec<String> = Vec::new();
    for (i, c) in chunks.iter().enumerate() {
        let ws: Vec<String> = c.split_whitespace().map(String::from).collect();
        let skip = if i == 0 { 0 } else { overlap };
        stitched.extend(ws.into_iter().skip(skip));
    }
    let all: Vec<String> = text.split_whitespace().map(String::from).collect();
    assert_eq!(stitched, all);
}

#[test]
fn cleaning_a_clean_text_without_ampersand_gives_it_back() {
    let once = clean_html_content("<h1>Senior  Engineer</h1>\n<p>Rust &lt;3</p>");
    assert!(!once.contains('&'));
    assert_eq!(clean_html_content(&once), once);
}
