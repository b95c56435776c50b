use arags::hashing::{chunk_content_hash, question_hash, sha256_hex};
use arags::hexcodec::{hex_decode_or_empty, hex_encode};
use arags::lexical::{sort_dedup, str_lt};
use arags::text::{push_decimal, sanitize_query, str_eq, theme_of};

#[test]
fn sanitize_collapses_fts_operators_to_spaces() {
    assert_eq!(sanitize_query("x-forwarded-for"), "x forwarded for");
    assert_eq!(sanitize_query("a:b \"c\" d* ^e"), "a b  c  d   e");
    assert_eq!(sanitize_query("tab\tand\nnewline"), "tab\tand\nnewline");
    assert_eq!(sanitize_query("çãé 123"), "çãé 123");
    assert_eq!(sanitize_query(""), "");
}

#[test]
fn sanitize_is_idempotent_on_examples() {
    for q in ["x-forwarded-for", "fn(a, b) -> c", "naïve café!", "  "] {
        let once = sanitize_query(q);
        assert_eq!(sanitize_query(&once), once);
        assert_eq!(once.chars().count(), q.chars().count());
    }
}

#[test]
fn theme_of_edge_cases() {
    assert_eq!(theme_of("/abs/path"), "");
    assert_eq!(theme_of("a/"), "a");
    assert_eq!(theme_of(""), "(root)");
    assert_eq!(theme_of("dir/sub/file.rs"), "dir");
}

#[test]
fn decimal_rendering_matches_format() {
    for n in [0i64, 7, 10, 99, 100, -1, -10, 123_456_789, i64::MAX, i64::MIN] {
        let mut s = String::from("v=");
        push_decimal(&mut s, n);
        assert_eq!(s, format!("v={n}"));
    }
}

#[test]
fn str_eq_compares_characters() {
    assert!(str_eq("abc", "abc"));
    assert!(!str_eq("abc", "abd"));
    assert!(!str_eq("ab", "abc"));
    assert!(str_eq("", ""));
}

#[test]
fn hex_encodes_lowercase_two_digits_per_byte() {
    assert_eq!(hex_encode(&[]), "");
    assert_eq!(hex_encode(&[0x00, 0x0f, 0xab, 0xff]), "000fabff");
}

#[test]
fn hex_decodes_either_case_and_rejects_bad_input() {
    assert_eq!(hex_decode_or_empty("000fABff"), vec![0x00, 0x0f, 0xab, 0xff]);
    assert_eq!(hex_decode_or_empty("abc"), Vec::<u8>::new());
    assert_eq!(hex_decode_or_empty("zz"), Vec::<u8>::new());
    assert_eq!(hex_decode_or_empty(""), Vec::<u8>::new());
    let bytes: Vec<u8> = (0u8..=255).collect();
    assert_eq!(hex_decode_or_empty(&hex_encode(&bytes)), bytes);
}

#[test]
fn sha256_hex_of_known_inputs() {
    assert_eq!(
        sha256_hex(b""),
        "e3b0c44298fc1c149afbf4c8996fb92427ae41e4649b934ca495991b7852b855"
    );
    assert_eq!(
        chunk_content_hash("fn main() {}"),
        "ef32637cb9c3ec2e3968c9cbdf26a5e9c172be94f88af533e14bd43f892d5297"
    );
}

#[test]
fn question_hash_ignores_whitespace_and_case() {
    let h = question_hash("Hello World");
    assert_eq!(h, "936a185caaa266bb9cbe981e9e05cb78cd732b0b3280eb944412bb6f8f8f07af");
    assert_eq!(question_hash("  hello\tWORLD \n"), h);
    assert_ne!(question_hash("hello there"), h);
}

#[test]
fn strings_sort_lexicographically_without_duplicates() {
    assert!(str_lt("a", "b"));
    assert!(str_lt("ab", "abc"));
    assert!(!str_lt("abc", "ab"));
    assert!(!str_lt("x", "x"));
    let v: Vec<String> = ["b", "a", "c", "a", "", "ba"].iter().map(|s| s.to_string()).collect();
    assert_eq!(sort_dedup(&v), vec!["", "a", "b", "ba", "c"]);
    assert!(sort_dedup(&Vec::new()).is_empty());
}

#[test]
fn sanitize_keeps_unicode_whitespace_only() {
    let kept = "a\u{a0}b\u{3000}c\u{2009}d\u{85}e";
    assert_eq!(sanitize_query(kept), kept);
    for c in kept.chars() {
        assert!(c.is_alphanumeric() || c.is_whitespace());
    }
    // U+200B (zero width space) and U+180E are not White_Space.
    assert_eq!(sanitize_query("a\u{200b}b\u{180e}c"), "a b c");
    assert!(!'\u{200b}'.is_whitespace() && !'\u{180e}'.is_whitespace());
}
