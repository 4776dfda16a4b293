use microvm::text::{chars_of, comes_before, contains, starts_with, trim_leading_slashes};

#[test]
fn search_agrees_with_the_standard_library() {
    let texts = ["", "a", "ab", "aab", "abab", "äb", "bä", "/a/b/", "///"];
    for text in texts {
        for pattern in texts {
            assert_eq!(contains(text, pattern), text.contains(pattern));
            assert_eq!(starts_with(text, pattern), text.starts_with(pattern));
            assert_eq!(comes_before(text, pattern), text < pattern);
        }
        assert_eq!(trim_leading_slashes(text), text.trim_start_matches('/'));
        assert_eq!(chars_of(text), text.chars().collect::<Vec<char>>());
    }
}
