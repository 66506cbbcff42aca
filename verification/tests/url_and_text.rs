use oauth_refresh::text::{trim_end_matches, trim_start_matches, CharClass};
use oauth_refresh::url::build_refresh_url;

#[test]
fn test_build_refresh_url() {
    assert_eq!(
        build_refresh_url("https://proxy.example.com/v1", "tokens/refresh"),
        "https://proxy.example.com/v1/tokens/refresh"
    );
    assert_eq!(
        build_refresh_url("https://proxy.example.com/v1/", "/tokens/refresh"),
        "https://proxy.example.com/v1/tokens/refresh"
    );
}

#[test]
fn slashes_at_seam_do_not_matter() {
    let expected = "https://proxy.example.com/v1/tokens/refresh/";
    for back in ["", "/", "///"] {
        for front in ["", "/", "//"] {
            let base = format!("https://proxy.example.com/v1{}", back);
            let path = format!("{}tokens/refresh/", front);
            assert_eq!(build_refresh_url(&base, &path), expected);
        }
    }
}

#[test]
fn url_of_empty_parts_is_a_slash() {
    assert_eq!(build_refresh_url("", ""), "/");
    assert_eq!(build_refresh_url("///", "//"), "/");
    assert_eq!(build_refresh_url("", "a"), "/a");
    assert_eq!(build_refresh_url("a", ""), "a/");
}

#[test]
fn white_space_is_what_std_takes_for_it() {
    for number in 0..0x11_0000u32 {
        if let Some(c) = char::from_u32(number) {
            assert_eq!(CharClass::WhiteSpace.contains(c), c.is_whitespace(), "{:?}", c);
            assert_eq!(CharClass::Slash.contains(c), c == '/');
        }
    }
}

#[test]
fn trimming_is_what_std_makes_of_it() {
    let samples = [
        "", " ", "a", " a", "a ", "\t a b\n", "\u{3000}\u{e9}\u{1F600}\u{2009}", "/", "//", "/a/",
        "a//b", "\u{200B}x\u{200B}",
    ];
    for s in samples {
        let white = CharClass::WhiteSpace;
        assert_eq!(trim_start_matches(s, white), s.trim_start());
        assert_eq!(trim_end_matches(s, white), s.trim_end());
        assert_eq!(trim_end_matches(trim_start_matches(s, white), white), s.trim());
        assert_eq!(trim_start_matches(s, CharClass::Slash), s.trim_start_matches('/'));
        assert_eq!(trim_end_matches(s, CharClass::Slash), s.trim_end_matches('/'));
    }
}
