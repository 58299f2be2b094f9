use zervo::text::{
    display_name, ellipsize, initial, normalize_url, trim_chars, truncate, url_escape,
    white_space, Address,
};

fn chars(s: &str) -> Vec<char> {
    s.chars().collect()
}

#[test]
fn ellipsize_keeps_short_text() {
    assert_eq!(ellipsize("hello", 10), "hello");
    assert_eq!(ellipsize("hello", 5), "hello");
}

#[test]
fn ellipsize_cuts_long_text_with_an_ellipsis() {
    assert_eq!(ellipsize("hello world", 5), "hell…");
    assert_eq!(ellipsize("abc", 0), "");
    assert_eq!(truncate("abc", 0), "");
    assert_eq!(ellipsize("", 0), "");
    assert_eq!(ellipsize("abc", 1), "…");
}

#[test]
fn ellipsize_cuts_on_character_boundaries() {
    assert_eq!(ellipsize("日本語テキスト", 3), "日本…");
}

#[test]
fn truncate_matches_ellipsize() {
    for (text, limit) in [("hello world", 5), ("short", 9), ("", 0), ("ab", 1), ("日本語", 2)] {
        assert_eq!(truncate(text, limit), ellipsize(text, limit));
    }
}

#[test]
fn display_name_prefers_the_title() {
    assert_eq!(display_name("Rust", "https://rust-lang.org/learn"), "Rust");
}

#[test]
fn display_name_falls_back_to_the_host() {
    assert_eq!(display_name("", "https://example.com/path/page"), "example.com");
    assert_eq!(display_name("", "https://example.com"), "example.com");
    assert_eq!(display_name("", "a://b://c"), "b");
}

#[test]
fn display_name_without_a_scheme_is_the_whole_address() {
    assert_eq!(display_name("", "localhost:8080"), "localhost:8080");
}

#[test]
fn initial_is_the_first_letter_upper_cased() {
    assert_eq!(initial("", "https://example.com/"), "E");
    assert_eq!(initial("éclair", ""), "É");
    assert_eq!(initial("  42 things", ""), "4");
}

#[test]
fn initial_without_a_letter_is_a_question_mark() {
    assert_eq!(initial("  ", "https://x.org"), "?");
    assert_eq!(initial("", ""), "?");
}

#[test]
fn url_escape_keeps_unreserved_bytes() {
    assert_eq!(url_escape("AZaz09-_.~"), "AZaz09-_.~");
}

#[test]
fn url_escape_writes_spaces_as_plus_and_the_rest_as_hex() {
    assert_eq!(url_escape("a b&c"), "a+b%26c");
    assert_eq!(url_escape("é"), "%C3%A9");
    assert_eq!(url_escape("100%"), "100%25");
}

#[test]
fn normalize_url_passes_known_schemes_through() {
    assert_eq!(
        normalize_url("  https://rust-lang.org ", None),
        Address::Load("https://rust-lang.org".to_owned())
    );
    assert_eq!(normalize_url("about:blank", None), Address::Load("about:blank".to_owned()));
    assert_eq!(
        normalize_url("zervo://settings", None),
        Address::Load("zervo://settings".to_owned())
    );
    assert_eq!(
        normalize_url("file:///tmp/a.html", None),
        Address::Load("file:///tmp/a.html".to_owned())
    );
}

#[test]
fn normalize_url_makes_paths_files() {
    assert_eq!(
        normalize_url("/tmp/x.html", None),
        Address::Load("file:///tmp/x.html".to_owned())
    );
    assert_eq!(
        normalize_url("~/a.html", Some("/home/me")),
        Address::Load("file:///home/me/a.html".to_owned())
    );
    assert_eq!(normalize_url("~/a.html", None), Address::Load("file://~/a.html".to_owned()));
}

#[test]
fn normalize_url_prefixes_bare_domains() {
    assert_eq!(normalize_url("example.com", None), Address::Load("https://example.com".to_owned()));
}

#[test]
fn normalize_url_searches_for_everything_else() {
    assert_eq!(normalize_url("rust lang", None), Address::Search("rust+lang".to_owned()));
    assert_eq!(
        normalize_url("hello world.com", None),
        Address::Search("hello+world.com".to_owned())
    );
    assert_eq!(normalize_url("  café ", None), Address::Search("caf%C3%A9".to_owned()));
}

#[test]
fn white_space_agrees_with_the_standard_library() {
    for code in 0..=0x10ffffu32 {
        if let Some(c) = char::from_u32(code) {
            assert_eq!(white_space(c), c.is_whitespace(), "{code:#x}");
        }
    }
}

#[test]
fn trim_chars_agrees_with_str_trim() {
    for text in ["  a b  ", "\u{3000}x\u{a0}", "", "   ", "no-space", "\t\nline\r\n"] {
        let trimmed: String = trim_chars(&chars(text)).into_iter().collect();
        assert_eq!(trimmed, text.trim());
    }
}

#[test]
fn shortened_text_fits_its_limit() {
    let text = "a fairly long title for a page about verification";
    for limit in 1..60 {
        let short = ellipsize(text, limit);
        assert!(short.chars().count() <= limit);
        let kept = short.trim_end_matches('…');
        assert!(text.starts_with(kept));
    }
}

#[test]
fn escaped_queries_are_safe_in_an_address() {
    let every_char: String = (1..=0x7fu8).map(char::from).chain("é中😀".chars()).collect();
    let escaped = url_escape(&every_char);
    assert!(escaped
        .chars()
        .all(|c| c.is_ascii_alphanumeric() || "-_.~+%".contains(c)));
}

#[test]
fn paths_are_never_searched() {
    for input in ["/", "/a b c", "~/", "  ~/notes with spaces.txt"] {
        match normalize_url(input, Some("/home/me")) {
            Address::Load(url) => assert!(url.starts_with("file://"), "{url}"),
            Address::Search(query) => panic!("{input} became a search for {query}"),
        }
    }
}

#[test]
fn an_initial_is_never_empty() {
    for (title, url) in [("", ""), ("!!", ""), ("ß", ""), ("", "https://ﬁle.example"), ("   ", "x")] {
        assert!(!initial(title, url).is_empty());
    }
    assert_eq!(initial("ß", ""), "SS");
}

#[test]
fn the_address_bar_settles_on_what_it_loads() {
    let home = Some("/home/me");
    for input in ["example.com", "  https://a.org/x ", "/tmp/f.html", "~/notes.txt", "~/", "about:blank"] {
        let Address::Load(url) = normalize_url(input, home) else {
            panic!("{input} was searched for");
        };
        assert_eq!(normalize_url(&url, home), Address::Load(url.clone()));
    }
    let engine = "https://search.example/?q=rust+lang";
    assert_eq!(normalize_url(engine, home), Address::Load(engine.to_owned()));
}
