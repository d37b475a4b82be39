use docs_rs::percent::{encode_url_path, url_decode};
use docs_rs::text::white_space;

#[test]
fn escapes_are_decoded() {
    assert_eq!(
        url_decode("/clap/latest/clapproc%20%60macro.html").unwrap(),
        "/clap/latest/clapproc `macro.html"
    );
    assert_eq!(url_decode("fake%2Dcrate").unwrap(), "fake-crate");
    assert_eq!(url_decode("%c3%A4").unwrap(), "ä");
    assert_eq!(url_decode("100%").unwrap(), "100%");
    assert_eq!(url_decode("%zz%4").unwrap(), "%zz%4");
}

#[test]
fn decoding_fails_on_bytes_that_are_not_utf8() {
    let err = url_decode("/a%ff").unwrap_err();
    assert_eq!(
        err.message,
        "invalid utf-8 sequence of 1 bytes from index 2"
    );
}

#[test]
fn decoding_undoes_encoding() {
    for path in ["/a b/ä", "/%", "% 20", "%é1", "%4 ", "\u{0}\u{7f}<>\"#?`{}", ""] {
        assert_eq!(url_decode(&encode_url_path(path)).unwrap(), path);
    }
    // what looks like an escape is one
    assert_eq!(url_decode(&encode_url_path("%20")).unwrap(), " ");
}

#[test]
fn every_byte_of_a_path() {
    for byte in 0u8..128 {
        let c = byte as char;
        let encoded = encode_url_path(&c.to_string());
        let escaped = byte <= 0x20
            || byte == 0x7f
            || matches!(c, '"' | '#' | '<' | '>' | '?' | '`' | '{' | '}');
        if escaped {
            assert_eq!(encoded, format!("%{byte:02X}"));
        } else {
            assert_eq!(encoded, c.to_string());
        }
    }
    assert_eq!(encode_url_path("€"), "%E2%82%AC");
}

#[test]
fn white_space_is_that_of_unicode() {
    for c in '\0'..=char::MAX {
        assert_eq!(white_space(c), c.is_whitespace(), "{c:?}");
    }
}
