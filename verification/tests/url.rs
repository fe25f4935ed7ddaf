use tuun::url::{strip_null, urlencode};

#[test]
fn null_characters_are_stripped() {
    assert_eq!(strip_null("a\0b\0\0c"), "abc");
    assert_eq!(strip_null("abc"), "abc");
    assert_eq!(strip_null("\0"), "");
    assert_eq!(strip_null(&strip_null("\0x\0")), "x");
}

#[test]
fn the_protocol_and_the_slashes_stay() {
    assert_eq!(
        urlencode("https://example.com/a b/ü?x=1"),
        "https://example.com/a%20b/%C3%BC%3Fx%3D1"
    );
    assert_eq!(urlencode("no protocol/x:y"), "no%20protocol/x%3Ay");
}

#[test]
fn only_the_first_protocol_mark_counts() {
    assert_eq!(urlencode("a b://c://d"), "a b://c%3A//d");
    assert_eq!(urlencode("://x y"), "://x%20y");
}

#[test]
fn plain_urls_stay() {
    for url in ["https://a.b-c_d~e/F/0", "", "/", "x//y"] {
        assert_eq!(urlencode(url), url);
    }
}

#[test]
fn parts_keep_their_number() {
    let url = "http://a/b c//%/";
    assert_eq!(urlencode(url), "http://a/b%20c//%25/");
    assert_eq!(urlencode(url).matches('/').count(), url.matches('/').count());
}

#[test]
fn encoding_twice_encodes_the_percent_signs() {
    assert_eq!(urlencode(&urlencode("a b")), "a%2520b");
}

#[test]
fn different_parts_are_encoded_differently() {
    assert_ne!(urlencode("a b"), urlencode("a%20b"));
}

#[test]
fn encoded_parts_can_be_decoded() {
    for (protocol, rest) in [("https://", "a b/ü?x=1/100%"), ("", "x:y/z"), ("a b://", "c://d/%20")] {
        let url = format!("{protocol}{rest}");
        let encoded = urlencode(&url);
        assert!(encoded.starts_with(protocol));
        let decoded: Vec<String> = encoded[protocol.len()..]
            .split('/')
            .map(|part| urlencoding::decode(part).unwrap().into_owned())
            .collect();
        assert_eq!(decoded.join("/"), rest);
    }
}
