use afire::encoding::{decode, encode};

#[test]
fn test_url_decode() {
    assert_eq!(decode("hello+world").unwrap(), "hello world");
    assert_eq!(decode("hello%20world").unwrap(), "hello world");
    assert_eq!(
        decode("%3C%3E%22%23%25%7B%7D%7C%5C%5E~%5B%5D%60").unwrap(),
        "<>\"#%{}|\\^~[]`"
    );
}

#[test]
fn test_url_decode_fail() {
    assert_eq!(decode("hello%20world%"), None);
    assert_eq!(decode("hello%20world%2"), None);
    assert_eq!(decode("hello%20world%2G"), None);
}

#[test]
fn test_url_encode() {
    assert_eq!(encode("hello world"), "hello%20world");
    assert_eq!(encode("hello%20world"), "hello%2520world");
    assert_eq!(
        encode("<>\"#%{}|\\^~[]`"),
        "%3C%3E%22%23%25%7B%7D%7C%5C%5E~%5B%5D%60"
    );
}

#[test]
fn test_url_round_trip() {
    let cases = [
        "",
        "abc",
        "hello world",
        "a+b=c&d",
        "100% legit",
        "\u{e9}\u{ff}\u{80}",
    ];
    for case in cases {
        assert_eq!(decode(&encode(case)).unwrap(), case);
    }
}

#[test]
fn test_url_encode_alphabet() {
    let out = encode("a b\u{e9}/%~_-.!");
    for c in out.chars() {
        assert!(c.is_ascii_alphanumeric() || "-._~%".contains(c), "bad char {c}");
    }
}

#[test]
fn test_url_decode_lowercase_hex() {
    assert_eq!(decode("%2f%2F").unwrap(), "//");
}

#[test]
fn test_url_encode_unreserved_passthrough() {
    assert_eq!(encode("AZaz09-._~"), "AZaz09-._~");
}
