use reddit_stream::codec::{decode_record, encode_record};
use reddit_stream::numfmt::i64_to_dec_string;
use reddit_stream::RedditPost;

fn roundtrip(title: &str, content: &str, timestamp: i64) {
    let rec = RedditPost { title: title.to_string(), content: content.to_string(), timestamp };
    let payload = encode_record(&rec);
    let back = decode_record(&payload).expect("payload must decode");
    assert_eq!(back.title, title);
    assert_eq!(back.content, content);
    assert_eq!(back.timestamp, timestamp);
}

#[test]
fn encode_plain() {
    let rec = RedditPost {
        title: "Hello".to_string(),
        content: "World".to_string(),
        timestamp: 42,
    };
    assert_eq!(
        encode_record(&rec),
        r#"{"title":"Hello","content":"World","timestamp":42}"#
    );
}

#[test]
fn encode_negative_timestamp() {
    let rec = RedditPost { title: "t".to_string(), content: "c".to_string(), timestamp: -5 };
    assert_eq!(encode_record(&rec), r#"{"title":"t","content":"c","timestamp":-5}"#);
}

#[test]
fn roundtrip_plain() {
    roundtrip("Hello", "World", 1700000000);
}

#[test]
fn roundtrip_empty_strings() {
    roundtrip("", "", 0);
}

#[test]
fn roundtrip_escapes() {
    roundtrip("a\"b\\c", "say \"hi\" \\ bye", 7);
}

#[test]
fn roundtrip_control_characters() {
    roundtrip("line1\nline2", "tab\there\r\n", -1);
}

#[test]
fn roundtrip_unicode() {
    roundtrip("héllo wörld \u{1f600}", "日本語のテキスト", 123456789);
}

#[test]
fn roundtrip_extremes() {
    roundtrip("min", "x", i64::MIN);
    roundtrip("max", "y", i64::MAX);
}

#[test]
fn payload_is_valid_json() {
    let rec = RedditPost {
        title: "q\" b\\ n\n".to_string(),
        content: "multi\nline\ttext".to_string(),
        timestamp: -99,
    };
    let payload = encode_record(&rec);
    let v: serde_json::Value = serde_json::from_str(&payload).expect("must be valid JSON");
    assert_eq!(v["title"].as_str().unwrap(), rec.title);
    assert_eq!(v["content"].as_str().unwrap(), rec.content);
    assert_eq!(v["timestamp"].as_i64().unwrap(), rec.timestamp);
}

#[test]
fn decode_rejects_garbage() {
    assert!(decode_record("").is_none());
    assert!(decode_record("{}").is_none());
    assert!(decode_record("not json").is_none());
    assert!(decode_record(r#"{"content":"x","title":"y","timestamp":1}"#).is_none());
    assert!(decode_record(r#"{"title":"x","content":"y","timestamp":}"#).is_none());
    assert!(decode_record(r#"{"title":"x","content":"y","timestamp":1"#).is_none());
    assert!(decode_record(r#"{"title":"x","content":"y","timestamp":12345678901234567890123}"#)
        .is_none());
    assert!(decode_record(r#"{"title":"x","content":"y","timestamp":1e3}"#).is_none());
}

#[test]
fn decode_rejects_truncated_string() {
    assert!(decode_record(r#"{"title":"unfinished"#).is_none());
    assert!(decode_record(r#"{"title":"bad\"#).is_none());
}

#[test]
fn partition_key_values() {
    let a = RedditPost { title: "a".to_string(), content: "".to_string(), timestamp: 123 };
    assert_eq!(a.partition_key(), "123");
    let b = RedditPost { title: "b".to_string(), content: "".to_string(), timestamp: -5 };
    assert_eq!(b.partition_key(), "-5");
}

#[test]
fn partition_key_deterministic() {
    let a = RedditPost { title: "a".to_string(), content: "x".to_string(), timestamp: 999 };
    let b = RedditPost { title: "b".to_string(), content: "y".to_string(), timestamp: 999 };
    assert_eq!(a.partition_key(), b.partition_key());
}

#[test]
fn decimal_strings() {
    assert_eq!(i64_to_dec_string(0), "0");
    assert_eq!(i64_to_dec_string(10), "10");
    assert_eq!(i64_to_dec_string(-1), "-1");
    assert_eq!(i64_to_dec_string(i64::MAX), "9223372036854775807");
    assert_eq!(i64_to_dec_string(i64::MIN), "-9223372036854775808");
}
