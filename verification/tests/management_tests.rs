use velocache::cache::CacheStats;
use velocache::management::{record_field, rejection_reply, stats_response, BroadcastLayer, LogLevel, Rejection};

#[test]
fn broadcast_filter() {
    let layer = BroadcastLayer;
    assert!(layer.should_broadcast(LogLevel::Error, "e"));
    assert!(layer.should_broadcast(LogLevel::Warn, "w"));
    assert!(layer.should_broadcast(LogLevel::Info, "i"));
    assert!(!layer.should_broadcast(LogLevel::Debug, "d"));
    assert!(!layer.should_broadcast(LogLevel::Trace, "t"));
    assert!(!layer.should_broadcast(LogLevel::Info, ""));
}

#[test]
fn message_field_is_unquoted() {
    let mut m = String::new();
    record_field(&mut m, "message", "\"hello \"world\"\"");
    assert_eq!(m, "hello \"world");
    record_field(&mut m, "other", "ignored");
    assert_eq!(m, "hello \"world");
    let mut m = String::from("x");
    record_field(&mut m, "message", "\"\"\"");
    assert_eq!(m, "x");
    record_field(&mut m, "message", "plain");
    assert_eq!(m, "xplain");
    for s in ["\"a\"", "\"\"", "", "a\"b", "\"x"] {
        let mut t = String::new();
        record_field(&mut t, "message", s);
        assert_eq!(t, s.trim_matches('"'));
    }
}

#[test]
fn stats_answer() {
    let mut s = CacheStats::default();
    s.hits = 4;
    let r = stats_response(s);
    assert_eq!(r.status, "Aktif");
    assert_eq!(r.stats.hits, 4);
}

#[test]
fn rejection_answers() {
    let r = rejection_reply(Rejection::NotFound);
    assert_eq!((r.code, r.message.as_str()), (404, "NOT_FOUND"));
    let r = rejection_reply(Rejection::Custom("disk busy".to_string()));
    assert_eq!((r.code, r.message.as_str()), (500, "disk busy"));
    let r = rejection_reply(Rejection::Unhandled("MethodNotAllowed".to_string()));
    assert_eq!((r.code, r.message.as_str()), (500, "UNHANDLED_REJECTION: MethodNotAllowed"));
}
