use oswatch::channels::WebhookChannel;
use oswatch::config::DSLRule;
use oswatch::config::Rule;
use oswatch::config::RuleError;
use oswatch::notifier::escape_backslashes;
use oswatch::notifier::Notifier;
use oswatch::watcher::Document;

fn webhook(url: &str, message: &str) -> WebhookChannel {
    WebhookChannel {
        url: url.to_string(),
        message: message.to_string(),
        headers: None,
    }
}

fn rule(channels: Vec<(&str, &str)>) -> DSLRule {
    let r = Rule {
        name: "r1".to_string(),
        query: "{\"query\":{\"match_all\":{}}}".to_string(),
        channels: channels
            .into_iter()
            .map(|(k, v)| (k.to_string(), v.to_string()))
            .collect(),
    };
    DSLRule::try_from(&r).unwrap()
}

fn doc(payload: &str) -> Document {
    Document {
        timestamp: 0,
        payload: payload.to_string(),
    }
}

#[test]
fn escape_doubles_backslashes() {
    assert_eq!(escape_backslashes("a\\b"), "a\\\\b");
    assert_eq!(escape_backslashes("\\\\"), "\\\\\\\\");
    assert_eq!(escape_backslashes("no slash"), "no slash");
    assert_eq!(escape_backslashes(""), "");
}

#[test]
fn fan_out_notifies_both_channels_once() {
    // A rule bound to channels a and b, one new document: both receive
    // exactly one POST with the same rendered message.
    let n = Notifier::new(vec![
        ("a".to_string(), webhook("http://a.test/", "Hello {{name}}")),
        ("b".to_string(), webhook("http://b.test/", "Hello {{name}}")),
    ]);
    let (out, failed) = n.prepare(&rule(vec![("a", ""), ("b", "")]), &doc("{\"name\":\"World\"}"));
    assert!(failed.is_empty());
    assert_eq!(out.len(), 2);
    assert_eq!(out[0].channel, "a");
    assert_eq!(out[0].post.url, "http://a.test/");
    assert_eq!(out[0].post.body, "Hello World");
    assert_eq!(out[1].channel, "b");
    assert_eq!(out[1].post.url, "http://b.test/");
    assert_eq!(out[1].post.body, "Hello World");
}

#[test]
fn missing_binding_is_skipped() {
    let n = Notifier::new(vec![("a".to_string(), webhook("http://a.test/", "m"))]);
    let (out, failed) = n.prepare(
        &rule(vec![("nowhere", ""), ("a", "")]),
        &doc("{\"name\":\"x\"}"),
    );
    assert_eq!(out.len(), 1);
    assert_eq!(out[0].channel, "a");
    // A missing binding is silently skipped: it is no render failure.
    assert!(failed.is_empty());
}

#[test]
fn render_failure_does_not_block_other_channels() {
    // Channel a's template fails to render; b is still notified.
    let n = Notifier::new(vec![
        ("a".to_string(), webhook("http://a.test/", "{{#broken}}")),
        ("b".to_string(), webhook("http://b.test/", "ok {{name}}")),
    ]);
    let (out, failed) = n.prepare(&rule(vec![("a", ""), ("b", "")]), &doc("{\"name\":\"x\"}"));
    assert_eq!(out.len(), 1);
    assert_eq!(out[0].channel, "b");
    assert_eq!(out[0].post.body, "ok x");
    // The failing channel is reported by name, so the caller can log it.
    assert_eq!(failed, vec!["a".to_string()]);
}

#[test]
fn rendered_message_has_backslashes_escaped() {
    // The document's field value holds one backslash; the delivered body
    // holds two.
    let n = Notifier::new(vec![("a".to_string(), webhook("http://a.test/", "{{v}}"))]);
    let (out, failed) = n.prepare(&rule(vec![("a", "")]), &doc("{\"v\":\"x\\\\y\"}"));
    assert!(failed.is_empty());
    assert_eq!(out.len(), 1);
    assert_eq!(out[0].post.body, "x\\\\y");
}

#[test]
fn dsl_rule_keeps_name_and_channels() {
    let r = Rule {
        name: "alerts".to_string(),
        query: "{\"match\":{}}".to_string(),
        channels: vec![("a".to_string(), "custom".to_string())],
    };
    let d = DSLRule::try_from(&r).unwrap();
    assert_eq!(d.name, "alerts");
    assert_eq!(d.channels, vec![("a".to_string(), "custom".to_string())]);
    assert!(d.query.get("match").is_some());
}

#[test]
fn dsl_rule_rejects_bad_query_text() {
    let r = Rule {
        name: "alerts".to_string(),
        query: "not json".to_string(),
        channels: Vec::new(),
    };
    assert!(matches!(
        DSLRule::try_from(&r),
        Err(RuleError::QueryNotJson(_))
    ));
}
