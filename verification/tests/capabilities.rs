use webdriver_wire::capabilities::{make_w3c_caps, DesiredCapabilities};
use webdriver_wire::value::JsonValue;

fn obj(entries: Vec<(&str, JsonValue)>) -> JsonValue {
    JsonValue::Object(entries.into_iter().map(|(k, v)| (k.to_string(), v)).collect())
}

fn s(x: &str) -> JsonValue {
    JsonValue::Str(x.to_string())
}

fn envelope(always_match: JsonValue) -> JsonValue {
    obj(vec![
        ("firstMatch", JsonValue::Array(vec![obj(vec![])])),
        ("alwaysMatch", always_match),
    ])
}

#[test]
fn w3c_conversion_translates_legacy_and_keeps_standard_keys() {
    let input = obj(vec![("version", s("99")), ("platformName", s("LINUX"))]);
    let out = make_w3c_caps(&input);
    let expected = envelope(obj(vec![("browserVersion", s("99")), ("platformName", s("LINUX"))]));
    assert_eq!(out, expected);
}

#[test]
fn w3c_conversion_passes_vendor_keys_through() {
    let input = obj(vec![("moz:firefoxOptions", obj(vec![("args", JsonValue::Array(vec![]))]))]);
    let out = make_w3c_caps(&input);
    let expected = envelope(obj(vec![(
        "moz:firefoxOptions",
        obj(vec![("args", JsonValue::Array(vec![]))]),
    )]));
    assert_eq!(out, expected);
}

#[test]
fn w3c_conversion_drops_null_values() {
    let input = obj(vec![("browserName", JsonValue::Null)]);
    let out = make_w3c_caps(&input);
    assert_eq!(out, envelope(obj(vec![])));
}

#[test]
fn w3c_conversion_drops_unknown_keys() {
    let input = obj(vec![("unknownThing", JsonValue::Int(1))]);
    let out = make_w3c_caps(&input);
    assert_eq!(out, envelope(obj(vec![])));
}

#[test]
fn w3c_envelope_always_has_single_empty_first_match() {
    for input in [
        obj(vec![]),
        JsonValue::Null,
        JsonValue::Int(7),
        obj(vec![("browserName", s("firefox")), ("weird", JsonValue::Bool(true))]),
    ] {
        let out = make_w3c_caps(&input);
        match out {
            JsonValue::Object(entries) => {
                let first = entries
                    .iter()
                    .find(|(k, _)| k.as_str() == "firstMatch")
                    .map(|(_, v)| v.clone())
                    .expect("firstMatch missing");
                assert_eq!(first, JsonValue::Array(vec![obj(vec![])]));
            }
            other => panic!("envelope is not an object: {:?}", other),
        }
    }
}

#[test]
fn w3c_conversion_converts_accept_ssl_certs() {
    let input = obj(vec![("acceptSslCerts", JsonValue::Bool(true)), ("platform", s("mac"))]);
    let out = make_w3c_caps(&input);
    let expected = envelope(obj(vec![
        ("acceptInsecureCerts", JsonValue::Bool(true)),
        ("platformName", s("mac")),
    ]));
    assert_eq!(out, expected);
}

#[test]
fn update_merges_nested_objects_recursively() {
    let mut caps = DesiredCapabilities::new(obj(vec![(
        "timeouts",
        obj(vec![("pageLoad", JsonValue::Int(300000))]),
    )]));
    caps.update(obj(vec![("timeouts", obj(vec![("implicit", JsonValue::Int(0))]))]));
    let expected = obj(vec![(
        "timeouts",
        obj(vec![("pageLoad", JsonValue::Int(300000)), ("implicit", JsonValue::Int(0))]),
    )]);
    assert_eq!(caps.get(), &expected);
}

#[test]
fn update_twice_with_same_document_equals_once() {
    let base = obj(vec![
        ("browserName", s("firefox")),
        ("timeouts", obj(vec![("pageLoad", JsonValue::Int(300000))])),
    ]);
    let incoming = obj(vec![
        ("timeouts", obj(vec![("implicit", JsonValue::Int(0))])),
        ("version", s("99")),
    ]);
    let mut once = DesiredCapabilities::new(base.clone());
    once.update(incoming.clone());
    let mut twice = DesiredCapabilities::new(base);
    twice.update(incoming.clone());
    twice.update(incoming);
    assert_eq!(once.get(), twice.get());
}

#[test]
fn update_replaces_non_object_values() {
    let mut caps = DesiredCapabilities::new(obj(vec![("browserName", s("firefox"))]));
    caps.update(obj(vec![("browserName", s("chrome"))]));
    assert_eq!(caps.get(), &obj(vec![("browserName", s("chrome"))]));
}

#[test]
fn add_overwrites_existing_binding() {
    let mut caps = DesiredCapabilities::new(obj(vec![]));
    caps.add("x", JsonValue::Int(1)).unwrap();
    caps.add("x", JsonValue::Int(2)).unwrap();
    assert_eq!(caps.get(), &obj(vec![("x", JsonValue::Int(2))]));
}

#[test]
fn add_subkey_creates_missing_nested_document() {
    let mut caps = DesiredCapabilities::new(obj(vec![]));
    caps.add_subkey("goog:chromeOptions", "debuggerAddress", s("localhost:9222")).unwrap();
    let expected = obj(vec![(
        "goog:chromeOptions",
        obj(vec![("debuggerAddress", s("localhost:9222"))]),
    )]);
    assert_eq!(caps.get(), &expected);
}

#[test]
fn add_subkey_extends_existing_nested_document() {
    let mut caps = DesiredCapabilities::new(obj(vec![(
        "goog:chromeOptions",
        obj(vec![("w3c", JsonValue::Bool(true))]),
    )]));
    caps.add_subkey("goog:chromeOptions", "debuggerAddress", s("localhost:9222")).unwrap();
    let expected = obj(vec![(
        "goog:chromeOptions",
        obj(vec![("w3c", JsonValue::Bool(true)), ("debuggerAddress", s("localhost:9222"))]),
    )]);
    assert_eq!(caps.get(), &expected);
}

#[test]
fn add_subkey_replaces_null_with_fresh_nested_document() {
    let mut caps = DesiredCapabilities::new(obj(vec![("opts", JsonValue::Null)]));
    caps.add_subkey("opts", "a", JsonValue::Int(3)).unwrap();
    assert_eq!(caps.get(), &obj(vec![("opts", obj(vec![("a", JsonValue::Int(3))]))]));
}

#[test]
fn setters_write_their_legacy_keys() {
    let mut caps = DesiredCapabilities::new(obj(vec![]));
    caps.set_version("99").unwrap();
    caps.set_platform("linux").unwrap();
    caps.set_javascript_enabled(true).unwrap();
    caps.accept_ssl_certs(false).unwrap();
    let expected = obj(vec![
        ("version", s("99")),
        ("platform", s("linux")),
        ("javascriptEnabled", JsonValue::Bool(true)),
        ("acceptSslCerts", JsonValue::Bool(false)),
    ]);
    assert_eq!(caps.get(), &expected);
}

#[test]
fn legacy_setters_reach_the_envelope_converted() {
    let mut caps = DesiredCapabilities::new(obj(vec![]));
    caps.set_version("103.0").unwrap();
    caps.accept_ssl_certs(true).unwrap();
    let env = make_w3c_caps(caps.get());
    let expected = envelope(obj(vec![
        ("browserVersion", s("103.0")),
        ("acceptInsecureCerts", JsonValue::Bool(true)),
    ]));
    assert_eq!(env, expected);
}

#[test]
fn boolean_read_accessors_report_only_boolean_values() {
    let caps = DesiredCapabilities::new(obj(vec![
        ("handlesAlerts", JsonValue::Bool(true)),
        ("cssSelectorsEnabled", s("yes")),
    ]));
    assert_eq!(caps.handles_alerts(), Some(true));
    assert_eq!(caps.css_selectors_enabled(), None);

    let empty = DesiredCapabilities::new(obj(vec![]));
    assert_eq!(empty.handles_alerts(), None);
}
