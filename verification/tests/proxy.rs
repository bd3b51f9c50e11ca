use webdriver_wire::capabilities::DesiredCapabilities;
use webdriver_wire::proxy::{AlertBehaviour, PageLoadStrategy, Proxy, ScrollBehaviour};
use webdriver_wire::value::JsonValue;

fn obj(entries: Vec<(&str, JsonValue)>) -> JsonValue {
    JsonValue::Object(entries.into_iter().map(|(k, v)| (k.to_string(), v)).collect())
}

fn s(x: &str) -> JsonValue {
    JsonValue::Str(x.to_string())
}

#[test]
fn manual_proxy_with_only_http_proxy_omits_other_fields() {
    let proxy = Proxy::Manual {
        ftp_proxy: None,
        http_proxy: Some("http://127.0.0.1:8080".to_string()),
        ssl_proxy: None,
        socks_proxy: None,
        socks_username: None,
        socks_password: None,
        no_proxy: None,
    };
    let expected = obj(vec![
        ("proxyType", s("manual")),
        ("httpProxy", s("http://127.0.0.1:8080")),
    ]);
    assert_eq!(proxy.to_json(), expected);
}

#[test]
fn manual_proxy_serializes_every_set_field_in_camel_case() {
    let proxy = Proxy::Manual {
        ftp_proxy: Some("f".to_string()),
        http_proxy: Some("h".to_string()),
        ssl_proxy: Some("s".to_string()),
        socks_proxy: Some("sp".to_string()),
        socks_username: Some("u".to_string()),
        socks_password: Some("p".to_string()),
        no_proxy: Some("localhost".to_string()),
    };
    let expected = obj(vec![
        ("proxyType", s("manual")),
        ("ftpProxy", s("f")),
        ("httpProxy", s("h")),
        ("sslProxy", s("s")),
        ("socksProxy", s("sp")),
        ("socksUsername", s("u")),
        ("socksPassword", s("p")),
        ("noProxy", s("localhost")),
    ]);
    assert_eq!(proxy.to_json(), expected);
}

#[test]
fn fixed_variant_proxies_serialize_to_their_discriminant() {
    assert_eq!(Proxy::Direct.to_json(), obj(vec![("proxyType", s("direct"))]));
    assert_eq!(Proxy::AutoDetect.to_json(), obj(vec![("proxyType", s("autodetect"))]));
    assert_eq!(Proxy::System.to_json(), obj(vec![("proxyType", s("system"))]));
}

#[test]
fn autoconfig_proxy_carries_its_url() {
    let proxy = Proxy::AutoConfig { url: "http://wpad/wpad.dat".to_string() };
    let expected = obj(vec![
        ("proxyType", s("pac")),
        ("proxyAutoconfigUrl", s("http://wpad/wpad.dat")),
    ]);
    assert_eq!(proxy.to_json(), expected);
}

#[test]
fn alert_behaviour_serializes_lowercase() {
    assert_eq!(AlertBehaviour::Accept.to_json(), s("accept"));
    assert_eq!(AlertBehaviour::Dismiss.to_json(), s("dismiss"));
    assert_eq!(AlertBehaviour::Ignore.to_json(), s("ignore"));
}

#[test]
fn scroll_behaviour_serializes_to_integers() {
    assert_eq!(ScrollBehaviour::Top.to_json(), JsonValue::Int(0));
    assert_eq!(ScrollBehaviour::Bottom.to_json(), JsonValue::Int(1));
}

#[test]
fn page_load_strategy_serializes_lowercase() {
    assert_eq!(PageLoadStrategy::Normal.to_json(), s("normal"));
    assert_eq!(PageLoadStrategy::Eager.to_json(), s("eager"));
    assert_eq!(PageLoadStrategy::NoWait.to_json(), s("none"));
}

#[test]
fn set_proxy_writes_the_proxy_wire_shape() {
    let mut caps = DesiredCapabilities::new(obj(vec![]));
    caps.set_proxy(Proxy::Direct).unwrap();
    assert_eq!(caps.get(), &obj(vec![("proxy", obj(vec![("proxyType", s("direct"))]))]));
}

#[test]
fn policy_setters_write_their_wire_values() {
    let mut caps = DesiredCapabilities::new(obj(vec![]));
    caps.set_unexpected_alert_behaviour(AlertBehaviour::Dismiss).unwrap();
    caps.set_element_scroll_behaviour(ScrollBehaviour::Bottom).unwrap();
    let expected = obj(vec![
        ("unexpectedAlertBehaviour", s("dismiss")),
        ("elementScrollBehavior", JsonValue::Int(1)),
    ]);
    assert_eq!(caps.get(), &expected);
}
