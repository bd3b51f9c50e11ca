//! Proxy configuration and the small closed policy enumerations, each with
//! its fixed wire shape in the capability document.

use crate::value::{jwf, obj_set, JsonValue, SpecJson};
use vstd::prelude::*;

verus! {

/// Proxy configuration: exactly one variant is active at a time. No
/// cross-field validation is performed; construction is the caller's
/// responsibility.
#[derive(Debug, Clone)]
pub enum Proxy {
    Direct,
    Manual {
        ftp_proxy: Option<String>,
        http_proxy: Option<String>,
        ssl_proxy: Option<String>,
        socks_proxy: Option<String>,
        socks_username: Option<String>,
        socks_password: Option<String>,
        no_proxy: Option<String>,
    },
    AutoConfig { url: String },
    AutoDetect,
    System,
}

/// One optional sub-field of a manual proxy: bound under its camelCase key
/// when set, omitted when unset.
pub open spec fn spec_manual_field(
    m: Map<Seq<char>, SpecJson>,
    k: Seq<char>,
    f: Option<String>,
) -> Map<Seq<char>, SpecJson> {
    match f {
        Some(s) => m.insert(k, SpecJson::Str(s@)),
        None => m,
    }
}

/// The wire shape of a proxy: an object with the discriminant field
/// `proxyType` plus the variant's own fields.
pub open spec fn proxy_wire(p: Proxy) -> SpecJson {
    match p {
        Proxy::Direct => SpecJson::Obj(
            Map::empty().insert("proxyType"@, SpecJson::Str("direct"@)),
        ),
        Proxy::Manual {
            ftp_proxy,
            http_proxy,
            ssl_proxy,
            socks_proxy,
            socks_username,
            socks_password,
            no_proxy,
        } => SpecJson::Obj(
            spec_manual_field(
                spec_manual_field(
                    spec_manual_field(
                        spec_manual_field(
                            spec_manual_field(
                                spec_manual_field(
                                    spec_manual_field(
                                        Map::empty().insert("proxyType"@, SpecJson::Str("manual"@)),
                                        "ftpProxy"@,
                                        ftp_proxy,
                                    ),
                                    "httpProxy"@,
                                    http_proxy,
                                ),
                                "sslProxy"@,
                                ssl_proxy,
                            ),
                            "socksProxy"@,
                            socks_proxy,
                        ),
                        "socksUsername"@,
                        socks_username,
                    ),
                    "socksPassword"@,
                    socks_password,
                ),
                "noProxy"@,
                no_proxy,
            ),
        ),
        Proxy::AutoConfig { url } => SpecJson::Obj(
            Map::empty().insert("proxyType"@, SpecJson::Str("pac"@)).insert(
                "proxyAutoconfigUrl"@,
                SpecJson::Str(url@),
            ),
        ),
        Proxy::AutoDetect => SpecJson::Obj(
            Map::empty().insert("proxyType"@, SpecJson::Str("autodetect"@)),
        ),
        Proxy::System => SpecJson::Obj(
            Map::empty().insert("proxyType"@, SpecJson::Str("system"@)),
        ),
    }
}

impl Proxy {
    /// The proxy as a capability document value, in its fixed wire shape.
    pub fn to_json(&self) -> (r: JsonValue)
        ensures
            r@ == proxy_wire(*self),
            jwf(r),
    {
        match self {
            Proxy::Direct => {
                let mut es: Vec<(String, JsonValue)> = Vec::new();
                obj_set(&mut es, "proxyType".to_owned(), JsonValue::Str("direct".to_owned()));
                JsonValue::Object(es)
            },
            Proxy::Manual {
                ftp_proxy,
                http_proxy,
                ssl_proxy,
                socks_proxy,
                socks_username,
                socks_password,
                no_proxy,
            } => {
                let mut es: Vec<(String, JsonValue)> = Vec::new();
                obj_set(&mut es, "proxyType".to_owned(), JsonValue::Str("manual".to_owned()));
                if let Some(s) = ftp_proxy {
                    obj_set(&mut es, "ftpProxy".to_owned(), JsonValue::Str(s.clone()));
                }
                if let Some(s) = http_proxy {
                    obj_set(&mut es, "httpProxy".to_owned(), JsonValue::Str(s.clone()));
                }
                if let Some(s) = ssl_proxy {
                    obj_set(&mut es, "sslProxy".to_owned(), JsonValue::Str(s.clone()));
                }
                if let Some(s) = socks_proxy {
                    obj_set(&mut es, "socksProxy".to_owned(), JsonValue::Str(s.clone()));
                }
                if let Some(s) = socks_username {
                    obj_set(&mut es, "socksUsername".to_owned(), JsonValue::Str(s.clone()));
                }
                if let Some(s) = socks_password {
                    obj_set(&mut es, "socksPassword".to_owned(), JsonValue::Str(s.clone()));
                }
                if let Some(s) = no_proxy {
                    obj_set(&mut es, "noProxy".to_owned(), JsonValue::Str(s.clone()));
                }
                JsonValue::Object(es)
            },
            Proxy::AutoConfig { url } => {
                let mut es: Vec<(String, JsonValue)> = Vec::new();
                obj_set(&mut es, "proxyType".to_owned(), JsonValue::Str("pac".to_owned()));
                obj_set(&mut es, "proxyAutoconfigUrl".to_owned(), JsonValue::Str(url.clone()));
                JsonValue::Object(es)
            },
            Proxy::AutoDetect => {
                let mut es: Vec<(String, JsonValue)> = Vec::new();
                obj_set(&mut es, "proxyType".to_owned(), JsonValue::Str("autodetect".to_owned()));
                JsonValue::Object(es)
            },
            Proxy::System => {
                let mut es: Vec<(String, JsonValue)> = Vec::new();
                obj_set(&mut es, "proxyType".to_owned(), JsonValue::Str("system".to_owned()));
                JsonValue::Object(es)
            },
        }
    }
}

/// What to do when an unexpected alert is encountered.
#[derive(Debug, Clone, Copy)]
pub enum AlertBehaviour {
    Accept,
    Dismiss,
    Ignore,
}

impl AlertBehaviour {
    /// The fixed lowercase wire string of this policy.
    pub open spec fn wire(self) -> Seq<char> {
        match self {
            AlertBehaviour::Accept => "accept"@,
            AlertBehaviour::Dismiss => "dismiss"@,
            AlertBehaviour::Ignore => "ignore"@,
        }
    }

    /// The policy as a capability document value.
    pub fn to_json(&self) -> (r: JsonValue)
        ensures
            r@ == SpecJson::Str(self.wire()),
            jwf(r),
    {
        match self {
            AlertBehaviour::Accept => JsonValue::Str("accept".to_owned()),
            AlertBehaviour::Dismiss => JsonValue::Str("dismiss".to_owned()),
            AlertBehaviour::Ignore => JsonValue::Str("ignore".to_owned()),
        }
    }
}

/// Whether elements are scrolled to align with the top or the bottom of the
/// viewport before interaction.
#[derive(Debug, Clone, Copy)]
pub enum ScrollBehaviour {
    Top,
    Bottom,
}

impl ScrollBehaviour {
    /// The fixed integer wire value of this alignment: top is 0, bottom is 1.
    pub open spec fn wire(self) -> int {
        match self {
            ScrollBehaviour::Top => 0,
            ScrollBehaviour::Bottom => 1,
        }
    }

    /// The alignment as a capability document value.
    pub fn to_json(&self) -> (r: JsonValue)
        ensures
            r@ == SpecJson::Int(self.wire()),
            jwf(r),
    {
        match self {
            ScrollBehaviour::Top => JsonValue::Int(0),
            ScrollBehaviour::Bottom => JsonValue::Int(1),
        }
    }
}

/// How long page navigation waits for loading to settle.
#[derive(Debug, Clone, Copy)]
pub enum PageLoadStrategy {
    /// Wait for full page loading (the default).
    Normal,
    /// Wait until the html content is downloaded and parsed.
    Eager,
    /// Return as soon as the initial page content is fully received.
    NoWait,
}

impl PageLoadStrategy {
    /// The fixed lowercase wire string of this strategy.
    pub open spec fn wire(self) -> Seq<char> {
        match self {
            PageLoadStrategy::Normal => "normal"@,
            PageLoadStrategy::Eager => "eager"@,
            PageLoadStrategy::NoWait => "none"@,
        }
    }

    /// The strategy as a capability document value.
    pub fn to_json(&self) -> (r: JsonValue)
        ensures
            r@ == SpecJson::Str(self.wire()),
            jwf(r),
    {
        match self {
            PageLoadStrategy::Normal => JsonValue::Str("normal".to_owned()),
            PageLoadStrategy::Eager => JsonValue::Str("eager".to_owned()),
            PageLoadStrategy::NoWait => JsonValue::Str("none".to_owned()),
        }
    }
}

} // verus!
