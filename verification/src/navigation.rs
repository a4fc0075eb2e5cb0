//! Which pages may load in the app's windows, and which windows may use the
//! Codex bridges: the Tauri scheme and the loopback origin of the dsh web
//! child stay in-app; the bridges check the window and its origin.
use vstd::prelude::*;

use crate::json::opt_chars;
use crate::text::str_eq;

verus! {

broadcast use vstd::string::group_string_axioms;

/// The origin of a URL: a (scheme, host, port) tuple for the special network
/// schemes, otherwise opaque (equal to no other origin).
#[derive(Debug)]
pub enum UrlOrigin {
    Opaque,
    Tuple(String, String, u16),
}

/// What the logic reads of a URL.
#[derive(Debug)]
pub struct UrlParts {
    pub scheme: String,
    pub host: Option<String>,
    pub origin: UrlOrigin,
}

/// An origin as plain values (`None` for an opaque one).
pub open spec fn origin_view(o: UrlOrigin) -> Option<(Seq<char>, Seq<char>, u16)> {
    match o {
        UrlOrigin::Opaque => None,
        UrlOrigin::Tuple(s, h, p) => Some((s@, h@, p)),
    }
}

/// What `url::Url::parse` makes of a text: its scheme, its host (as
/// `host_str` gives it) and its origin (`None` when opaque); `None` when the
/// text is not a URL.
pub uninterp spec fn url_parse(text: Seq<char>) -> Option<
    (Seq<char>, Option<Seq<char>>, Option<(Seq<char>, Seq<char>, u16)>),
>;

/// `url::Url::parse` with `scheme`, `host_str` and `origin` of the result
/// (the host of a tuple origin written as `Host` displays it), as named by
/// `url_parse`.
#[verifier::external_body]
fn parse_url(text: &str) -> (r: Option<UrlParts>)
    ensures
        match r {
            Some(u) => url_parse(text@) == Some((u.scheme@, opt_chars(u.host), origin_view(u.origin))),
            None => url_parse(text@) is None,
        },
{
    let u = match url::Url::parse(text) {
        Ok(u) => u,
        Err(_) => return None,
    };
    let origin = match u.origin() {
        url::Origin::Tuple(s, h, p) => UrlOrigin::Tuple(s, h.to_string(), p),
        url::Origin::Opaque(_) => UrlOrigin::Opaque,
    };
    Some(UrlParts { scheme: u.scheme().to_string(), host: u.host_str().map(str::to_string), origin })
}

/// The origin of a URL text (`None` when it does not parse or is opaque).
pub open spec fn parsed_origin(text: Seq<char>) -> Option<(Seq<char>, Seq<char>, u16)> {
    match url_parse(text) {
        Some((_, _, origin)) => origin,
        None => None,
    }
}

/// Whether a URL text is one of the bundled pages of the app.
pub open spec fn bundled_page(text: Seq<char>) -> bool {
    match url_parse(text) {
        Some((scheme, host, _)) => scheme == "tauri"@ || (scheme == "http"@ && host == Some(
            "tauri.localhost"@,
        )),
        None => false,
    }
}

/// Whether a parsed URL may load inside the app: the Tauri scheme, or http(s)
/// on the loopback host.
pub open spec fn allowed_in_app(scheme: Seq<char>, host: Option<Seq<char>>) -> bool {
    ||| scheme == "tauri"@
    ||| (scheme == "http"@ || scheme == "https"@) && (host == Some("127.0.0.1"@) || host == Some(
        "localhost"@,
    ))
}

/// Whether a URL may load inside the app webview; anything else opens in
/// the system browser.
pub fn is_allowed_navigation(url: &str) -> (r: bool)
    ensures
        r == match url_parse(url@) {
            Some((scheme, host, _)) => allowed_in_app(scheme, host),
            None => false,
        },
{
    let parts = match parse_url(url) {
        Some(p) => p,
        None => return false,
    };
    let scheme = parts.scheme.as_str();
    if str_eq(scheme, "tauri") {
        return true;
    }
    if str_eq(scheme, "http") || str_eq(scheme, "https") {
        return match &parts.host {
            Some(h) => str_eq(h.as_str(), "127.0.0.1") || str_eq(h.as_str(), "localhost"),
            None => false,
        };
    }
    false
}

/// Whether a URL that may not load in-app is handed to the system browser:
/// only http(s) URLs are.
pub fn opens_externally(url: &str) -> (r: bool)
    ensures
        r == match url_parse(url@) {
            Some((scheme, _, _)) => scheme == "http"@ || scheme == "https"@,
            None => false,
        },
{
    match parse_url(url) {
        Some(p) => str_eq(p.scheme.as_str(), "http") || str_eq(p.scheme.as_str(), "https"),
        None => false,
    }
}

/// Two parsed origins are the same: equal tuples (an opaque origin equals
/// no other).
pub open spec fn same_origin(
    a: Option<(Seq<char>, Seq<char>, u16)>,
    b: Option<(Seq<char>, Seq<char>, u16)>,
) -> bool {
    a is Some && a == b
}

/// Why the session bridge refuses a window, if it does: it is not the main
/// window, the harness has no URL yet or an invalid one, the window's URL is
/// unknown, or its origin differs.
pub open spec fn session_bridge_problem(
    label: Seq<char>,
    expected: Option<Seq<char>>,
    current: Option<Seq<char>>,
) -> Option<Seq<char>> {
    if label != "main"@ {
        Some("Codex session bridge is only available to the main dsh window"@)
    } else if expected is None {
        Some("DeepSeek Harness is not ready"@)
    } else if url_parse(expected->0) is None {
        Some("Invalid dsh origin"@)
    } else if current is None || url_parse(current->0) is None {
        Some("Unable to verify dsh origin"@)
    } else if !same_origin(parsed_origin(current->0), parsed_origin(expected->0)) {
        Some("Codex session bridge rejected an untrusted web origin"@)
    } else {
        None
    }
}

/// Admits the main dsh window to the Codex session bridge when it shows the
/// harness's origin. `expected` is the harness URL, `current` the window's.
pub fn authorize_session_bridge(label: &str, expected: Option<&str>, current: Option<&str>) -> (r:
    Result<(), String>)
    ensures
        match r {
            Ok(_) => session_bridge_problem(
                label@,
                crate::json::opt_str_chars(expected),
                crate::json::opt_str_chars(current),
            ) is None,
            Err(e) => session_bridge_problem(
                label@,
                crate::json::opt_str_chars(expected),
                crate::json::opt_str_chars(current),
            ) == Some(e@),
        },
{
    if !str_eq(label, "main") {
        return Err("Codex session bridge is only available to the main dsh window".to_string());
    }
    let expected = match expected {
        Some(e) => e,
        None => return Err("DeepSeek Harness is not ready".to_string()),
    };
    let expected = match parse_url(expected) {
        Some(u) => u,
        None => return Err("Invalid dsh origin".to_string()),
    };
    let current = match current {
        Some(c) => match parse_url(c) {
            Some(u) => u,
            None => return Err("Unable to verify dsh origin".to_string()),
        },
        None => return Err("Unable to verify dsh origin".to_string()),
    };
    let same = match (&current.origin, &expected.origin) {
        (UrlOrigin::Tuple(s1, h1, p1), UrlOrigin::Tuple(s2, h2, p2)) => str_eq(s1.as_str(), s2.as_str())
            && str_eq(h1.as_str(), h2.as_str()) && *p1 == *p2,
        _ => false,
    };
    if !same {
        return Err("Codex session bridge rejected an untrusted web origin".to_string());
    }
    Ok(())
}

/// Why the control bridge refuses a window, if it does: the settings window
/// must show the bundled pages; any other window must pass the session
/// bridge.
pub open spec fn control_bridge_problem(
    label: Seq<char>,
    expected: Option<Seq<char>>,
    current: Option<Seq<char>>,
) -> Option<Seq<char>> {
    if current is None {
        Some("Unable to verify window origin"@)
    } else if label == "settings"@ {
        if bundled_page(current->0) {
            None
        } else {
            Some("Codex control bridge rejected an untrusted settings origin"@)
        }
    } else {
        session_bridge_problem(label, expected, current)
    }
}

/// Admits a window to the Codex control bridge: the settings window with the
/// bundled pages, or the main window as the session bridge admits it.
/// `current` is the window's URL, `None` when it cannot be read.
pub fn authorize_control_bridge(label: &str, expected: Option<&str>, current: Option<&str>) -> (r:
    Result<(), String>)
    ensures
        match r {
            Ok(_) => control_bridge_problem(
                label@,
                crate::json::opt_str_chars(expected),
                crate::json::opt_str_chars(current),
            ) is None,
            Err(e) => control_bridge_problem(
                label@,
                crate::json::opt_str_chars(expected),
                crate::json::opt_str_chars(current),
            ) == Some(e@),
        },
{
    let url = match current {
        Some(c) => c,
        None => return Err("Unable to verify window origin".to_string()),
    };
    if str_eq(label, "settings") {
        let bundled = match parse_url(url) {
            Some(u) => str_eq(u.scheme.as_str(), "tauri") || (str_eq(u.scheme.as_str(), "http")
                && match &u.host {
                Some(h) => str_eq(h.as_str(), "tauri.localhost"),
                None => false,
            }),
            None => false,
        };
        if bundled {
            return Ok(());
        }
        return Err("Codex control bridge rejected an untrusted settings origin".to_string());
    }
    authorize_session_bridge(label, expected, current)
}

} // verus!
