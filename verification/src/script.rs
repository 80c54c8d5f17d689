//! Script fragments that fetch a shortcode's content in the browser.
//!
//! The generated `<script>` element requests a URL with `GET` or `POST`,
//! inserts the response after itself and removes itself. For `GET` a
//! `<noscript>` link can be added for clients without JavaScript.

use vstd::prelude::*;
use crate::text::{lowercase, str_eq, text_of, text_or};

verus! {

/// The method used when the caller names none.
pub const DEFAULT_METHOD: &'static str = "GET";

/// The JSON body used when the caller gives none.
pub const DEFAULT_JSON_BODY: &'static str = "{}";

/// The lowercase name of the `GET` method.
pub const METHOD_GET: &'static str = "get";

/// The lowercase name of the `POST` method.
pub const METHOD_POST: &'static str = "post";

/// Opens the request statement of a `GET` script.
pub const GET_REQUEST_OPEN: &'static str = r#"const response = await fetch(""#;

/// Closes the request statement of a `GET` script.
pub const GET_REQUEST_CLOSE: &'static str = r#"");"#;

/// Opens the request statement of a `POST` script; the URL follows.
pub const POST_REQUEST_OPEN: &'static str = r#"
const request = new Request(""#;

/// Stands between the URL and the JSON body of a `POST` script.
pub const POST_REQUEST_BODY: &'static str = r#"", {
    headers: (() => {
        const headers = new Headers();
        headers.append("Content-Type", "application/json");
        return headers;
    })(),
    method: "POST",
    body: JSON.stringify("#;

/// Closes the request statement of a `POST` script.
pub const POST_REQUEST_CLOSE: &'static str = r#"),
});
const response = await fetch(request);"#;

/// Opens the notice about an unsupported method; the method follows.
pub const INVALID_METHOD_OPEN: &'static str = r#"<output style="background-color:#f44336;color:#fff;padding:6px;">
Invalid method "#;

/// Stands between the method and the URL in the notice.
pub const INVALID_METHOD_URL: &'static str = r#" for url "#;

/// Closes the notice about an unsupported method.
pub const INVALID_METHOD_CLOSE: &'static str = r#" (only GET and POST methods available)
</output>"#;

/// Opens the script element; the request statement follows.
pub const SCRIPT_OPEN: &'static str = r#"<script>
(function () {
    async function fetchShortcodeData() {
        try {
            "#;

/// The rest of the script element after the request statement.
pub const SCRIPT_CLOSE: &'static str = r#"
            if (!response.ok) {
                throw new Error(`HTTP error! Status: ${response.status}`);
            }
            return await response.text();
        } catch (error) {
            console.error("Fetch failed:", error);
            return "";
        }
    }
    function reScript(helper) {
        for (const node of helper.childNodes) {
            if (node.hasChildNodes()) {
                reScript(node);
            }
            if (node.nodeName === 'SCRIPT') {
                const script = document.createElement('script');
                script.type = "text/javascript";
                script.textContent = node.textContent;
                node.replaceWith(script);
            }
        }
    }
    (async () => {
        const currentScript = document.currentScript;
        const content = await fetchShortcodeData();
        // console.log(content);
        const helper = document.createElement('div');
        helper.id = 'helper';
        helper.innerHTML = content;
        reScript(helper);
        currentScript.after(...helper.childNodes);
        currentScript.remove();
    })();
})();
</script>"#;

/// Opens the fallback link; the URL follows.
pub const NOSCRIPT_OPEN: &'static str = r#"<noscript><a href=""#;

/// Stands between the URL and the label of the fallback link.
pub const NOSCRIPT_LABEL: &'static str = r#"">"#;

/// Closes the fallback link.
pub const NOSCRIPT_CLOSE: &'static str = r#"</a></noscript>"#;

/// The statement that performs a `GET` request to `url`.
pub open spec fn get_request(url: Seq<char>) -> Seq<char> {
    GET_REQUEST_OPEN@ + url + GET_REQUEST_CLOSE@
}

/// The statements that perform a `POST` request to `url` with `json_body`.
pub open spec fn post_request(url: Seq<char>, json_body: Seq<char>) -> Seq<char> {
    POST_REQUEST_OPEN@ + url + POST_REQUEST_BODY@ + json_body + POST_REQUEST_CLOSE@
}

/// The script element around a request statement.
pub open spec fn script_element(request: Seq<char>) -> Seq<char> {
    SCRIPT_OPEN@ + request + SCRIPT_CLOSE@
}

/// The fallback link to `url` labelled `alt`.
pub open spec fn noscript_link(url: Seq<char>, alt: Seq<char>) -> Seq<char> {
    NOSCRIPT_OPEN@ + url + NOSCRIPT_LABEL@ + alt + NOSCRIPT_CLOSE@
}

/// The notice shown in place of a script when `method` is neither `GET` nor
/// `POST`.
pub open spec fn invalid_method_notice(method: Seq<char>, url: Seq<char>) -> Seq<char> {
    INVALID_METHOD_OPEN@ + method + INVALID_METHOD_URL@ + url + INVALID_METHOD_CLOSE@
}

/// The fragment for a request to `url`, where `lowered` is the lowercase form
/// of `method`: a `GET` script, followed by the fallback link if `alt` is
/// given; a `POST` script carrying `json_body`; or the notice about an
/// unsupported method, which quotes `method` as the caller wrote it.
pub open spec fn fetch_fragment(
    url: Seq<char>,
    method: Seq<char>,
    lowered: Seq<char>,
    json_body: Seq<char>,
    alt: Option<Seq<char>>,
) -> Seq<char> {
    if lowered == METHOD_GET@ {
        match alt {
            Some(label) => script_element(get_request(url)) + noscript_link(url, label),
            None => script_element(get_request(url)),
        }
    } else if lowered == METHOD_POST@ {
        script_element(post_request(url, json_body))
    } else {
        invalid_method_notice(method, url)
    }
}

fn script_around(request: String) -> (element: String)
    ensures
        element@ == script_element(request@),
{
    let mut element = String::from_str(SCRIPT_OPEN);
    element.append(request.as_str());
    element.append(SCRIPT_CLOSE);
    element
}

/// Builds the fragment for a request to `url` from a method and its lowercase
/// form.
pub fn render_fetch_fragment(
    url: &str,
    method: &str,
    lowered: &str,
    json_body: &str,
    alt: Option<&str>,
) -> (fragment: String)
    ensures
        fragment@ == fetch_fragment(url@, method@, lowered@, json_body@, text_of(alt)),
{
    if str_eq(lowered, METHOD_GET) {
        let mut request = String::from_str(GET_REQUEST_OPEN);
        request.append(url);
        request.append(GET_REQUEST_CLOSE);
        let mut fragment = script_around(request);
        match alt {
            Some(label) => {
                fragment.append(NOSCRIPT_OPEN);
                fragment.append(url);
                fragment.append(NOSCRIPT_LABEL);
                fragment.append(label);
                fragment.append(NOSCRIPT_CLOSE);
                assert(fragment@ =~= script_element(get_request(url@)) + noscript_link(
                    url@,
                    label@,
                ));
            },
            None => {},
        }
        fragment
    } else if str_eq(lowered, METHOD_POST) {
        let mut request = String::from_str(POST_REQUEST_OPEN);
        request.append(url);
        request.append(POST_REQUEST_BODY);
        request.append(json_body);
        request.append(POST_REQUEST_CLOSE);
        script_around(request)
    } else {
        let mut notice = String::from_str(INVALID_METHOD_OPEN);
        notice.append(method);
        notice.append(INVALID_METHOD_URL);
        notice.append(url);
        notice.append(INVALID_METHOD_CLOSE);
        notice
    }
}

/// Generates the fragment that fetches `url` in the browser and inserts the
/// response into the page.
///
/// `method` defaults to `GET` and is matched without regard to case;
/// `json_body` defaults to `{}` and is used by `POST` only; `alt` labels the
/// `<noscript>` link and is used by `GET` only. Any other method yields a
/// visible notice instead of a script.
pub fn fetch_shortcode_js(
    url: &str,
    method: Option<&str>,
    json_body: Option<&str>,
    alt: Option<&str>,
) -> (fragment: String)
    ensures
        fragment@ == fetch_fragment(
            url@,
            text_or(method, DEFAULT_METHOD),
            lowercase(text_or(method, DEFAULT_METHOD)),
            text_or(json_body, DEFAULT_JSON_BODY),
            text_of(alt),
        ),
{
    let method = match method {
        Some(m) => m,
        None => DEFAULT_METHOD,
    };
    let json_body = match json_body {
        Some(b) => b,
        None => DEFAULT_JSON_BODY,
    };
    let lowered = method.to_lowercase();
    render_fetch_fragment(url, method, lowered.as_str(), json_body, alt)
}

} // verus!
