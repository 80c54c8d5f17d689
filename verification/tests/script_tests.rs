use tera_shortcodes::fetch_shortcode_js;
use tera_shortcodes::script::render_fetch_fragment;

const PRODUCTS_URL: &str = "http://127.0.0.1:8080/products?limit=4";
const DATA_URL: &str = "http://127.0.0.1:8080/data";

const GET_PLAIN: &str = r##"<script>
(function () {
    async function fetchShortcodeData() {
        try {
            const response = await fetch("http://127.0.0.1:8080/products?limit=4");
            if (!response.ok) {
                throw new Error(`HTTP error! Status: ${response.status}`);
            }
            return await response.text();
        } catch (error) {
            console.error("Fetch failed:", error);
            return "";
        }
    }
    function reScript(helper) {
        for (const node of helper.childNodes) {
            if (node.hasChildNodes()) {
                reScript(node);
            }
            if (node.nodeName === 'SCRIPT') {
                const script = document.createElement('script');
                script.type = "text/javascript";
                script.textContent = node.textContent;
                node.replaceWith(script);
            }
        }
    }
    (async () => {
        const currentScript = document.currentScript;
        const content = await fetchShortcodeData();
        // console.log(content);
        const helper = document.createElement('div');
        helper.id = 'helper';
        helper.innerHTML = content;
        reScript(helper);
        currentScript.after(...helper.childNodes);
        currentScript.remove();
    })();
})();
</script>"##;

const GET_WITH_ALT: &str = r##"<script>
(function () {
    async function fetchShortcodeData() {
        try {
            const response = await fetch("http://127.0.0.1:8080/products?limit=4");
            if (!response.ok) {
                throw new Error(`HTTP error! Status: ${response.status}`);
            }
            return await response.text();
        } catch (error) {
            console.error("Fetch failed:", error);
            return "";
        }
    }
    function reScript(helper) {
        for (const node of helper.childNodes) {
            if (node.hasChildNodes()) {
                reScript(node);
            }
            if (node.nodeName === 'SCRIPT') {
                const script = document.createElement('script');
                script.type = "text/javascript";
                script.textContent = node.textContent;
                node.replaceWith(script);
            }
        }
    }
    (async () => {
        const currentScript = document.currentScript;
        const content = await fetchShortcodeData();
        // console.log(content);
        const helper = document.createElement('div');
        helper.id = 'helper';
        helper.innerHTML = content;
        reScript(helper);
        currentScript.after(...helper.childNodes);
        currentScript.remove();
    })();
})();
</script><noscript><a href="http://127.0.0.1:8080/products?limit=4">Products</a></noscript>"##;

const POST_WITH_BODY: &str = r##"<script>
(function () {
    async function fetchShortcodeData() {
        try {
            
const request = new Request("http://127.0.0.1:8080/data", {
    headers: (() => {
        const headers = new Headers();
        headers.append("Content-Type", "application/json");
        return headers;
    })(),
    method: "POST",
    body: JSON.stringify({"foo":"1"}),
});
const response = await fetch(request);
            if (!response.ok) {
                throw new Error(`HTTP error! Status: ${response.status}`);
            }
            return await response.text();
        } catch (error) {
            console.error("Fetch failed:", error);
            return "";
        }
    }
    function reScript(helper) {
        for (const node of helper.childNodes) {
            if (node.hasChildNodes()) {
                reScript(node);
            }
            if (node.nodeName === 'SCRIPT') {
                const script = document.createElement('script');
                script.type = "text/javascript";
                script.textContent = node.textContent;
                node.replaceWith(script);
            }
        }
    }
    (async () => {
        const currentScript = document.currentScript;
        const content = await fetchShortcodeData();
        // console.log(content);
        const helper = document.createElement('div');
        helper.id = 'helper';
        helper.innerHTML = content;
        reScript(helper);
        currentScript.after(...helper.childNodes);
        currentScript.remove();
    })();
})();
</script>"##;

const POST_DEFAULT_BODY: &str = r##"<script>
(function () {
    async function fetchShortcodeData() {
        try {
            
const request = new Request("http://127.0.0.1:8080/data", {
    headers: (() => {
        const headers = new Headers();
        headers.append("Content-Type", "application/json");
        return headers;
    })(),
    method: "POST",
    body: JSON.stringify({}),
});
const response = await fetch(request);
            if (!response.ok) {
                throw new Error(`HTTP error! Status: ${response.status}`);
            }
            return await response.text();
        } catch (error) {
            console.error("Fetch failed:", error);
            return "";
        }
    }
    function reScript(helper) {
        for (const node of helper.childNodes) {
            if (node.hasChildNodes()) {
                reScript(node);
            }
            if (node.nodeName === 'SCRIPT') {
                const script = document.createElement('script');
                script.type = "text/javascript";
                script.textContent = node.textContent;
                node.replaceWith(script);
            }
        }
    }
    (async () => {
        const currentScript = document.currentScript;
        const content = await fetchShortcodeData();
        // console.log(content);
        const helper = document.createElement('div');
        helper.id = 'helper';
        helper.innerHTML = content;
        reScript(helper);
        currentScript.after(...helper.childNodes);
        currentScript.remove();
    })();
})();
</script>"##;

const INVALID_PUT: &str = r##"<output style="background-color:#f44336;color:#fff;padding:6px;">
Invalid method PUT for url http://127.0.0.1:8080/data (only GET and POST methods available)
</output>"##;

#[test]
fn get_script_without_fallback() {
    assert_eq!(fetch_shortcode_js(PRODUCTS_URL, Some("get"), None, None), GET_PLAIN);
}

#[test]
fn method_defaults_to_get() {
    assert_eq!(fetch_shortcode_js(PRODUCTS_URL, None, None, None), GET_PLAIN);
}

#[test]
fn get_ignores_json_body() {
    assert_eq!(fetch_shortcode_js(PRODUCTS_URL, Some("GET"), Some("{\"a\":1}"), None), GET_PLAIN);
}

#[test]
fn get_script_with_fallback_link() {
    assert_eq!(
        fetch_shortcode_js(PRODUCTS_URL, Some("get"), None, Some("Products")),
        GET_WITH_ALT
    );
}

#[test]
fn method_is_matched_without_regard_to_case() {
    assert_eq!(fetch_shortcode_js(PRODUCTS_URL, Some("GeT"), None, Some("Products")), GET_WITH_ALT);
    assert_eq!(
        fetch_shortcode_js(DATA_URL, Some("Post"), Some("{\"foo\":\"1\"}"), None),
        POST_WITH_BODY
    );
}

#[test]
fn post_script_carries_json_body() {
    assert_eq!(
        fetch_shortcode_js(DATA_URL, Some("post"), Some("{\"foo\":\"1\"}"), None),
        POST_WITH_BODY
    );
}

#[test]
fn post_body_defaults_to_empty_object() {
    assert_eq!(fetch_shortcode_js(DATA_URL, Some("POST"), None, None), POST_DEFAULT_BODY);
}

#[test]
fn post_ignores_fallback_label() {
    assert_eq!(fetch_shortcode_js(DATA_URL, Some("post"), None, Some("Data")), POST_DEFAULT_BODY);
}

#[test]
fn unsupported_method_yields_notice_with_method_as_written() {
    assert_eq!(fetch_shortcode_js(DATA_URL, Some("PUT"), None, Some("Data")), INVALID_PUT);
}

#[test]
fn rendering_goes_by_the_lowercase_form_it_is_given() {
    assert_eq!(render_fetch_fragment(DATA_URL, "PUT", "put", "{}", None), INVALID_PUT);
    assert_eq!(render_fetch_fragment(PRODUCTS_URL, "anything", "get", "{}", None), GET_PLAIN);
    assert_eq!(render_fetch_fragment(DATA_URL, "anything", "post", "{}", None), POST_DEFAULT_BODY);
    assert_eq!(render_fetch_fragment(DATA_URL, "PUT", "GET", "{}", None), INVALID_PUT);
}
