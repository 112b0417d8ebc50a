//! The development server's decision core: its configuration, the
//! live-reload script injection into rendered HTML, and the ignore-pattern
//! test the file watcher applies. Serving files, watching the tree and
//! speaking websockets stay with the calling layer.
use vstd::prelude::*;
use vstd::string::StringExecFns;
use crate::text::{
    dec_chars, exec_dec_string_u64, exec_find_last, find_last, find_last_from, match_at, str_chars,
};

verus! {

/// Configuration for the live development server.
#[derive(Debug)]
pub struct LiveServerConfig {
    /// Host to bind to.
    pub host: String,
    /// Port to serve on.
    pub port: u16,
    /// Root directory to serve and watch.
    pub root: String,
    /// Whether to open the browser automatically.
    pub open: bool,
    /// Path fragments to ignore when watching.
    pub ignore: Vec<String>,
}

impl Default for LiveServerConfig {
    /// The local address on the conventional port, serving the current
    /// directory, ignoring nothing.
    fn default() -> (r: LiveServerConfig)
        ensures
            r.host@ == "127.0.0.1"@,
            r.port == 3000,
            r.root@ == "."@,
            r.open == false,
            r.ignore@.len() == 0,
    {
        LiveServerConfig {
            host: String::from_str("127.0.0.1"),
            port: 3000,
            root: String::from_str("."),
            open: false,
            ignore: Vec::new(),
        }
    }
}

/// A live-reload static file server; the calling layer runs it.
pub struct LiveServer {
    pub config: LiveServerConfig,
}

impl LiveServer {
    /// A server with the given configuration.
    pub fn new(config: LiveServerConfig) -> (r: LiveServer)
        ensures
            r.config == config,
    {
        LiveServer { config }
    }
}

/// The script that connects a served page to the reload websocket at the
/// given host and port.
pub open spec fn reload_script_of(host: Seq<char>, port: u16) -> Seq<char> {
    "\n<script>\n(function() {\n    const socket = new WebSocket('ws://"@ + host + seq![':']
        + dec_chars(port as nat)
        + "/__livereload');\n    socket.onmessage = function(event) {\n        if (event.data === 'reload') {\n            location.reload();\n        }\n    };\n    socket.onclose = function() {\n        console.log('Live reload disconnected');\n    };\n})();\n</script>\n"@
}

/// Where the script lands: immediately before the last closing body tag,
/// or appended at the end when the document has none.
pub open spec fn inject_script_spec(html: Seq<char>, host: Seq<char>, port: u16) -> Seq<char> {
    match find_last(html, "</body>"@) {
        Some(i) => html.take(i) + reload_script_of(host, port) + html.skip(i),
        None => html + reload_script_of(host, port),
    }
}

proof fn lemma_find_last_from_bounds(hay: Seq<char>, needle: Seq<char>, i: int, r: int)
    requires
        find_last_from(hay, needle, i) == Some(r),
    ensures
        match_at(hay, needle, r),
        0 <= r,
        r + needle.len() <= hay.len(),
    decreases i + 1,
{
    if i >= 0 && !match_at(hay, needle, i) {
        lemma_find_last_from_bounds(hay, needle, i - 1, r);
    }
}

/// Builds the live-reload script for the given host and port.
fn build_reload_script(host: &str, port: u16) -> (r: String)
    ensures
        r@ == reload_script_of(host@, port),
{
    let mut s = String::new();
    s.append("\n<script>\n(function() {\n    const socket = new WebSocket('ws://");
    s.append(host);
    s.append(":");
    let digits = exec_dec_string_u64(port as u64);
    s.append(digits.as_str());
    s.append(
        "/__livereload');\n    socket.onmessage = function(event) {\n        if (event.data === 'reload') {\n            location.reload();\n        }\n    };\n    socket.onclose = function() {\n        console.log('Live reload disconnected');\n    };\n})();\n</script>\n",
    );
    proof {
        reveal_strlit(":");
        assert(":"@ =~= seq![':']);
        assert(s@ =~= reload_script_of(host@, port));
    }
    s
}

/// Injects the live-reload script into a rendered HTML document, before
/// its last closing body tag or at its end.
pub fn inject_livereload_script(html: &str, host: &str, port: u16) -> (r: String)
    ensures
        r@ == inject_script_spec(html@, host@, port),
{
    let script = build_reload_script(host, port);
    let hay = str_chars(html);
    let needle = str_chars("</body>");
    match exec_find_last(&hay, &needle) {
        Some(i) => {
            proof {
                lemma_find_last_from_bounds(html@, "</body>"@, html@.len() - "</body>"@.len(),
                    i as int);
            }
            let n = html.unicode_len();
            let mut r = String::new();
            r.append(html.substring_char(0, i));
            r.append(script.as_str());
            r.append(html.substring_char(i, n));
            proof {
                assert(html@.subrange(0, i as int) =~= html@.take(i as int));
                assert(html@.subrange(i as int, html@.len() as int) =~= html@.skip(i as int));
                assert(r@ =~= inject_script_spec(html@, host@, port));
            }
            r
        },
        None => {
            let mut r = html.to_owned();
            r.append(script.as_str());
            proof {
                assert(r@ =~= inject_script_spec(html@, host@, port));
            }
            r
        },
    }
}

/// Whether a changed path falls under one of the watcher's ignore
/// fragments: true exactly when some fragment occurs in the path.
pub fn path_matches_ignore(path: &str, patterns: &Vec<String>) -> (r: bool)
    ensures
        r == exists|j: int|
            0 <= j < patterns@.len() && find_last(path@, patterns@[j]@) is Some,
{
    let hay = str_chars(path);
    let mut i: usize = 0;
    while i < patterns.len()
        invariant
            i <= patterns@.len(),
            hay@ == path@,
            forall|j: int| 0 <= j < i ==> find_last(path@, patterns@[j]@) is None,
        decreases patterns@.len() - i,
    {
        let needle = str_chars(patterns[i].as_str());
        match exec_find_last(&hay, &needle) {
            Some(_) => {
                return true;
            },
            None => {},
        }
        i = i + 1;
    }
    false
}

} // verus!
