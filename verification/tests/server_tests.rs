use zap_core::server::path_matches_ignore;
use zap_core::{inject_livereload_script, LiveServer, LiveServerConfig};

#[test]
fn script_is_injected_before_closing_body() {
    let html = "<html><body>hi</body></html>";
    let out = inject_livereload_script(html, "127.0.0.1", 3000);
    assert!(out.starts_with("<html><body>hi\n<script>"));
    assert!(out.ends_with("</body></html>"));
    assert!(out.contains("ws://127.0.0.1:3000/__livereload"));
}

#[test]
fn script_lands_before_the_last_closing_body() {
    let html = "<body>a</body><body>b</body>";
    let out = inject_livereload_script(html, "h", 1);
    assert!(out.starts_with("<body>a</body><body>b\n<script>"));
    assert!(out.ends_with("</body>"));
}

#[test]
fn script_is_appended_when_no_body_tag() {
    let out = inject_livereload_script("plain fragment", "localhost", 8080);
    assert!(out.starts_with("plain fragment\n<script>"));
    assert!(out.contains("ws://localhost:8080/__livereload"));
}

#[test]
fn ignore_patterns_match_substrings() {
    let patterns = vec![".git".to_string(), "*.tmp".to_string()];
    assert!(path_matches_ignore("/site/.git/config", &patterns));
    assert!(!path_matches_ignore("/site/page.md", &patterns));
    assert!(!path_matches_ignore("/site/a.tmp", &patterns));
    assert!(path_matches_ignore("/site/*.tmp", &patterns));
    assert!(!path_matches_ignore("/anything", &Vec::new()));
}

#[test]
fn live_server_keeps_its_configuration() {
    let server = LiveServer::new(LiveServerConfig::default());
    assert_eq!(server.config.port, 3000);
    assert_eq!(server.config.host, "127.0.0.1");
}
