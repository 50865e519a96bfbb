use easywifi::http::{
    content_length_from_headers, has_parent_path_component, map_path, mime_for, parse_request_line, query_param,
    request_body_bytes, request_progress, response_header_text, route_request,
    split_request_path, static_relative_path, RequestProgress, Route, ServedFile,
    MAX_REQUEST_BYTES,
};

#[test]
fn content_length_is_read_case_insensitively() {
    assert_eq!(content_length_from_headers(b"POST / HTTP/1.1\r\nContent-Length: 42\r\n\r\n"), 42);
    assert_eq!(content_length_from_headers(b"POST / HTTP/1.1\r\ncontent-LENGTH:7\r\n\r\n"), 7);
    assert_eq!(content_length_from_headers(b"GET / HTTP/1.1\r\nHost: x\r\n\r\n"), 0);
    assert_eq!(content_length_from_headers(b"POST / HTTP/1.1\r\nContent-Length: abc\r\n\r\n"), 0);
}

#[test]
fn body_follows_the_blank_line() {
    assert_eq!(request_body_bytes(b"POST / HTTP/1.1\r\nA: b\r\n\r\n{\"x\":1}"), b"{\"x\":1}".to_vec());
    assert_eq!(request_body_bytes(b"GET / HTTP/1.1\r\n"), Vec::<u8>::new());
    assert_eq!(request_body_bytes(b"GET / HTTP/1.1\r\n\r\n"), Vec::<u8>::new());
}

#[test]
fn request_progress_waits_for_the_declared_body() {
    assert_eq!(request_progress(b"GET / HTTP/1.1\r\nHost"), RequestProgress::Incomplete);
    assert_eq!(request_progress(b"GET / HTTP/1.1\r\n\r\n"), RequestProgress::Complete(18));
    let partial = b"POST /a HTTP/1.1\r\nContent-Length: 4\r\n\r\nab";
    assert_eq!(request_progress(partial), RequestProgress::Incomplete);
    let full = b"POST /a HTTP/1.1\r\nContent-Length: 4\r\n\r\nabcdEXTRA";
    assert_eq!(request_progress(full), RequestProgress::Complete(full.len() - 5));
    let big = vec![b'a'; MAX_REQUEST_BYTES + 1];
    assert_eq!(request_progress(&big), RequestProgress::TooLarge);
}

#[test]
fn request_line_and_target() {
    let (method, target) = parse_request_line(b"POST /api/scan/setup?x=1 HTTP/1.1\r\nHost: a\r\n\r\n");
    assert_eq!(method, "POST");
    assert_eq!(target, "/api/scan/setup?x=1");
    let (method, target) = parse_request_line(b"\r\n");
    assert_eq!((method.as_str(), target.as_str()), ("GET", "/"));
}

#[test]
fn path_and_query_split_at_first_question_mark() {
    assert_eq!(split_request_path("/a/b?x=1?y"), ("/a/b".to_string(), Some("x=1?y".to_string())));
    assert_eq!(split_request_path("/plain"), ("/plain".to_string(), None));
    assert_eq!(split_request_path("/empty?"), ("/empty".to_string(), Some(String::new())));
}

#[test]
fn query_parameters_by_exact_key() {
    assert_eq!(query_param(Some("name=wlan0&x=2"), "name"), Some("wlan0".to_string()));
    assert_eq!(query_param(Some("flag&name="), "flag"), Some(String::new()));
    assert_eq!(query_param(Some("name=a&name=b"), "name"), Some("a".to_string()));
    assert_eq!(query_param(Some("Name=a"), "name"), None);
    assert_eq!(query_param(None, "name"), None);
}

#[test]
fn routes_by_method_and_path() {
    assert_eq!(route_request("GET", "/api/health"), Route::Health);
    assert_eq!(route_request("GET", "/api/scan/setup"), Route::ScanSetupRead);
    assert_eq!(route_request("POST", "/api/scan/setup"), Route::ScanSetupWrite);
    assert_eq!(route_request("POST", "/api/bluetooth/enumerate"), Route::BluetoothEnumerate);
    assert_eq!(route_request("DELETE", "/api/health"), Route::MethodNotAllowed);
    assert_eq!(route_request("POST", "/index.html"), Route::MethodNotAllowed);
    assert_eq!(route_request("GET", "/index.html"), Route::StaticFile);
    assert_eq!(route_request("GET", "/api/unknown"), Route::StaticFile);
}

#[test]
fn response_header_block() {
    assert_eq!(
        response_header_text(404, "Not Found", "text/plain", 9),
        "HTTP/1.1 404 Not Found\r\nContent-Type: text/plain\r\nContent-Length: 9\r\nConnection: close\r\n\r\n"
    );
}

#[test]
fn mime_types_by_extension() {
    assert_eq!(mime_for("ui/dist/index.html"), "text/html; charset=utf-8");
    assert_eq!(mime_for("app.JS"), "application/octet-stream");
    assert_eq!(mime_for("bundle.js.map"), "application/json; charset=utf-8");
    assert_eq!(mime_for("img/photo.jpeg"), "image/jpeg");
    assert_eq!(mime_for("fonts/a.woff2"), "font/woff2");
    assert_eq!(mime_for("README"), "application/octet-stream");
    assert_eq!(mime_for(".hidden"), "application/octet-stream");
}

#[test]
fn static_paths_stay_inside_the_ui_root() {
    assert_eq!(static_relative_path("///assets/app.js"), "assets/app.js");
    assert_eq!(map_path("/", true, false, false), ServedFile::DistIndex);
    assert_eq!(map_path("/", false, false, false), ServedFile::RootIndex);
    assert_eq!(map_path("/../etc/passwd", true, true, true), ServedFile::RootIndex);
    assert_eq!(map_path("/a/../b", true, true, true), ServedFile::RootIndex);
    assert_eq!(
        map_path("/assets/app.js", true, true, true),
        ServedFile::DistFile("assets/app.js".to_string())
    );
    assert_eq!(
        map_path("/logo.png", true, false, true),
        ServedFile::RootFile("logo.png".to_string())
    );
    assert_eq!(map_path("/missing", true, false, false), ServedFile::DistIndex);
    assert_eq!(map_path("/missing", false, false, false), ServedFile::RootIndex);
}

#[test]
fn parent_components_are_found_anywhere_in_a_path() {
    assert!(has_parent_path_component("a/../b"));
    assert!(has_parent_path_component(".."));
    assert!(has_parent_path_component("x/.."));
    assert!(!has_parent_path_component("a/b"));
    assert!(!has_parent_path_component("a/..b/c"));
    assert!(!has_parent_path_component(""));
}
