use flatui_lib::http::{
    bad_request_response, header_step, parse_request_line, response_text, route, route_response,
    Route,
};

const CORS: &str = "Access-Control-Allow-Origin: *\r\nAccess-Control-Allow-Methods: POST, GET, OPTIONS\r\nAccess-Control-Allow-Headers: *\r\n";

#[test]
fn request_line_gives_method_and_path() {
    assert_eq!(
        parse_request_line("POST /toggle HTTP/1.1\r\n"),
        Some(("POST".to_string(), "/toggle".to_string()))
    );
    assert_eq!(
        parse_request_line("  GET\t/status  "),
        Some(("GET".to_string(), "/status".to_string()))
    );
    assert_eq!(parse_request_line("GET\r\n"), None);
    assert_eq!(parse_request_line(""), None);
    assert_eq!(parse_request_line("   \r\n"), None);
}

#[test]
fn headers_end_at_blank_line_and_set_length() {
    assert_eq!(header_step(0, "Host: x\r\n"), (false, 0));
    assert_eq!(header_step(0, "Content-Length: 12\r\n"), (false, 12));
    assert_eq!(header_step(5, "CONTENT-LENGTH:  7 \r\n"), (false, 7));
    assert_eq!(header_step(5, "content-length: abc\r\n"), (false, 0));
    assert_eq!(header_step(9, "\r\n"), (true, 9));
    assert_eq!(header_step(9, ""), (true, 9));
}

#[test]
fn routing_table() {
    assert_eq!(route("OPTIONS", "/anything"), Route::Preflight);
    assert_eq!(route("POST", "/toggle"), Route::Toggle);
    assert_eq!(route("GET", "/status"), Route::Status);
    assert_eq!(route("GET", "/"), Route::Health);
    assert_eq!(route("GET", ""), Route::Health);
    assert_eq!(route("GET", "/toggle"), Route::NotFound);
    assert_eq!(route("post", "/toggle"), Route::NotFound);
}

#[test]
fn response_format() {
    assert_eq!(
        response_text(200, "OK", "", "hi"),
        "HTTP/1.1 200 OK\r\nContent-Type: application/json\r\nContent-Length: 2\r\nConnection: close\r\n\r\nhi"
    );
    // Content-Length counts bytes, not characters
    assert!(response_text(200, "OK", "", "é").contains("Content-Length: 2\r\n"));
    assert_eq!(
        bad_request_response(),
        "HTTP/1.1 400 Bad Request\r\nContent-Type: application/json\r\nContent-Length: 0\r\nConnection: close\r\n\r\n"
    );
}

#[test]
fn routed_responses() {
    assert_eq!(
        route_response(Route::Toggle, false),
        format!("HTTP/1.1 200 OK\r\n{CORS}Content-Type: application/json\r\nContent-Length: 11\r\nConnection: close\r\n\r\n{{\"ok\":true}}")
    );
    assert_eq!(
        route_response(Route::Status, true),
        format!("HTTP/1.1 200 OK\r\n{CORS}Content-Type: application/json\r\nContent-Length: 40\r\nConnection: close\r\n\r\n{{\"running\":true,\"launcher_visible\":true}}")
    );
    assert!(route_response(Route::Status, false).ends_with("\"launcher_visible\":false}"));
    assert_eq!(
        route_response(Route::Preflight, false),
        format!("HTTP/1.1 204 No Content\r\n{CORS}Content-Type: application/json\r\nContent-Length: 0\r\nConnection: close\r\n\r\n")
    );
    assert!(route_response(Route::Health, false).ends_with("Content-Length: 6\r\nConnection: close\r\n\r\nflatui"));
    assert!(route_response(Route::NotFound, false).starts_with("HTTP/1.1 404 Not Found\r\n"));
}
