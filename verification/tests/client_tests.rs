use vgrep::client::{
    parse_http_response, parse_http_status_code, read_reply, response_body, server_error_message,
    truncate_for_error, Client, ClientError, HttpError, HttpResponse,
};

#[test]
fn search_includes_http_status_on_error() {
    let body = r#"{"error":"bad request"}"#;
    let response = format!(
        "HTTP/1.1 400 Bad Request\r\nContent-Type: application/json\r\nContent-Length: {}\r\nConnection: close\r\n\r\n{}",
        body.len(),
        body
    );

    let client = Client::new("127.0.0.1", 10);
    let request = client.search_request(r#"{"query":"q","path":null,"max_results":10}"#);
    assert!(request.starts_with("POST /search HTTP/1.1\r\nHost: 127.0.0.1:10\r\n"));

    let err = read_reply(response.as_bytes()).unwrap_err();
    let msg = match err {
        ClientError::Server(m) => m,
        other => panic!("unexpected error: {:?}", other),
    };
    assert!(msg.contains("HTTP 400"), "unexpected error message: {msg}");
    assert!(msg.contains("bad request"), "unexpected error message: {msg}");
}

#[test]
fn embed_batch_includes_http_status_on_error() {
    let body = "internal error";
    let response = format!(
        "HTTP/1.1 500 Internal Server Error\r\nContent-Type: text/plain\r\nContent-Length: {}\r\nConnection: close\r\n\r\n{}",
        body.len(),
        body
    );

    let client = Client::new("127.0.0.1", 7777);
    let request = client.embed_batch_request(r#"{"texts":["hello"]}"#);
    assert!(request.starts_with("POST /embed_batch HTTP/1.1\r\n"));

    let err = read_reply(response.as_bytes()).unwrap_err();
    let msg = match err {
        ClientError::Server(m) => m,
        other => panic!("unexpected error: {:?}", other),
    };
    assert!(msg.contains("HTTP 500"), "unexpected error message: {msg}");
    assert!(msg.contains("internal error"), "unexpected error message: {msg}");
    assert_eq!(
        msg,
        "Server returned HTTP 500 (HTTP/1.1 500 Internal Server Error): internal error"
    );
}

#[test]
fn client_addresses() {
    let c = Client::new("localhost", 7777);
    assert_eq!(c.base_url(), "http://localhost:7777");
    assert_eq!(c.host_port(), "localhost:7777");
    assert_eq!(
        c.health_request(),
        "GET /health HTTP/1.1\r\nHost: localhost:7777\r\nConnection: close\r\n\r\n"
    );
    assert_eq!(
        c.post_request("/search", "{\"q\":\"é\"}"),
        "POST /search HTTP/1.1\r\nHost: localhost:7777\r\nContent-Type: application/json\r\nContent-Length: 10\r\nConnection: close\r\n\r\n{\"q\":\"é\"}"
    );
    let twice = Client::new("http://h", 1);
    assert_eq!(twice.host_port(), "h:1");
    assert_eq!(Client::new("h", 0).host_port(), "h:0");
    assert_eq!(Client::new("h", 65535).host_port(), "h:65535");
}

#[test]
fn status_lines() {
    assert_eq!(parse_http_status_code("HTTP/1.1 200 OK").unwrap(), 200);
    assert_eq!(parse_http_status_code("  HTTP/1.0\t404").unwrap(), 404);
    assert!(matches!(parse_http_status_code(""), Err(HttpError::MissingVersion)));
    assert!(matches!(parse_http_status_code("   "), Err(HttpError::MissingVersion)));
    assert!(matches!(parse_http_status_code("HTTP/1.1"), Err(HttpError::MissingStatusCode)));
    assert!(matches!(
        parse_http_status_code("FTP/1.1 200 OK"),
        Err(HttpError::InvalidStatusLine(l)) if l == "FTP/1.1 200 OK"
    ));
    assert!(matches!(
        parse_http_status_code("HTTP/1.1 abc OK"),
        Err(HttpError::InvalidStatusCode(l)) if l == "HTTP/1.1 abc OK"
    ));
    assert!(matches!(parse_http_status_code("HTTP/1.1 70000 OK"), Err(HttpError::InvalidStatusCode(_))));
}

#[test]
fn responses_are_read() {
    let raw = b"HTTP/1.1 200 OK\r\nContent-Type: application/json\r\n\r\n{\"ok\":true}";
    let r = parse_http_response(raw).unwrap();
    assert_eq!(r.status_code, 200);
    assert_eq!(r.status_line, "HTTP/1.1 200 OK");
    assert_eq!(r.body, "{\"ok\":true}");
    assert_eq!(read_reply(raw).unwrap(), "{\"ok\":true}");

    // No blank line: the headers run to the end and the body is empty.
    let r = parse_http_response(b"HTTP/1.1 204 No Content\r\nA: b\r\n").unwrap();
    assert_eq!(r.status_code, 204);
    assert_eq!(r.body, "");

    // A bare line feed does not end the headers.
    let r = parse_http_response(b"HTTP/1.1 200 OK\n\nstill header\r\n\r\nbody").unwrap();
    assert_eq!(r.body, "body");
}

#[test]
fn response_errors() {
    assert!(matches!(parse_http_response(b""), Err(HttpError::EmptyResponse)));
    assert!(matches!(parse_http_response(b"\xff\xfe\r\n"), Err(HttpError::UnreadableStatusLine)));
    assert!(matches!(parse_http_response(b"HTTP/1.1 200 OK\r\nX: \xff\r\n\r\n"), Err(HttpError::UnreadableHeader)));
    assert!(matches!(parse_http_response(b"HTTP/1.1 200 OK\r\n\r\n\xff"), Err(HttpError::UnreadableBody)));
    assert!(matches!(read_reply(b"garbage\r\n"), Err(ClientError::Http(HttpError::MissingStatusCode))));
}

#[test]
fn server_errors() {
    let resp = |body: &str| HttpResponse {
        status_code: 503,
        status_line: "HTTP/1.1 503 Service Unavailable".to_string(),
        body: body.to_string(),
    };
    assert_eq!(
        server_error_message(&resp("  \n ")),
        "Server returned HTTP 503 (HTTP/1.1 503 Service Unavailable) with empty body"
    );
    assert_eq!(server_error_message(&resp("{\"error\": \"busy\"}")), "Server returned HTTP 503: busy");
    assert_eq!(
        server_error_message(&resp("{\"error\": 5}")),
        "Server returned HTTP 503 (HTTP/1.1 503 Service Unavailable): {\"error\": 5}"
    );
    let long = "x".repeat(600);
    let msg = server_error_message(&resp(&long));
    assert!(msg.ends_with(&format!("{}...", "x".repeat(500))));
    match response_body(resp("ok")) {
        Err(ClientError::Server(m)) => assert!(m.starts_with("Server returned HTTP 503")),
        other => panic!("unexpected: {:?}", other.map(|_| ())),
    }
    let ok = HttpResponse { status_code: 299, status_line: String::new(), body: "b".to_string() };
    assert_eq!(response_body(ok).unwrap(), "b");
}

#[test]
fn truncation() {
    assert_eq!(truncate_for_error("hello", 5), "hello");
    assert_eq!(truncate_for_error("hello", 4), "hell...");
    assert_eq!(truncate_for_error("hello", 0), "...");
    // "é" takes two bytes: a cut inside it moves back to the boundary.
    assert_eq!(truncate_for_error("aé", 2), "a...");
    assert_eq!(truncate_for_error("aé", 3), "aé");
    assert_eq!(truncate_for_error("日本語", 4), "日...");
}

#[test]
fn http_error_messages() {
    assert_eq!(HttpError::EmptyResponse.message(), "Empty response from server");
    assert_eq!(HttpError::UnreadableStatusLine.message(), "Failed to read HTTP status line");
    assert_eq!(HttpError::MissingVersion.message(), "Invalid HTTP status line: missing version");
    assert_eq!(
        HttpError::MissingStatusCode.message(),
        "Invalid HTTP status line: missing status code"
    );
    assert_eq!(
        HttpError::InvalidStatusLine("FTP/1.0 200".to_string()).message(),
        "Invalid HTTP status line: FTP/1.0 200"
    );
    assert_eq!(
        HttpError::InvalidStatusCode("HTTP/1.1 abc".to_string()).message(),
        "Invalid HTTP status code in status line: HTTP/1.1 abc"
    );
    assert_eq!(HttpError::UnreadableHeader.message(), "Failed to read HTTP header");
    assert_eq!(HttpError::UnreadableBody.message(), "Failed to read HTTP response body");
}

#[test]
fn client_error_messages() {
    assert_eq!(
        ClientError::Http(HttpError::EmptyResponse).message(),
        "Empty response from server"
    );
    assert_eq!(ClientError::Server("Server returned HTTP 500: x".to_string()).message(),
        "Server returned HTTP 500: x");
    let err = read_reply(b"").unwrap_err();
    assert_eq!(err.message(), "Empty response from server");
    let err = read_reply(b"HTTP/1.1 503 Busy\r\n\r\n").unwrap_err();
    assert_eq!(err.message(), "Server returned HTTP 503 (HTTP/1.1 503 Busy) with empty body");
}
