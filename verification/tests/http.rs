use rest_server::http::Request;

#[test]
fn parse_reads_method_path_and_body() {
    let req = Request::parse("POST /post HTTP/1.1\r\nHost: x\r\nContent-Length: 24\r\n\r\n{\"id\":1,\"name\":\"raja\"}");
    assert_eq!(req.method, "POST");
    assert_eq!(req.path, "/post");
    assert_eq!(req.body, "{\"id\":1,\"name\":\"raja\"}");
}

#[test]
fn parse_of_request_without_body() {
    let req = Request::parse("GET /sample/raja HTTP/1.1\r\nHost: x\r\n\r\n");
    assert_eq!(req.method, "GET");
    assert_eq!(req.path, "/sample/raja");
    assert_eq!(req.body, "");
}

#[test]
fn parse_of_request_without_blank_line() {
    let req = Request::parse("GET /home HTTP/1.1\r\nHost: x");
    assert_eq!(req.path, "/home");
    assert_eq!(req.body, "");
}

#[test]
fn parse_of_request_line_without_version() {
    let req = Request::parse("GET /home");
    assert_eq!(req.method, "GET");
    assert_eq!(req.path, "/home");
}

#[test]
fn parse_of_request_line_without_space() {
    let req = Request::parse("GET\r\n\r\nbody");
    assert_eq!(req.method, "GET");
    assert_eq!(req.path, "");
    assert_eq!(req.body, "body");
}

#[test]
fn parse_of_empty_text() {
    let req = Request::parse("");
    assert_eq!(req.method, "");
    assert_eq!(req.path, "");
    assert_eq!(req.body, "");
}

#[test]
fn request_clone_is_equal() {
    let req = Request::parse("GET /a HTTP/1.1\r\n\r\nb");
    let copy = req.clone();
    assert_eq!((copy.method, copy.path, copy.body), (req.method, req.path, req.body));
}

#[test]
fn response_text_carries_status_length_and_body() {
    let text = rest_server::http::response_text(200, "OK", "{\"id\":1}");
    assert_eq!(
        text,
        "HTTP/1.1 200 OK\r\nContent-Type: application/json\r\nContent-Length: 8\r\n\r\n{\"id\":1}"
    );
}

#[test]
fn response_text_counts_bytes_of_the_body() {
    let text = rest_server::http::response_text(404, "Not Found", "é");
    assert_eq!(
        text,
        "HTTP/1.1 404 Not Found\r\nContent-Type: application/json\r\nContent-Length: 2\r\n\r\né"
    );
}
