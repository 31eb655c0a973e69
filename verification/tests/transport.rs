use rest_server::transport::{bind_address, TcpTransport};

#[test]
fn bind_address_joins_host_and_port() {
    assert_eq!(bind_address(&"0.0.0.0".to_string(), 8000), "0.0.0.0:8000");
    assert_eq!(bind_address(&"localhost".to_string(), 0), "localhost:0");
    assert_eq!(bind_address(&"h".to_string(), 7), "h:7");
    assert_eq!(bind_address(&"h".to_string(), 10), "h:10");
}

#[test]
fn bind_address_of_extreme_ports() {
    assert_eq!(bind_address(&"h".to_string(), -1), "h:-1");
    assert_eq!(bind_address(&"h".to_string(), i32::MAX), "h:2147483647");
    assert_eq!(bind_address(&"h".to_string(), i32::MIN), "h:-2147483648");
}

#[test]
fn new_transport_binds_its_address_first() {
    let mut t: TcpTransport<u32> = TcpTransport::new("127.0.0.1".to_string(), 8080);
    assert_eq!(t.host(), "127.0.0.1");
    assert_eq!(t.port(), 8080);
    let mut asked = Vec::new();
    let r = t.listen(|addr: String| -> Result<(u32, u32), ()> {
        asked.push(addr);
        Ok((1, 2))
    });
    assert_eq!(r.unwrap(), 1);
    assert_eq!(asked, vec!["127.0.0.1:8080".to_string()]);
}

#[test]
fn bound_listener_is_kept_and_reused_once() {
    let mut t: TcpTransport<u32> = TcpTransport::new("h".to_string(), 1);
    let first = t.listen(|_addr: String| -> Result<(u32, u32), ()> { Ok((10, 11)) });
    assert_eq!(first.unwrap(), 10);
    let second = t.listen(|_addr: String| -> Result<(u32, u32), ()> { panic!("nothing to bind") });
    assert_eq!(second.unwrap(), 11);
    let third = t.listen(|_addr: String| -> Result<(u32, u32), ()> { Ok((20, 21)) });
    assert_eq!(third.unwrap(), 20);
}

#[test]
fn failed_bind_answers_the_socket_error_and_keeps_nothing() {
    let mut t: TcpTransport<u32> = TcpTransport::new("h".to_string(), 1);
    let r = t.listen(|_addr: String| -> Result<(u32, u32), &str> { Err("in use") });
    assert_eq!(r.unwrap_err().msg, "error occured");
    let again = t.listen(|_addr: String| -> Result<(u32, u32), &str> { Ok((5, 6)) });
    assert_eq!(again.unwrap(), 5);
}
