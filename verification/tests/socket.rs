use herdr_mirror::socket::{named_socket, socket_override, status_socket, SocketError};

#[test]
fn a_variable_names_the_socket_unless_it_is_empty() {
    assert_eq!(socket_override(Some("/s".to_string())), Some("/s".to_string()));
    assert_eq!(socket_override(Some(String::new())), None);
    assert_eq!(socket_override(None), None);
}

const NONE: &str =
    "cannot resolve local herdr socket (HERDR_SOCKET_PATH unset, herdr status gave none)";

#[test]
fn a_status_without_a_socket_is_an_error() {
    assert_eq!(named_socket(Some("/s".to_string())).unwrap(), "/s");
    assert_eq!(named_socket(Some(String::new())).unwrap_err().message, NONE);
    assert_eq!(named_socket(None).unwrap_err().message, NONE);
}

#[test]
fn the_status_report_is_read() {
    let report = r#"{"server":{"pid":7,"socket":"/run/herdr é.sock"}}"#.as_bytes();
    assert!(matches!(status_socket(report), Ok(s) if s == "/run/herdr é.sock"));
    for none in ["{}", r#"{"server":{}}"#, r#"{"server":{"socket":7}}"#, r#"{"server":{"socket":""}}"#, "[]"] {
        match status_socket(none.as_bytes()) {
            Err(SocketError::NoSocket(e)) => assert_eq!(e.message, NONE),
            _ => panic!("{none}"),
        }
    }
    for bad in ["", "{", "herdr: not running", "{} x"] {
        match status_socket(bad.as_bytes()) {
            Err(SocketError::BadStatus(e)) => assert!(!e.to_string().is_empty()),
            _ => panic!("{bad}"),
        }
    }
}
