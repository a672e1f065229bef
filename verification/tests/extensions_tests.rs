use http_handler::DocumentRoot;
use http_handler::ResponseException;

#[test]
fn test_response_exception() {
    let exc = ResponseException::new("Error occurred");
    assert_eq!(exc.message(), "Error occurred");

    let exc = ResponseException::from("Another error");
    assert_eq!(exc.message(), "Another error");

    let exc: ResponseException = "String error".into();
    assert_eq!(exc.message(), "String error");
}

#[test]
fn test_response_exception_from_string() {
    let exc = ResponseException::from(String::from("owned error"));
    assert_eq!(exc.message(), "owned error");
}

#[test]
fn test_document_root() {
    let root = DocumentRoot::new("/var/www");
    assert_eq!(root.path, "/var/www");
}
