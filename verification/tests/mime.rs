use devserver::mime::from_extension;

#[test]
fn common_extensions_have_their_types() {
    assert_eq!(from_extension(Some("html")), "text/html");
    assert_eq!(from_extension(Some("css")), "text/css");
    assert_eq!(from_extension(Some("js")), "text/javascript");
    assert_eq!(from_extension(Some("wasm")), "application/wasm");
    assert_eq!(from_extension(Some("png")), "image/png");
    assert_eq!(from_extension(Some("jpeg")), "image/jpeg");
    assert_eq!(from_extension(Some("jpg")), "image/jpeg");
    assert_eq!(from_extension(Some("svg")), "image/svg+xml");
    assert_eq!(from_extension(Some("woff2")), "font/woff2");
}

#[test]
fn unknown_or_absent_extension_is_generic() {
    assert_eq!(from_extension(None), "application/octet-stream");
    assert_eq!(from_extension(Some("")), "application/octet-stream");
    assert_eq!(from_extension(Some("xyz")), "application/octet-stream");
    assert_eq!(from_extension(Some("HTML")), "application/octet-stream");
}
