use devserver::mime::from_extension;
use devserver::responder::{
    after_look, appends_script, extension_of, extension_served, first_look, push_decimal,
    remove_parent_steps, request_path, resolve, resolve_request, send_file, send_not_found,
    sibling_name, try_resolve_request, Attempt, RequestError, ServeStep,
};

fn chars(s: &str) -> Vec<char> {
    s.chars().collect()
}

fn file_of(path: &str) -> String {
    resolve(&chars(path)).into_iter().collect()
}

fn request(path: &str) -> Vec<u8> {
    format!("GET {} HTTP/1.1\r\nHost: localhost\r\n\r\n", path).into_bytes()
}

#[test]
fn root_resolves_to_index() {
    assert_eq!(try_resolve_request(&request("/")), Ok(String::from("index.html")));
}

#[test]
fn directory_resolves_to_its_index() {
    assert_eq!(try_resolve_request(&request("/blog/")), Ok(String::from("blog/index.html")));
}

#[test]
fn parent_steps_are_taken_out() {
    let file = try_resolve_request(&request("/a/../../etc/passwd")).unwrap();
    assert_eq!(file, "a/etc/passwd");
    assert!(!file.starts_with('/'));
    assert!(file.split('/').all(|part| part != ".."));
}

#[test]
fn file_is_named_without_surrounding_slashes() {
    assert_eq!(file_of("/style.css"), "style.css");
    assert_eq!(file_of("//img/logo.png"), "img/logo.png");
    assert_eq!(file_of("blog-post"), "blog-post");
}

#[test]
fn escaped_spaces_become_spaces() {
    assert_eq!(file_of("/my%20file.txt"), "my file.txt");
    assert_eq!(file_of("/a%20b%20c/"), "a b c/index.html");
}

#[test]
fn parameters_are_cut_off() {
    assert_eq!(try_resolve_request(&request("/page.html?x=1&y=2")), Ok(String::from("page.html")));
    assert_eq!(try_resolve_request(&request("/?reload")), Ok(String::from("index.html")));
}

#[test]
fn path_outside_ascii_is_kept() {
    assert_eq!(try_resolve_request(&request("/café/")), Ok(String::from("café/index.html")));
    assert_eq!(
        try_resolve_request("GET \u{A0}/y\u{3000} HTTP/1.1".as_bytes()),
        Ok(String::from("y"))
    );
}

#[test]
fn well_formed_request_names_its_file() {
    assert_eq!(resolve_request(&request("/")), "index.html");
    assert_eq!(resolve_request(&request("/a/b.css?v=2")), "a/b.css");
}

#[test]
fn parent_steps_are_taken_out_until_none_is_left() {
    assert_eq!(file_of("/....//x"), "x");
    assert_eq!(file_of("/....//....//etc/passwd"), "etc/passwd");
    assert_eq!(file_of("/..././x"), "x");
    assert_eq!(file_of("....//"), "");
    assert_eq!(file_of("/....//"), "index.html");
    assert_eq!(file_of("/.../...//"), "index.html");
    assert_eq!(remove_parent_steps(&chars("a/../b")), chars("a/b"));
    assert_eq!(remove_parent_steps(&chars("..../")), chars(""));
    assert_eq!(remove_parent_steps(&chars("x../y")), chars("xy"));
}

#[test]
fn parent_step_at_the_end_is_taken_out() {
    assert_eq!(file_of("/.."), "index.html");
    assert_eq!(file_of("/a/.."), "a/index.html");
    assert_eq!(file_of(".."), "");
    assert_eq!(file_of("/a.."), "a..");
    assert_eq!(file_of("/..a"), "..a");
    assert_eq!(file_of("/a/..."), "a/...");
}

#[test]
fn no_request_names_a_file_outside_the_root() {
    let pieces = ["", "/", ".", "..", "../", "%20", "a", "?", "....//", "./", "/.."];
    for a in pieces {
        for b in pieces {
            for c in pieces {
                for d in pieces {
                    let path = format!("/{a}{b}{c}{d}");
                    let file = file_of(&path);
                    assert!(!file.starts_with('/'), "{path} gives {file}");
                    assert!(file.split('/').all(|part| part != ".."), "{path} gives {file}");
                }
            }
        }
    }
}

#[test]
fn extension_follows_the_last_dot_of_the_name() {
    assert_eq!(extension_of("index.html"), Some(String::from("html")));
    assert_eq!(extension_of("a/b.tar.gz"), Some(String::from("gz")));
    assert_eq!(extension_of("a.b/c"), None);
    assert_eq!(extension_of("blog-post"), None);
    assert_eq!(extension_of(""), None);
    assert_eq!(extension_of("a/"), None);
    assert_eq!(extension_of(".hidden"), None);
    assert_eq!(extension_of("a/.hidden"), None);
    assert_eq!(extension_of(".hidden.txt"), Some(String::from("txt")));
    assert_eq!(extension_of("name."), Some(String::new()));
    assert_eq!(extension_of(".."), None);
    assert_eq!(extension_of("a/.."), None);
    assert_eq!(extension_of("..."), Some(String::new()));
}

#[test]
fn extension_agrees_with_the_path_rules() {
    for file in ["index.html", "a/b.tar.gz", "a.b/c", "x", "", ".hidden", ".a.b", "n.", "..", "...", "a/.x.y"] {
        let expected = std::path::Path::new(file)
            .extension()
            .and_then(|e| e.to_str())
            .map(String::from);
        assert_eq!(extension_of(file), expected, "{file}");
    }
}

#[test]
fn sibling_has_html_put_after_the_name() {
    assert_eq!(sibling_name("blog-post"), "blog-post.html");
    assert_eq!(sibling_name("a/b"), "a/b.html");
    assert_eq!(sibling_name(""), ".html");
}

#[test]
fn page_without_extension_is_served_from_its_sibling() {
    let file = resolve_request(&request("/page"));
    assert_eq!(file, "page");
    let extension = extension_of(&file);
    assert_eq!(extension, None);
    let step = after_look(extension.is_some(), Attempt::Named, false);
    assert_eq!(step, ServeStep::Look(Attempt::HtmlSibling));
    assert_eq!(sibling_name(&file), "page.html");
    let step = after_look(extension.is_some(), Attempt::HtmlSibling, true);
    assert_eq!(step, ServeStep::Send(Attempt::HtmlSibling));
    let served = extension_served(extension.as_deref(), Attempt::HtmlSibling);
    let mut stream = Vec::new();
    send_file(&mut stream, from_extension(served), "", b"B", b"", appends_script(served, false));
    assert_eq!(
        stream,
        b"HTTP/1.1 200 OK\r\nContent-type: text/html\r\nContent-Length: 1\r\n\r\nB".to_vec()
    );
}

#[test]
fn root_is_served_from_its_index() {
    let file = resolve_request(b"GET / HTTP/1.1\r\n\r\n");
    assert_eq!(file, "index.html");
    let served = extension_of(&file);
    assert_eq!(served.as_deref(), Some("html"));
    let mut stream = Vec::new();
    send_file(&mut stream, from_extension(served.as_deref()), "", b"hi", b"", false);
    assert!(stream.starts_with(b"HTTP/1.1 200 OK\r\n"));
    assert!(stream.ends_with(b"Content-Length: 2\r\n\r\nhi"));
}

#[test]
fn empty_path_names_the_root_itself() {
    assert_eq!(file_of(""), "");
}

#[test]
fn request_path_is_the_second_part() {
    let line = chars("GET /a/b HTTP/1.1\r\n\r\n");
    assert_eq!(request_path(&line), Some(&chars("/a/b")[..]));
    let line = chars("GET \t/a?q HTTP/1.1");
    assert_eq!(request_path(&line), Some(&chars("/a")[..]));
}

#[test]
fn request_with_fewer_than_three_parts_is_malformed() {
    assert_eq!(try_resolve_request(b""), Err(RequestError::Malformed));
    assert_eq!(try_resolve_request(b"\r\n\r\n"), Err(RequestError::Malformed));
    assert_eq!(try_resolve_request(b"GET /\r\n\r\n"), Err(RequestError::Malformed));
    assert_eq!(request_path(&chars("GET")), None);
}

#[test]
fn request_that_is_not_text_is_refused() {
    assert_eq!(try_resolve_request(&[b'G', b'E', b'T', b' ', 0xFF, b' ', b'x']), Err(RequestError::NotText));
}

#[test]
fn file_with_extension_is_looked_for_once() {
    assert_eq!(first_look(), ServeStep::Look(Attempt::Named));
    assert_eq!(after_look(true, Attempt::Named, true), ServeStep::Send(Attempt::Named));
    assert_eq!(after_look(true, Attempt::Named, false), ServeStep::NotFound);
}

#[test]
fn file_without_extension_is_served_as_it_is_when_found() {
    assert_eq!(after_look(false, Attempt::Named, true), ServeStep::Send(Attempt::Named));
    assert_eq!(from_extension(None), "application/octet-stream");
}

#[test]
fn file_without_extension_falls_back_to_html_sibling() {
    assert_eq!(after_look(false, Attempt::Named, false), ServeStep::Look(Attempt::HtmlSibling));
    assert_eq!(after_look(false, Attempt::HtmlSibling, true), ServeStep::Send(Attempt::HtmlSibling));
    assert_eq!(after_look(false, Attempt::HtmlSibling, false), ServeStep::NotFound);
}

#[test]
fn script_goes_out_with_pages_while_reloading() {
    assert!(appends_script(Some("html"), true));
    assert!(!appends_script(Some("html"), false));
    assert!(!appends_script(Some("htm"), true));
    assert!(!appends_script(Some("HTML"), true));
    assert!(!appends_script(Some("css"), true));
    assert!(!appends_script(None, true));
}

#[test]
fn sibling_is_served_as_html() {
    assert_eq!(extension_served(None, Attempt::HtmlSibling), Some("html"));
    assert_eq!(extension_served(None, Attempt::Named), None);
    assert_eq!(extension_served(Some("css"), Attempt::Named), Some("css"));
    assert_eq!(from_extension(extension_served(None, Attempt::HtmlSibling)), "text/html");
}

#[test]
fn decimal_digits_are_written_in_order() {
    let mut out = Vec::new();
    push_decimal(&mut out, 0);
    assert_eq!(out, chars("0"));
    let mut out = chars("n=");
    push_decimal(&mut out, 1234567890);
    assert_eq!(out, chars("n=1234567890"));
    let mut out = Vec::new();
    push_decimal(&mut out, u128::MAX);
    assert_eq!(out, chars("340282366920938463463374607431768211455"));
}

#[test]
fn found_file_is_sent_with_its_length() {
    let mut stream = Vec::new();
    send_file(&mut stream, "text/css", "", b"body{}", b"<script>", false);
    assert_eq!(
        stream,
        b"HTTP/1.1 200 OK\r\nContent-type: text/css\r\nContent-Length: 6\r\n\r\nbody{}".to_vec()
    );
}

#[test]
fn page_is_sent_with_the_script_counted_in() {
    let mut stream = Vec::new();
    send_file(&mut stream, "text/html", "\r\nX-A: 1\r\nX-B: 2", b"<p>hi</p>", b"<script>", true);
    assert_eq!(
        stream,
        b"HTTP/1.1 200 OK\r\nContent-type: text/html\r\nContent-Length: 17\r\nX-A: 1\r\nX-B: 2\r\n\r\n<p>hi</p><script>".to_vec()
    );
}

#[test]
fn empty_file_has_length_zero() {
    let mut stream = Vec::new();
    send_file(&mut stream, "application/octet-stream", "", b"", b"", false);
    assert_eq!(
        stream,
        b"HTTP/1.1 200 OK\r\nContent-type: application/octet-stream\r\nContent-Length: 0\r\n\r\n".to_vec()
    );
}

#[test]
fn missing_file_gets_a_bare_status() {
    let mut stream = Vec::new();
    send_not_found(&mut stream);
    assert_eq!(stream, b"HTTP/1.1 404 NOT FOUND\r\n\r\n".to_vec());
}
