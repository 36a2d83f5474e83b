//! Static file responder: from the first line of a request to the file to
//! look for, and from the file found to the bytes of the answer.
//!
//! The responder reads no file itself. It names the file, relative to the
//! served root, is told whether it was found, and lays out the response.

use crate::text::{
    after, before, find, first_index, leading, lemma_absent, lemma_first_index, lemma_leading,
    lemma_removal_shortens,
    lemma_replaced_front, lemma_trailing, occurs, only, replace, replaced, same, strip_end,
    strip_start, to_chars, to_string, trim, trim_matches, trim_start_matches, trimmed, utf8_text,
    without_leading, without_surrounding,
};
use vstd::prelude::*;
use vstd::string::*;
use vstd::utf8::*;

verus! {

/// Why a request names no file.
#[derive(Debug, Clone, Copy, PartialEq, Eq, Structural)]
pub enum RequestError {
    /// The request is not UTF-8 text.
    NotText,
    /// The request does not hold a method, a path and a version, parted by
    /// single spaces.
    Malformed,
}

/// Which file the responder has looked for.
#[derive(Debug, Clone, Copy, PartialEq, Eq, Structural)]
pub enum Attempt {
    /// The file that the request names.
    Named,
    /// The same file with the extension `html` put on.
    HtmlSibling,
}

/// What the responder does after a look for a file.
#[derive(Debug, Clone, Copy, PartialEq, Eq, Structural)]
pub enum ServeStep {
    /// Look for the file of the given attempt.
    Look(Attempt),
    /// Send the file that the given attempt found.
    Send(Attempt),
    /// Answer that there is no such file.
    NotFound,
}

/// The separator of the parts of a request line.
pub open spec fn space() -> Seq<char> {
    seq![' ']
}

/// What opens the parameters of a request path.
pub open spec fn question_mark() -> Seq<char> {
    seq!['?']
}

/// The step to the parent directory, which no served path may take.
pub open spec fn parent_step() -> Seq<char> {
    seq!['.', '.', '/']
}

/// How a space is written in a request path.
pub open spec fn escaped_space() -> Seq<char> {
    seq!['%', '2', '0']
}

/// The file that stands for a directory.
pub open spec fn index_file() -> Seq<char> {
    "index.html"@
}

/// The path that `request` asks for: the second of its parts parted by
/// single spaces, without surrounding white space and without parameters.
/// There is none unless a third part follows.
pub open spec fn requested_path(request: Seq<char>) -> Option<Seq<char>> {
    if occurs(request, space()) && occurs(after(request, space()), space()) {
        let target = trimmed(before(after(request, space()), space()));
        Some(before(target, question_mark()))
    } else {
        None
    }
}

/// Whether `s` ends in a step to the parent directory with no slash after
/// it: it is `..`, or ends in `/..`.
pub open spec fn ends_in_parent(s: Seq<char>) -> bool {
    &&& s.len() >= 2
    &&& s[s.len() - 1] == '.'
    &&& s[s.len() - 2] == '.'
    &&& (s.len() == 2 || s[s.len() - 3] == '/')
}

/// `s` with the steps to the parent directory taken out: every `../` is
/// taken out, from the left, and what is left is gone over again until it
/// holds none; a step that then stands at the very end goes as well.
pub open spec fn without_parent_steps(s: Seq<char>) -> Seq<char>
    decreases s.len(),
{
    if occurs(s, parent_step()) {
        proof {
            lemma_removal_shortens(s, parent_step());
        }
        without_parent_steps(replaced(s, parent_step(), Seq::<char>::empty()))
    } else if ends_in_parent(s) {
        s.take(s.len() - 2)
    } else {
        s
    }
}

/// `path` with the steps to the parent directory taken out and every
/// escaped space written as a space.
pub open spec fn cleaned(path: Seq<char>) -> Seq<char> {
    replaced(without_parent_steps(path), escaped_space(), space())
}

/// Whether a step to the parent directory stands at index `i` of `s`: two
/// dots that are a whole component of the path.
pub open spec fn is_parent_at(s: Seq<char>, i: int) -> bool {
    &&& 0 <= i
    &&& i + 2 <= s.len()
    &&& s[i] == '.'
    &&& s[i + 1] == '.'
    &&& (i == 0 || s[i - 1] == '/')
    &&& (i + 2 == s.len() || s[i + 2] == '/')
}

/// Whether no component of the path `s` is a step to the parent directory.
pub open spec fn has_no_parent_step(s: Seq<char>) -> bool {
    forall|i: int| !is_parent_at(s, i)
}

/// Whether `s` is empty or begins with something other than a slash.
pub open spec fn is_relative(s: Seq<char>) -> bool {
    s.len() > 0 ==> s[0] != '/'
}

/// The file, relative to the served root, that the request path `path`
/// stands for: a path that ends in a slash names a directory and stands for
/// its index file.
pub open spec fn file_for(path: Seq<char>) -> Seq<char> {
    let clean = cleaned(path);
    if clean.len() > 0 && clean.last() == '/' {
        without_leading(clean, '/') + index_file()
    } else {
        without_surrounding(clean, '/')
    }
}

/// The file, relative to the served root, that the request `bytes` asks
/// for, or why it asks for none.
pub open spec fn request_file(bytes: Seq<u8>) -> Result<Seq<char>, RequestError> {
    if !valid_utf8(bytes) {
        Err(RequestError::NotText)
    } else {
        match requested_path(decode_utf8(bytes)) {
            Some(path) => Ok(file_for(path)),
            None => Err(RequestError::Malformed),
        }
    }
}

/// Where the last component of the path `file` begins: after its last
/// slash, or at its front when it has none.
pub open spec fn name_start(file: Seq<char>) -> int
    decreases file.len(),
{
    if file.len() == 0 || file.last() == '/' {
        file.len() as int
    } else {
        name_start(file.drop_last())
    }
}

/// The name of the file that the path `file` leads to: its last component.
pub open spec fn file_name(file: Seq<char>) -> Seq<char> {
    file.skip(name_start(file))
}

/// Index of the last dot in `name`, or -1 when it holds none.
pub open spec fn last_dot(name: Seq<char>) -> int
    decreases name.len(),
{
    if name.len() == 0 {
        -1
    } else if name.last() == '.' {
        name.len() - 1
    } else {
        last_dot(name.drop_last())
    }
}

/// The extension of the file that the path `file` leads to: what follows
/// the last dot of its name. A name without a dot has none, nor has one
/// whose only dot is its first character, nor the name `..`.
pub open spec fn extension(file: Seq<char>) -> Option<Seq<char>> {
    let name = file_name(file);
    if last_dot(name) <= 0 || name == seq!['.', '.'] {
        None
    } else {
        Some(name.skip(last_dot(name) + 1))
    }
}

/// The name under which a file without extension is looked for a second
/// time: the same path with `.html` put after it.
pub open spec fn html_sibling(file: Seq<char>) -> Seq<char> {
    file + ".html"@
}

/// The step that follows a look for a file. A file with an extension is
/// looked for under its own name only; one without is looked for under its
/// own name first and with the extension `html` second.
pub open spec fn step_after_look(has_extension: bool, attempt: Attempt, found: bool) -> ServeStep {
    if found {
        ServeStep::Send(attempt)
    } else if attempt == Attempt::Named && !has_extension {
        ServeStep::Look(Attempt::HtmlSibling)
    } else {
        ServeStep::NotFound
    }
}

/// The extension by which the file that `attempt` found is served: its own,
/// or `html` for the sibling.
pub open spec fn served_extension(extension: Option<Seq<char>>, attempt: Attempt) -> Option<
    Seq<char>,
> {
    match attempt {
        Attempt::Named => extension,
        Attempt::HtmlSibling => Some("html"@),
    }
}

/// Whether the reload script goes out with a file served by the extension
/// `extension`.
pub open spec fn with_script(extension: Option<Seq<char>>, reload: bool) -> bool {
    reload && extension == Some("html"@)
}

/// The decimal digit for `d`, which is below ten.
pub open spec fn digit(d: nat) -> char {
    (48 + d) as char
}

/// `n` written in decimal, without leading zeros.
pub open spec fn decimal(n: nat) -> Seq<char>
    decreases n,
{
    if n < 10 {
        seq![digit(n)]
    } else {
        decimal(n / 10).push(digit(n % 10))
    }
}

/// The number of bytes in the body of a response: those of the file, and
/// those of the reload script when it is appended.
pub open spec fn body_length(file_len: nat, script_len: nat, with_script: bool) -> nat {
    if with_script {
        file_len + script_len
    } else {
        file_len
    }
}

/// The head of the response that sends a file: status line, media type,
/// length of the body, the extra header lines, and the blank line. `extra`
/// holds each extra line with its line break in front.
pub open spec fn found_head(content_type: Seq<char>, length: nat, extra: Seq<char>) -> Seq<char> {
    "HTTP/1.1 200 OK\r\nContent-type: "@ + content_type + "\r\nContent-Length: "@ + decimal(length)
        + extra + "\r\n\r\n"@
}

/// The whole response that sends a file.
pub open spec fn found_response(
    content_type: Seq<char>,
    extra: Seq<char>,
    contents: Seq<u8>,
    script: Seq<u8>,
    with_script: bool,
) -> Seq<u8> {
    let head = encode_utf8(
        found_head(content_type, body_length(contents.len(), script.len(), with_script), extra),
    );
    if with_script {
        head + contents + script
    } else {
        head + contents
    }
}

/// The whole response for a file that is not there: a status line and the
/// blank line, no body.
pub open spec fn not_found_response() -> Seq<u8> {
    encode_utf8("HTTP/1.1 404 NOT FOUND\r\n\r\n"@)
}

/// Finds the path that the request line asks for.
pub fn request_path(request: &[char]) -> (path: Option<&[char]>)
    ensures
        match path {
            Some(p) => requested_path(request@) == Some(p@),
            None => requested_path(request@) is None,
        },
{
    let sp: Vec<char> = vec![' '];
    let qm: Vec<char> = vec!['?'];
    assert(sp@ =~= space());
    assert(qm@ =~= question_mark());
    let first = find(request, sp.as_slice());
    if first >= request.len() {
        return None;
    }
    let rest = &request[first + 1..request.len()];
    assert(rest@ == after(request@, space()));
    let second = find(rest, sp.as_slice());
    if second >= rest.len() {
        return None;
    }
    let target = trim(&rest[0..second]);
    let cut = find(target, qm.as_slice());
    Some(&target[0..cut])
}

/// Takes the steps to the parent directory out of a request path.
pub fn remove_parent_steps(path: &[char]) -> (kept: Vec<char>)
    ensures
        kept@ == without_parent_steps(path@),
{
    let parent: Vec<char> = vec!['.', '.', '/'];
    let nothing: Vec<char> = Vec::new();
    assert(parent@ =~= parent_step());
    let mut kept = vstd::slice::slice_to_vec(path);
    let mut at = find(kept.as_slice(), parent.as_slice());
    while at < kept.len()
        invariant
            parent@ == parent_step(),
            nothing@ == Seq::<char>::empty(),
            without_parent_steps(path@) == without_parent_steps(kept@),
            occurs(kept@, parent_step()) <==> at < kept.len(),
        decreases kept.len(),
    {
        proof {
            lemma_removal_shortens(kept@, parent_step());
        }
        kept = replace(kept.as_slice(), parent.as_slice(), nothing.as_slice());
        at = find(kept.as_slice(), parent.as_slice());
    }
    let n = kept.len();
    if n >= 2 && kept[n - 1] == '.' && kept[n - 2] == '.' && (n == 2 || kept[n - 3] == '/') {
        kept.truncate(n - 2);
    }
    kept
}

/// Names the file, relative to the served root, that a request path stands
/// for.
pub fn resolve(path: &[char]) -> (file: Vec<char>)
    ensures
        file@ == file_for(path@),
{
    let escaped: Vec<char> = vec!['%', '2', '0'];
    let sp: Vec<char> = vec![' '];
    assert(escaped@ =~= escaped_space());
    assert(sp@ =~= space());
    let kept = remove_parent_steps(path);
    let clean = replace(kept.as_slice(), escaped.as_slice(), sp.as_slice());
    if clean.len() > 0 && clean[clean.len() - 1] == '/' {
        let mut file = vstd::slice::slice_to_vec(trim_start_matches(clean.as_slice(), '/'));
        let index = to_chars("index.html");
        file.extend_from_slice(index.as_slice());
        file
    } else {
        vstd::slice::slice_to_vec(trim_matches(clean.as_slice(), '/'))
    }
}

/// Names the file, relative to the served root, that the request with
/// header `bytes` asks for. The request is one that asks for a file: it is
/// text, and holds a method, a path and a version.
pub fn resolve_request(bytes: &[u8]) -> (file: String)
    requires
        request_file(bytes@) is Ok,
    ensures
        request_file(bytes@) == Ok::<Seq<char>, RequestError>(file@),
        is_relative(file@),
        has_no_parent_step(file@),
{
    let text = match utf8_text(bytes) {
        Some(text) => to_chars(text),
        None => vstd::pervasive::unreached(),
    };
    let path = match request_path(text.as_slice()) {
        Some(path) => path,
        None => vstd::pervasive::unreached(),
    };
    let file = resolve(path);
    proof {
        file_stays_below_root(path@);
    }
    to_string(file.as_slice())
}

/// Tells whether the request with header `bytes` asks for a file, and
/// names the file if it does.
pub fn try_resolve_request(bytes: &[u8]) -> (file: Result<String, RequestError>)
    ensures
        match file {
            Ok(name) => request_file(bytes@) == Ok::<Seq<char>, RequestError>(name@)
                && is_relative(name@) && has_no_parent_step(name@),
            Err(e) => request_file(bytes@) == Err::<Seq<char>, RequestError>(e),
        },
{
    let text = match utf8_text(bytes) {
        Some(text) => to_chars(text),
        None => {
            return Err(RequestError::NotText);
        },
    };
    if request_path(text.as_slice()).is_none() {
        return Err(RequestError::Malformed);
    }
    Ok(resolve_request(bytes))
}

/// Gives the extension of the file that the path `file` leads to.
pub fn extension_of(file: &str) -> (found: Option<String>)
    ensures
        match found {
            Some(e) => extension(file@) == Some(e@),
            None => extension(file@) is None,
        },
{
    let chars = to_chars(file);
    let n = chars.len();
    let mut start: usize = n;
    assert(chars@.take(n as int) =~= chars@);
    while start > 0 && chars[start - 1] != '/'
        invariant
            start <= n == chars.len(),
            name_start(chars@) == name_start(chars@.take(start as int)),
        decreases start,
    {
        assert(chars@.take(start as int).drop_last() =~= chars@.take(start - 1));
        start -= 1;
    }
    assert(name_start(chars@) == start);
    let ghost dots = seq!['.', '.'];
    let name = vstd::slice::slice_subrange(chars.as_slice(), start, n);
    assert(name@ =~= file_name(chars@));
    let mut end: usize = name.len();
    assert(name@.take(end as int) =~= name@);
    while end > 0 && name[end - 1] != '.'
        invariant
            end <= name.len(),
            last_dot(name@) == last_dot(name@.take(end as int)),
        decreases end,
    {
        assert(name@.take(end as int).drop_last() =~= name@.take(end - 1));
        end -= 1;
    }
    assert(last_dot(name@) == end - 1);
    assert(name@ == dots ==> name.len() == 2 && name@[0] == dots[0]);
    if end <= 1 || (name.len() == 2 && name[0] == '.') {
        assert(end > 1 && name.len() == 2 && name@[0] == '.' ==> name@ =~= dots);
        None
    } else {
        let tail = vstd::slice::slice_subrange(name, end, name.len());
        assert(tail@ =~= name@.skip(end as int));
        Some(to_string(tail))
    }
}

/// Names the file that is looked for when a file without extension is not
/// there.
pub fn sibling_name(file: &str) -> (name: String)
    ensures
        name@ == html_sibling(file@),
{
    let mut name = String::from_str(file);
    name.append(".html");
    name
}

/// The first look is always for the file that the request names.
pub fn first_look() -> (step: ServeStep)
    ensures
        step == ServeStep::Look(Attempt::Named),
{
    ServeStep::Look(Attempt::Named)
}

/// Decides what follows a look for a file: `has_extension` tells whether
/// the named file has an extension, `found` whether the look found a file.
pub fn after_look(has_extension: bool, attempt: Attempt, found: bool) -> (step: ServeStep)
    ensures
        step == step_after_look(has_extension, attempt, found),
{
    if found {
        ServeStep::Send(attempt)
    } else {
        match attempt {
            Attempt::Named => if has_extension {
                ServeStep::NotFound
            } else {
                ServeStep::Look(Attempt::HtmlSibling)
            },
            Attempt::HtmlSibling => ServeStep::NotFound,
        }
    }
}

/// The extension by which the file that `attempt` found is served, where
/// `extension` is that of the file the request names.
pub fn extension_served<'a>(extension: Option<&'a str>, attempt: Attempt) -> (served: Option<
    &'a str,
>)
    ensures
        match served {
            Some(e) => served_extension(
                match extension {
                    Some(x) => Some(x@),
                    None => None,
                },
                attempt,
            ) == Some(e@),
            None => served_extension(
                match extension {
                    Some(x) => Some(x@),
                    None => None,
                },
                attempt,
            ) is None,
        },
{
    match attempt {
        Attempt::Named => extension,
        Attempt::HtmlSibling => Some("html"),
    }
}

/// Whether the reload script is appended to a file served by the extension
/// `extension`: it is appended to pages, and only while reloading is on.
pub fn appends_script(extension: Option<&str>, reload: bool) -> (yes: bool)
    ensures
        yes == with_script(
            match extension {
                Some(e) => Some(e@),
                None => None,
            },
            reload,
        ),
{
    match extension {
        Some(e) => {
            let given = to_chars(e);
            let html = to_chars("html");
            reload && same(given.as_slice(), html.as_slice())
        },
        None => false,
    }
}

/// Appends to `out` the decimal digits of `n`.
pub fn push_decimal(out: &mut Vec<char>, n: u128)
    ensures
        final(out)@ == old(out)@ + decimal(n as nat),
    decreases n,
{
    if n >= 10 {
        push_decimal(out, n / 10);
    }
    let d: u8 = (n % 10) as u8;
    let c: char = (48u8 + d) as char;
    assert(c == digit((n % 10) as nat));
    out.push(c);
    assert(final(out)@ =~= old(out)@ + decimal(n as nat));
}

/// Writes to `stream` the response that sends a file: the head, the
/// contents, and after them the reload script when `with_script` is set.
pub fn send_file(
    stream: &mut Vec<u8>,
    content_type: &str,
    extra: &str,
    contents: &[u8],
    script: &[u8],
    with_script: bool,
)
    ensures
        final(stream)@ == old(stream)@ + found_response(
            content_type@,
            extra@,
            contents@,
            script@,
            with_script,
        ),
{
    let length: u128 = if with_script {
        contents.len() as u128 + script.len() as u128
    } else {
        contents.len() as u128
    };
    let mut digits: Vec<char> = Vec::new();
    push_decimal(&mut digits, length);
    assert(digits@ =~= decimal(length as nat));
    let digits = to_string(digits.as_slice());
    let mut head = String::from_str("HTTP/1.1 200 OK\r\nContent-type: ");
    head.append(content_type);
    head.append("\r\nContent-Length: ");
    head.append(digits.as_str());
    head.append(extra);
    head.append("\r\n\r\n");
    stream.extend_from_slice(head.as_str().as_bytes());
    stream.extend_from_slice(contents);
    if with_script {
        stream.extend_from_slice(script);
    }
    assert(final(stream)@ =~= old(stream)@ + found_response(
        content_type@,
        extra@,
        contents@,
        script@,
        with_script,
    ));
}

/// Writes to `stream` the response for a file that is not there.
pub fn send_not_found(stream: &mut Vec<u8>)
    ensures
        final(stream)@ == old(stream)@ + not_found_response(),
{
    let response = "HTTP/1.1 404 NOT FOUND\r\n\r\n";
    stream.extend_from_slice(response.as_bytes());
}

/// Whether a step to the parent directory stands at index `i` of `s`,
/// when `before` is what precedes `s`.
spec fn is_parent_after(before: Option<char>, s: Seq<char>, i: int) -> bool {
    &&& 0 <= i
    &&& i + 2 <= s.len()
    &&& s[i] == '.'
    &&& s[i + 1] == '.'
    &&& (if i == 0 {
        before is None || before == Some('/')
    } else {
        s[i - 1] == '/'
    })
    &&& (i + 2 == s.len() || s[i + 2] == '/')
}

/// Once the steps to the parent directory are taken out, none is left.
proof fn lemma_steps_are_gone(s: Seq<char>)
    ensures
        has_no_parent_step(without_parent_steps(s)),
    decreases s.len(),
{
    let step = parent_step();
    if occurs(s, step) {
        lemma_removal_shortens(s, step);
        lemma_steps_are_gone(replaced(s, step, Seq::<char>::empty()));
    } else {
        lemma_absent(s, step);
        let kept = without_parent_steps(s);
        assert forall|i: int| !is_parent_at(kept, i) by {
            if is_parent_at(kept, i) {
                if i + 2 < kept.len() {
                    assert(step =~= s.skip(i).subrange(0, 3));
                    assert(step.is_prefix_of(s.skip(i)));
                } else if ends_in_parent(s) {
                    assert(kept[i + 1] == s[s.len() - 3]);
                }
            }
        }
    }
}

/// Writing a pattern as one character that is neither a dot nor a slash
/// makes no component a step to the parent directory.
proof fn lemma_escape_adds_no_step(before: Option<char>, s: Seq<char>, pat: Seq<char>, c: char)
    requires
        pat.len() > 0,
        c != '.',
        c != '/',
        forall|i: int| !is_parent_after(before, s, i),
    ensures
        forall|i: int| !is_parent_after(before, replaced(s, pat, seq![c]), i),
    decreases s.len(),
{
    let with = seq![c];
    let all = replaced(s, pat, with);
    if s.len() > 0 {
        let hit = pat.is_prefix_of(s);
        let rest = if hit {
            s.skip(pat.len() as int)
        } else {
            s.skip(1)
        };
        let head = if hit {
            c
        } else {
            s[0]
        };
        let off = s.len() - rest.len();
        assert forall|i: int| !is_parent_after(Some(head), rest, i) by {
            if is_parent_after(Some(head), rest, i) {
                assert(rest[i] == s[i + off]);
                assert(rest[i + 1] == s[i + 1 + off]);
                if i + 2 < rest.len() {
                    assert(rest[i + 2] == s[i + 2 + off]);
                }
                if i > 0 {
                    assert(rest[i - 1] == s[i - 1 + off]);
                }
                assert(is_parent_after(before, s, i + off));
            }
        }
        lemma_escape_adds_no_step(Some(head), rest, pat, c);
        let tail = replaced(rest, pat, with);
        assert(all =~= seq![head] + tail);
        lemma_replaced_front(rest, pat, c);
        assert forall|i: int| !is_parent_after(before, all, i) by {
            if is_parent_after(before, all, i) {
                if i == 0 {
                    assert(all[1] == tail[0]);
                    assert(rest[0] == s[1]);
                    let further = rest.skip(1);
                    lemma_replaced_front(further, pat, c);
                    let beyond = replaced(further, pat, with);
                    assert(tail =~= seq![rest[0]] + beyond);
                    if all.len() > 2 {
                        assert(all[2] == beyond[0]);
                        assert(further[0] == s[2]);
                    }
                    assert(is_parent_after(before, s, 0));
                } else {
                    assert(all[i] == tail[i - 1]);
                    assert(all[i + 1] == tail[i]);
                    assert(all[i - 1] == if i == 1 {
                        head
                    } else {
                        tail[i - 2]
                    });
                    if i + 2 < all.len() {
                        assert(all[i + 2] == tail[i + 1]);
                    }
                    assert(is_parent_after(Some(head), tail, i - 1));
                }
            }
        }
    }
}

/// Whatever the request path, the file it stands for is relative and has no
/// component that is a step to the parent directory: joined to the served
/// root, it names nothing outside the root.
pub proof fn file_stays_below_root(path: Seq<char>)
    ensures
        is_relative(file_for(path)),
        has_no_parent_step(file_for(path)),
{
    reveal_strlit("index.html");
    let index = index_file();
    let kept = without_parent_steps(path);
    lemma_steps_are_gone(path);
    assert forall|i: int| !is_parent_after(None, kept, i) by {
        if is_parent_after(None, kept, i) {
            assert(is_parent_at(kept, i));
        }
    }
    lemma_escape_adds_no_step(None, kept, escaped_space(), ' ');
    let clean = cleaned(path);
    let slash = only('/');
    lemma_leading(clean, slash);
    let lead = leading(clean, slash) as int;
    let front = strip_start(clean, slash);
    assert forall|i: int| !is_parent_at(front, i) by {
        if is_parent_at(front, i) {
            if i == 0 && lead > 0 {
                assert(slash(clean[lead - 1]));
            }
            assert(is_parent_after(None, clean, i + lead));
        }
    }
    if clean.len() > 0 && clean.last() == '/' {
        let file = front + index;
        assert forall|i: int| !is_parent_at(file, i) by {
            if is_parent_at(file, i) {
                if i + 2 < front.len() {
                    assert(is_parent_at(front, i));
                } else if i + 1 < front.len() {
                    assert(file[i + 2] == index[i + 2 - front.len()]);
                } else if i < front.len() {
                    assert(front[i] == clean.last());
                } else {
                    assert(file[i] == index[i - front.len()]);
                    assert(file[i + 1] == index[i + 1 - front.len()]);
                }
            }
        }
        assert(file_for(path) == file);
    } else {
        lemma_trailing(front, slash);
        let file = strip_end(front, slash);
        assert forall|i: int| !is_parent_at(file, i) by {
            if is_parent_at(file, i) {
                if i + 2 == file.len() && file.len() < front.len() {
                    assert(slash(front[i + 2]));
                }
                assert(is_parent_at(front, i));
            }
        }
        assert(file_for(path) == file);
    }
}

/// The one character `c` is first found in `front + [c] + back` right
/// after `front`, when `front` does not hold it.
proof fn lemma_found_after(front: Seq<char>, c: char, back: Seq<char>)
    requires
        forall|i: int| 0 <= i < front.len() ==> front[i] != c,
    ensures
        first_index(front + seq![c] + back, seq![c]) == front.len(),
        occurs(front + seq![c] + back, seq![c]),
        before(front + seq![c] + back, seq![c]) == front,
        after(front + seq![c] + back, seq![c]) == back,
{
    let all = front + seq![c] + back;
    let pat = seq![c];
    let at = front.len() as int;
    assert forall|j: int| 0 <= j < at implies !pat.is_prefix_of(#[trigger] all.skip(j)) by {
        if pat.is_prefix_of(all.skip(j)) {
            assert(all.skip(j).subrange(0, 1)[0] == pat[0]);
            assert(all[j] == front[j]);
        }
    }
    assert(pat =~= all.skip(at).subrange(0, 1));
    lemma_first_index(all, pat, at);
    assert(all.take(at) =~= front);
    assert(all.skip(at + 1) =~= back);
}

/// The one character `c` is found nowhere in a text that does not hold it.
proof fn lemma_not_found(s: Seq<char>, c: char)
    requires
        forall|i: int| 0 <= i < s.len() ==> s[i] != c,
    ensures
        before(s, seq![c]) == s,
{
    let pat = seq![c];
    assert forall|j: int| 0 <= j < s.len() implies !pat.is_prefix_of(#[trigger] s.skip(j)) by {
        if pat.is_prefix_of(s.skip(j)) {
            assert(s.skip(j).subrange(0, 1)[0] == pat[0]);
        }
    }
    lemma_first_index(s, pat, s.len() as int);
    assert(s.take(s.len() as int) =~= s);
}

/// A request line made of a method, a path and whatever follows, parted by
/// single spaces, asks for that path: the method and the path hold no
/// space, and the path has no white space at its ends and no parameters.
pub proof fn request_line_names_its_path(method: Seq<char>, path: Seq<char>, rest: Seq<char>)
    requires
        forall|i: int| 0 <= i < method.len() ==> method[i] != ' ',
        forall|i: int| 0 <= i < path.len() ==> path[i] != ' ' && path[i] != '?',
        trimmed(path) == path,
    ensures
        requested_path(method + space() + path + space() + rest) == Some(path),
{
    let request = method + space() + path + space() + rest;
    let tail = path + space() + rest;
    assert(request =~= method + seq![' '] + tail);
    lemma_found_after(method, ' ', tail);
    lemma_found_after(path, ' ', rest);
    lemma_not_found(path, '?');
}

/// A request for `/` is answered from the index file of the served root,
/// whatever its method and whatever follows the path.
pub proof fn root_is_served_from_index(method: Seq<char>, rest: Seq<char>)
    requires
        forall|i: int| 0 <= i < method.len() ==> method[i] != ' ',
    ensures
        requested_path(method + space() + seq!['/'] + space() + rest) == Some(seq!['/']),
        file_for(seq!['/']) == index_file(),
        extension(index_file()) == Some("html"@),
{
    let root = seq!['/'];
    let nothing = Seq::<char>::empty();
    assert(root.skip(1) =~= nothing);
    assert(root.drop_last() =~= nothing);
    assert(leading(root.skip(1), crate::text::any_space()) == 0);
    assert(crate::text::strip_start(root, crate::text::any_space()) =~= root);
    assert(trimmed(root) =~= root);
    request_line_names_its_path(method, root, rest);
    assert(first_index(root.skip(1), parent_step()) == 0);
    assert(!occurs(root, parent_step()));
    assert(without_parent_steps(root) == root);
    assert(replaced(root.skip(1), escaped_space(), space()) == nothing);
    assert(cleaned(root) =~= root);
    assert(leading(root.skip(1), only('/')) == 0);
    assert(without_leading(root, '/') =~= nothing);
    assert(file_for(root) =~= index_file());
    reveal_strlit("index.html");
    reveal_strlit("html");
    let index = index_file();
    reveal_with_fuel(name_start, 11);
    reveal_with_fuel(last_dot, 5);
    assert(index.drop_last().drop_last().drop_last().drop_last() =~= index.take(6));
    assert(last_dot(index) == 5);
    assert(name_start(index) == 0) by {
        lemma_name_without_slash(index);
    }
    assert(file_name(index) =~= index);
    assert(index.skip(6) =~= "html"@);
}

/// A path without a slash is all name.
proof fn lemma_name_without_slash(file: Seq<char>)
    requires
        forall|i: int| 0 <= i < file.len() ==> file[i] != '/',
    ensures
        name_start(file) == 0,
    decreases file.len(),
{
    if file.len() > 0 {
        lemma_name_without_slash(file.drop_last());
    }
}

/// A file without extension that is not there is looked for once more,
/// with `.html` put after its name; the file then found is served as a
/// page, and one not found ends the search.
pub proof fn missing_page_falls_back_to_sibling(file: Seq<char>)
    requires
        extension(file) is None,
    ensures
        step_after_look(false, Attempt::Named, false) == ServeStep::Look(Attempt::HtmlSibling),
        step_after_look(false, Attempt::HtmlSibling, true) == ServeStep::Send(Attempt::HtmlSibling),
        step_after_look(false, Attempt::HtmlSibling, false) == ServeStep::NotFound,
        served_extension(extension(file), Attempt::HtmlSibling) == Some("html"@),
        crate::mime::media_type(served_extension(extension(file), Attempt::HtmlSibling))
            == "text/html"@,
{
}

} // verus!
