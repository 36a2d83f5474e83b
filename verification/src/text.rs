//! Text as sequences of characters: conversions between bytes, strings and
//! character vectors, and the few string operations the protocols need.

use vstd::prelude::*;
use vstd::string::*;
use vstd::utf8::*;

verus! {

/// Reads `bytes` as UTF-8 text.
///
/// Stands for `std::str::from_utf8`: the text is handed out exactly when
/// the bytes are well-formed UTF-8, and it is then the text they encode.
#[verifier::external_body]
pub(crate) fn utf8_text(bytes: &[u8]) -> (text: Option<&str>)
    ensures
        text is Some <==> valid_utf8(bytes@),
        text matches Some(s) ==> s@ == decode_utf8(bytes@),
{
    match std::str::from_utf8(bytes) {
        Ok(s) => Some(s),
        Err(_) => None,
    }
}

/// Whether `bytes` are well-formed UTF-8 text.
pub fn is_text(bytes: &[u8]) -> (yes: bool)
    ensures
        yes == valid_utf8(bytes@),
{
    utf8_text(bytes).is_some()
}

/// Appends one character to `s`. Stands for `String::push`.
#[verifier::external_body]
pub(crate) fn push_char(s: &mut String, c: char)
    ensures
        final(s)@ == old(s)@.push(c),
{
    s.push(c)
}

/// The characters of `s`, in order.
pub fn to_chars(s: &str) -> (chars: Vec<char>)
    ensures
        chars@ == s@,
{
    let mut chars: Vec<char> = Vec::new();
    for c in it: s.chars()
        invariant
            chars@ == it.seq().take(it.index() as int),
            it.seq() == s@,
    {
        chars.push(c);
    }
    chars
}

/// The string made of `chars`, in order.
pub fn to_string(chars: &[char]) -> (s: String)
    ensures
        s@ == chars@,
{
    let mut s = String::new();
    let mut i: usize = 0;
    while i < chars.len()
        invariant
            i <= chars.len(),
            s@ == chars@.take(i as int),
        decreases chars.len() - i,
    {
        push_char(&mut s, chars[i]);
        i += 1;
    }
    s
}

/// Whether `c` is white space in the sense of the Unicode `White_Space`
/// property.
pub open spec fn is_space(c: char) -> bool {
    let n = c as u32;
    ||| 0x09 <= n <= 0x0D
    ||| n == 0x20
    ||| n == 0x85
    ||| n == 0xA0
    ||| n == 0x1680
    ||| 0x2000 <= n <= 0x200A
    ||| n == 0x2028
    ||| n == 0x2029
    ||| n == 0x202F
    ||| n == 0x205F
    ||| n == 0x3000
}

/// Whether `c` is white space.
pub fn is_whitespace(c: char) -> (b: bool)
    ensures
        b == is_space(c),
{
    let n: u32 = c as u32;
    (0x09 <= n && n <= 0x0D) || n == 0x20 || n == 0x85 || n == 0xA0 || n == 0x1680 || (0x2000 <= n
        && n <= 0x200A) || n == 0x2028 || n == 0x2029 || n == 0x202F || n == 0x205F || n == 0x3000
}

/// Index of the first place in `s` where `pat` occurs, or the length of `s`
/// when it occurs nowhere.
pub open spec fn first_index(s: Seq<char>, pat: Seq<char>) -> int
    decreases s.len(),
{
    if pat.is_prefix_of(s) || s.len() == 0 {
        0
    } else {
        1 + first_index(s.skip(1), pat)
    }
}

/// Whether `pat` occurs somewhere in `s`.
pub open spec fn occurs(s: Seq<char>, pat: Seq<char>) -> bool {
    pat.is_prefix_of(s.skip(first_index(s, pat)))
}

/// What stands in `s` before the first occurrence of `pat`: all of `s` when
/// `pat` does not occur.
pub open spec fn before(s: Seq<char>, pat: Seq<char>) -> Seq<char> {
    s.take(first_index(s, pat))
}

/// What stands in `s` after the first occurrence of `pat`. Meaningful only
/// when `pat` occurs.
pub open spec fn after(s: Seq<char>, pat: Seq<char>) -> Seq<char> {
    s.skip(first_index(s, pat) + pat.len())
}

/// `s` with every occurrence of `pat` replaced by `with`, occurrences being
/// taken from the left and never overlapping. An empty `pat` occurs nowhere.
pub open spec fn replaced(s: Seq<char>, pat: Seq<char>, with: Seq<char>) -> Seq<char>
    decreases s.len(),
{
    if s.len() == 0 || pat.len() == 0 {
        s
    } else if pat.is_prefix_of(s) {
        with + replaced(s.skip(pat.len() as int), pat, with)
    } else {
        seq![s[0]] + replaced(s.skip(1), pat, with)
    }
}

/// How many characters at the front of `s` satisfy `p`.
pub open spec fn leading(s: Seq<char>, p: spec_fn(char) -> bool) -> nat
    decreases s.len(),
{
    if s.len() > 0 && p(s[0]) {
        1 + leading(s.skip(1), p)
    } else {
        0
    }
}

/// How many characters at the back of `s` satisfy `p`.
pub open spec fn trailing(s: Seq<char>, p: spec_fn(char) -> bool) -> nat
    decreases s.len(),
{
    if s.len() > 0 && p(s.last()) {
        1 + trailing(s.drop_last(), p)
    } else {
        0
    }
}

/// `s` without the characters at its front that satisfy `p`.
pub open spec fn strip_start(s: Seq<char>, p: spec_fn(char) -> bool) -> Seq<char> {
    s.skip(leading(s, p) as int)
}

/// `s` without the characters at its back that satisfy `p`.
pub open spec fn strip_end(s: Seq<char>, p: spec_fn(char) -> bool) -> Seq<char> {
    s.take(s.len() - trailing(s, p))
}

/// `s` without the characters at either end that satisfy `p`.
pub open spec fn strip(s: Seq<char>, p: spec_fn(char) -> bool) -> Seq<char> {
    strip_end(strip_start(s, p), p)
}

/// The test "is white space".
pub open spec fn any_space() -> spec_fn(char) -> bool {
    |c: char| is_space(c)
}

/// The test "is the character `c`".
pub open spec fn only(c: char) -> spec_fn(char) -> bool {
    |x: char| x == c
}

/// `s` without white space at either end.
pub open spec fn trimmed(s: Seq<char>) -> Seq<char> {
    strip(s, any_space())
}

/// `s` without the character `c` at its front.
pub open spec fn without_leading(s: Seq<char>, c: char) -> Seq<char> {
    strip_start(s, only(c))
}

/// `s` without the character `c` at either end.
pub open spec fn without_surrounding(s: Seq<char>, c: char) -> Seq<char> {
    strip(s, only(c))
}

/// `first_index` is the one index before which `pat` never starts and at
/// which it does, or the length of `s`.
pub proof fn lemma_first_index(s: Seq<char>, pat: Seq<char>, i: int)
    requires
        0 <= i <= s.len(),
        forall|j: int| 0 <= j < i ==> !pat.is_prefix_of(#[trigger] s.skip(j)),
        i == s.len() || pat.is_prefix_of(s.skip(i)),
    ensures
        first_index(s, pat) == i,
    decreases i,
{
    assert(s.skip(0) =~= s);
    if i > 0 {
        let rest = s.skip(1);
        assert forall|j: int| 0 <= j < i - 1 implies !pat.is_prefix_of(#[trigger] rest.skip(j)) by {
            assert(rest.skip(j) =~= s.skip(j + 1));
        }
        assert(rest.skip(i - 1) =~= s.skip(i));
        lemma_first_index(rest, pat, i - 1);
    }
}

/// `first_index` lies within `s`, `pat` starts nowhere before it, and a
/// `pat` that occurs lies wholly inside `s`.
pub proof fn lemma_first_index_bounds(s: Seq<char>, pat: Seq<char>)
    ensures
        0 <= first_index(s, pat) <= s.len(),
        forall|j: int| 0 <= j < first_index(s, pat) ==> !pat.is_prefix_of(#[trigger] s.skip(j)),
        occurs(s, pat) ==> first_index(s, pat) + pat.len() <= s.len(),
        !occurs(s, pat) ==> first_index(s, pat) == s.len(),
    decreases s.len(),
{
    assert(s.skip(0) =~= s);
    if pat.is_prefix_of(s) || s.len() == 0 {
    } else {
        let rest = s.skip(1);
        lemma_first_index_bounds(rest, pat);
        let k = first_index(rest, pat);
        assert(rest.skip(k) =~= s.skip(k + 1));
        assert forall|j: int| 0 <= j < k + 1 implies !pat.is_prefix_of(#[trigger] s.skip(j)) by {
            if j > 0 {
                assert(rest.skip(j - 1) =~= s.skip(j));
            }
        }
    }
}

/// A pattern that does not occur starts at no index.
pub proof fn lemma_absent(s: Seq<char>, pat: Seq<char>)
    requires
        pat.len() > 0,
        !occurs(s, pat),
    ensures
        forall|j: int| 0 <= j <= s.len() ==> !pat.is_prefix_of(#[trigger] s.skip(j)),
{
    lemma_first_index_bounds(s, pat);
}

/// Taking a pattern out never makes a text longer, and makes it shorter
/// when the pattern occurs.
pub proof fn lemma_removal_shortens(s: Seq<char>, pat: Seq<char>)
    requires
        pat.len() > 0,
    ensures
        replaced(s, pat, Seq::<char>::empty()).len() <= s.len(),
        occurs(s, pat) ==> replaced(s, pat, Seq::<char>::empty()).len() < s.len(),
    decreases s.len(),
{
    assert(s.skip(0) =~= s);
    if s.len() > 0 {
        if pat.is_prefix_of(s) {
            lemma_removal_shortens(s.skip(pat.len() as int), pat);
        } else {
            let rest = s.skip(1);
            lemma_removal_shortens(rest, pat);
            lemma_first_index_bounds(rest, pat);
            assert(rest.skip(first_index(rest, pat)) =~= s.skip(first_index(s, pat)));
        }
    }
}

/// Replacing a pattern by one character leaves an empty text empty, and
/// lets any other begin with that character where the pattern stood at its
/// front and with its own first character elsewhere.
pub proof fn lemma_replaced_front(s: Seq<char>, pat: Seq<char>, c: char)
    requires
        pat.len() > 0,
    ensures
        s.len() == 0 ==> replaced(s, pat, seq![c]).len() == 0,
        s.len() > 0 ==> replaced(s, pat, seq![c]).len() > 0 && replaced(s, pat, seq![c])[0] == (if pat.is_prefix_of(
            s,
        ) {
            c
        } else {
            s[0]
        }),
{
}

/// The characters counted at the front of `s` all satisfy `p`, and the one
/// after them does not.
pub proof fn lemma_leading(s: Seq<char>, p: spec_fn(char) -> bool)
    ensures
        leading(s, p) <= s.len(),
        forall|j: int| 0 <= j < leading(s, p) ==> p(#[trigger] s[j]),
        leading(s, p) < s.len() ==> !p(s[leading(s, p) as int]),
    decreases s.len(),
{
    if s.len() > 0 && p(s[0]) {
        let rest = s.skip(1);
        lemma_leading(rest, p);
        assert forall|j: int| 0 <= j < leading(s, p) implies p(#[trigger] s[j]) by {
            if j > 0 {
                assert(rest[j - 1] == s[j]);
            }
        }
    }
}

/// The characters counted at the back of `s` all satisfy `p`.
pub proof fn lemma_trailing(s: Seq<char>, p: spec_fn(char) -> bool)
    ensures
        trailing(s, p) <= s.len(),
        forall|j: int| s.len() - trailing(s, p) <= j < s.len() ==> p(#[trigger] s[j]),
    decreases s.len(),
{
    if s.len() > 0 && p(s.last()) {
        let rest = s.drop_last();
        lemma_trailing(rest, p);
        assert forall|j: int| s.len() - trailing(s, p) <= j < s.len() implies p(
            #[trigger] s[j],
        ) by {
            if j < s.len() - 1 {
                assert(rest[j] == s[j]);
            }
        }
    }
}

/// Whether `pat` stands in `s` at index `at`.
fn starts_with_at(s: &[char], at: usize, pat: &[char]) -> (b: bool)
    requires
        at <= s.len(),
    ensures
        b == pat@.is_prefix_of(s@.skip(at as int)),
{
    if pat.len() > s.len() - at {
        return false;
    }
    let mut k: usize = 0;
    while k < pat.len()
        invariant
            at + pat.len() <= s.len(),
            k <= pat.len(),
            forall|j: int| 0 <= j < k ==> pat@[j] == s@[at + j],
        decreases pat.len() - k,
    {
        if pat[k] != s[at + k] {
            assert(s@.skip(at as int).subrange(0, pat@.len() as int)[k as int] == s@[at + k]);
            return false;
        }
        k += 1;
    }
    assert(pat@ =~= s@.skip(at as int).subrange(0, pat@.len() as int));
    true
}

/// Whether `a` and `b` hold the same characters.
pub fn same(a: &[char], b: &[char]) -> (eq: bool)
    ensures
        eq == (a@ == b@),
{
    if a.len() != b.len() {
        return false;
    }
    let eq = starts_with_at(a, 0, b);
    proof {
        assert(a@.skip(0) =~= a@);
        assert(a@.subrange(0, a@.len() as int) =~= a@);
    }
    eq
}

/// Index of the first occurrence of `pat` in `s`, or the length of `s`.
/// For a non-empty `pat`, the length of `s` comes back exactly when `pat`
/// does not occur.
pub fn find(s: &[char], pat: &[char]) -> (at: usize)
    ensures
        at == first_index(s@, pat@),
        at <= s.len(),
        pat@.len() > 0 ==> (occurs(s@, pat@) <==> at < s.len()),
        occurs(s@, pat@) ==> at + pat@.len() <= s.len(),
{
    proof {
        lemma_first_index_bounds(s@, pat@);
    }
    let mut i: usize = 0;
    while i < s.len()
        invariant
            i <= s.len(),
            forall|j: int| 0 <= j < i ==> !pat@.is_prefix_of(#[trigger] s@.skip(j)),
        decreases s.len() - i,
    {
        if starts_with_at(s, i, pat) {
            proof {
                lemma_first_index(s@, pat@, i as int);
            }
            return i;
        }
        i += 1;
    }
    proof {
        lemma_first_index(s@, pat@, i as int);
    }
    i
}

/// `s` with every occurrence of `pat` replaced by `with`. An empty `pat`
/// occurs nowhere.
pub fn replace(s: &[char], pat: &[char], with: &[char]) -> (out: Vec<char>)
    ensures
        out@ == replaced(s@, pat@, with@),
{
    if pat.len() == 0 {
        return vstd::slice::slice_to_vec(s);
    }
    let mut out: Vec<char> = Vec::new();
    let mut i: usize = 0;
    assert(s@.skip(0) =~= s@);
    while i < s.len()
        invariant
            i <= s.len(),
            pat.len() > 0,
            replaced(s@, pat@, with@) == out@ + replaced(s@.skip(i as int), pat@, with@),
        decreases s.len() - i,
    {
        let ghost rest = s@.skip(i as int);
        let ghost done = out@;
        if starts_with_at(s, i, pat) {
            out.extend_from_slice(with);
            i += pat.len();
            proof {
                assert(rest.skip(pat@.len() as int) =~= s@.skip(i as int));
                assert(out@ + replaced(s@.skip(i as int), pat@, with@) =~= done + (with@ + replaced(
                    rest.skip(pat@.len() as int),
                    pat@,
                    with@,
                )));
            }
        } else {
            out.push(s[i]);
            i += 1;
            proof {
                assert(rest.skip(1) =~= s@.skip(i as int));
                assert(out@ + replaced(s@.skip(i as int), pat@, with@) =~= done + (seq![rest[0]]
                    + replaced(rest.skip(1), pat@, with@)));
            }
        }
    }
    assert(out@ + replaced(s@.skip(i as int), pat@, with@) =~= out@);
    out
}

fn count_leading<F: Fn(char) -> bool>(
    s: &[char],
    from: usize,
    to: usize,
    test: &F,
    Ghost(p): Ghost<spec_fn(char) -> bool>,
) -> (n: usize)
    requires
        from <= to <= s.len(),
        forall|c: char| call_requires(test, (c,)),
        forall|c: char, b: bool| call_ensures(test, (c,), b) ==> b == p(c),
    ensures
        n == leading(s@.subrange(from as int, to as int), p),
        n <= to - from,
{
    let mut i: usize = from;
    let ghost whole = s@.subrange(from as int, to as int);
    assert(whole.skip(0) =~= whole);
    while i < to
        invariant
            from <= i <= to <= s.len(),
            whole == s@.subrange(from as int, to as int),
            forall|c: char| call_requires(test, (c,)),
            forall|c: char, b: bool| call_ensures(test, (c,), b) ==> b == p(c),
            leading(whole, p) == (i - from) + leading(whole.skip(i - from), p),
        decreases to - i,
    {
        let ghost rest = whole.skip(i - from);
        assert(rest[0] == s@[i as int]);
        if !test(s[i]) {
            return i - from;
        }
        assert(rest.skip(1) =~= whole.skip(i + 1 - from));
        i += 1;
    }
    i - from
}

fn count_trailing<F: Fn(char) -> bool>(
    s: &[char],
    from: usize,
    to: usize,
    test: &F,
    Ghost(p): Ghost<spec_fn(char) -> bool>,
) -> (n: usize)
    requires
        from <= to <= s.len(),
        forall|c: char| call_requires(test, (c,)),
        forall|c: char, b: bool| call_ensures(test, (c,), b) ==> b == p(c),
    ensures
        n == trailing(s@.subrange(from as int, to as int), p),
        n <= to - from,
{
    let mut i: usize = to;
    let ghost whole = s@.subrange(from as int, to as int);
    assert(whole.take(whole.len() as int) =~= whole);
    while i > from
        invariant
            from <= i <= to <= s.len(),
            whole == s@.subrange(from as int, to as int),
            forall|c: char| call_requires(test, (c,)),
            forall|c: char, b: bool| call_ensures(test, (c,), b) ==> b == p(c),
            trailing(whole, p) == (to - i) + trailing(whole.take(i - from), p),
        decreases i - from,
    {
        let ghost rest = whole.take(i - from);
        assert(rest.last() == s@[i - 1]);
        if !test(s[i - 1]) {
            return to - i;
        }
        assert(rest.drop_last() =~= whole.take(i - 1 - from));
        i -= 1;
    }
    to - i
}

/// `s` without white space at either end.
pub fn trim(s: &[char]) -> (out: &[char])
    ensures
        out@ == trimmed(s@),
{
    let test = |c: char| -> (b: bool)
        ensures
            b == is_space(c),
        { is_whitespace(c) };
    let ghost p = any_space();
    assert(s@.subrange(0, s@.len() as int) =~= s@);
    let a = count_leading(s, 0, s.len(), &test, Ghost(p));
    assert(s@.subrange(a as int, s@.len() as int) =~= s@.skip(a as int));
    let b = count_trailing(s, a, s.len(), &test, Ghost(p));
    assert(s@.subrange(a as int, s@.len() - b) =~= s@.skip(a as int).take(s@.len() - a - b));
    &s[a..s.len() - b]
}

/// `s` without the character `c` at its front.
pub fn trim_start_matches(s: &[char], c: char) -> (out: &[char])
    ensures
        out@ == without_leading(s@, c),
{
    let test = |x: char| -> (b: bool)
        ensures
            b == (x == c),
        { x == c };
    let ghost p = only(c);
    assert(s@.subrange(0, s@.len() as int) =~= s@);
    let a = count_leading(s, 0, s.len(), &test, Ghost(p));
    assert(s@.subrange(a as int, s@.len() as int) =~= s@.skip(a as int));
    &s[a..s.len()]
}

/// `s` without the character `c` at either end.
pub fn trim_matches(s: &[char], c: char) -> (out: &[char])
    ensures
        out@ == without_surrounding(s@, c),
{
    let test = |x: char| -> (b: bool)
        ensures
            b == (x == c),
        { x == c };
    let ghost p = only(c);
    assert(s@.subrange(0, s@.len() as int) =~= s@);
    let a = count_leading(s, 0, s.len(), &test, Ghost(p));
    assert(s@.subrange(a as int, s@.len() as int) =~= s@.skip(a as int));
    let b = count_trailing(s, a, s.len(), &test, Ghost(p));
    assert(s@.subrange(a as int, s@.len() - b) =~= s@.skip(a as int).take(s@.len() - a - b));
    &s[a..s.len() - b]
}

} // verus!
