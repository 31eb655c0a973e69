use vstd::prelude::*;
use vstd::string::{StrSliceExecFns, StringExecFns};
use crate::decimal::{decimal_digits, law_decimal_digits_stand_for_their_number, push_decimal, reads_as_number};

verus! {

/// The text of a response: its status line, a JSON content type, the length of the
/// body in bytes, a blank line, and the body.
pub open spec fn response(status: u64, reason: Seq<char>, body: &str) -> Seq<char> {
    "HTTP/1.1 "@ + decimal_digits(status as nat) + " "@ + reason
        + "\r\nContent-Type: application/json\r\nContent-Length: "@ + decimal_digits(
        body.len() as nat,
    ) + "\r\n\r\n"@ + body@
}

/// Writes a response with the given status, reason and JSON body.
pub fn response_text(status: u64, reason: &str, body: &str) -> (text: String)
    ensures
        text@ == response(status, reason@, body),
{
    let mut text = "HTTP/1.1 ".to_owned();
    push_decimal(&mut text, status);
    text.append(" ");
    text.append(reason);
    text.append("\r\nContent-Type: application/json\r\nContent-Length: ");
    let len = body.len();
    push_decimal(&mut text, len as u64);
    text.append("\r\n\r\n");
    text.append(body);
    assert(text@ =~= response(status, reason@, body));
    text
}

/// A request as the server sees it: the method and path of its request line, and
/// the body that follows the blank line.
#[derive(Debug)]
pub struct Request {
    pub method: String,
    pub path: String,
    pub body: String,
}

impl Clone for Request {
    fn clone(&self) -> (copy: Self)
        ensures
            copy == *self,
    {
        Request { method: self.method.clone(), path: self.path.clone(), body: self.body.clone() }
    }
}

/// The first position at or after `i` that holds a line break (`\r` or `\n`), or the
/// length of `s` where there is none.
pub open spec fn line_end(s: Seq<char>, i: int) -> int
    decreases s.len() - i,
{
    if i < 0 || i >= s.len() {
        s.len() as int
    } else if s[i] == '\r' || s[i] == '\n' {
        i
    } else {
        line_end(s, i + 1)
    }
}

/// The first position in `[i, end)` that holds a space, or `end` where there is none.
pub open spec fn space_before(s: Seq<char>, i: int, end: int) -> int
    decreases end - i,
{
    if i < 0 || i >= end || end > s.len() {
        end
    } else if s[i] == ' ' {
        i
    } else {
        space_before(s, i + 1, end)
    }
}

/// Whether the four characters at `i` are `\r\n\r\n`.
pub open spec fn blank_line_at(s: Seq<char>, i: int) -> bool {
    &&& 0 <= i
    &&& i + 4 <= s.len()
    &&& s[i] == '\r'
    &&& s[i + 1] == '\n'
    &&& s[i + 2] == '\r'
    &&& s[i + 3] == '\n'
}

/// The first position at or after `i` where `\r\n\r\n` starts, or the length of `s`
/// where there is none.
pub open spec fn blank_line(s: Seq<char>, i: int) -> int
    decreases s.len() - i,
{
    if i < 0 || i >= s.len() {
        s.len() as int
    } else if blank_line_at(s, i) {
        i
    } else {
        blank_line(s, i + 1)
    }
}

/// The method: the request line up to its first space.
pub open spec fn request_method(s: Seq<char>) -> Seq<char> {
    s.subrange(0, space_before(s, 0, line_end(s, 0)))
}

/// The path: what stands between the first and the second space of the request
/// line, or nothing where the line has no space.
pub open spec fn request_path(s: Seq<char>) -> Seq<char> {
    let end = line_end(s, 0);
    let first = space_before(s, 0, end);
    if first >= end {
        Seq::empty()
    } else {
        s.subrange(first + 1, space_before(s, first + 1, end))
    }
}

/// The body: everything after the first `\r\n\r\n`, or nothing where there is none.
pub open spec fn request_body(s: Seq<char>) -> Seq<char> {
    let b = blank_line(s, 0);
    if b >= s.len() {
        Seq::empty()
    } else {
        s.subrange(b + 4, s.len() as int)
    }
}

proof fn lemma_line_end_bounds(s: Seq<char>, i: int)
    requires
        0 <= i <= s.len(),
    ensures
        i <= line_end(s, i) <= s.len(),
    decreases s.len() - i,
{
    if i < s.len() && !(s[i] == '\r' || s[i] == '\n') {
        lemma_line_end_bounds(s, i + 1);
    }
}

proof fn lemma_space_before_bounds(s: Seq<char>, i: int, end: int)
    requires
        0 <= i <= end <= s.len(),
    ensures
        i <= space_before(s, i, end) <= end,
    decreases end - i,
{
    if i < end && s[i] != ' ' {
        lemma_space_before_bounds(s, i + 1, end);
    }
}

proof fn lemma_blank_line_bounds(s: Seq<char>, i: int)
    requires
        0 <= i <= s.len(),
    ensures
        i <= blank_line(s, i) <= s.len(),
        blank_line(s, i) < s.len() ==> blank_line_at(s, blank_line(s, i)),
    decreases s.len() - i,
{
    if i < s.len() && !blank_line_at(s, i) {
        lemma_blank_line_bounds(s, i + 1);
    }
}

/// Where the request line of `text` ends.
fn find_line_end(text: &str, n: usize) -> (end: usize)
    requires
        n == text@.len(),
    ensures
        end == line_end(text@, 0),
{
    let mut i: usize = 0;
    while i < n
        invariant
            n == text@.len(),
            i <= n,
            line_end(text@, 0) == line_end(text@, i as int),
        decreases n - i,
    {
        let c = text.get_char(i);
        if c == '\r' || c == '\n' {
            return i;
        }
        i = i + 1;
    }
    i
}

/// Where the first space in `[from, end)` of `text` stands, or `end`.
fn find_space(text: &str, from: usize, end: usize) -> (pos: usize)
    requires
        from <= end <= text@.len(),
    ensures
        pos == space_before(text@, from as int, end as int),
{
    let mut i: usize = from;
    while i < end
        invariant
            from <= i <= end <= text@.len(),
            space_before(text@, from as int, end as int) == space_before(
                text@,
                i as int,
                end as int,
            ),
        decreases end - i,
    {
        if text.get_char(i) == ' ' {
            return i;
        }
        i = i + 1;
    }
    i
}

/// Where the first `\r\n\r\n` of `text` starts, or its length.
fn find_blank_line(text: &str, n: usize) -> (pos: usize)
    requires
        n == text@.len(),
    ensures
        pos == blank_line(text@, 0),
{
    let mut i: usize = 0;
    while i < n
        invariant
            n == text@.len(),
            i <= n,
            blank_line(text@, 0) == blank_line(text@, i as int),
        decreases n - i,
    {
        if n - i >= 4 && text.get_char(i) == '\r' && text.get_char(i + 1) == '\n'
            && text.get_char(i + 2) == '\r' && text.get_char(i + 3) == '\n' {
            return i;
        }
        i = i + 1;
    }
    i
}

impl Request {
    /// Reads the method, the path and the body out of the text of a request.
    pub fn parse(text: &str) -> (req: Request)
        ensures
            req.method@ == request_method(text@),
            req.path@ == request_path(text@),
            req.body@ == request_body(text@),
    {
        let n = text.unicode_len();
        let end = find_line_end(text, n);
        proof {
            lemma_line_end_bounds(text@, 0);
        }
        let first = find_space(text, 0, end);
        proof {
            lemma_space_before_bounds(text@, 0, end as int);
        }
        let method = text.substring_char(0, first).to_owned();
        let path = if first >= end {
            String::new()
        } else {
            let second = find_space(text, first + 1, end);
            proof {
                lemma_space_before_bounds(text@, first + 1, end as int);
            }
            text.substring_char(first + 1, second).to_owned()
        };
        let b = find_blank_line(text, n);
        proof {
            lemma_blank_line_bounds(text@, 0);
        }
        let body = if b >= n {
            String::new()
        } else {
            text.substring_char(b + 4, n).to_owned()
        };
        Request { method, path, body }
    }
}

} // verus!

verus! {

proof fn lemma_line_end_at(s: Seq<char>, i: int, j: int)
    requires
        0 <= i <= j <= s.len(),
        forall|k: int| i <= k < j ==> s[k] != '\r' && s[k] != '\n',
        j == s.len() || s[j] == '\r' || s[j] == '\n',
    ensures
        line_end(s, i) == j,
    decreases j - i,
{
    if i < j {
        lemma_line_end_at(s, i + 1, j);
    }
}

proof fn lemma_space_before_at(s: Seq<char>, i: int, j: int, end: int)
    requires
        0 <= i <= j <= end <= s.len(),
        forall|k: int| i <= k < j ==> s[k] != ' ',
        j == end || s[j] == ' ',
    ensures
        space_before(s, i, end) == j,
    decreases j - i,
{
    if i < j {
        lemma_space_before_at(s, i + 1, j, end);
    }
}

proof fn lemma_blank_line_at(s: Seq<char>, i: int, j: int)
    requires
        0 <= i <= j < s.len(),
        forall|k: int| i <= k < j ==> s[k] != '\r',
        blank_line_at(s, j),
    ensures
        blank_line(s, i) == j,
    decreases j - i,
{
    if i < j {
        lemma_blank_line_at(s, i + 1, j);
    }
}

/// Whether a piece of a request line holds no space and no line break.
pub open spec fn is_token(t: Seq<char>) -> bool {
    forall|k: int| 0 <= k < t.len() ==> t[k] != ' ' && t[k] != '\r' && t[k] != '\n'
}

/// A request made of a request line `method path version`, a blank line and a body
/// is read back into its method, its path and its body.
pub proof fn law_parse_reads_back_a_request(
    method: Seq<char>,
    path: Seq<char>,
    version: Seq<char>,
    body: Seq<char>,
)
    requires
        is_token(method),
        is_token(path),
        forall|k: int| 0 <= k < version.len() ==> version[k] != '\r' && version[k] != '\n',
    ensures
        ({
            let text = method + seq![' '] + path + seq![' '] + version + seq!['\r', '\n', '\r', '\n']
                + body;
            &&& request_method(text) == method
            &&& request_path(text) == path
            &&& request_body(text) == body
        }),
{
    let text = method + seq![' '] + path + seq![' '] + version + seq!['\r', '\n', '\r', '\n'] + body;
    let l = method.len() as int;
    let p = path.len() as int;
    let e = l + p + 2 + version.len();
    assert forall|k: int| 0 <= k < l implies text[k] == method[k] by {}
    assert forall|k: int| l + 1 <= k < l + 1 + p implies text[k] == path[k - l - 1] by {}
    assert forall|k: int| l + 2 + p <= k < e implies text[k] == version[k - l - 2 - p] by {}
    assert(text[l] == ' ');
    assert(text[l + 1 + p] == ' ');
    assert(text[e] == '\r' && text[e + 1] == '\n' && text[e + 2] == '\r' && text[e + 3] == '\n');
    assert forall|k: int| 0 <= k < e implies text[k] != '\r' && text[k] != '\n' by {
        if k < l {
        } else if k == l {
        } else if k < l + 1 + p {
        } else if k == l + 1 + p {
        } else {
        }
    }
    lemma_line_end_at(text, 0, e);
    lemma_space_before_at(text, 0, l, e);
    lemma_space_before_at(text, l + 1, l + 1 + p, e);
    lemma_blank_line_at(text, 0, e);
    assert(text.subrange(0, l) =~= method);
    assert(text.subrange(l + 1, l + 1 + p) =~= path);
    assert(text.subrange(e + 4, text.len() as int) =~= body);
}

/// A response starts with `HTTP/1.1`, the status written in decimal and the reason;
/// it declares JSON, gives as Content-Length text that reads back as the body's
/// length in bytes, and ends with a blank line and the body.
pub proof fn law_response_declares_status_and_body_length(
    status: u64,
    reason: Seq<char>,
    body: &str,
)
    ensures
        exists|status_text: Seq<char>, length_text: Seq<char>|
            #![trigger reads_as_number(status_text, status as int), reads_as_number(length_text, body.len() as int)]
            {
                &&& reads_as_number(status_text, status as int)
                &&& reads_as_number(length_text, body.len() as int)
                &&& response(status, reason, body) == "HTTP/1.1 "@ + status_text + " "@ + reason
                    + "\r\nContent-Type: application/json\r\nContent-Length: "@ + length_text
                    + "\r\n\r\n"@ + body@
            },
{
    law_decimal_digits_stand_for_their_number(status as nat);
    law_decimal_digits_stand_for_their_number(body.len() as nat);
    assert(reads_as_number(decimal_digits(status as nat), status as int));
    assert(reads_as_number(decimal_digits(body.len() as nat), body.len() as int));
}

} // verus!
