//! An incoming request, read from the text of its head.
//!
//! Whoever talks to the network reads the request line and the header lines
//! and hands them over as text. What they mean is decided here: the route,
//! the query parameters, and how long the body is.

use crate::payment::{BodyView, PaymentBody};
use crate::text::{
    after, before, chars_of, read_u64, same_text, scan, scan_back, span, trimmed, u64_of, Run,
};
use crate::wire::{body_of_document, decode_body};
use vstd::prelude::*;
use vstd::string::{StrSliceExecFns, StringExecFns};

verus! {

/// An incoming request.
#[derive(Debug, PartialEq, Eq)]
pub struct Request {
    /// The method and the path without its query, with one space between;
    /// empty when the request line gives no two words.
    pub route: String,
    /// The query parameters, in the order in which the path gives them.
    pub params: Vec<(String, String)>,
    /// The decoded body, if the request has one that can be read.
    pub body: Option<PaymentBody>,
}

/// The mathematical content of a [`Request`].
pub struct HttpView {
    pub route: Seq<char>,
    pub params: Seq<(Seq<char>, Seq<char>)>,
    pub body: Option<BodyView>,
}

/// The contents of a list of parameters.
pub open spec fn params_view(params: Seq<(String, String)>) -> Seq<(Seq<char>, Seq<char>)> {
    Seq::new(params.len(), |i: int| (params[i].0@, params[i].1@))
}

impl View for Request {
    type V = HttpView;

    open spec fn view(&self) -> HttpView {
        HttpView {
            route: self.route@,
            params: params_view(self.params@),
            body: match self.body {
                Some(body) => Some(body@),
                None => None,
            },
        }
    }
}

/// The first word of a text: what stands between the white space at its
/// start and the next white space.
pub open spec fn first_word(text: Seq<char>) -> Seq<char> {
    let rest = text.skip(span(text, Run::Spaces) as int);
    rest.take(span(rest, Run::Word) as int)
}

/// What follows the first word of a text.
pub open spec fn after_first_word(text: Seq<char>) -> Seq<char> {
    let rest = text.skip(span(text, Run::Spaces) as int);
    rest.skip(span(rest, Run::Word) as int)
}

/// The parameter that one piece of a query gives: the name before the
/// first `=` and the value after it. A piece without `=` gives none.
pub open spec fn param_of(piece: Seq<char>) -> Seq<(Seq<char>, Seq<char>)> {
    match after(piece, '=') {
        Some(value) => seq![(before(piece, '='), value)],
        None => Seq::empty(),
    }
}

/// The parameters of a query: those of its pieces, which `&` separates, in
/// order.
pub open spec fn params_of(query: Seq<char>) -> Seq<(Seq<char>, Seq<char>)>
    decreases query.len(),
    via params_of_decreases
{
    let here = param_of(before(query, '&'));
    match after(query, '&') {
        Some(rest) => here + params_of(rest),
        None => here,
    }
}

#[via_fn]
proof fn params_of_decreases(query: Seq<char>) {
}

/// The request that a request line describes.
///
/// The line's first word is the method, its second the path. The path ends
/// at its first `?`; what stands between that and the next `?` is the
/// query. A line with fewer than two words describes the empty request.
pub open spec fn request_of(line: Seq<char>) -> HttpView {
    let method = first_word(line);
    let path = first_word(after_first_word(line));
    if path.len() == 0 {
        HttpView { route: Seq::empty(), params: Seq::empty(), body: None }
    } else {
        HttpView {
            route: method + seq![' '] + before(path, '?'),
            params: match after(path, '?') {
                Some(rest) => params_of(before(rest, '?')),
                None => Seq::empty(),
            },
            body: None,
        }
    }
}

/// The value of the parameter `name`: of its last occurrence, if it occurs
/// more than once.
pub open spec fn param_in(params: Seq<(Seq<char>, Seq<char>)>, name: Seq<char>) -> Option<
    Seq<char>,
>
    decreases params.len(),
{
    if params.len() == 0 {
        None
    } else if params.last().0 == name {
        Some(params.last().1)
    } else {
        param_in(params.drop_last(), name)
    }
}

fn piece(line: &str, chars: &Vec<char>, from: usize, to: usize) -> (text: String)
    requires
        chars@ == line@,
        from <= to <= chars.len(),
    ensures
        text@ == chars@.subrange(from as int, to as int),
{
    String::from_str(line.substring_char(from, to))
}

fn read_params(line: &str, chars: &Vec<char>, from: usize, to: usize) -> (params: Vec<
    (String, String),
>)
    requires
        chars@ == line@,
        from <= to <= chars.len(),
    ensures
        params_view(params@) == params_of(chars@.subrange(from as int, to as int)),
{
    let mut params: Vec<(String, String)> = Vec::new();
    let mut at = from;
    let mut done = false;
    assert(params_view(params@) =~= Seq::empty());
    while !done
        invariant
            chars@ == line@,
            from <= at <= to <= chars.len(),
            !done ==> params_view(params@) + params_of(chars@.subrange(at as int, to as int))
                == params_of(chars@.subrange(from as int, to as int)),
            done ==> params_view(params@) == params_of(chars@.subrange(from as int, to as int)),
        decreases to - at + if done { 0int } else { 1int },
    {
        let ghost query = chars@.subrange(at as int, to as int);
        let ghost seen = params_view(params@);
        let end = scan(chars, at, to, Run::Until('&'));
        let eq = scan(chars, at, end, Run::Until('='));
        assert(before(query, '&') =~= chars@.subrange(at as int, end as int));
        let ghost part = chars@.subrange(at as int, end as int);
        assert(before(part, '=') =~= chars@.subrange(at as int, eq as int));
        if eq < end {
            assert(after(part, '=') == Some(part.skip(eq - at + 1)));
            assert(part.skip(eq - at + 1) =~= chars@.subrange(eq + 1, end as int));
            let name = piece(line, chars, at, eq);
            let value = piece(line, chars, eq + 1, end);
            params.push((name, value));
            assert(params_view(params@) =~= seen + param_of(part));
        } else {
            assert(param_of(part) =~= Seq::empty());
            assert(params_view(params@) =~= seen + param_of(part));
        }
        if end < to {
            assert(after(query, '&') == Some(query.skip(end - at + 1)));
            assert(query.skip(end - at + 1) =~= chars@.subrange(end + 1, to as int));
            assert(seen + (param_of(part) + params_of(query.skip(end - at + 1))) =~= (seen
                + param_of(part)) + params_of(query.skip(end - at + 1)));
            assert(params_of(query) == param_of(part) + params_of(query.skip(end - at + 1)));
            at = end + 1;
        } else {
            assert(after(query, '&') is None);
            assert(seen + param_of(part) =~= params_view(params@));
            done = true;
        }
    }
    params
}

impl Request {
    /// The empty request: no route, no parameters, no body.
    pub fn new() -> (request: Self)
        ensures
            request@ == (HttpView { route: Seq::empty(), params: Seq::empty(), body: None }),
    {
        let request = Request { route: String::new(), params: Vec::new(), body: None };
        assert(params_view(request.params@) =~= Seq::empty());
        request
    }

    /// Reads a request line: see [`request_of`]. The body is left out; it
    /// is read once the headers have told its length.
    pub fn parse(line: &str) -> (request: Self)
        ensures
            request@ == request_of(line@),
    {
        let chars = chars_of(line);
        let len = chars.len();
        let method_start = scan(&chars, 0, len, Run::Spaces);
        let method_end = scan(&chars, method_start, len, Run::Word);
        let path_start = scan(&chars, method_end, len, Run::Spaces);
        let path_end = scan(&chars, path_start, len, Run::Word);
        proof {
            assert(chars@.subrange(0, len as int) =~= line@);
            assert(line@.skip(method_start as int) =~= chars@.subrange(
                method_start as int,
                len as int,
            ));
            assert(first_word(line@) =~= chars@.subrange(method_start as int, method_end as int));
            assert(after_first_word(line@) =~= chars@.subrange(method_end as int, len as int));
            let rest = after_first_word(line@);
            assert(rest.skip(path_start - method_end) =~= chars@.subrange(
                path_start as int,
                len as int,
            ));
            assert(first_word(rest) =~= chars@.subrange(path_start as int, path_end as int));
        }
        if path_start == path_end {
            return Request::new();
        }
        let ghost path = chars@.subrange(path_start as int, path_end as int);
        let base_end = scan(&chars, path_start, path_end, Run::Until('?'));
        assert(before(path, '?') =~= chars@.subrange(path_start as int, base_end as int));
        let mut route = piece(line, &chars, method_start, method_end);
        proof {
            reveal_strlit(" ");
            assert(" "@ =~= seq![' ']);
        }
        route.append(" ");
        let base = piece(line, &chars, path_start, base_end);
        route.append(base.as_str());
        let params = if base_end < path_end {
            let ghost rest = path.skip(base_end - path_start + 1);
            assert(after(path, '?') == Some(rest));
            assert(rest =~= chars@.subrange(base_end + 1, path_end as int));
            let query_end = scan(&chars, base_end + 1, path_end, Run::Until('?'));
            assert(before(rest, '?') =~= chars@.subrange(base_end + 1, query_end as int));
            read_params(line, &chars, base_end + 1, query_end)
        } else {
            let none: Vec<(String, String)> = Vec::new();
            assert(params_view(none@) =~= Seq::empty());
            none
        };
        Request { route, params, body: None }
    }

    /// The request with the body that `text` gives: none if `text` is no
    /// JSON document.
    pub fn with_body(self, text: &str) -> (request: Self)
        ensures
            request@ == (HttpView { body: body_of_document(text@), ..self@ }),
    {
        Request { route: self.route, params: self.params, body: decode_body(text) }
    }

    /// The request with what the headers and the bytes behind them give for
    /// a body. A request whose headers tell a length of 0 has no body, and
    /// stays as it is; else the body is what `text` gives.
    pub fn with_content(self, length: u64, text: &str) -> (request: Self)
        ensures
            request@ == if length == 0 {
                self@
            } else {
                HttpView { body: body_of_document(text@), ..self@ }
            },
    {
        if length == 0 {
            self
        } else {
            self.with_body(text)
        }
    }

    /// The value of the query parameter `name`: of its last occurrence, if
    /// it occurs more than once.
    pub fn param(&self, name: &str) -> (value: Option<&str>)
        ensures
            match value {
                Some(v) => param_in(self@.params, name@) == Some(v@),
                None => param_in(self@.params, name@) is None,
            },
    {
        let mut at = self.params.len();
        assert(params_view(self.params@).take(at as int) =~= params_view(self.params@));
        while at > 0
            invariant
                at <= self.params.len(),
                param_in(params_view(self.params@).take(at as int), name@) == param_in(
                    params_view(self.params@),
                    name@,
                ),
            decreases at,
        {
            let ghost upto = params_view(self.params@).take(at as int);
            assert(upto.drop_last() =~= params_view(self.params@).take(at - 1));
            assert(upto.last() == (self.params@[at - 1].0@, self.params@[at - 1].1@));
            if same_text(self.params[at - 1].0.as_str(), name) {
                return Some(self.params[at - 1].1.as_str());
            }
            at = at - 1;
        }
        None
    }
}

/// The name of the header that tells the length of the body, with its colon.
pub open spec fn length_header() -> Seq<char> {
    seq!['c', 'o', 'n', 't', 'e', 'n', 't', '-', 'l', 'e', 'n', 'g', 't', 'h', ':']
}

/// The code of a character, with the capital letters from A to Z taken as
/// their small ones.
pub open spec fn lower_code(c: char) -> u32 {
    let code = c as u32;
    if 0x41 <= code <= 0x5a {
        (code + 0x20) as u32
    } else {
        code
    }
}

/// Whether a header line names the length of the body: it begins with
/// `content-length:`, in capital or small letters.
pub open spec fn names_length(line: Seq<char>) -> bool {
    &&& line.len() >= length_header().len()
    &&& forall|i: int|
        0 <= i < length_header().len() ==> lower_code(#[trigger] line[i])
            == length_header()[i] as u32
}

/// The length that a header line gives, if it names the length of the
/// body: the number between its first colon and the next, white space
/// aside; 0 where no number below 2^64 stands there.
pub open spec fn length_in(line: Seq<char>) -> Option<u64> {
    if names_length(line) {
        let value = before(line.skip(length_header().len() as int), ':');
        match u64_of(trimmed(value)) {
            Some(n) => Some(n),
            None => Some(0),
        }
    } else {
        None
    }
}

/// The length of the body that header lines give: what the last line that
/// names it gives, and 0 if none does.
pub open spec fn content_length_of(lines: Seq<Seq<char>>) -> u64
    decreases lines.len(),
{
    if lines.len() == 0 {
        0
    } else {
        match length_in(lines.last()) {
            Some(n) => n,
            None => content_length_of(lines.drop_last()),
        }
    }
}

/// The contents of a list of lines.
pub open spec fn lines_view(lines: Seq<String>) -> Seq<Seq<char>> {
    Seq::new(lines.len(), |i: int| lines[i]@)
}

fn lower(c: char) -> (code: u32)
    ensures
        code == lower_code(c),
{
    let code = c as u32;
    if 0x41 <= code && code <= 0x5a {
        code + 0x20
    } else {
        code
    }
}

/// The length that one header line gives, if it names the length of the body.
pub fn header_length(line: &str) -> (length: Option<u64>)
    ensures
        length == length_in(line@),
{
    let chars = chars_of(line);
    let name = chars_of("content-length:");
    proof {
        reveal_strlit("content-length:");
        assert(name@ =~= length_header());
    }
    if chars.len() < name.len() {
        return None;
    }
    let mut i: usize = 0;
    while i < name.len()
        invariant
            i <= name.len() <= chars.len(),
            name@ == length_header(),
            chars@ == line@,
            forall|j: int| 0 <= j < i ==> lower_code(#[trigger] chars@[j]) == name@[j] as u32,
        decreases name.len() - i,
    {
        if lower(chars[i]) != name[i] as u32 {
            return None;
        }
        i = i + 1;
    }
    let start = name.len();
    let len = chars.len();
    let end = scan(&chars, start, len, Run::Until(':'));
    let first = scan(&chars, start, end, Run::Spaces);
    let last = scan_back(&chars, first, end, Run::Spaces);
    proof {
        let rest = line@.skip(start as int);
        assert(rest =~= chars@.subrange(start as int, len as int));
        let value = before(rest, ':');
        assert(value =~= chars@.subrange(start as int, end as int));
        let inner = value.skip(span(value, Run::Spaces) as int);
        assert(inner =~= chars@.subrange(first as int, end as int));
        assert(trimmed(value) =~= chars@.subrange(first as int, last as int));
    }
    match read_u64(&chars, first, last) {
        Some(n) => Some(n),
        None => Some(0),
    }
}

/// The length of the body that the header lines give.
pub fn content_length(lines: &Vec<String>) -> (length: u64)
    ensures
        length == content_length_of(lines_view(lines@)),
{
    let mut at = lines.len();
    assert(lines_view(lines@).take(at as int) =~= lines_view(lines@));
    while at > 0
        invariant
            at <= lines.len(),
            content_length_of(lines_view(lines@).take(at as int)) == content_length_of(
                lines_view(lines@),
            ),
        decreases at,
    {
        let ghost upto = lines_view(lines@).take(at as int);
        assert(upto.drop_last() =~= lines_view(lines@).take(at - 1));
        assert(upto.last() == lines@[at - 1]@);
        match header_length(lines[at - 1].as_str()) {
            Some(n) => {
                return n;
            },
            None => {},
        }
        at = at - 1;
    }
    0
}

} // verus!
