//! Decoding of what an external program writes on its standard output: a
//! header block, a blank line, and a body.
//!
//! The header block ends at the first `CR LF CR LF`. Its lines are split on
//! `LF`, with one trailing `CR` dropped from each, so that both `CR LF` and a
//! bare `LF` end a line. Scanning stops at the first empty line. Each line is
//! `name:value`, with at most one space dropped after the colon. A line named
//! `Status` sets the status code from the first three bytes of its value;
//! every other line becomes a response header.

use vstd::prelude::*;
use vstd::utf8::{decode_utf8, valid_utf8};

use crate::text::{has_prefix, starts_with_bytes};

verus! {

pub const CR: u8 = 13;

pub const LF: u8 = 10;

pub const COLON: u8 = 58;

pub const SP: u8 = 32;

/// Why an external program's output could not be decoded.
#[derive(Clone, Copy, Debug, PartialEq, Eq, Structural)]
pub enum ParseCgiOutputError {
    /// No `CR LF CR LF` ends the header block.
    NoHeaderTerminator,
    /// A header line holds no colon.
    MalformedHeaderLine,
    /// The value of the `Status` line does not start with a status code
    /// from 100 to 599 written as three decimal digits.
    InvalidStatusCode,
    /// A header name or value is not well-formed UTF-8.
    InvalidHeaderEncoding,
}

/// One header line, read.
pub enum LineModel {
    Status(u16),
    Field(Seq<u8>, Seq<u8>),
}

/// What the header lines read so far amount to.
pub struct HeaderModel {
    pub status: u16,
    pub fields: Seq<(Seq<u8>, Seq<u8>)>,
}

/// A decoded output, before the header bytes are read as text.
pub struct OutputModel {
    pub status: u16,
    pub fields: Seq<(Seq<u8>, Seq<u8>)>,
    pub body: Seq<u8>,
}

pub open spec fn is_terminator_at(s: Seq<u8>, i: int) -> bool {
    &&& 0 <= i
    &&& i + 4 <= s.len()
    &&& s[i] == CR
    &&& s[i + 1] == LF
    &&& s[i + 2] == CR
    &&& s[i + 3] == LF
}

/// The first `CR LF CR LF` at or after `i`.
pub open spec fn terminator_from(s: Seq<u8>, i: int) -> Option<int>
    decreases s.len() - i,
{
    if i < 0 || i + 4 > s.len() {
        None
    } else if is_terminator_at(s, i) {
        Some(i)
    } else {
        terminator_from(s, i + 1)
    }
}

/// Where the header block ends: the first `CR LF CR LF` of the output.
pub open spec fn header_terminator(s: Seq<u8>) -> Option<int> {
    terminator_from(s, 0)
}

/// The first index at or after `i` that holds `b`, or the length of `s`.
pub open spec fn find_byte_from(s: Seq<u8>, b: u8, i: int) -> int
    decreases s.len() - i,
{
    if i < 0 || i >= s.len() {
        s.len() as int
    } else if s[i] == b {
        i
    } else {
        find_byte_from(s, b, i + 1)
    }
}

pub open spec fn strip_cr(l: Seq<u8>) -> Seq<u8> {
    if l.len() > 0 && l.last() == CR {
        l.drop_last()
    } else {
        l
    }
}

pub open spec fn strip_space(v: Seq<u8>) -> Seq<u8> {
    if v.len() > 0 && v[0] == SP {
        v.subrange(1, v.len() as int)
    } else {
        v
    }
}

/// `Status`, the name of the line that sets the status code.
pub open spec fn status_name() -> Seq<u8> {
    seq![83u8, 116u8, 97u8, 116u8, 117u8, 115u8]
}

pub open spec fn is_digit(b: u8) -> bool {
    48 <= b <= 57
}

/// The status code that a `Status` value starts with, if it is valid.
pub open spec fn status_code_of(v: Seq<u8>) -> Option<u16> {
    if v.len() >= 3 && is_digit(v[0]) && is_digit(v[1]) && is_digit(v[2]) {
        let code = (v[0] - 48) * 100 + (v[1] - 48) * 10 + (v[2] - 48);
        if 100 <= code <= 599 {
            Some(code as u16)
        } else {
            None
        }
    } else {
        None
    }
}

/// Reads one non-empty header line.
pub open spec fn parse_header_line(line: Seq<u8>) -> Result<LineModel, ParseCgiOutputError> {
    let c = find_byte_from(line, COLON, 0);
    if c >= line.len() {
        Err(ParseCgiOutputError::MalformedHeaderLine)
    } else {
        let name = line.subrange(0, c);
        let value = strip_space(line.subrange(c + 1, line.len() as int));
        if name == status_name() {
            match status_code_of(value) {
                Some(code) => Ok(LineModel::Status(code)),
                None => Err(ParseCgiOutputError::InvalidStatusCode),
            }
        } else {
            Ok(LineModel::Field(name, value))
        }
    }
}

pub open spec fn apply_line(acc: HeaderModel, l: LineModel) -> HeaderModel {
    match l {
        LineModel::Status(code) => HeaderModel { status: code, fields: acc.fields },
        LineModel::Field(n, v) => HeaderModel { status: acc.status, fields: acc.fields.push((n, v)) },
    }
}

/// Reads the header lines of `h` that start at or after `i`, on top of `acc`.
pub open spec fn parse_lines_from(h: Seq<u8>, i: int, acc: HeaderModel) -> Result<
    HeaderModel,
    ParseCgiOutputError,
>
    decreases h.len() - i,
{
    if i < 0 || i > h.len() {
        Ok(acc)
    } else {
        let e = find_byte_from(h, LF, i);
        let line = strip_cr(h.subrange(i, e));
        if line.len() == 0 {
            Ok(acc)
        } else {
            match parse_header_line(line) {
                Err(x) => Err(x),
                Ok(l) => {
                    let next = apply_line(acc, l);
                    if e < i || e >= h.len() {
                        Ok(next)
                    } else {
                        parse_lines_from(h, e + 1, next)
                    }
                },
            }
        }
    }
}

pub open spec fn initial_header() -> HeaderModel {
    HeaderModel { status: 200, fields: Seq::empty() }
}

/// The body with `prefix` removed from its front, where it stands there.
pub open spec fn strip_prefix(b: Seq<u8>, prefix: Seq<u8>) -> Seq<u8> {
    if has_prefix(b, prefix) {
        b.subrange(prefix.len() as int, b.len() as int)
    } else {
        b
    }
}

/// What an output decodes to. `prefix` is a program-specific run of bytes
/// that is dropped from the front of the body where it stands there (empty
/// for a program that writes its body as the protocol has it).
pub open spec fn parse_output(out: Seq<u8>, prefix: Seq<u8>) -> Result<
    OutputModel,
    ParseCgiOutputError,
> {
    match header_terminator(out) {
        None => Err(ParseCgiOutputError::NoHeaderTerminator),
        Some(t) => match parse_lines_from(out.subrange(0, t), 0, initial_header()) {
            Err(x) => Err(x),
            Ok(hm) => Ok(
                OutputModel {
                    status: hm.status,
                    fields: hm.fields,
                    body: strip_prefix(out.subrange(t + 4, out.len() as int), prefix),
                },
            ),
        },
    }
}

/// Every header name and value is well-formed UTF-8.
pub open spec fn fields_valid_utf8(f: Seq<(Seq<u8>, Seq<u8>)>) -> bool {
    forall|i: int| #![trigger f[i]] 0 <= i < f.len() ==> valid_utf8(f[i].0) && valid_utf8(f[i].1)
}

/// The header names and values as text.
pub open spec fn decoded_fields(f: Seq<(Seq<u8>, Seq<u8>)>) -> Seq<(Seq<char>, Seq<char>)> {
    Seq::new(f.len(), |i: int| (decode_utf8(f[i].0), decode_utf8(f[i].1)))
}

/// The headers as a mapping from name to value; a later line with a name
/// replaces an earlier one.
pub open spec fn header_map(hs: Seq<(Seq<char>, Seq<char>)>) -> Map<Seq<char>, Seq<char>>
    decreases hs.len(),
{
    if hs.len() == 0 {
        Map::empty()
    } else {
        header_map(hs.drop_last()).insert(hs.last().0, hs.last().1)
    }
}

pub open spec fn pairs_view(v: Seq<(Vec<u8>, Vec<u8>)>) -> Seq<(Seq<u8>, Seq<u8>)> {
    v.map_values(|p: (Vec<u8>, Vec<u8>)| (p.0@, p.1@))
}

pub open spec fn strings_view(v: Seq<(String, String)>) -> Seq<(Seq<char>, Seq<char>)> {
    v.map_values(|p: (String, String)| (p.0@, p.1@))
}

/// The response that an external program's output decodes to.
#[derive(Debug)]
pub struct CgiResponse {
    status_code: u16,
    headers: Vec<(String, String)>,
    body: Vec<u8>,
}

/// What a [`CgiResponse`] holds.
pub struct ResponseView {
    pub status_code: u16,
    pub headers: Seq<(Seq<char>, Seq<char>)>,
    pub body: Seq<u8>,
}

impl View for CgiResponse {
    type V = ResponseView;

    closed spec fn view(&self) -> ResponseView {
        ResponseView {
            status_code: self.status_code,
            headers: strings_view(self.headers@),
            body: self.body@,
        }
    }
}

impl CgiResponse {
    pub fn status_code(&self) -> (r: u16)
        ensures
            r == self@.status_code,
    {
        self.status_code
    }

    /// The header lines in the order the program wrote them, the `Status`
    /// line left out.
    pub fn headers(&self) -> (r: &Vec<(String, String)>)
        ensures
            strings_view(r@) == self@.headers,
    {
        &self.headers
    }

    pub fn body(&self) -> (r: &Vec<u8>)
        ensures
            r@ == self@.body,
    {
        &self.body
    }

    /// The value of the header `name`: that of its last line.
    pub fn header(&self, name: &str) -> (r: Option<&String>)
        ensures
            r is Some <==> header_map(self@.headers).contains_key(name@),
            r matches Some(v) ==> v@ == header_map(self@.headers)[name@],
    {
        let ghost hs = strings_view(self.headers@);
        let mut i: usize = self.headers.len();
        while i > 0
            invariant
                hs == strings_view(self.headers@),
                i <= hs.len(),
                forall|j: int| i <= j < hs.len() ==> (#[trigger] hs[j]).0 != name@,
            decreases i,
        {
            i = i - 1;
            if crate::text::str_eq(self.headers[i].0.as_str(), name) {
                proof {
                    lemma_header_map_last(hs, i as int, name@);
                }
                return Some(&self.headers[i].1);
            }
        }
        proof {
            lemma_header_map_absent(hs, name@);
        }
        None
    }
}

/// The value that the last line named `k` gives `k` is its value in the map.
pub proof fn lemma_header_map_last(hs: Seq<(Seq<char>, Seq<char>)>, i: int, k: Seq<char>)
    requires
        0 <= i < hs.len(),
        hs[i].0 == k,
        forall|j: int| i < j < hs.len() ==> (#[trigger] hs[j]).0 != k,
    ensures
        header_map(hs).contains_key(k),
        header_map(hs)[k] == hs[i].1,
    decreases hs.len(),
{
    if i < hs.len() - 1 {
        let front = hs.drop_last();
        assert forall|j: int| i < j < front.len() implies (#[trigger] front[j]).0 != k by {
            assert(front[j] == hs[j]);
        }
        lemma_header_map_last(front, i, k);
        assert(hs[hs.len() - 1].0 != k);
    }
}

/// A name that no line has is not in the map.
pub proof fn lemma_header_map_absent(hs: Seq<(Seq<char>, Seq<char>)>, k: Seq<char>)
    requires
        forall|j: int| 0 <= j < hs.len() ==> (#[trigger] hs[j]).0 != k,
    ensures
        !header_map(hs).contains_key(k),
    decreases hs.len(),
{
    if hs.len() > 0 {
        let front = hs.drop_last();
        assert forall|j: int| 0 <= j < front.len() implies (#[trigger] front[j]).0 != k by {
            assert(front[j] == hs[j]);
        }
        lemma_header_map_absent(front, k);
        assert(hs[hs.len() - 1].0 != k);
    }
}

/// `find_byte_from` lands on `b`, or on the end, and passes no `b` on its way.
pub proof fn lemma_find_byte_from(s: Seq<u8>, b: u8, i: int)
    requires
        0 <= i <= s.len(),
    ensures
        i <= find_byte_from(s, b, i) <= s.len(),
        find_byte_from(s, b, i) < s.len() ==> s[find_byte_from(s, b, i)] == b,
        forall|k: int| i <= k < find_byte_from(s, b, i) ==> s[k] != b,
    decreases s.len() - i,
{
    if i < s.len() && s[i] != b {
        lemma_find_byte_from(s, b, i + 1);
    }
}

/// A wrapper for the one call into std that reads bytes as text.
///
/// Relies on `String::from_utf8`: it succeeds exactly on well-formed UTF-8,
/// and the string then holds the characters the bytes encode.
#[verifier::external_body]
fn string_from_utf8(bytes: Vec<u8>) -> (r: Option<String>)
    ensures
        r is Some <==> valid_utf8(bytes@),
        r matches Some(s) ==> s@ == decode_utf8(bytes@),
{
    String::from_utf8(bytes).ok()
}

fn find_terminator(s: &[u8]) -> (r: Option<usize>)
    ensures
        match r {
            Some(i) => header_terminator(s@) == Some(i as int),
            None => header_terminator(s@) is None,
        },
        r matches Some(i) ==> i + 4 <= s.len(),
{
    let mut i: usize = 0;
    while i < s.len() && s.len() - i >= 4
        invariant
            0 <= i <= s@.len(),
            terminator_from(s@, 0) == terminator_from(s@, i as int),
        decreases s@.len() - i,
    {
        if s[i] == CR && s[i + 1] == LF && s[i + 2] == CR && s[i + 3] == LF {
            return Some(i);
        }
        i = i + 1;
    }
    None
}

fn find_byte(s: &[u8], b: u8, from: usize) -> (r: usize)
    requires
        from <= s@.len(),
    ensures
        r == find_byte_from(s@, b, from as int),
{
    let mut k: usize = from;
    while k < s.len()
        invariant
            from <= k <= s@.len(),
            find_byte_from(s@, b, from as int) == find_byte_from(s@, b, k as int),
        decreases s@.len() - k,
    {
        if s[k] == b {
            return k;
        }
        k = k + 1;
    }
    k
}

fn is_status_name(name: &[u8]) -> (r: bool)
    ensures
        r == (name@ == status_name()),
{
    let r = name.len() == 6 && name[0] == 83 && name[1] == 116 && name[2] == 97 && name[3]
        == 116 && name[4] == 117 && name[5] == 115;
    if r {
        assert(name@ =~= status_name());
    }
    r
}

fn parse_status(v: &[u8]) -> (r: Option<u16>)
    ensures
        r == status_code_of(v@),
{
    if v.len() >= 3 && 48 <= v[0] && v[0] <= 57 && 48 <= v[1] && v[1] <= 57 && 48 <= v[2]
        && v[2] <= 57 {
        let code: u16 = (v[0] - 48) as u16 * 100 + (v[1] - 48) as u16 * 10 + (v[2] - 48) as u16;
        if 100 <= code && code <= 599 {
            Some(code)
        } else {
            None
        }
    } else {
        None
    }
}

/// One header line, read.
enum HeaderLine {
    Status(u16),
    Field(Vec<u8>, Vec<u8>),
}

impl HeaderLine {
    spec fn model(self) -> LineModel {
        match self {
            HeaderLine::Status(c) => LineModel::Status(c),
            HeaderLine::Field(n, v) => LineModel::Field(n@, v@),
        }
    }
}

fn parse_line(line: &[u8]) -> (r: Result<HeaderLine, ParseCgiOutputError>)
    ensures
        match r {
            Ok(l) => parse_header_line(line@) == Ok::<LineModel, ParseCgiOutputError>(l.model()),
            Err(e) => parse_header_line(line@) == Err::<LineModel, ParseCgiOutputError>(e),
        },
{
    let c = find_byte(line, COLON, 0);
    proof {
        lemma_find_byte_from(line@, COLON, 0);
    }
    if c >= line.len() {
        return Err(ParseCgiOutputError::MalformedHeaderLine);
    }
    let name = vstd::slice::slice_subrange(line, 0, c);
    let mut start = c + 1;
    if start < line.len() && line[start] == SP {
        start = start + 1;
    }
    let value = vstd::slice::slice_subrange(line, start, line.len());
    proof {
        let rest = line@.subrange(c + 1, line@.len() as int);
        assert(value@ =~= strip_space(rest));
    }
    if is_status_name(name) {
        match parse_status(value) {
            Some(code) => Ok(HeaderLine::Status(code)),
            None => Err(ParseCgiOutputError::InvalidStatusCode),
        }
    } else {
        Ok(HeaderLine::Field(vstd::slice::slice_to_vec(name), vstd::slice::slice_to_vec(value)))
    }
}

/// Reads the header block `h`, the bytes before its terminator.
fn parse_header_block(h: &[u8]) -> (r: Result<(u16, Vec<(Vec<u8>, Vec<u8>)>), ParseCgiOutputError>)
    ensures
        match r {
            Ok((status, fields)) => parse_lines_from(h@, 0, initial_header()) == Ok::<
                HeaderModel,
                ParseCgiOutputError,
            >(HeaderModel { status, fields: pairs_view(fields@) }),
            Err(e) => parse_lines_from(h@, 0, initial_header()) == Err::<
                HeaderModel,
                ParseCgiOutputError,
            >(e),
        },
{
    let mut status: u16 = 200;
    let mut fields: Vec<(Vec<u8>, Vec<u8>)> = Vec::new();
    let mut i: usize = 0;
    assert(pairs_view(fields@) =~= Seq::empty());
    loop
        invariant_except_break
            parse_lines_from(h@, 0, initial_header()) == parse_lines_from(
                h@,
                i as int,
                HeaderModel { status, fields: pairs_view(fields@) },
            ),
        invariant
            i <= h@.len(),
        ensures
            parse_lines_from(h@, 0, initial_header()) == Ok::<HeaderModel, ParseCgiOutputError>(
                HeaderModel { status, fields: pairs_view(fields@) },
            ),
        decreases h@.len() - i,
    {
        let ghost acc = HeaderModel { status, fields: pairs_view(fields@) };
        let e = find_byte(h, LF, i);
        proof {
            lemma_find_byte_from(h@, LF, i as int);
        }
        let mut end = e;
        if end > i && h[end - 1] == CR {
            end = end - 1;
        }
        proof {
            let whole = h@.subrange(i as int, e as int);
            if e > i && h@[e - 1] == CR {
                assert(whole.drop_last() =~= h@.subrange(i as int, end as int));
            }
            assert(strip_cr(whole) =~= h@.subrange(i as int, end as int));
        }
        if end == i {
            break ;
        }
        let line = vstd::slice::slice_subrange(h, i, end);
        match parse_line(line) {
            Err(x) => {
                return Err(x);
            },
            Ok(HeaderLine::Status(code)) => {
                status = code;
            },
            Ok(HeaderLine::Field(n, v)) => {
                let ghost old_fields = fields@;
                fields.push((n, v));
                proof {
                    assert(pairs_view(fields@) =~= pairs_view(old_fields).push((n@, v@)));
                }
            },
        }
        if e >= h.len() {
            break ;
        }
        i = e + 1;
    }
    Ok((status, fields))
}

/// Decodes the output of an external program. `body_prefix` is dropped from
/// the front of the body where it stands there: some programs write a stray
/// run of bytes before their body; pass an empty slice for those that do
/// not.
pub fn parse_cgi_output(output: &[u8], body_prefix: &[u8]) -> (r: Result<
    CgiResponse,
    ParseCgiOutputError,
>)
    ensures
        match parse_output(output@, body_prefix@) {
            Err(e) => r == Err::<CgiResponse, ParseCgiOutputError>(e),
            Ok(m) => if fields_valid_utf8(m.fields) {
                &&& r is Ok
                &&& r->Ok_0@.status_code == m.status
                &&& r->Ok_0@.headers == decoded_fields(m.fields)
                &&& r->Ok_0@.body == m.body
            } else {
                r == Err::<CgiResponse, ParseCgiOutputError>(
                    ParseCgiOutputError::InvalidHeaderEncoding,
                )
            },
        },
{
    let t = match find_terminator(output) {
        Some(t) => t,
        None => {
            return Err(ParseCgiOutputError::NoHeaderTerminator);
        },
    };
    let h = vstd::slice::slice_subrange(output, 0, t);
    let (status, fields) = match parse_header_block(h) {
        Ok(p) => p,
        Err(x) => {
            return Err(x);
        },
    };
    let after = vstd::slice::slice_subrange(output, t + 4, output.len());
    let body = if starts_with_bytes(after, body_prefix) {
        vstd::slice::slice_to_vec(vstd::slice::slice_subrange(after, body_prefix.len(), after.len()))
    } else {
        vstd::slice::slice_to_vec(after)
    };
    let ghost fs = pairs_view(fields@);
    assert(body@ =~= strip_prefix(output@.subrange(t + 4, output@.len() as int), body_prefix@));
    let ghost model = OutputModel { status, fields: fs, body: body@ };
    assert(parse_output(output@, body_prefix@) == Ok::<OutputModel, ParseCgiOutputError>(model));
    let mut headers: Vec<(String, String)> = Vec::new();
    let mut k: usize = 0;
    while k < fields.len()
        invariant
            k <= fields@.len(),
            fs == pairs_view(fields@),
            parse_output(output@, body_prefix@) == Ok::<OutputModel, ParseCgiOutputError>(model),
            model.fields == fs,
            fields_valid_utf8(fs.subrange(0, k as int)),
            strings_view(headers@) == decoded_fields(fs.subrange(0, k as int)),
        decreases fields@.len() - k,
    {
        let name = string_from_utf8(vstd::slice::slice_to_vec(fields[k].0.as_slice()));
        let value = string_from_utf8(vstd::slice::slice_to_vec(fields[k].1.as_slice()));
        proof {
            assert(fs[k as int] == (fields@[k as int].0@, fields@[k as int].1@));
        }
        match (name, value) {
            (Some(n), Some(v)) => {
                let ghost old_headers = headers@;
                headers.push((n, v));
                proof {
                    let prev = fs.subrange(0, k as int);
                    let next = fs.subrange(0, k + 1);
                    assert(prev =~= next.drop_last());
                    assert(strings_view(headers@) =~= strings_view(old_headers).push((n@, v@)));
                    assert(decoded_fields(next) =~= decoded_fields(prev).push((n@, v@)));
                    assert forall|j: int| #![trigger next[j]] 0 <= j < next.len() implies valid_utf8(
                        next[j].0,
                    ) && valid_utf8(next[j].1) by {
                        if j < k {
                            assert(next[j] == prev[j]);
                        }
                    }
                    assert(strings_view(headers@) =~= decoded_fields(next));
                }
                k = k + 1;
            },
            _ => {
                proof {
                    let bad = k as int;
                    assert(0 <= bad < fs.len());
                    assert(!(valid_utf8(fs[bad].0) && valid_utf8(fs[bad].1)));
                    assert(!fields_valid_utf8(fs)) by {
                        if fields_valid_utf8(fs) {
                            assert(valid_utf8(fs[bad].0) && valid_utf8(fs[bad].1));
                        }
                    }
                }
                return Err(ParseCgiOutputError::InvalidHeaderEncoding);
            },
        }
    }
    proof {
        assert(fs.subrange(0, k as int) =~= fs);
    }
    Ok(CgiResponse { status_code: status, headers, body })
}

} // verus!
