//! Properties of the output decoding, proved over its model.

use vstd::prelude::*;
use vstd::utf8::{encode_utf8, encode_utf8_decode_utf8, encode_utf8_valid_utf8};

use crate::output::{
    decoded_fields, fields_valid_utf8, header_map, lemma_header_map_last, find_byte_from, header_terminator, initial_header, is_terminator_at, lemma_find_byte_from,
    parse_header_line, parse_lines_from, parse_output, status_name, strip_cr, strip_space,
    terminator_from, apply_line, HeaderModel, LineModel, OutputModel, ParseCgiOutputError, COLON, CR,
    LF, SP,
};

verus! {

/// One header line as a program writes it: `name: value`.
pub open spec fn render_field(f: (Seq<u8>, Seq<u8>)) -> Seq<u8> {
    f.0 + seq![COLON, SP] + f.1
}

/// A line end: `CR LF` where `crlf` holds, a bare `LF` otherwise.
pub open spec fn line_end(crlf: bool) -> Seq<u8> {
    if crlf {
        seq![CR, LF]
    } else {
        seq![LF]
    }
}

/// Header lines joined by line ends: the one after line `i` is
/// `line_end(ends[i])`.
pub open spec fn render_fields(fs: Seq<(Seq<u8>, Seq<u8>)>, ends: Seq<bool>) -> Seq<u8>
    decreases fs.len(),
{
    if fs.len() == 0 {
        Seq::empty()
    } else if fs.len() == 1 {
        render_field(fs[0])
    } else {
        render_field(fs[0]) + line_end(ends[0]) + render_fields(fs.drop_first(), ends.drop_first())
    }
}

/// A whole output: the header block, `CR LF CR LF`, and the body.
pub open spec fn render_output(fs: Seq<(Seq<u8>, Seq<u8>)>, ends: Seq<bool>, body: Seq<u8>) -> Seq<u8> {
    render_fields(fs, ends) + seq![CR, LF, CR, LF] + body
}

/// A header that can be written on one line and read back as it was: its
/// name holds no colon and no line feed and is not `Status`, and its value
/// holds no line feed and does not end with a carriage return.
pub open spec fn is_plain_field(f: (Seq<u8>, Seq<u8>)) -> bool {
    &&& forall|k: int| 0 <= k < f.0.len() ==> f.0[k] != COLON && f.0[k] != LF
    &&& forall|k: int| 0 <= k < f.1.len() ==> f.1[k] != LF
    &&& f.1.len() > 0 ==> f.1.last() != CR
    &&& f.0 != status_name()
}

pub open spec fn all_plain(fs: Seq<(Seq<u8>, Seq<u8>)>) -> bool {
    forall|i: int| #![trigger fs[i]] 0 <= i < fs.len() ==> is_plain_field(fs[i])
}

proof fn lemma_find_byte_at(s: Seq<u8>, b: u8, i: int, c: int)
    requires
        0 <= i <= c <= s.len(),
        c < s.len() ==> s[c] == b,
        forall|k: int| i <= k < c ==> s[k] != b,
    ensures
        find_byte_from(s, b, i) == c,
    decreases c - i,
{
    if i < c {
        lemma_find_byte_at(s, b, i + 1, c);
    }
}

proof fn lemma_terminator_at(s: Seq<u8>, i: int, t: int)
    requires
        0 <= i <= t,
        is_terminator_at(s, t),
        forall|j: int| i <= j < t ==> !is_terminator_at(s, j),
    ensures
        terminator_from(s, i) == Some(t),
    decreases t - i,
{
    if i < t {
        lemma_terminator_at(s, i + 1, t);
    }
}

proof fn lemma_no_terminator(s: Seq<u8>, i: int)
    requires
        0 <= i,
        forall|j: int| i <= j ==> !is_terminator_at(s, j),
    ensures
        terminator_from(s, i) is None,
    decreases s.len() - i,
{
    if i + 4 <= s.len() {
        lemma_no_terminator(s, i + 1);
    }
}

proof fn lemma_render_field(f: (Seq<u8>, Seq<u8>))
    requires
        is_plain_field(f),
    ensures
        render_field(f).len() >= 2,
        forall|k: int| 0 <= k < render_field(f).len() ==> render_field(f)[k] != LF,
        render_field(f).last() != CR,
        find_byte_from(render_field(f), COLON, 0) == f.0.len(),
        parse_header_line(render_field(f)) == Ok::<LineModel, ParseCgiOutputError>(
            LineModel::Field(f.0, f.1),
        ),
{
    let r = render_field(f);
    assert forall|k: int| 0 <= k < r.len() implies r[k] != LF by {
        if k < f.0.len() {
            assert(r[k] == f.0[k]);
        } else if k >= f.0.len() + 2 {
            assert(r[k] == f.1[k - f.0.len() - 2]);
        }
    }
    if f.1.len() > 0 {
        assert(r.last() == f.1.last());
    }
    assert forall|k: int| 0 <= k < f.0.len() implies r[k] != COLON by {
        assert(r[k] == f.0[k]);
    }
    lemma_find_byte_at(r, COLON, 0, f.0.len() as int);
    assert(r.subrange(0, f.0.len() as int) =~= f.0);
    assert(strip_space(r.subrange(f.0.len() + 1int, r.len() as int)) =~= f.1);
}

proof fn lemma_render_fields_front(fs: Seq<(Seq<u8>, Seq<u8>)>, ends: Seq<bool>)
    requires
        fs.len() >= 1,
        all_plain(fs),
    ensures
        render_fields(fs, ends).len() >= 2,
        render_fields(fs, ends)[1] != LF,
{
    lemma_render_field(fs[0]);
    if fs.len() > 1 {
        let r0 = render_field(fs[0]);
        assert(render_fields(fs, ends)[1] == r0[1]);
    }
}

proof fn lemma_all_plain_rest(fs: Seq<(Seq<u8>, Seq<u8>)>)
    requires
        fs.len() >= 1,
        all_plain(fs),
    ensures
        all_plain(fs.drop_first()),
{
    let rest = fs.drop_first();
    assert forall|i: int| #![trigger rest[i]] 0 <= i < rest.len() implies is_plain_field(rest[i]) by {
        assert(rest[i] == fs[i + 1]);
    }
}

/// No `CR LF CR LF` starts inside rendered header lines.
proof fn lemma_no_early_terminator(
    fs: Seq<(Seq<u8>, Seq<u8>)>,
    ends: Seq<bool>,
    tail: Seq<u8>,
    j: int,
)
    requires
        all_plain(fs),
        tail.len() >= 1,
        tail[0] == CR,
        0 <= j < render_fields(fs, ends).len(),
    ensures
        !is_terminator_at(render_fields(fs, ends) + tail, j),
    decreases fs.len(),
{
    let out = render_fields(fs, ends) + tail;
    if fs.len() == 1 {
        lemma_render_field(fs[0]);
        if is_terminator_at(out, j) {
            if j + 1 < render_fields(fs, ends).len() {
                assert(out[j + 1] == render_fields(fs, ends)[j + 1]);
            } else {
                assert(out[j + 1] == tail[0]);
            }
        }
    } else if fs.len() > 1 {
        let r0 = render_field(fs[0]);
        let rest = fs.drop_first();
        let ends2 = ends.drop_first();
        let p = r0 + line_end(ends[0]);
        let out2 = render_fields(rest, ends2) + tail;
        lemma_all_plain_rest(fs);
        lemma_render_field(fs[0]);
        assert(out =~= p + out2);
        if j < r0.len() {
            if is_terminator_at(out, j) {
                if j + 1 < r0.len() {
                    assert(out[j + 1] == r0[j + 1]);
                } else if ends[0] {
                    assert(out[j + 1] == CR);
                } else {
                    assert(out[j] == r0.last());
                }
            }
        } else if j < p.len() {
            if ends[0] && j == r0.len() {
                lemma_render_fields_front(rest, ends2);
                assert(out[j + 3] == out2[1]);
                assert(out2[1] == render_fields(rest, ends2)[1]);
            } else {
                assert(out[j] == LF);
            }
        } else {
            let j2 = j - p.len();
            lemma_no_early_terminator(rest, ends2, tail, j2);
            if is_terminator_at(out, j) {
                assert(out[j] == out2[j2]);
                assert(out[j + 1] == out2[j2 + 1]);
                assert(out[j + 2] == out2[j2 + 2]);
                assert(out[j + 3] == out2[j2 + 3]);
            }
        }
    }
}

/// Reading lines after a prefix of whole lines reads the rest alone.
proof fn lemma_lines_shift(p: Seq<u8>, h: Seq<u8>, i: int, acc: HeaderModel)
    requires
        0 <= i <= h.len(),
    ensures
        parse_lines_from(p + h, p.len() + i, acc) == parse_lines_from(h, i, acc),
    decreases h.len() - i,
{
    let s = p + h;
    let e = find_byte_from(h, LF, i);
    lemma_find_byte_from(h, LF, i);
    assert forall|k: int| p.len() + i <= k < p.len() + e implies s[k] != LF by {
        assert(s[k] == h[k - p.len()]);
    }
    if e < h.len() {
        assert(s[p.len() + e] == h[e]);
    }
    lemma_find_byte_at(s, LF, p.len() + i, p.len() + e);
    assert(s.subrange(p.len() + i, p.len() + e) =~= h.subrange(i, e));
    let line = strip_cr(h.subrange(i, e));
    if line.len() != 0 {
        if let Ok(l) = parse_header_line(line) {
            if e < h.len() {
                lemma_lines_shift(p, h, e + 1, apply_line(acc, l));
            }
        }
    }
}

/// A header line and its line end read as that one field, then the rest.
proof fn lemma_first_line(f: (Seq<u8>, Seq<u8>), crlf: bool, h2: Seq<u8>, acc: HeaderModel)
    requires
        is_plain_field(f),
    ensures
        parse_lines_from(render_field(f) + line_end(crlf) + h2, 0, acc) == parse_lines_from(
            h2,
            0,
            HeaderModel { status: acc.status, fields: acc.fields.push(f) },
        ),
{
    let r0 = render_field(f);
    let p = r0 + line_end(crlf);
    let h = p + h2;
    assert(render_field(f) + line_end(crlf) + h2 =~= h);
    lemma_render_field(f);
    let e = p.len() - 1;
    assert forall|k: int| 0 <= k < e implies h[k] != LF by {
        if k < r0.len() {
            assert(h[k] == r0[k]);
        } else {
            assert(h[k] == CR);
        }
    }
    assert(h[e] == LF);
    lemma_find_byte_at(h, LF, 0, e);
    if crlf {
        assert(h.subrange(0, e).drop_last() =~= r0);
    } else {
        assert(h.subrange(0, e) =~= r0);
    }
    assert(strip_cr(h.subrange(0, e)) =~= r0);
    let next = HeaderModel { status: acc.status, fields: acc.fields.push(f) };
    lemma_lines_shift(p, h2, 0, next);
}

/// Rendered header lines read back as the fields they were made of.
proof fn lemma_lines_round_trip(fs: Seq<(Seq<u8>, Seq<u8>)>, ends: Seq<bool>, acc: HeaderModel)
    requires
        all_plain(fs),
    ensures
        parse_lines_from(render_fields(fs, ends), 0, acc) == Ok::<HeaderModel, ParseCgiOutputError>(
            HeaderModel { status: acc.status, fields: acc.fields + fs },
        ),
    decreases fs.len(),
{
    let h = render_fields(fs, ends);
    if fs.len() == 0 {
        assert(acc.fields + fs =~= acc.fields);
        assert(h.subrange(0, 0) =~= Seq::<u8>::empty());
    } else if fs.len() == 1 {
        lemma_render_field(fs[0]);
        lemma_find_byte_at(h, LF, 0, h.len() as int);
        assert(h.subrange(0, h.len() as int) =~= h);
        assert(acc.fields.push(fs[0]) =~= acc.fields + fs);
    } else {
        let rest = fs.drop_first();
        lemma_all_plain_rest(fs);
        let next = HeaderModel { status: acc.status, fields: acc.fields.push(fs[0]) };
        lemma_first_line(fs[0], ends[0], render_fields(rest, ends.drop_first()), acc);
        lemma_lines_round_trip(rest, ends.drop_first(), next);
        assert(acc.fields.push(fs[0]) + rest =~= acc.fields + fs);
    }
}

/// Whole rendered header lines, each with its line end, read as their fields
/// and leave the rest to be read.
proof fn lemma_lines_then(
    fs: Seq<(Seq<u8>, Seq<u8>)>,
    ends: Seq<bool>,
    crlf: bool,
    h2: Seq<u8>,
    acc: HeaderModel,
)
    requires
        fs.len() >= 1,
        all_plain(fs),
    ensures
        parse_lines_from(render_fields(fs, ends) + line_end(crlf) + h2, 0, acc) == parse_lines_from(
            h2,
            0,
            HeaderModel { status: acc.status, fields: acc.fields + fs },
        ),
    decreases fs.len(),
{
    let next = HeaderModel { status: acc.status, fields: acc.fields.push(fs[0]) };
    if fs.len() == 1 {
        lemma_first_line(fs[0], crlf, h2, acc);
        assert(acc.fields.push(fs[0]) =~= acc.fields + fs);
    } else {
        let rest = fs.drop_first();
        let ends2 = ends.drop_first();
        lemma_all_plain_rest(fs);
        let h3 = render_fields(rest, ends2) + line_end(crlf) + h2;
        assert(render_fields(fs, ends) + line_end(crlf) + h2 =~= render_field(fs[0]) + line_end(
            ends[0],
        ) + h3);
        lemma_first_line(fs[0], ends[0], h3, acc);
        lemma_lines_then(rest, ends2, crlf, h2, next);
        assert(acc.fields.push(fs[0]) + rest =~= acc.fields + fs);
    }
}

/// Round trip: an output made of header lines (each ended by `CR LF` or a
/// bare `LF`, as `ends` chooses), `CR LF CR LF` and a body decodes to exactly
/// those headers, in order and with their case, the default status 200, and
/// exactly that body. With no header lines the output starts with
/// `CR LF CR LF`.
pub proof fn lemma_round_trip(fs: Seq<(Seq<u8>, Seq<u8>)>, ends: Seq<bool>, body: Seq<u8>)
    requires
        all_plain(fs),
    ensures
        parse_output(render_output(fs, ends, body), Seq::empty()) == Ok::<
            OutputModel,
            ParseCgiOutputError,
        >(OutputModel { status: 200, fields: fs, body }),
{
    let h = render_fields(fs, ends);
    let tail = seq![CR, LF, CR, LF] + body;
    let out = render_output(fs, ends, body);
    assert(out =~= h + tail);
    let t = h.len() as int;
    assert(out[t] == CR && out[t + 1] == LF && out[t + 2] == CR && out[t + 3] == LF);
    assert forall|j: int| 0 <= j < t implies !is_terminator_at(out, j) by {
        lemma_no_early_terminator(fs, ends, tail, j);
    }
    lemma_terminator_at(out, 0, t);
    assert(out.subrange(0, t) =~= h);
    lemma_lines_round_trip(fs, ends, initial_header());
    assert(Seq::<(Seq<u8>, Seq<u8>)>::empty() + fs =~= fs);
    let b = out.subrange(t + 4, out.len() as int);
    assert(b =~= body);
    assert(b.subrange(0, 0) =~= Seq::<u8>::empty());
    assert(b.subrange(0, b.len() as int) =~= b);
}

/// An output with no `CR LF CR LF` anywhere fails with `NoHeaderTerminator`,
/// and nothing else comes out of it.
pub proof fn lemma_missing_terminator(out: Seq<u8>, prefix: Seq<u8>)
    requires
        forall|j: int| !is_terminator_at(out, j),
    ensures
        parse_output(out, prefix) == Err::<OutputModel, ParseCgiOutputError>(
            ParseCgiOutputError::NoHeaderTerminator,
        ),
{
    lemma_no_terminator(out, 0);
}

/// Well-formed header lines before the line at hand, each with its line end.
pub open spec fn lines_before(fs: Seq<(Seq<u8>, Seq<u8>)>, ends: Seq<bool>, crlf: bool) -> Seq<u8> {
    if fs.len() == 0 {
        Seq::empty()
    } else {
        render_fields(fs, ends) + line_end(crlf)
    }
}

/// A header line that is not empty and holds no colon fails the whole output
/// with `MalformedHeaderLine`, wherever it stands after well-formed lines and
/// whatever follows it.
pub proof fn lemma_malformed_line(
    out: Seq<u8>,
    prefix: Seq<u8>,
    t: int,
    fs: Seq<(Seq<u8>, Seq<u8>)>,
    ends: Seq<bool>,
    crlf: bool,
    bad: Seq<u8>,
    rest: Seq<u8>,
)
    requires
        header_terminator(out) == Some(t),
        out.subrange(0, t) == lines_before(fs, ends, crlf) + bad + rest,
        all_plain(fs),
        forall|k: int| 0 <= k < bad.len() ==> bad[k] != LF,
        strip_cr(bad).len() > 0,
        forall|k: int| 0 <= k < strip_cr(bad).len() ==> strip_cr(bad)[k] != COLON,
        rest.len() == 0 || rest[0] == LF,
    ensures
        parse_output(out, prefix) == Err::<OutputModel, ParseCgiOutputError>(
            ParseCgiOutputError::MalformedHeaderLine,
        ),
{
    let h2 = bad + rest;
    if fs.len() > 0 {
        assert(lines_before(fs, ends, crlf) + bad + rest =~= render_fields(fs, ends) + line_end(
            crlf,
        ) + h2);
        lemma_lines_then(fs, ends, crlf, h2, initial_header());
        assert(Seq::<(Seq<u8>, Seq<u8>)>::empty() + fs =~= fs);
    } else {
        assert(lines_before(fs, ends, crlf) + bad + rest =~= h2);
        assert(fs =~= Seq::<(Seq<u8>, Seq<u8>)>::empty());
    }
    assert forall|k: int| 0 <= k < bad.len() implies h2[k] != LF by {
        assert(h2[k] == bad[k]);
    }
    if rest.len() > 0 {
        assert(h2[bad.len() as int] == LF);
    }
    lemma_find_byte_at(h2, LF, 0, bad.len() as int);
    assert(h2.subrange(0, bad.len() as int) =~= bad);
    let line = strip_cr(bad);
    lemma_find_byte_at(line, COLON, 0, line.len() as int);
}

pub open spec fn no_status_field(fs: Seq<(Seq<u8>, Seq<u8>)>) -> bool {
    forall|i: int| #![trigger fs[i]] 0 <= i < fs.len() ==> fs[i].0 != status_name()
}

proof fn lemma_lines_no_status(h: Seq<u8>, i: int, acc: HeaderModel)
    requires
        no_status_field(acc.fields),
    ensures
        parse_lines_from(h, i, acc) matches Ok(hm) ==> no_status_field(hm.fields),
    decreases h.len() - i,
{
    if 0 <= i <= h.len() {
        let e = find_byte_from(h, LF, i);
        let line = strip_cr(h.subrange(i, e));
        if line.len() != 0 {
            if let Ok(l) = parse_header_line(line) {
                let next = apply_line(acc, l);
                assert(no_status_field(next.fields)) by {
                    if let LineModel::Field(n, v) = l {
                        assert forall|k: int| #![trigger next.fields[k]]
                            0 <= k < next.fields.len() implies next.fields[k].0 != status_name() by {
                            if k < acc.fields.len() {
                                assert(next.fields[k] == acc.fields[k]);
                            }
                        }
                    }
                }
                if i <= e < h.len() {
                    lemma_lines_no_status(h, e + 1, next);
                }
            }
        }
    }
}

/// The `Status` line sets the status code and never becomes a header: no
/// header of a decoded output is named `Status`.
pub proof fn lemma_status_is_not_a_header(out: Seq<u8>, prefix: Seq<u8>)
    ensures
        parse_output(out, prefix) matches Ok(m) ==> no_status_field(m.fields),
{
    if let Some(t) = header_terminator(out) {
        lemma_lines_no_status(out.subrange(0, t), 0, initial_header());
    }
}

/// Headers given as text, written as UTF-8.
pub open spec fn encode_fields(hs: Seq<(Seq<char>, Seq<char>)>) -> Seq<(Seq<u8>, Seq<u8>)> {
    Seq::new(hs.len(), |i: int| (encode_utf8(hs[i].0), encode_utf8(hs[i].1)))
}

/// Round trip for headers given as text: once written as UTF-8 lines, they
/// decode to exactly the names and values they were, with their case; where
/// the names are distinct, the header mapping sends each name to its value.
pub proof fn lemma_round_trip_text(
    hs: Seq<(Seq<char>, Seq<char>)>,
    ends: Seq<bool>,
    body: Seq<u8>,
)
    requires
        all_plain(encode_fields(hs)),
    ensures
        parse_output(render_output(encode_fields(hs), ends, body), Seq::empty()) == Ok::<
            OutputModel,
            ParseCgiOutputError,
        >(OutputModel { status: 200, fields: encode_fields(hs), body }),
        fields_valid_utf8(encode_fields(hs)),
        decoded_fields(encode_fields(hs)) == hs,
        (forall|i: int, j: int| 0 <= i < j < hs.len() ==> hs[i].0 != hs[j].0) ==> forall|i: int|
            #![trigger hs[i]]
            0 <= i < hs.len() ==> header_map(hs).contains_key(hs[i].0) && header_map(hs)[hs[i].0]
                == hs[i].1,
{
    broadcast use encode_utf8_decode_utf8, encode_utf8_valid_utf8;

    let fs = encode_fields(hs);
    lemma_round_trip(fs, ends, body);
    assert forall|i: int| #![trigger fs[i]] 0 <= i < fs.len() implies vstd::utf8::valid_utf8(
        fs[i].0,
    ) && vstd::utf8::valid_utf8(fs[i].1) by {
        assert(fs[i] == (encode_utf8(hs[i].0), encode_utf8(hs[i].1)));
    }
    assert(decoded_fields(fs) =~= hs);
    if forall|i: int, j: int| 0 <= i < j < hs.len() ==> hs[i].0 != hs[j].0 {
        assert forall|i: int| #![trigger hs[i]] 0 <= i < hs.len() implies header_map(hs).contains_key(
            hs[i].0,
        ) && header_map(hs)[hs[i].0] == hs[i].1 by {
            assert forall|j: int| i < j < hs.len() implies (#[trigger] hs[j]).0 != hs[i].0 by {}
            lemma_header_map_last(hs, i, hs[i].0);
        }
    }
}

} // verus!
