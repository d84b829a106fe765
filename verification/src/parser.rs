//! Stateless decoding of response units.
//!
//! A response unit is one line ended by the terminator; an event
//! notification (`Recv=`) additionally embeds a raw binary payload whose
//! length is declared in the line's header, so framing counts the declared
//! payload bytes instead of trusting terminator scanning alone. Parsing
//! distinguishes three outcomes: no complete unit yet, a decoded response
//! together with the bytes it consumed, and a malformed complete unit
//! together with the bytes to discard as noise.

use vstd::prelude::*;

use crate::types::EventCode;
use crate::types::LoraRegion;
use crate::types::Response;
use crate::types::ResponseModel;
use crate::wire::dec_val;
use crate::wire::dec_value;
use crate::wire::digits_run;
use crate::wire::find_crlf_from;
use crate::wire::find_terminator;
use crate::wire::is_digit;
use crate::wire::lemma_digits_run_bytes;
use crate::wire::lemma_digits_run_end;
use crate::wire::range_eq;
use crate::wire::scan_digits;
use crate::wire::starts_with;
use crate::wire::COMMA;
use crate::wire::CR;
use crate::wire::LF;
use crate::wire::MINUS;
use crate::wire::TOK_ERROR;
use crate::wire::TOK_INITIALIZED;
use crate::wire::TOK_OK;
use crate::wire::TOK_RECV;

verus! {

/// Whether every byte of `s` is a decimal digit.
pub open spec fn all_digits(s: Seq<u8>) -> bool {
    forall|j: int| 0 <= j < s.len() ==> is_digit(#[trigger] s[j])
}

/// Outcome of one parse attempt over buffered bytes.
pub ghost enum ParseModel {
    /// No complete response unit is buffered yet.
    Incomplete,
    /// A response was decoded; the unit occupied this many leading bytes.
    Decoded(ResponseModel, int),
    /// A complete unit was malformed; this many leading bytes are noise.
    Failed(int),
}

/// Outcome of one parse attempt, as returned by the parsing routine.
pub enum ParseStep {
    /// No complete response unit is buffered yet.
    Incomplete,
    /// A response was decoded; the unit occupied this many leading bytes.
    Decoded(Response, usize),
    /// A complete unit was malformed; this many leading bytes are noise.
    Failed(usize),
}

impl View for ParseStep {
    type V = ParseModel;

    open spec fn view(&self) -> ParseModel {
        match self {
            ParseStep::Incomplete => ParseModel::Incomplete,
            ParseStep::Decoded(r, n) => ParseModel::Decoded(r@, *n as int),
            ParseStep::Failed(n) => ParseModel::Failed(*n as int),
        }
    }
}

/// Decoding of what follows the error token: an optional minus sign and
/// one to three digits.
pub open spec fn decode_error_suffix(rest: Seq<u8>) -> Option<ResponseModel> {
    if rest.len() > 0 && rest[0] == MINUS {
        let ds = rest.skip(1);
        if 1 <= ds.len() <= 3 && all_digits(ds) {
            Some(ResponseModel::Error(-dec_val(ds)))
        } else {
            None
        }
    } else {
        if 1 <= rest.len() <= 3 && all_digits(rest) {
            Some(ResponseModel::Error(dec_val(rest)))
        } else {
            None
        }
    }
}

/// Decoding of what follows the banner token: one to three digits naming
/// a supported region.
pub open spec fn decode_init_suffix(rest: Seq<u8>) -> Option<ResponseModel> {
    if 1 <= rest.len() <= 3 && all_digits(rest) {
        match LoraRegion::from_code_spec(dec_val(rest) as nat) {
            Some(r) => Some(ResponseModel::Initialized(r)),
            None => None,
        }
    } else {
        None
    }
}

/// Decoding of one complete line (terminator excluded): the
/// acknowledgement token alone, the error token with a code, or the
/// initialization banner with a region code. Anything else is a decode
/// failure.
pub open spec fn decode_line(line: Seq<u8>) -> Option<ResponseModel> {
    if line == TOK_OK@ {
        Some(ResponseModel::Ack)
    } else if starts_with(line, TOK_ERROR@) {
        decode_error_suffix(line.skip(TOK_ERROR@.len() as int))
    } else if starts_with(line, TOK_INITIALIZED@) {
        decode_init_suffix(line.skip(TOK_INITIALIZED@.len() as int))
    } else {
        None
    }
}

/// Framing and decoding by terminator scan alone, for units without an
/// embedded payload.
pub open spec fn parse_line(s: Seq<u8>) -> ParseModel {
    let f = find_crlf_from(s, 0);
    if f < 0 {
        ParseModel::Incomplete
    } else {
        match decode_line(s.take(f)) {
            Some(r) => ParseModel::Decoded(r, f + 2),
            None => ParseModel::Failed(f + 2),
        }
    }
}

/// Scan of one decimal header field ending in a comma.
pub ghost enum FieldModel {
    /// The buffer ends inside the field.
    FieldIncomplete,
    /// The field cannot be a well-formed header field, whatever arrives
    /// later.
    FieldMalformed,
    /// Field value, and the position just past the comma.
    FieldValue(int, int),
}

/// Scan the decimal header field that starts at `i`: one to three digits
/// followed by a comma.
pub open spec fn scan_field(s: Seq<u8>, i: int) -> FieldModel {
    let d = digits_run(s, i);
    if i + d >= s.len() {
        if d <= 3 {
            FieldModel::FieldIncomplete
        } else {
            FieldModel::FieldMalformed
        }
    } else if d < 1 || d > 3 {
        FieldModel::FieldMalformed
    } else if s[i + d] != COMMA {
        FieldModel::FieldMalformed
    } else {
        FieldModel::FieldValue(dec_val(s.subrange(i, i + d)), i + d + 1)
    }
}

/// Framing and decoding of an event notification: the `Recv=` prefix,
/// three decimal header fields (event code, port, declared payload
/// length), the declared number of raw payload bytes, and the terminator.
/// A header that can no longer be well-formed falls back to terminator
/// framing, and so does a declared length past the receive capacity.
pub open spec fn parse_recv(s: Seq<u8>) -> ParseModel {
    match scan_field(s, TOK_RECV@.len() as int) {
        FieldModel::FieldIncomplete => ParseModel::Incomplete,
        FieldModel::FieldMalformed => parse_line(s),
        FieldModel::FieldValue(code, p1) => match scan_field(s, p1) {
            FieldModel::FieldIncomplete => ParseModel::Incomplete,
            FieldModel::FieldMalformed => parse_line(s),
            FieldModel::FieldValue(port, p2) => match scan_field(s, p2) {
                FieldModel::FieldIncomplete => ParseModel::Incomplete,
                FieldModel::FieldMalformed => parse_line(s),
                FieldModel::FieldValue(len, p3) => {
                    if len > 255 {
                        parse_line(s)
                    } else if s.len() < p3 + len + 2 {
                        ParseModel::Incomplete
                    } else if s[p3 + len] == CR && s[p3 + len + 1] == LF {
                        match EventCode::from_code_spec(code as nat) {
                            Some(ec) => if port <= 255 {
                                ParseModel::Decoded(
                                    ResponseModel::Recv(
                                        ec,
                                        port as u8,
                                        len as nat,
                                        s.subrange(p3, p3 + len),
                                    ),
                                    p3 + len + 2,
                                )
                            } else {
                                ParseModel::Failed(p3 + len + 2)
                            },
                            None => ParseModel::Failed(p3 + len + 2),
                        }
                    } else {
                        ParseModel::Failed(p3 + len + 2)
                    }
                },
            },
        },
    }
}

/// One parse attempt over the buffered bytes: event notifications frame
/// by their declared payload length, everything else by the terminator.
pub open spec fn parse_spec(s: Seq<u8>) -> ParseModel {
    if starts_with(s, TOK_RECV@) {
        parse_recv(s)
    } else {
        parse_line(s)
    }
}

/// A decoded unit is never the buffering signal: `NoResponse` stands
/// only for "no complete unit yet".
pub proof fn lemma_decoded_not_noresp(s: Seq<u8>)
    ensures
        parse_spec(s) matches ParseModel::Decoded(m, n) ==> m != ResponseModel::NoResponse,
{
}

/// The banner line the module emits for region `r`: the banner token
/// followed by the region's numeric code.
pub open spec fn banner_line(r: LoraRegion) -> Seq<u8> {
    TOK_INITIALIZED@ + crate::wire::dec_of(r.code_spec() as int)
}

/// Banner round trip: for every supported region, decoding the banner
/// line that carries its code yields `Initialized` with that region.
pub proof fn lemma_banner_round_trip(r: LoraRegion)
    ensures
        decode_line(banner_line(r)) == Some(ResponseModel::Initialized(r)),
{
    let code = r.code_spec() as int;
    crate::wire::lemma_dec_of_props(code);
    let line = banner_line(r);
    assert(line.len() == 13);
    assert(line != TOK_OK@);
    assert(!starts_with(line, TOK_ERROR@)) by {
        assert(line[0] == 73 && TOK_ERROR@[0] == 69);
        if starts_with(line, TOK_ERROR@) {
            assert(line.take(5)[0] == line[0]);
        }
    }
    assert(starts_with(line, TOK_INITIALIZED@)) by {
        assert(line.take(12) =~= TOK_INITIALIZED@);
    }
    let rest = line.skip(12);
    assert(rest =~= crate::wire::dec_of(code));
    assert(all_digits(rest));
    assert(dec_val(rest) == code);
    assert(LoraRegion::from_code_spec(code as nat) == Some(r));
}

/// An unsupported numeric region code in the banner is a decode failure.
pub proof fn lemma_banner_unknown_code(code: int)
    requires
        6 <= code <= 999,
    ensures
        decode_line(TOK_INITIALIZED@ + crate::wire::dec_of(code)) is None,
{
    crate::wire::lemma_dec_of_props(code);
    let line = TOK_INITIALIZED@ + crate::wire::dec_of(code);
    assert(13 <= line.len() <= 15);
    assert(line != TOK_OK@);
    assert(!starts_with(line, TOK_ERROR@)) by {
        assert(line[0] == 73 && TOK_ERROR@[0] == 69);
        if starts_with(line, TOK_ERROR@) {
            assert(line.take(5)[0] == line[0]);
        }
    }
    assert(starts_with(line, TOK_INITIALIZED@)) by {
        assert(line.take(12) =~= TOK_INITIALIZED@);
    }
    let rest = line.skip(12);
    assert(rest =~= crate::wire::dec_of(code));
    assert(all_digits(rest));
    assert(dec_val(rest) == code);
    assert(LoraRegion::from_code_spec(code as nat) is None);
}

/// In a line free of carriage returns followed by the terminator, the
/// terminator scan finds exactly the end of the line.
pub proof fn lemma_find_crlf_append(line: Seq<u8>, i: int)
    requires
        0 <= i <= line.len(),
        forall|j: int| 0 <= j < line.len() ==> #[trigger] line[j] != CR,
    ensures
        find_crlf_from(line + crate::wire::CRLF@, i) == line.len(),
    decreases line.len() - i,
{
    let s = line + crate::wire::CRLF@;
    if i < line.len() {
        assert(s[i] == line[i]);
        lemma_find_crlf_append(line, i + 1);
    } else {
        assert(s[i] == CR && s[i + 1] == LF);
    }
}

/// Banner round trip at the framing level: a terminated banner line
/// parses to `Initialized` with its region, consuming exactly the unit.
pub proof fn lemma_banner_unit(r: LoraRegion)
    ensures
        parse_spec(banner_line(r) + crate::wire::CRLF@) == ParseModel::Decoded(
            ResponseModel::Initialized(r),
            banner_line(r).len() as int + 2,
        ),
{
    let code = r.code_spec() as int;
    crate::wire::lemma_dec_of_props(code);
    let line = banner_line(r);
    let s = line + crate::wire::CRLF@;
    assert(line.len() == 13);
    assert(!starts_with(s, TOK_RECV@)) by {
        assert(s[0] == 73 && TOK_RECV@[0] == 82);
        if starts_with(s, TOK_RECV@) {
            assert(s.take(5)[0] == s[0]);
        }
    }
    assert forall|j: int| 0 <= j < line.len() implies #[trigger] line[j] != CR by {
        if j >= 12 {
            assert(is_digit(line[j]));
        }
    }
    lemma_find_crlf_append(line, 0);
    assert(s.take(line.len() as int) =~= line);
    lemma_banner_round_trip(r);
}

/// Exec scan of one decimal header field.
pub enum FieldStep {
    Incomplete,
    Malformed,
    Value(u32, usize),
}

impl View for FieldStep {
    type V = FieldModel;

    open spec fn view(&self) -> FieldModel {
        match self {
            FieldStep::Incomplete => FieldModel::FieldIncomplete,
            FieldStep::Malformed => FieldModel::FieldMalformed,
            FieldStep::Value(v, p) => FieldModel::FieldValue(*v as int, *p as int),
        }
    }
}

/// Scan the decimal header field that starts at `i`.
fn scan_field_exec(s: &Vec<u8>, i: usize) -> (r: FieldStep)
    requires
        i <= s@.len(),
    ensures
        r@ == scan_field(s@, i as int),
        r matches FieldStep::Value(v, p) ==> p <= s@.len() && v < 1000,
{
    let n = s.len();
    let d = scan_digits(s, i);
    if i + d >= n {
        if d <= 3 {
            FieldStep::Incomplete
        } else {
            FieldStep::Malformed
        }
    } else if d < 1 || d > 3 {
        FieldStep::Malformed
    } else if s[i + d] != COMMA {
        FieldStep::Malformed
    } else {
        proof {
            assert forall|j: int| i <= j < i + d implies is_digit(#[trigger] s@[j]) by {
                lemma_digits_run_bytes(s@, i as int, j);
            }
        }
        let v = dec_value(s, i, d);
        FieldStep::Value(v, i + d + 1)
    }
}

/// Decode the completed line `s[0 .. f]`.
fn decode_line_exec(s: &Vec<u8>, f: usize) -> (r: Option<Response>)
    requires
        f <= s@.len(),
    ensures
        match r {
            Some(resp) => decode_line(s@.take(f as int)) == Some(resp@),
            None => decode_line(s@.take(f as int)) is None,
        },
{
    let ghost line = s@.take(f as int);
    if f == 2 && range_eq(s, 0, &TOK_OK) {
        proof {
            assert(line =~= TOK_OK@);
        }
        return Some(Response::Ack);
    }
    proof {
        assert(line != TOK_OK@) by {
            if line == TOK_OK@ {
                assert(line.len() == 2);
                assert(s@.subrange(0, 2) =~= line);
            }
        }
    }
    if f >= 5 && range_eq(s, 0, &TOK_ERROR) {
        proof {
            assert(line.take(5) =~= s@.subrange(0, 5));
            assert(starts_with(line, TOK_ERROR@));
        }
        let ghost rest = line.skip(5);
        let has_minus = f > 5 && s[5] == MINUS;
        let dstart: usize = if has_minus {
            6
        } else {
            5
        };
        proof {
            assert(rest.len() == f - 5);
            if f > 5 {
                assert(rest[0] == s@[5]);
            }
            if has_minus {
                assert(rest.skip(1) =~= s@.subrange(6, f as int));
            } else {
                assert(rest =~= s@.subrange(5, f as int));
            }
        }
        let ghost ds = s@.subrange(dstart as int, f as int);
        if f - dstart < 1 || f - dstart > 3 {
            return None;
        }
        let count = f - dstart;
        let d = scan_digits(s, dstart);
        if d < count {
            proof {
                lemma_digits_run_end(s@, dstart as int);
                assert(!is_digit(s@[dstart + d]));
                assert(ds[d as int] == s@[dstart + d]);
                assert(!all_digits(ds));
            }
            return None;
        }
        proof {
            assert forall|j: int| 0 <= j < ds.len() implies is_digit(#[trigger] ds[j]) by {
                assert(ds[j] == s@[dstart + j]);
                lemma_digits_run_bytes(s@, dstart as int, dstart + j);
            }
            assert forall|j: int| dstart <= j < dstart + count implies is_digit(
                #[trigger] s@[j],
            ) by {
                lemma_digits_run_bytes(s@, dstart as int, j);
            }
        }
        let v = dec_value(s, dstart, count);
        proof {
            assert(ds =~= s@.subrange(dstart as int, dstart + count));
        }
        if has_minus {
            return Some(Response::Error(-(v as i16)));
        } else {
            return Some(Response::Error(v as i16));
        }
    }
    proof {
        if starts_with(line, TOK_ERROR@) {
            assert(line.len() >= 5);
            assert(line.take(5) =~= s@.subrange(0, 5));
        }
    }
    if f >= 12 && range_eq(s, 0, &TOK_INITIALIZED) {
        proof {
            assert(line.take(12) =~= s@.subrange(0, 12));
            assert(starts_with(line, TOK_INITIALIZED@));
        }
        let ghost rest = line.skip(12);
        let ghost ds = rest;
        proof {
            assert(rest =~= s@.subrange(12, f as int));
        }
        if f - 12 < 1 || f - 12 > 3 {
            return None;
        }
        let count = f - 12;
        let d = scan_digits(s, 12);
        if d < count {
            proof {
                lemma_digits_run_end(s@, 12);
                assert(!is_digit(s@[12 + d]));
                assert(ds[d as int] == s@[12 + d]);
                assert(!all_digits(ds));
            }
            return None;
        }
        proof {
            assert forall|j: int| 0 <= j < ds.len() implies is_digit(#[trigger] ds[j]) by {
                assert(ds[j] == s@[12 + j]);
                lemma_digits_run_bytes(s@, 12, 12 + j);
            }
            assert forall|j: int| 12 <= j < 12 + count implies is_digit(#[trigger] s@[j]) by {
                lemma_digits_run_bytes(s@, 12, j);
            }
        }
        let v = dec_value(s, 12, count);
        proof {
            assert(ds =~= s@.subrange(12, 12 + count));
        }
        return match LoraRegion::from_code(v) {
            Some(region) => Some(Response::Initialized(region)),
            None => None,
        };
    }
    proof {
        if starts_with(line, TOK_INITIALIZED@) {
            assert(line.len() >= 12);
            assert(line.take(12) =~= s@.subrange(0, 12));
        }
    }
    None
}

/// Frame and decode by terminator scan alone.
fn parse_line_exec(s: &Vec<u8>) -> (r: ParseStep)
    ensures
        r@ == parse_line(s@),
        r@ matches ParseModel::Decoded(_, n) ==> n <= s@.len(),
        r@ matches ParseModel::Failed(n) ==> n <= s@.len(),
{
    let n = s.len();
    match find_terminator(s) {
        None => ParseStep::Incomplete,
        Some(f) => {
            proof {
                assert(f + 2 <= n);
            }
            match decode_line_exec(s, f) {
                Some(resp) => ParseStep::Decoded(resp, f + 2),
                None => ParseStep::Failed(f + 2),
            }
        },
    }
}

/// One parse attempt over the buffered bytes.
pub fn parse_unit(s: &Vec<u8>) -> (r: ParseStep)
    ensures
        r@ == parse_spec(s@),
        r@ matches ParseModel::Decoded(_, n) ==> 0 < n <= s@.len(),
        r@ matches ParseModel::Failed(n) ==> 0 < n <= s@.len(),
{
    if !crate::wire::has_prefix(s, &TOK_RECV) {
        return parse_line_exec(s);
    }
    let f1 = scan_field_exec(s, 5);
    let (code, p1) = match f1 {
        FieldStep::Incomplete => {
            return ParseStep::Incomplete;
        },
        FieldStep::Malformed => {
            return parse_line_exec(s);
        },
        FieldStep::Value(v, p) => (v, p),
    };
    let f2 = scan_field_exec(s, p1);
    let (port, p2) = match f2 {
        FieldStep::Incomplete => {
            return ParseStep::Incomplete;
        },
        FieldStep::Malformed => {
            return parse_line_exec(s);
        },
        FieldStep::Value(v, p) => (v, p),
    };
    let f3 = scan_field_exec(s, p2);
    let (len, p3) = match f3 {
        FieldStep::Incomplete => {
            return ParseStep::Incomplete;
        },
        FieldStep::Malformed => {
            return parse_line_exec(s);
        },
        FieldStep::Value(v, p) => (v, p),
    };
    if len > 255 {
        return parse_line_exec(s);
    }
    let len_us = len as usize;
    let n = s.len();
    proof {
        assert(p3 <= n);
    }
    if n - p3 < len_us + 2 {
        return ParseStep::Incomplete;
    }
    if s[p3 + len_us] == CR && s[p3 + len_us + 1] == LF {
        match EventCode::from_code(code) {
            Some(ec) => {
                if port <= 255 {
                    let mut payload: Vec<u8> = Vec::new();
                    let end = p3 + len_us;
                    let mut i: usize = p3;
                    while i < end
                        invariant
                            p3 <= i <= end,
                            end == p3 + len_us,
                            end <= n == s@.len(),
                            payload@ == s@.subrange(p3 as int, i as int),
                        decreases end - i,
                    {
                        payload.push(s[i]);
                        proof {
                            assert(s@.subrange(p3 as int, i + 1) =~= s@.subrange(
                                p3 as int,
                                i as int,
                            ) + seq![s@[i as int]]);
                        }
                        i = i + 1;
                    }
                    ParseStep::Decoded(
                        Response::Recv(ec, port as u8, len_us, payload),
                        p3 + len_us + 2,
                    )
                } else {
                    ParseStep::Failed(p3 + len_us + 2)
                }
            },
            None => ParseStep::Failed(p3 + len_us + 2),
        }
    } else {
        ParseStep::Failed(p3 + len_us + 2)
    }
}

} // verus!
