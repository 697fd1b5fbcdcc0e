//! Frame codec for the realtime channel.
//!
//! One inbound client frame is one JSON object pairing a claimed producer
//! identity with a price update:
//! `{"client_id": string, "instrument": {"instrument_id": int,
//! "last_price": num, "prev_price": num, "change": num}}`.
//! The outbound frame strips the envelope and re-broadcasts the bare update
//! in canonical form, without added whitespace.
//!
//! The grammar is fixed: keys in the order above, JSON whitespace between
//! tokens, strings without escapes, numbers as an optional sign, digits
//! without a superfluous leading zero, and an optional fraction. Numeric
//! fields are kept as their decimal source text and forwarded verbatim; the
//! core never interprets them. The spec functions below are the grammar;
//! the executable parser and renderer are proved to match them exactly.

use vstd::prelude::*;
use vstd::string::StrSliceExecFns;
use vstd::string::StringExecFns;

verus! {

/// JSON whitespace.
pub open spec fn is_ws_char(c: char) -> bool {
    c == ' ' || c == '\t' || c == '\n' || c == '\r'
}

/// ASCII decimal digit.
pub open spec fn is_digit_char(c: char) -> bool {
    48 <= c as u32 <= 57
}

/// Character allowed inside a string value: printable, no quote, no escape.
pub open spec fn is_text_char(c: char) -> bool {
    c as u32 >= 32 && c != '"' && c != '\\'
}

/// First position at or after `i` that does not hold whitespace.
pub open spec fn spec_skip_ws(s: Seq<char>, i: int) -> int
    decreases s.len() - i,
{
    if 0 <= i < s.len() && is_ws_char(s[i]) {
        spec_skip_ws(s, i + 1)
    } else {
        i
    }
}

/// First position at or after `i` that does not hold a digit.
pub open spec fn spec_digits_end(s: Seq<char>, i: int) -> int
    decreases s.len() - i,
{
    if 0 <= i < s.len() && is_digit_char(s[i]) {
        spec_digits_end(s, i + 1)
    } else {
        i
    }
}

/// First position at or after `i` that cannot continue a string value.
pub open spec fn spec_text_end(s: Seq<char>, i: int) -> int
    decreases s.len() - i,
{
    if 0 <= i < s.len() && is_text_char(s[i]) {
        spec_text_end(s, i + 1)
    } else {
        i
    }
}

/// The literal `l` occurs in `s` at position `i`.
pub open spec fn lit_at(s: Seq<char>, i: int, l: Seq<char>) -> bool {
    0 <= i && i + l.len() <= s.len() && s.subrange(i, i + l.len() as int) == l
}

/// Skips whitespace, then demands the literal; yields the position after it.
pub open spec fn spec_tok(s: Seq<char>, i: int, l: Seq<char>) -> Option<int> {
    let j = spec_skip_ws(s, i);
    if lit_at(s, j, l) {
        Some(j + l.len() as int)
    } else {
        None
    }
}

/// Parses a number token after optional whitespace: an optional minus sign,
/// digits without a superfluous leading zero, and, when `frac` allows it, an
/// optional dot followed by more digits. Yields the token text.
pub open spec fn spec_parse_num(s: Seq<char>, i0: int, frac: bool) -> Option<(Seq<char>, int)> {
    let i = spec_skip_ws(s, i0);
    let j = if i < s.len() && s[i] == '-' {
        i + 1
    } else {
        i
    };
    let k = spec_digits_end(s, j);
    if k == j {
        None
    } else if s[j] == '0' && k > j + 1 {
        None
    } else if frac && k < s.len() && s[k] == '.' {
        let m = spec_digits_end(s, k + 1);
        if m == k + 1 {
            None
        } else {
            Some((s.subrange(i, m), m))
        }
    } else {
        Some((s.subrange(i, k), k))
    }
}

/// Parses a quoted string value after optional whitespace; yields its content.
pub open spec fn spec_parse_string(s: Seq<char>, i0: int) -> Option<(Seq<char>, int)> {
    let i = spec_skip_ws(s, i0);
    if i < s.len() && s[i] == '"' {
        let j = spec_text_end(s, i + 1);
        if j < s.len() && s[j] == '"' {
            Some((s.subrange(i + 1, j), j + 1))
        } else {
            None
        }
    } else {
        None
    }
}

/// One instrument's price movement, each numeric field kept as the decimal
/// text it arrived with.
#[derive(Clone, Debug, PartialEq)]
pub struct InstrumentUpdate {
    pub instrument_id: String,
    pub last_price: String,
    pub prev_price: String,
    pub change: String,
}

/// Mathematical view of an update: the four tokens as character sequences.
pub struct InstrumentUpdateView {
    pub instrument_id: Seq<char>,
    pub last_price: Seq<char>,
    pub prev_price: Seq<char>,
    pub change: Seq<char>,
}

impl View for InstrumentUpdate {
    type V = InstrumentUpdateView;

    open spec fn view(&self) -> InstrumentUpdateView {
        InstrumentUpdateView {
            instrument_id: self.instrument_id@,
            last_price: self.last_price@,
            prev_price: self.prev_price@,
            change: self.change@,
        }
    }
}

/// The only inbound client message shape: a claimed producer identity and
/// one instrument update.
#[derive(Clone, Debug, PartialEq)]
pub struct UpdatePayload {
    pub client_id: String,
    pub instrument: InstrumentUpdate,
}

/// Mathematical view of an envelope.
pub struct UpdatePayloadView {
    pub client_id: Seq<char>,
    pub instrument: InstrumentUpdateView,
}

impl View for UpdatePayload {
    type V = UpdatePayloadView;

    open spec fn view(&self) -> UpdatePayloadView {
        UpdatePayloadView { client_id: self.client_id@, instrument: self.instrument@ }
    }
}

/// Parses the update object starting at `i0`.
pub open spec fn spec_parse_update(s: Seq<char>, i0: int) -> Option<(InstrumentUpdateView, int)> {
    match spec_tok(s, i0, "{"@) {
        None => None,
        Some(i1) => match spec_tok(s, i1, "\"instrument_id\""@) {
            None => None,
            Some(i2) => match spec_tok(s, i2, ":"@) {
                None => None,
                Some(i3) => match spec_parse_num(s, i3, false) {
                    None => None,
                    Some((id_tok, i4)) => match spec_tok(s, i4, ","@) {
                        None => None,
                        Some(i5) => match spec_tok(s, i5, "\"last_price\""@) {
                            None => None,
                            Some(i6) => match spec_tok(s, i6, ":"@) {
                                None => None,
                                Some(i7) => match spec_parse_num(s, i7, true) {
                                    None => None,
                                    Some((last_tok, i8)) => spec_parse_update_tail(
                                        s,
                                        i8,
                                        id_tok,
                                        last_tok,
                                    ),
                                },
                            },
                        },
                    },
                },
            },
        },
    }
}

/// Parses the `prev_price` and `change` members and the closing brace.
pub open spec fn spec_parse_update_tail(
    s: Seq<char>,
    i0: int,
    id_tok: Seq<char>,
    last_tok: Seq<char>,
) -> Option<(InstrumentUpdateView, int)> {
    match spec_tok(s, i0, ","@) {
        None => None,
        Some(i1) => match spec_tok(s, i1, "\"prev_price\""@) {
            None => None,
            Some(i2) => match spec_tok(s, i2, ":"@) {
                None => None,
                Some(i3) => match spec_parse_num(s, i3, true) {
                    None => None,
                    Some((prev_tok, i4)) => match spec_tok(s, i4, ","@) {
                        None => None,
                        Some(i5) => match spec_tok(s, i5, "\"change\""@) {
                            None => None,
                            Some(i6) => match spec_tok(s, i6, ":"@) {
                                None => None,
                                Some(i7) => match spec_parse_num(s, i7, true) {
                                    None => None,
                                    Some((change_tok, i8)) => match spec_tok(s, i8, "}"@) {
                                        None => None,
                                        Some(i9) => Some(
                                            (
                                                InstrumentUpdateView {
                                                    instrument_id: id_tok,
                                                    last_price: last_tok,
                                                    prev_price: prev_tok,
                                                    change: change_tok,
                                                },
                                                i9,
                                            ),
                                        ),
                                    },
                                },
                            },
                        },
                    },
                },
            },
        },
    }
}

/// Parses a whole inbound frame: the envelope object with nothing but
/// whitespace after it.
pub open spec fn spec_parse_envelope(s: Seq<char>) -> Option<UpdatePayloadView> {
    match spec_tok(s, 0, "{"@) {
        None => None,
        Some(i1) => match spec_tok(s, i1, "\"client_id\""@) {
            None => None,
            Some(i2) => match spec_tok(s, i2, ":"@) {
                None => None,
                Some(i3) => match spec_parse_string(s, i3) {
                    None => None,
                    Some((cid, i4)) => match spec_tok(s, i4, ","@) {
                        None => None,
                        Some(i5) => match spec_tok(s, i5, "\"instrument\""@) {
                            None => None,
                            Some(i6) => match spec_tok(s, i6, ":"@) {
                                None => None,
                                Some(i7) => match spec_parse_update(s, i7) {
                                    None => None,
                                    Some((u, i8)) => match spec_tok(s, i8, "}"@) {
                                        None => None,
                                        Some(i9) => if spec_skip_ws(s, i9) == s.len() {
                                            Some(
                                                (UpdatePayloadView { client_id: cid, instrument: u }),
                                            )
                                        } else {
                                            None
                                        },
                                    },
                                },
                            },
                        },
                    },
                },
            },
        },
    }
}

/// The canonical outbound frame for an update: the bare object, no spaces,
/// numeric tokens forwarded verbatim.
pub open spec fn spec_render_update(u: InstrumentUpdateView) -> Seq<char> {
    "{\"instrument_id\":"@ + u.instrument_id + ",\"last_price\":"@ + u.last_price
        + ",\"prev_price\":"@ + u.prev_price + ",\"change\":"@ + u.change + "}"@
}

/// A well-shaped number token: an optional minus sign, a nonempty digit run
/// with no superfluous leading zero, and, when `frac` allows it, an optional
/// dot followed by digits to the end. Exactly the tokens the parser accepts
/// as whole number fields.
pub open spec fn num_token_wf(t: Seq<char>, frac: bool) -> bool {
    let j: int = if t.len() > 0 && t[0] == '-' {
        1
    } else {
        0
    };
    let k = spec_digits_end(t, j);
    &&& j < t.len()
    &&& k > j
    &&& (t[j] != '0' || k == j + 1)
    &&& (k == t.len() || (frac && k + 1 < t.len() && t[k] == '.' && spec_digits_end(t, k + 1)
        == t.len()))
}

/// A digit run that stops exactly at `e` is what `spec_digits_end` finds.
proof fn lemma_digits_run(s: Seq<char>, i: int, e: int)
    requires
        0 <= i <= e <= s.len(),
        forall|x: int| i <= x < e ==> is_digit_char(#[trigger] s[x]),
        e == s.len() || !is_digit_char(s[e]),
    ensures
        spec_digits_end(s, i) == e,
    decreases e - i,
{
    if i < e {
        lemma_digits_run(s, i + 1, e);
    }
}

/// Everything before the end of a digit run is a digit.
proof fn lemma_digits_end_all(t: Seq<char>, i: int)
    requires
        0 <= i <= t.len(),
    ensures
        i <= spec_digits_end(t, i) <= t.len(),
        forall|x: int| i <= x < spec_digits_end(t, i) ==> is_digit_char(#[trigger] t[x]),
    decreases t.len() - i,
{
    if i < t.len() && is_digit_char(t[i]) {
        lemma_digits_end_all(t, i + 1);
    }
}

/// A well-shaped number token embedded at `off`, delimited on the right by
/// the end of the text or by a character that can continue neither the digit
/// run nor a fraction, parses as exactly that token.
proof fn lemma_parse_num_embedded(s: Seq<char>, off: int, t: Seq<char>, frac: bool)
    requires
        0 <= off,
        off + t.len() <= s.len(),
        s.subrange(off, off + t.len() as int) == t,
        num_token_wf(t, frac),
        off + t.len() == s.len() || (!is_digit_char(s[off + t.len()]) && s[off + t.len()] != '.'),
    ensures
        spec_parse_num(s, off, frac) == Some((t, off + t.len() as int)),
{
    let end = off + t.len() as int;
    let jt: int = if t[0] == '-' {
        1
    } else {
        0
    };
    let kt = spec_digits_end(t, jt);
    lemma_digits_end_all(t, jt);
    assert forall|x: int| 0 <= x < t.len() implies s[off + x] == t[x] by {
        assert(s.subrange(off, end)[x] == s[off + x]);
    }
    // the token's first character is a sign or a digit, never whitespace
    assert(!is_ws_char(s[off]));
    assert(spec_skip_ws(s, off) == off);
    let j = if off < s.len() && s[off] == '-' {
        off + 1
    } else {
        off
    };
    assert(j == off + jt);
    // the digit run inside the token places the run's end in the text
    assert forall|x: int| j <= x < off + kt implies is_digit_char(#[trigger] s[x]) by {
        assert(s[x] == t[x - off]);
    }
    if kt < t.len() {
        assert(s[off + kt] == t[kt]);
        lemma_digits_run(s, j, off + kt);
        // fraction: the dot, then digits to the token's end
        lemma_digits_end_all(t, kt + 1);
        assert forall|x: int| off + kt + 1 <= x < end implies is_digit_char(#[trigger] s[x]) by {
            assert(s[x] == t[x - off]);
        }
        lemma_digits_run(s, off + kt + 1, end);
    } else {
        lemma_digits_run(s, j, off + kt);
    }
    assert(s[j] == t[jt]);
}

/// Positions never move backwards while skipping.
proof fn lemma_skip_ws_bounds(s: Seq<char>, i: int)
    requires
        0 <= i <= s.len(),
    ensures
        i <= spec_skip_ws(s, i) <= s.len(),
    decreases s.len() - i,
{
    if i < s.len() && is_ws_char(s[i]) {
        lemma_skip_ws_bounds(s, i + 1);
    }
}

proof fn lemma_text_end_bounds(s: Seq<char>, i: int)
    requires
        0 <= i <= s.len(),
    ensures
        i <= spec_text_end(s, i) <= s.len(),
    decreases s.len() - i,
{
    if i < s.len() && is_text_char(s[i]) {
        lemma_text_end_bounds(s, i + 1);
    }
}

/// Advances an index past whitespace.
fn skip_ws(s: &str, i: usize) -> (j: usize)
    requires
        i <= s@.len(),
    ensures
        j as int == spec_skip_ws(s@, i as int),
        i <= j <= s@.len(),
{
    let n = s.unicode_len();
    let mut j = i;
    while j < n
        invariant
            i <= j <= n,
            n == s@.len(),
            spec_skip_ws(s@, i as int) == spec_skip_ws(s@, j as int),
        decreases n - j,
    {
        let c = s.get_char(j);
        if !(c == ' ' || c == '\t' || c == '\n' || c == '\r') {
            return j;
        }
        j = j + 1;
    }
    j
}

/// Advances an index past digits.
fn digits_end(s: &str, i: usize) -> (j: usize)
    requires
        i <= s@.len(),
    ensures
        j as int == spec_digits_end(s@, i as int),
        i <= j <= s@.len(),
{
    let n = s.unicode_len();
    let mut j = i;
    while j < n
        invariant
            i <= j <= n,
            n == s@.len(),
            spec_digits_end(s@, i as int) == spec_digits_end(s@, j as int),
        decreases n - j,
    {
        let c = s.get_char(j);
        if !(c as u32 >= 48 && c as u32 <= 57) {
            return j;
        }
        j = j + 1;
    }
    j
}

/// Advances an index past string-value characters.
fn text_end(s: &str, i: usize) -> (j: usize)
    requires
        i <= s@.len(),
    ensures
        j as int == spec_text_end(s@, i as int),
        i <= j <= s@.len(),
{
    let n = s.unicode_len();
    let mut j = i;
    while j < n
        invariant
            i <= j <= n,
            n == s@.len(),
            spec_text_end(s@, i as int) == spec_text_end(s@, j as int),
        decreases n - j,
    {
        let c = s.get_char(j);
        if !(c as u32 >= 32 && c != '"' && c != '\\') {
            return j;
        }
        j = j + 1;
    }
    j
}

/// Tests whether the literal occurs at the given position.
fn match_lit(s: &str, i: usize, lit: &str) -> (r: bool)
    requires
        i <= s@.len(),
    ensures
        r == lit_at(s@, i as int, lit@),
{
    let n = s.unicode_len();
    let m = lit.unicode_len();
    if m > n || i > n - m {
        return false;
    }
    let mut k: usize = 0;
    while k < m
        invariant
            0 <= k <= m,
            n == s@.len(),
            m == lit@.len(),
            i + m <= n,
            forall|t: int| 0 <= t < k ==> s@[i + t] == lit@[t],
        decreases m - k,
    {
        if s.get_char(i + k) != lit.get_char(k) {
            proof {
                assert(s@.subrange(i as int, i + m) [k as int] != lit@[k as int]);
            }
            return false;
        }
        k = k + 1;
    }
    proof {
        assert(s@.subrange(i as int, i + m) =~= lit@);
    }
    true
}

/// Skips whitespace, then demands a literal.
fn tok(s: &str, i: usize, lit: &str) -> (r: Option<usize>)
    requires
        i <= s@.len(),
    ensures
        match r {
            Some(j) => spec_tok(s@, i as int, lit@) == Some(j as int) && i <= j <= s@.len(),
            None => spec_tok(s@, i as int, lit@) is None,
        },
{
    let j = skip_ws(s, i);
    if match_lit(s, j, lit) {
        let n = s.unicode_len();
        let m = lit.unicode_len();
        proof {
            assert(j + m <= n);
        }
        Some(j + m)
    } else {
        None
    }
}

/// Parses a number token; `frac` allows a fractional part.
fn parse_num_at(s: &str, i: usize, frac: bool) -> (r: Option<(String, usize)>)
    requires
        i <= s@.len(),
    ensures
        match r {
            Some((t, j)) => spec_parse_num(s@, i as int, frac) == Some((t@, j as int)) && i <= j
                <= s@.len(),
            None => spec_parse_num(s@, i as int, frac) is None,
        },
{
    let n = s.unicode_len();
    let start = skip_ws(s, i);
    let j = if start < n && s.get_char(start) == '-' {
        start + 1
    } else {
        start
    };
    let k = digits_end(s, j);
    if k == j {
        return None;
    }
    if s.get_char(j) == '0' && k > j + 1 {
        return None;
    }
    if frac && k < n && s.get_char(k) == '.' {
        let m = digits_end(s, k + 1);
        if m == k + 1 {
            return None;
        }
        let t = s.substring_char(start, m).to_owned();
        return Some((t, m));
    }
    let t = s.substring_char(start, k).to_owned();
    Some((t, k))
}

/// Parses a quoted string value; yields its content.
fn parse_string_at(s: &str, i: usize) -> (r: Option<(String, usize)>)
    requires
        i <= s@.len(),
    ensures
        match r {
            Some((t, j)) => spec_parse_string(s@, i as int) == Some((t@, j as int)) && i <= j
                <= s@.len(),
            None => spec_parse_string(s@, i as int) is None,
        },
{
    let n = s.unicode_len();
    let start = skip_ws(s, i);
    if !(start < n && s.get_char(start) == '"') {
        return None;
    }
    let j = text_end(s, start + 1);
    if !(j < n && s.get_char(j) == '"') {
        return None;
    }
    let t = s.substring_char(start + 1, j).to_owned();
    Some((t, j + 1))
}

/// Parses the update object starting at `i`.
fn parse_update_at(s: &str, i: usize) -> (r: Option<(InstrumentUpdate, usize)>)
    requires
        i <= s@.len(),
    ensures
        match r {
            Some((u, j)) => spec_parse_update(s@, i as int) == Some((u@, j as int)) && i <= j
                <= s@.len(),
            None => spec_parse_update(s@, i as int) is None,
        },
{
    let i1 = match tok(s, i, "{") {
        Some(v) => v,
        None => {
            return None;
        },
    };
    let i2 = match tok(s, i1, "\"instrument_id\"") {
        Some(v) => v,
        None => {
            return None;
        },
    };
    let i3 = match tok(s, i2, ":") {
        Some(v) => v,
        None => {
            return None;
        },
    };
    let (id_tok, i4) = match parse_num_at(s, i3, false) {
        Some(v) => v,
        None => {
            return None;
        },
    };
    let i5 = match tok(s, i4, ",") {
        Some(v) => v,
        None => {
            return None;
        },
    };
    let i6 = match tok(s, i5, "\"last_price\"") {
        Some(v) => v,
        None => {
            return None;
        },
    };
    let i7 = match tok(s, i6, ":") {
        Some(v) => v,
        None => {
            return None;
        },
    };
    let (last_tok, i8) = match parse_num_at(s, i7, true) {
        Some(v) => v,
        None => {
            return None;
        },
    };
    let i9 = match tok(s, i8, ",") {
        Some(v) => v,
        None => {
            return None;
        },
    };
    let i10 = match tok(s, i9, "\"prev_price\"") {
        Some(v) => v,
        None => {
            return None;
        },
    };
    let i11 = match tok(s, i10, ":") {
        Some(v) => v,
        None => {
            return None;
        },
    };
    let (prev_tok, i12) = match parse_num_at(s, i11, true) {
        Some(v) => v,
        None => {
            return None;
        },
    };
    let i13 = match tok(s, i12, ",") {
        Some(v) => v,
        None => {
            return None;
        },
    };
    let i14 = match tok(s, i13, "\"change\"") {
        Some(v) => v,
        None => {
            return None;
        },
    };
    let i15 = match tok(s, i14, ":") {
        Some(v) => v,
        None => {
            return None;
        },
    };
    let (change_tok, i16) = match parse_num_at(s, i15, true) {
        Some(v) => v,
        None => {
            return None;
        },
    };
    let i17 = match tok(s, i16, "}") {
        Some(v) => v,
        None => {
            return None;
        },
    };
    let u = InstrumentUpdate {
        instrument_id: id_tok,
        last_price: last_tok,
        prev_price: prev_tok,
        change: change_tok,
    };
    Some((u, i17))
}

/// Parses one inbound frame as an envelope; `None` exactly when the text is
/// not a well-formed frame.
pub fn parse_envelope(s: &str) -> (r: Option<UpdatePayload>)
    ensures
        match r {
            Some(p) => spec_parse_envelope(s@) == Some(p@),
            None => spec_parse_envelope(s@) is None,
        },
{
    let i1 = match tok(s, 0, "{") {
        Some(v) => v,
        None => {
            return None;
        },
    };
    let i2 = match tok(s, i1, "\"client_id\"") {
        Some(v) => v,
        None => {
            return None;
        },
    };
    let i3 = match tok(s, i2, ":") {
        Some(v) => v,
        None => {
            return None;
        },
    };
    let (cid, i4) = match parse_string_at(s, i3) {
        Some(v) => v,
        None => {
            return None;
        },
    };
    let i5 = match tok(s, i4, ",") {
        Some(v) => v,
        None => {
            return None;
        },
    };
    let i6 = match tok(s, i5, "\"instrument\"") {
        Some(v) => v,
        None => {
            return None;
        },
    };
    let i7 = match tok(s, i6, ":") {
        Some(v) => v,
        None => {
            return None;
        },
    };
    let (u, i8) = match parse_update_at(s, i7) {
        Some(v) => v,
        None => {
            return None;
        },
    };
    let i9 = match tok(s, i8, "}") {
        Some(v) => v,
        None => {
            return None;
        },
    };
    let rest = skip_ws(s, i9);
    if rest != s.unicode_len() {
        return None;
    }
    Some(UpdatePayload { client_id: cid, instrument: u })
}

/// Whatever the number parser accepts is a well-shaped token.
proof fn lemma_parse_num_token_wf(s: Seq<char>, i0: int, frac: bool)
    requires
        0 <= i0 <= s.len(),
    ensures
        spec_parse_num(s, i0, frac) matches Some(r) ==> num_token_wf(r.0, frac) && i0 <= r.1
            <= s.len(),
{
    if spec_parse_num(s, i0, frac) is Some {
        lemma_skip_ws_bounds(s, i0);
        let i = spec_skip_ws(s, i0);
        let j = if i < s.len() && s[i] == '-' {
            i + 1
        } else {
            i
        };
        let k = spec_digits_end(s, j);
        lemma_digits_end_all(s, j);
        assert(k > j);
        if frac && k < s.len() && s[k] == '.' {
            let m = spec_digits_end(s, k + 1);
            lemma_digits_end_all(s, k + 1);
            let t = s.subrange(i, m);
            assert forall|x: int| 0 <= x < t.len() implies t[x] == s[i + x] by {}
            let jt = j - i;
            assert(t[0] == '-' <==> jt == 1);
            lemma_digits_run(t, jt, k - i);
            lemma_digits_run(t, k - i + 1, t.len() as int);
            assert(num_token_wf(t, frac));
        } else {
            let t = s.subrange(i, k);
            assert forall|x: int| 0 <= x < t.len() implies t[x] == s[i + x] by {}
            let jt = j - i;
            assert(t[0] == '-' <==> jt == 1);
            lemma_digits_run(t, jt, t.len() as int);
            assert(num_token_wf(t, frac));
        }
    }
}

/// A token match never leaves the text.
proof fn lemma_tok_bounds(s: Seq<char>, i: int, l: Seq<char>)
    requires
        0 <= i <= s.len(),
    ensures
        spec_tok(s, i, l) matches Some(j) ==> i <= j <= s.len(),
{
    lemma_skip_ws_bounds(s, i);
}

/// A string value match never leaves the text.
proof fn lemma_parse_string_bounds(s: Seq<char>, i: int)
    requires
        0 <= i <= s.len(),
    ensures
        spec_parse_string(s, i) matches Some(r) ==> i <= r.1 <= s.len(),
{
    lemma_skip_ws_bounds(s, i);
    let j = spec_skip_ws(s, i);
    if j < s.len() && s[j] == '"' {
        lemma_text_end_bounds(s, j + 1);
    }
}

/// The trailing members a successful tail parse yields: well-shaped number
/// tokens, with the leading members passed through unchanged.
proof fn lemma_parse_tail_tokens_wf(s: Seq<char>, i0: int, a: Seq<char>, b: Seq<char>)
    requires
        0 <= i0 <= s.len(),
    ensures
        spec_parse_update_tail(s, i0, a, b) matches Some(r) ==> {
            &&& r.0.instrument_id == a
            &&& r.0.last_price == b
            &&& num_token_wf(r.0.prev_price, true)
            &&& num_token_wf(r.0.change, true)
            &&& i0 <= r.1 <= s.len()
        },
{
    lemma_tok_bounds(s, i0, ","@);
    match spec_tok(s, i0, ","@) {
        None => {},
        Some(i1) => {
            lemma_tok_bounds(s, i1, "\"prev_price\""@);
            match spec_tok(s, i1, "\"prev_price\""@) {
                None => {},
                Some(i2) => {
                    lemma_tok_bounds(s, i2, ":"@);
                    match spec_tok(s, i2, ":"@) {
                        None => {},
                        Some(i3) => {
                            lemma_parse_num_token_wf(s, i3, true);
                            match spec_parse_num(s, i3, true) {
                                None => {},
                                Some((_prev_tok, i4)) => {
                                    lemma_tok_bounds(s, i4, ","@);
                                    match spec_tok(s, i4, ","@) {
                                        None => {},
                                        Some(i5) => {
                                            lemma_tok_bounds(s, i5, "\"change\""@);
                                            match spec_tok(s, i5, "\"change\""@) {
                                                None => {},
                                                Some(i6) => {
                                                    lemma_tok_bounds(s, i6, ":"@);
                                                    match spec_tok(s, i6, ":"@) {
                                                        None => {},
                                                        Some(i7) => {
                                                            lemma_parse_num_token_wf(s, i7, true);
                                                            match spec_parse_num(s, i7, true) {
                                                                None => {},
                                                                Some((_change_tok, i8)) => {
                                                                    lemma_tok_bounds(s, i8, "}"@);
                                                                },
                                                            }
                                                        },
                                                    }
                                                },
                                            }
                                        },
                                    }
                                },
                            }
                        },
                    }
                },
            }
        },
    }
}

/// The fields a successful update parse yields are well-shaped number
/// tokens, and the parse never leaves the text.
pub proof fn lemma_parse_update_tokens_wf(s: Seq<char>, i0: int)
    requires
        0 <= i0 <= s.len(),
    ensures
        spec_parse_update(s, i0) matches Some(r) ==> {
            &&& num_token_wf(r.0.instrument_id, false)
            &&& num_token_wf(r.0.last_price, true)
            &&& num_token_wf(r.0.prev_price, true)
            &&& num_token_wf(r.0.change, true)
            &&& i0 <= r.1 <= s.len()
        },
{
    lemma_tok_bounds(s, i0, "{"@);
    match spec_tok(s, i0, "{"@) {
        None => {},
        Some(i1) => {
            lemma_tok_bounds(s, i1, "\"instrument_id\""@);
            match spec_tok(s, i1, "\"instrument_id\""@) {
                None => {},
                Some(i2) => {
                    lemma_tok_bounds(s, i2, ":"@);
                    match spec_tok(s, i2, ":"@) {
                        None => {},
                        Some(i3) => {
                            lemma_parse_num_token_wf(s, i3, false);
                            match spec_parse_num(s, i3, false) {
                                None => {},
                                Some((id_tok, i4)) => {
                                    lemma_tok_bounds(s, i4, ","@);
                                    match spec_tok(s, i4, ","@) {
                                        None => {},
                                        Some(i5) => {
                                            lemma_tok_bounds(s, i5, "\"last_price\""@);
                                            match spec_tok(s, i5, "\"last_price\""@) {
                                                None => {},
                                                Some(i6) => {
                                                    lemma_tok_bounds(s, i6, ":"@);
                                                    match spec_tok(s, i6, ":"@) {
                                                        None => {},
                                                        Some(i7) => {
                                                            lemma_parse_num_token_wf(s, i7, true);
                                                            match spec_parse_num(s, i7, true) {
                                                                None => {},
                                                                Some((last_tok, i8)) => {
                                                                    lemma_parse_tail_tokens_wf(
                                                                        s,
                                                                        i8,
                                                                        id_tok,
                                                                        last_tok,
                                                                    );
                                                                },
                                                            }
                                                        },
                                                    }
                                                },
                                            }
                                        },
                                    }
                                },
                            }
                        },
                    }
                },
            }
        },
    }
}

/// A member prefix embedded at `off`: one punctuation character, a quoted
/// key, and a colon, parsed as three consecutive tokens.
proof fn lemma_member_prefix(s: Seq<char>, off: int, lit: Seq<char>, key: Seq<char>, head: Seq<char>)
    requires
        0 <= off,
        off + lit.len() <= s.len(),
        s.subrange(off, off + lit.len() as int) == lit,
        lit.len() == key.len() + 2,
        key.len() > 0,
        head.len() == 1,
        head[0] == lit[0],
        !is_ws_char(lit[0]),
        lit[lit.len() - 1] == ':',
        lit.subrange(1, lit.len() - 1) == key,
        key[0] == '"',
    ensures
        spec_tok(s, off, head) == Some(off + 1),
        spec_tok(s, off + 1, key) == Some(off + 1 + key.len() as int),
        spec_tok(s, off + 1 + key.len() as int, ":"@) == Some(off + lit.len() as int),
{
    reveal_strlit(":");
    let n = lit.len() as int;
    assert forall|x: int| 0 <= x < n implies s[off + x] == lit[x] by {
        assert(s.subrange(off, off + n)[x] == s[off + x]);
    }
    assert(s.subrange(off, off + 1) =~= head);
    assert(spec_skip_ws(s, off) == off);
    assert(s[off + 1] == key[0]);
    assert(!is_ws_char('"'));
    assert(spec_skip_ws(s, off + 1) == off + 1);
    assert forall|x: int| 0 <= x < key.len() implies lit[1 + x] == key[x] by {
        assert(lit.subrange(1, n - 1)[x] == lit[1 + x]);
    }
    assert(s.subrange(off + 1, off + 1 + key.len() as int) =~= key);
    assert(s[off + 1 + key.len()] == ':');
    assert(!is_ws_char(':'));
    assert(spec_skip_ws(s, off + 1 + key.len() as int) == off + 1 + key.len());
    assert(s.subrange(off + 1 + key.len() as int, off + n) =~= ":"@);
}

/// The canonical frame decomposed: where in the rendered text each literal
/// and each field token sits.
proof fn lemma_render_segments(u: InstrumentUpdateView)
    ensures
        ({
            let s = spec_render_update(u);
            let na = u.instrument_id.len() as int;
            let ob = 17 + na;
            let oc = ob + 14;
            let od = oc + u.last_price.len() as int;
            let oe = od + 14;
            let of_ = oe + u.prev_price.len() as int;
            let og = of_ + 10;
            let oh = og + u.change.len() as int;
            &&& s.len() == oh + 1
            &&& s.subrange(0, 17) == "{\"instrument_id\":"@
            &&& s.subrange(17, ob) == u.instrument_id
            &&& s.subrange(ob, oc) == ",\"last_price\":"@
            &&& s.subrange(oc, od) == u.last_price
            &&& s.subrange(od, oe) == ",\"prev_price\":"@
            &&& s.subrange(oe, of_) == u.prev_price
            &&& s.subrange(of_, og) == ",\"change\":"@
            &&& s.subrange(og, oh) == u.change
            &&& s[oh] == '}'
        }),
{
    reveal_strlit("{\"instrument_id\":");
    reveal_strlit(",\"last_price\":");
    reveal_strlit(",\"prev_price\":");
    reveal_strlit(",\"change\":");
    reveal_strlit("}");
    let s = spec_render_update(u);
    let na = u.instrument_id.len() as int;
    let ob = 17 + na;
    let oc = ob + 14;
    let od = oc + u.last_price.len() as int;
    let oe = od + 14;
    let of_ = oe + u.prev_price.len() as int;
    let og = of_ + 10;
    let oh = og + u.change.len() as int;
    assert(s.subrange(0, 17) =~= "{\"instrument_id\":"@);
    assert(s.subrange(17, ob) =~= u.instrument_id);
    assert(s.subrange(ob, oc) =~= ",\"last_price\":"@);
    assert(s.subrange(oc, od) =~= u.last_price);
    assert(s.subrange(od, oe) =~= ",\"prev_price\":"@);
    assert(s.subrange(oe, of_) =~= u.prev_price);
    assert(s.subrange(of_, og) =~= ",\"change\":"@);
    assert(s.subrange(og, oh) =~= u.change);
}

/// The last two members and the closing brace of an embedded update object
/// parse as the tokens they were rendered from.
proof fn lemma_parse_tail_embedded(
    s: Seq<char>,
    od: int,
    a: Seq<char>,
    b: Seq<char>,
    c: Seq<char>,
    d: Seq<char>,
)
    requires
        0 <= od,
        od + 14 + c.len() + 10 + d.len() + 1 == s.len(),
        s.subrange(od, od + 14) == ",\"prev_price\":"@,
        s.subrange(od + 14, od + 14 + c.len() as int) == c,
        s.subrange(od + 14 + c.len() as int, od + 24 + c.len() as int) == ",\"change\":"@,
        s.subrange(od + 24 + c.len() as int, od + 24 + (c.len() + d.len()) as int) == d,
        s[s.len() - 1] == '}',
        num_token_wf(c, true),
        num_token_wf(d, true),
    ensures
        spec_parse_update_tail(s, od, a, b) == Some(
            (
                InstrumentUpdateView { instrument_id: a, last_price: b, prev_price: c, change: d },
                s.len() as int,
            ),
        ),
{
    reveal_strlit(",\"prev_price\":");
    reveal_strlit(",\"change\":");
    reveal_strlit("\"prev_price\"");
    reveal_strlit("\"change\"");
    reveal_strlit(",");
    reveal_strlit("}");
    let lit3 = ",\"prev_price\":"@;
    let lit4 = ",\"change\":"@;
    let oe = od + 14;
    let of_ = oe + c.len() as int;
    let og = of_ + 10;
    let oh = og + d.len() as int;
    assert(lit3.subrange(1, 13) =~= "\"prev_price\""@);
    lemma_member_prefix(s, od, lit3, "\"prev_price\""@, ","@);
    assert(s[of_] == lit4[0]) by {
        assert(s.subrange(of_, og)[0] == s[of_]);
    }
    lemma_parse_num_embedded(s, oe, c, true);
    assert(lit4.subrange(1, 9) =~= "\"change\""@);
    lemma_member_prefix(s, of_, lit4, "\"change\""@, ","@);
    lemma_parse_num_embedded(s, og, d, true);
    assert(spec_skip_ws(s, oh) == oh);
    assert(s.subrange(oh, oh + 1) =~= "}"@);
    assert(spec_tok(s, oh, "}"@) == Some(oh + 1));
}

/// Round trip: the canonical outbound frame of an update whose fields are
/// well-shaped number tokens parses back as exactly that update, consuming
/// the whole text. Rendering loses nothing and never produces a frame that
/// reads back differently.
#[verifier::rlimit(100)]
pub proof fn lemma_render_update_parses_back(u: InstrumentUpdateView)
    requires
        num_token_wf(u.instrument_id, false),
        num_token_wf(u.last_price, true),
        num_token_wf(u.prev_price, true),
        num_token_wf(u.change, true),
    ensures
        spec_parse_update(spec_render_update(u), 0) == Some(
            (u, spec_render_update(u).len() as int),
        ),
{
    reveal_strlit("{\"instrument_id\":");
    reveal_strlit(",\"last_price\":");
    reveal_strlit(",\"prev_price\":");
    reveal_strlit("\"instrument_id\"");
    reveal_strlit("\"last_price\"");
    reveal_strlit("{");
    reveal_strlit(",");
    let lit1 = "{\"instrument_id\":"@;
    let lit2 = ",\"last_price\":"@;
    let a = u.instrument_id;
    let b = u.last_price;
    let c = u.prev_price;
    let d = u.change;
    let s = spec_render_update(u);
    let ob = 17 + a.len() as int;
    let oc = ob + 14;
    let od = oc + b.len() as int;
    lemma_render_segments(u);
    assert(lit1.subrange(1, 16) =~= "\"instrument_id\""@);
    lemma_member_prefix(s, 0, lit1, "\"instrument_id\""@, "{"@);
    assert(s[ob] == lit2[0]) by {
        assert(s.subrange(ob, oc)[0] == s[ob]);
    }
    lemma_parse_num_embedded(s, 17, a, false);
    assert(lit2.subrange(1, 13) =~= "\"last_price\""@);
    lemma_member_prefix(s, ob, lit2, "\"last_price\""@, ","@);
    assert(s[od] == ',') by {
        reveal_strlit(",\"prev_price\":");
        assert(s.subrange(od, od + 14)[0] == s[od]);
    }
    lemma_parse_num_embedded(s, oc, b, true);
    lemma_parse_tail_embedded(s, od, a, b, c, d);
}

/// Faithful re-broadcast: when an inbound frame parses as an envelope, the
/// canonical outbound frame rendered from its update parses back as exactly
/// that update. Nothing a trusted producer sends is distorted on the way to
/// the subscribers.
pub proof fn lemma_republished_frame_faithful(s: Seq<char>)
    ensures
        spec_parse_envelope(s) matches Some(env) ==> spec_parse_update(
            spec_render_update(env.instrument),
            0,
        ) == Some((env.instrument, spec_render_update(env.instrument).len() as int)),
{
    lemma_tok_bounds(s, 0, "{"@);
    match spec_tok(s, 0, "{"@) {
        None => {},
        Some(i1) => {
            lemma_tok_bounds(s, i1, "\"client_id\""@);
            match spec_tok(s, i1, "\"client_id\""@) {
                None => {},
                Some(i2) => {
                    lemma_tok_bounds(s, i2, ":"@);
                    match spec_tok(s, i2, ":"@) {
                        None => {},
                        Some(i3) => {
                            lemma_parse_string_bounds(s, i3);
                            match spec_parse_string(s, i3) {
                                None => {},
                                Some((_cid, i4)) => {
                                    lemma_tok_bounds(s, i4, ","@);
                                    match spec_tok(s, i4, ","@) {
                                        None => {},
                                        Some(i5) => {
                                            lemma_tok_bounds(s, i5, "\"instrument\""@);
                                            match spec_tok(s, i5, "\"instrument\""@) {
                                                None => {},
                                                Some(i6) => {
                                                    lemma_tok_bounds(s, i6, ":"@);
                                                    match spec_tok(s, i6, ":"@) {
                                                        None => {},
                                                        Some(i7) => {
                                                            lemma_parse_update_tokens_wf(s, i7);
                                                            match spec_parse_update(s, i7) {
                                                                None => {},
                                                                Some((u, _i8)) => {
                                                                    lemma_render_update_parses_back(
                                                                        u,
                                                                    );
                                                                },
                                                            }
                                                        },
                                                    }
                                                },
                                            }
                                        },
                                    }
                                },
                            }
                        },
                    }
                },
            }
        },
    }
}

/// Renders the canonical outbound frame for an update.
pub fn render_update(u: &InstrumentUpdate) -> (r: String)
    ensures
        r@ == spec_render_update(u@),
{
    let mut out = String::new();
    out.append("{\"instrument_id\":");
    out.append(u.instrument_id.as_str());
    out.append(",\"last_price\":");
    out.append(u.last_price.as_str());
    out.append(",\"prev_price\":");
    out.append(u.prev_price.as_str());
    out.append(",\"change\":");
    out.append(u.change.as_str());
    out.append("}");
    proof {
        assert(out@ =~= spec_render_update(u@));
    }
    out
}

} // verus!
