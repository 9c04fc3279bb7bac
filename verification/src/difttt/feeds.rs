//! What the off-chain worker reads from the services it talks to, and the
//! requests it makes of them: prices, the ARH999 indicator, task publication
//! and OAK automation tasks.
use vstd::prelude::*;
use vstd::utf8::valid_utf8;

use crate::text::{
    append_bytes, ascii_bytes, base64, base64_encode, decimal, is_utf8, parse_u64, spec_parse_u64,
    u64_to_decimal, utf8_text,
};

verus! {

broadcast use vstd::string::is_ascii_spec_bytes;

/// Why an HTTP exchange with a service failed.
#[derive(Clone, Copy, Debug, PartialEq, Eq, Structural)]
pub enum HttpError {
    DeadlineReached,
    IoError,
    Unknown,
}

/// A JSON number as `lite_json` reads it: `integer.fraction` (the fraction
/// written with `fraction_length` digits), times ten to `exponent`.
#[derive(Clone, Copy, Debug, PartialEq, Eq, Structural)]
pub struct JsonNumber {
    pub integer: u64,
    pub fraction: u64,
    pub fraction_length: u32,
    pub exponent: i32,
    pub negative: bool,
}

/// The members of the JSON object that `lite_json::parse_json` reads from a text:
/// each key with the number it maps to (`None` for a value that is not a number).
/// `None` when the text does not hold an object.
pub uninterp spec fn lite_json_object(text: Seq<char>) -> Option<Seq<(Seq<char>, Option<JsonNumber>)>>;

/// The members of an object as keys and numbers.
pub open spec fn members_view(m: Vec<(Vec<char>, Option<JsonNumber>)>) -> Seq<(Seq<char>, Option<JsonNumber>)> {
    m@.map_values(|e: (Vec<char>, Option<JsonNumber>)| (e.0@, e.1))
}

/// Where a left-to-right reading of a JSON text stands before a character:
/// inside a string (and just after a backslash there), how far it is past an
/// exponent mark (2 right after `e` or `E`, 1 after a sign that follows one),
/// and, within a run of digits outside strings, whether the run is an exponent
/// and the value of its digits so far.
pub struct ScanState {
    pub in_string: bool,
    pub escaped: bool,
    pub mark: nat,
    pub in_run: bool,
    pub exponent: bool,
    pub value: nat,
}

/// The reading before the first character.
pub open spec fn scan_start() -> ScanState {
    ScanState { in_string: false, escaped: false, mark: 0, in_run: false, exponent: false, value: 0 }
}

/// A decimal digit character.
pub open spec fn is_digit_char(c: char) -> bool {
    '0' <= c <= '9'
}

/// The reading after one more character `c`.
pub open spec fn scan_step(st: ScanState, c: char) -> ScanState {
    if st.in_string {
        if st.escaped {
            ScanState { in_string: true, ..scan_start() }
        } else if c == '\\' {
            ScanState { in_string: true, escaped: true, ..scan_start() }
        } else if c == '"' {
            scan_start()
        } else {
            ScanState { in_string: true, ..scan_start() }
        }
    } else if is_digit_char(c) {
        let d = (c as int - '0' as int) as nat;
        if st.in_run {
            ScanState { mark: 0, value: st.value * 10 + d, ..st }
        } else {
            ScanState { mark: 0, in_run: true, exponent: st.mark > 0, value: d, ..st }
        }
    } else if c == '"' {
        ScanState { in_string: true, ..scan_start() }
    } else if c == 'e' || c == 'E' {
        ScanState { mark: 2, ..scan_start() }
    } else if (c == '+' || c == '-') && st.mark == 2 {
        ScanState { mark: 1, ..scan_start() }
    } else {
        scan_start()
    }
}

/// The reading after the first `i` characters of `s`.
pub open spec fn scan_state(s: Seq<char>, i: int) -> ScanState
    decreases i,
{
    if i <= 0 {
        scan_start()
    } else {
        scan_step(scan_state(s, i - 1), s[i - 1])
    }
}

/// The digits read so far in the current run fit where `lite_json` accumulates
/// them: an `i32` for an exponent, a `u64` otherwise.
pub open spec fn run_fits(st: ScanState) -> bool {
    st.in_run ==> st.value <= (if st.exponent { i32::MAX as nat } else { u64::MAX as nat })
}

/// The texts that `lite_json::parse_json` reads without an arithmetic overflow:
/// at most `u32::MAX` characters (it counts positions in a `u32`), and every run
/// of digits outside strings has a value that fits where the parser adds it up.
/// On JSON texts these are exactly the texts it reads without overflow; a few
/// texts that are not JSON are refused as well.
pub open spec fn json_numbers_fit(s: Seq<char>) -> bool {
    &&& s.len() <= u32::MAX
    &&& forall|i: int| 0 < i <= s.len() ==> run_fits(#[trigger] scan_state(s, i))
}

/// Whether `text` is one that [`json_numbers_fit`] admits.
pub fn numbers_fit(text: &str) -> (r: bool)
    ensures
        r == json_numbers_fit(text@),
{
    let ghost s = text@;
    let mut in_string = false;
    let mut escaped = false;
    let mut mark: u8 = 0;
    let mut in_run = false;
    let mut exponent = false;
    let mut value: u64 = 0;
    let mut count: u64 = 0;
    for c in it: text.chars()
        invariant
            s == text@,
            it.seq() == s,
            count == it.index(),
            count <= u32::MAX,
            scan_state(s, it.index() as int) == (ScanState {
                in_string,
                escaped,
                mark: mark as nat,
                in_run,
                exponent,
                value: value as nat,
            }),
            forall|i: int| 0 < i <= it.index() ==> run_fits(#[trigger] scan_state(s, i)),
    {
        let ghost i = it.index() as int;
        assert(s[i] == c);
        assert(scan_state(s, i + 1) == scan_step(scan_state(s, i), c));
        if count == 4294967295 {
            assert(s.len() > u32::MAX);
            return false;
        }
        count = count + 1;
        if in_string {
            in_run = false;
            exponent = false;
            value = 0;
            mark = 0;
            if escaped {
                escaped = false;
            } else if c == '\\' {
                escaped = true;
            } else if c == '"' {
                in_string = false;
            }
        } else if '0' <= c && c <= '9' {
            let d = (c as u32 - '0' as u32) as u64;
            if in_run {
                let limit: u64 = if exponent { 2147483647 } else { 18446744073709551615 };
                let grown = match value.checked_mul(10) {
                    Some(v) => v.checked_add(d),
                    None => None,
                };
                match grown {
                    Some(v) if v <= limit => {
                        value = v;
                    },
                    _ => {
                        assert(!run_fits(scan_state(s, i + 1)));
                        return false;
                    },
                }
            } else {
                in_run = true;
                exponent = mark > 0;
                value = d;
            }
            mark = 0;
        } else {
            in_run = false;
            exponent = false;
            escaped = false;
            value = 0;
            mark = if c == 'e' || c == 'E' {
                2
            } else if (c == '+' || c == '-') && mark == 2 {
                1
            } else {
                0
            };
            if c == '"' {
                in_string = true;
            }
        }
        assert(run_fits(scan_state(s, i + 1)));
    }
    true
}

/// `lite_json::parse_json`, keeping of an object its keys and the numbers among its values.
/// The parser adds up the digits of numbers and counts positions without checking
/// for overflow, so texts outside [`json_numbers_fit`] are left out.
#[verifier::external_body]
fn json_object_members(text: &str) -> (r: Option<Vec<(Vec<char>, Option<JsonNumber>)>>)
    requires
        json_numbers_fit(text@),
    ensures
        r is Some == lite_json_object(text@) is Some,
        r matches Some(m) ==> members_view(m) == lite_json_object(text@).unwrap(),
{
    match lite_json::parse_json(text) {
        Ok(lite_json::JsonValue::Object(obj)) => Some(obj.into_iter().map(|(key, value)| (key, match value {
            lite_json::JsonValue::Number(n) => Some(JsonNumber { integer: n.integer, fraction: n.fraction, fraction_length: n.fraction_length, exponent: n.exponent, negative: n.negative }),
            _ => None,
        })).collect()),
        _ => None,
    }
}

/// The value of the first member named `USD`, if there is one.
pub open spec fn usd_value(m: Seq<(Seq<char>, Option<JsonNumber>)>) -> Option<Option<JsonNumber>>
    decreases m.len(),
{
    if m.len() == 0 {
        None
    } else if m[0].0 == seq!['U', 'S', 'D'] {
        Some(m[0].1)
    } else {
        usd_value(m.drop_first())
    }
}

/// Ten to the power `e`.
pub open spec fn pow10(e: nat) -> nat
    decreases e,
{
    if e == 0 {
        1
    } else {
        10 * pow10((e - 1) as nat)
    }
}

/// How many trailing fraction digits a price drops: those beyond the cents.
pub open spec fn price_exponent(n: JsonNumber) -> nat {
    if n.fraction_length >= 2 {
        (n.fraction_length - 2) as nat
    } else {
        0
    }
}

/// The cents of a price's fraction: the fraction cut to its first two digits,
/// or ten times a fraction written with one digit.
pub open spec fn fraction_cents(n: JsonNumber) -> int {
    if n.fraction_length == 1 {
        n.fraction * 10
    } else {
        n.fraction as int / pow10(price_exponent(n)) as int
    }
}

/// The price in cents: the integer part times 100 plus the cents of the fraction.
pub open spec fn price_cents(n: JsonNumber) -> int {
    n.integer * 100 + fraction_cents(n)
}

/// The computation of [`price_cents`] stays within 64 bits.
pub open spec fn price_in_range(n: JsonNumber) -> bool {
    price_exponent(n) <= 19 && price_cents(n) <= u64::MAX
}

proof fn lemma_pow10_positive(e: nat)
    ensures
        pow10(e) >= 1,
    decreases e,
{
    if e > 0 {
        lemma_pow10_positive((e - 1) as nat);
    }
}

/// Up to 19, ten to the power `e` fits in 64 bits.
proof fn lemma_pow10_bounds(e: nat)
    requires
        e <= 19,
    ensures
        1 <= pow10(e) <= 10_000_000_000_000_000_000,
    decreases 19 - e,
{
    lemma_pow10_positive(e);
    if e == 19 {
        reveal_with_fuel(pow10, 20);
    } else {
        lemma_pow10_bounds(e + 1);
    }
}

/// Ten to the power `e`, for `e` at most 19.
fn pow10_u64(e: u32) -> (r: u64)
    requires
        e <= 19,
    ensures
        r == pow10(e as nat),
{
    let mut p: u64 = 1;
    let mut k: u32 = 0;
    while k < e
        invariant
            k <= e <= 19,
            p == pow10(k as nat),
        decreases e - k,
    {
        proof {
            lemma_pow10_bounds((k + 1) as nat);
        }
        p = p * 10;
        k = k + 1;
    }
    p
}

/// Whether [`price_cents`] of `n` fits in 64 bits.
fn price_fits(n: JsonNumber) -> (r: bool)
    ensures
        r == price_in_range(n),
{
    let exp: u32 = if n.fraction_length >= 2 { n.fraction_length - 2 } else { 0 };
    if exp > 19 {
        return false;
    }
    proof {
        lemma_pow10_bounds(exp as nat);
    }
    let cut = if n.fraction_length == 1 {
        match n.fraction.checked_mul(10) {
            Some(c) => c,
            None => return false,
        }
    } else {
        n.fraction / pow10_u64(exp)
    };
    match n.integer.checked_mul(100) {
        None => false,
        Some(hundreds) => hundreds.checked_add(cut).is_some(),
    }
}

/// The price in cents held by the first `USD` member of an object, if that
/// member is a number; `None` when there is no such member or it is not a number.
pub fn price_from_members(members: &Vec<(Vec<char>, Option<JsonNumber>)>) -> (r: Option<u64>)
    requires
        usd_value(members_view(*members)) matches Some(Some(n)) ==> price_in_range(n),
    ensures
        r == (match usd_value(members_view(*members)) {
            Some(Some(n)) => Some(price_cents(n) as u64),
            _ => None,
        }),
{
    match usd_number(members) {
        Some(n) => {
            let exp: u32 = if n.fraction_length >= 2 { n.fraction_length - 2 } else { 0 };
            proof {
                lemma_pow10_bounds(exp as nat);
            }
            let cut = if n.fraction_length == 1 {
                n.fraction * 10
            } else {
                n.fraction / pow10_u64(exp)
            };
            Some(n.integer * 100 + cut)
        },
        None => None,
    }
}

/// Reads a price in cents from a JSON text such as `{"USD":19670.47}` (giving 1967047).
/// `None` when the text is not an object, has no `USD` member, that member is
/// not a number, or the price does not fit in 64 bits.
pub fn parse_price(price_str: &str) -> (r: Option<u64>)
    requires
        json_numbers_fit(price_str@),
    ensures
        r == (match lite_json_object(price_str@) {
            None => None,
            Some(m) => match usd_value(m) {
                Some(Some(n)) => if price_in_range(n) { Some(price_cents(n) as u64) } else { None },
                _ => None,
            },
        }),
{
    let members = match json_object_members(price_str) {
        Some(m) => m,
        None => return None,
    };
    let usd = usd_number(&members);
    match usd {
        Some(n) => {
            if !price_fits(n) {
                return None;
            }
        },
        None => {},
    }
    price_from_members(&members)
}

/// The number held by the first `USD` member, if that member is a number.
fn usd_number(members: &Vec<(Vec<char>, Option<JsonNumber>)>) -> (r: Option<JsonNumber>)
    ensures
        r == (match usd_value(members_view(*members)) {
            Some(Some(n)) => Some(n),
            _ => None,
        }),
{
    let ghost m = members_view(*members);
    let mut i: usize = 0;
    assert(m.skip(0) =~= m);
    while i < members.len()
        invariant
            i <= members@.len(),
            m == members_view(*members),
            usd_value(m) == usd_value(m.skip(i as int)),
        decreases members@.len() - i,
    {
        let key = &members[i].0;
        assert(m.skip(i as int)[0] == m[i as int]);
        assert(m[i as int] == (members@[i as int].0@, members@[i as int].1));
        if key.len() == 3 && key[0] == 'U' && key[1] == 'S' && key[2] == 'D' {
            assert(m[i as int].0 =~= seq!['U', 'S', 'D']);
            return members[i].1;
        }
        assert(m[i as int].0 != seq!['U', 'S', 'D']) by {
            if m[i as int].0 == seq!['U', 'S', 'D'] {
                assert(key@.len() == 3);
                assert(key@[0] == 'U' && key@[1] == 'S' && key@[2] == 'D');
            }
        }
        assert(m.skip(i as int).drop_first() =~= m.skip(i + 1));
        i = i + 1;
    }
    assert(m.skip(i as int).len() == 0);
    None
}

/// The result of a price request: the price in cents when the service answered
/// 200 with a UTF-8 body that [`parse_price`] reads; `Unknown` otherwise.
pub fn price_from_response(code: u16, body: &[u8]) -> (r: Result<u64, HttpError>)
    requires
        price_body_readable(code, body@),
    ensures
        r == (if code != 200 || !valid_utf8(body@) {
            Err(HttpError::Unknown)
        } else {
            match lite_json_object(vstd::utf8::decode_utf8(body@)) {
                None => Err(HttpError::Unknown),
                Some(m) => match usd_value(m) {
                    Some(Some(n)) => if price_in_range(n) { Ok(price_cents(n) as u64) } else { Err(HttpError::Unknown) },
                    _ => Err(HttpError::Unknown),
                },
            }
        }),
{
    if code != 200 {
        return Err(HttpError::Unknown);
    }
    let text = match utf8_text(body) {
        Some(t) => t,
        None => return Err(HttpError::Unknown),
    };
    match parse_price(text.as_str()) {
        Some(price) => Ok(price),
        None => Err(HttpError::Unknown),
    }
}

/// The answers to a price request that [`price_from_response`] can read: those
/// whose text it hands to the JSON parser satisfy [`json_numbers_fit`].
pub open spec fn price_body_readable(code: u16, body: Seq<u8>) -> bool {
    (code == 200 && valid_utf8(body)) ==> json_numbers_fit(vstd::utf8::decode_utf8(body))
}

/// Whether [`price_from_response`] accepts this answer (see [`price_body_readable`]).
pub fn price_body_is_readable(code: u16, body: &[u8]) -> (r: bool)
    ensures
        r == price_body_readable(code, body@),
{
    if code != 200 {
        return true;
    }
    match utf8_text(body) {
        None => true,
        Some(text) => numbers_fit(text.as_str()),
    }
}

/// The index of the first `.` at or after `from` in `s`, or the length of `s`.
pub open spec fn dot_from(s: Seq<u8>, from: int) -> int
    decreases s.len() - from,
{
    if from >= s.len() {
        s.len() as int
    } else if s[from] == 46 {
        from
    } else {
        dot_from(s, from + 1)
    }
}

/// The first `.`-separated piece of `s`.
pub open spec fn first_piece(s: Seq<u8>) -> Seq<u8> {
    s.subrange(0, dot_from(s, 0))
}

/// The second `.`-separated piece of `s` (meaningful when `s` holds a `.`).
pub open spec fn second_piece(s: Seq<u8>) -> Seq<u8> {
    let e0 = dot_from(s, 0);
    s.subrange(e0 + 1, dot_from(s, e0 + 1))
}

/// A UTF-8 continuation byte: it does not start a character.
pub open spec fn is_continuation(b: u8) -> bool {
    128 <= b < 192
}

/// The inputs on which reading the ARH999 indicator completes: whenever the
/// text is UTF-8 and its integer piece parses, it has a second piece whose
/// first two bytes form whole characters, and the result fits in 64 bits.
/// (On other inputs the indexing, slicing or arithmetic would panic.)
pub open spec fn arh999_readable(data: Seq<u8>) -> bool {
    (valid_utf8(data) && spec_parse_u64(first_piece(data)) is Some) ==> {
        let frac = second_piece(data);
        &&& dot_from(data, 0) < data.len()
        &&& frac.len() >= 2
        &&& (frac.len() > 2 ==> !is_continuation(frac[2]))
        &&& (spec_parse_u64(frac.take(2)) matches Some(cents) ==> spec_parse_u64(first_piece(data)).unwrap() * 100 + cents <= u64::MAX)
    }
}

/// The ARH999 indicator in hundredths, read from the `data` field of the service's
/// answer: the integer piece times 100 plus the first two digits of the fraction.
pub open spec fn spec_arh999(data: Seq<u8>) -> Result<u64, HttpError> {
    if !valid_utf8(data) {
        Err(HttpError::Unknown)
    } else {
        match spec_parse_u64(first_piece(data)) {
            None => Err(HttpError::Unknown),
            Some(whole) => match spec_parse_u64(second_piece(data).take(2)) {
                None => Err(HttpError::Unknown),
                Some(cents) => Ok((whole * 100 + cents) as u64),
            },
        }
    }
}

/// The index of the first `.` at or after `from`.
fn find_dot(s: &[u8], from: usize) -> (r: usize)
    requires
        from <= s@.len(),
    ensures
        r == dot_from(s@, from as int),
        from <= r <= s@.len(),
        forall|j: int| from <= j < r ==> s@[j] != 46,
{
    let mut i: usize = from;
    while i < s.len()
        invariant
            from <= i <= s@.len(),
            dot_from(s@, from as int) == dot_from(s@, i as int),
            forall|j: int| from <= j < i ==> s@[j] != 46,
        decreases s@.len() - i,
    {
        if s[i] == 46 {
            return i;
        }
        i = i + 1;
    }
    i
}

/// Reads the ARH999 indicator from the `data` text of the service's answer, such
/// as `0.3143` (giving 31). `Unknown` when the text is not UTF-8 or a piece does
/// not parse as a number.
pub fn arh999_from_data(data: &[u8]) -> (r: Result<u64, HttpError>)
    requires
        arh999_readable(data@),
    ensures
        r == spec_arh999(data@),
{
    if !is_utf8(data) {
        return Err(HttpError::Unknown);
    }
    let e0 = find_dot(data, 0);
    let head = vstd::slice::slice_subrange(data, 0, e0);
    assert(head@ == first_piece(data@));
    let whole = match parse_u64(head) {
        Some(v) => v,
        None => return Err(HttpError::Unknown),
    };
    assert(spec_parse_u64(first_piece(data@)) == Some(whole));
    let n = data.len();
    assert(e0 < n);
    let e1 = find_dot(data, e0 + 1);
    let ghost frac = second_piece(data@);
    assert(frac =~= data@.subrange(e0 + 1, e1 as int));
    let two = vstd::slice::slice_subrange(data, e0 + 1, e0 + 3);
    let cents = match parse_u64(two) {
        Some(v) => v,
        None => {
            assert(data@.subrange(e0 + 1, e0 + 3) =~= frac.take(2));
            return Err(HttpError::Unknown);
        },
    };
    assert(data@.subrange(e0 + 1, e0 + 3) =~= frac.take(2));
    Ok(whole * 100 + cents)
}

/// Whether [`arh999_from_data`] accepts `data` (see [`arh999_readable`]).
pub fn arh999_is_readable(data: &[u8]) -> (r: bool)
    ensures
        r == arh999_readable(data@),
{
    if !is_utf8(data) {
        return true;
    }
    let e0 = find_dot(data, 0);
    let head = vstd::slice::slice_subrange(data, 0, e0);
    assert(head@ == first_piece(data@));
    let whole = match parse_u64(head) {
        Some(v) => v,
        None => return true,
    };
    let n = data.len();
    if e0 >= n {
        return false;
    }
    let e1 = find_dot(data, e0 + 1);
    let ghost frac = second_piece(data@);
    assert(frac =~= data@.subrange(e0 + 1, e1 as int));
    if e1 - e0 - 1 < 2 {
        return false;
    }
    if e1 - e0 - 1 > 2 && 128 <= data[e0 + 3] && data[e0 + 3] < 192 {
        return false;
    }
    let two = vstd::slice::slice_subrange(data, e0 + 1, e0 + 3);
    assert(two@ =~= frac.take(2));
    match parse_u64(two) {
        None => true,
        Some(cents) => match whole.checked_mul(100) {
            None => false,
            Some(hundreds) => hundreds.checked_add(cents).is_some(),
        },
    }
}

/// The body of a service's answer: kept when the status is 200 and the body is
/// UTF-8, `Unknown` otherwise.
pub fn text_from_response(code: u16, body: Vec<u8>) -> (r: Result<Vec<u8>, HttpError>)
    ensures
        r matches Ok(t) ==> t@ == body@,
        r is Ok == (code == 200 && valid_utf8(body@)),
        r is Err ==> r->Err_0 == HttpError::Unknown,
{
    if code != 200 {
        return Err(HttpError::Unknown);
    }
    if !is_utf8(body.as_slice()) {
        return Err(HttpError::Unknown);
    }
    Ok(body)
}

/// The task runner's answer to a publication: accepted (0) when the status is
/// 200 and the body is exactly `ok`, `Unknown` otherwise.
pub fn publish_response(code: u16, body: &[u8]) -> (r: Result<u64, HttpError>)
    ensures
        r == (if code == 200 && body@ == ascii_bytes("ok"@) { Ok::<u64, HttpError>(0) } else { Err(HttpError::Unknown) }),
{
    proof {
        reveal_strlit("ok");
    }
    if code != 200 {
        return Err(HttpError::Unknown);
    }
    if body.len() == 2 && body[0] == 111 && body[1] == 107 {
        assert(body@ =~= ascii_bytes("ok"@));
        Ok(0)
    } else {
        assert(body@ != ascii_bytes("ok"@) ) by {
            if body@ == ascii_bytes("ok"@) {
                assert(body@[0] == ascii_bytes("ok"@)[0]);
            }
        }
        Err(HttpError::Unknown)
    }
}

/// The address at which a task is published to the task runner: the image and
/// the options, each in Base64, and the number of runs, in decimal.
pub open spec fn spec_publish_task_url(dockr_url: Seq<u8>, options: Seq<u8>, max_run_num: u64) -> Seq<u8> {
    ascii_bytes("http://127.0.0.1:8000/"@) + base64(dockr_url) + ascii_bytes("/"@) + base64(options)
        + ascii_bytes("/"@) + decimal(max_run_num as nat)
}

/// Builds the address at which `options` for the image `dockr_url` are published.
pub fn publish_task_url(dockr_url: &[u8], options: &[u8], max_run_num: u64) -> (r: Vec<u8>)
    requires
        dockr_url@.len() <= usize::MAX / 512,
        options@.len() <= usize::MAX / 512,
    ensures
        r@ == spec_publish_task_url(dockr_url@, options@, max_run_num),
{
    proof {
        reveal_strlit("http://127.0.0.1:8000/");
        reveal_strlit("/");
    }
    let base = "http://127.0.0.1:8000/";
    let slash = "/";
    assert(vstd::string::is_ascii(base));
    assert(vstd::string::is_ascii(slash));
    let mut url: Vec<u8> = Vec::new();
    let base_bytes = base.as_bytes();
    assert(base_bytes@ =~= ascii_bytes(base@));
    append_bytes(&mut url, base_bytes);
    append_bytes(&mut url, base64_encode(dockr_url).as_slice());
    let slash_bytes = slash.as_bytes();
    assert(slash_bytes@ =~= ascii_bytes(slash@));
    append_bytes(&mut url, slash_bytes);
    append_bytes(&mut url, base64_encode(options).as_slice());
    append_bytes(&mut url, slash_bytes);
    append_bytes(&mut url, u64_to_decimal(max_run_num).as_slice());
    url
}

/// The address at which an OAK automation task is created for `message`,
/// repeated `repeat_times` times.
pub open spec fn spec_oak_schedule_task_url(repeat_times: u64, message: Seq<u8>) -> Seq<u8> {
    ascii_bytes("http://127.0.0.1:3001/notify/extrinsic"@) + ascii_bytes("/"@) + decimal(repeat_times as nat)
        + ascii_bytes("/"@) + message
}

/// Builds the address at which an OAK automation task is created. The cycle
/// length is not part of the request.
pub fn create_oak_schedule_task_url(_cycle_seconds: u64, repeat_times: u64, message: &[u8]) -> (r: Vec<u8>)
    ensures
        r@ == spec_oak_schedule_task_url(repeat_times, message@),
{
    proof {
        reveal_strlit("http://127.0.0.1:3001/notify/extrinsic");
        reveal_strlit("/");
    }
    let base = "http://127.0.0.1:3001/notify/extrinsic";
    let slash = "/";
    assert(vstd::string::is_ascii(base));
    assert(vstd::string::is_ascii(slash));
    let mut url: Vec<u8> = Vec::new();
    let base_bytes = base.as_bytes();
    assert(base_bytes@ =~= ascii_bytes(base@));
    append_bytes(&mut url, base_bytes);
    let slash_bytes = slash.as_bytes();
    assert(slash_bytes@ =~= ascii_bytes(slash@));
    append_bytes(&mut url, slash_bytes);
    append_bytes(&mut url, u64_to_decimal(repeat_times).as_slice());
    append_bytes(&mut url, slash_bytes);
    append_bytes(&mut url, message);
    url
}

} // verus!
