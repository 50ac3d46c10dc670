//! Byte- and text-level encodings used by request signing, and the
//! digests, MACs and calendar conversions that outside crates compute.

use vstd::prelude::*;
use vstd::string::*;
use vstd::utf8::is_ascii_chars;

verus! {

/// The digit for `n` (below 16) in lowercase hexadecimal.
pub open spec fn lower_hex_digit(n: int) -> char {
    if n < 10 {
        ((48 + n) as u8) as char
    } else {
        ((87 + n) as u8) as char
    }
}

/// The digit for `n` (below 16) in uppercase hexadecimal.
pub open spec fn upper_hex_digit(n: int) -> char {
    if n < 10 {
        ((48 + n) as u8) as char
    } else {
        ((55 + n) as u8) as char
    }
}

/// Each byte as two lowercase hexadecimal digits, high nibble first.
pub open spec fn lower_hex(bytes: Seq<u8>) -> Seq<char>
    decreases bytes.len(),
{
    if bytes.len() == 0 {
        Seq::empty()
    } else {
        let b = bytes.last();
        lower_hex(bytes.drop_last()) + seq![lower_hex_digit(b as int / 16), lower_hex_digit(b as int % 16)]
    }
}

/// The bytes that `application/x-www-form-urlencoded` leaves as they are.
pub open spec fn form_unreserved(b: u8) -> bool {
    b == 42 || b == 45 || b == 46 || b == 95 || (48 <= b <= 57) || (65 <= b <= 90) || (97
        <= b <= 122)
}

/// One byte in `application/x-www-form-urlencoded` form: unreserved bytes
/// stand for themselves, a space becomes `+`, every other byte `%XX`.
pub open spec fn form_encoded_byte(b: u8) -> Seq<char> {
    if form_unreserved(b) {
        seq![b as char]
    } else if b == 32 {
        seq!['+']
    } else {
        seq!['%', upper_hex_digit(b as int / 16), upper_hex_digit(b as int % 16)]
    }
}

/// A byte string in `application/x-www-form-urlencoded` form.
pub open spec fn form_encoded(bytes: Seq<u8>) -> Seq<char>
    decreases bytes.len(),
{
    if bytes.len() == 0 {
        Seq::empty()
    } else {
        form_encoded(bytes.drop_last()) + form_encoded_byte(bytes.last())
    }
}

/// The decimal digit for `n` (below 10).
pub open spec fn decimal_digit(n: int) -> char {
    ((48 + n) as u8) as char
}

/// The decimal digits of `n`, most significant first, without leading zeros.
pub open spec fn decimal_digits(n: nat) -> Seq<char>
    decreases n,
{
    if n < 10 {
        seq![decimal_digit(n as int)]
    } else {
        decimal_digits(n / 10).push(decimal_digit((n % 10) as int))
    }
}

/// The decimal text of an integer, with a leading `-` when it is negative.
pub open spec fn decimal_text(n: int) -> Seq<char> {
    if n < 0 {
        seq!['-'] + decimal_digits((-n) as nat)
    } else {
        decimal_digits(n as nat)
    }
}

/// The SHA-256 digest of a byte string.
pub uninterp spec fn sha256_of(data: Seq<u8>) -> Seq<u8>;

/// HMAC-SHA256 of `msg` under `key`.
pub uninterp spec fn hmac_sha256_of(key: Seq<u8>, msg: Seq<u8>) -> Seq<u8>;

/// The Unicode lowercase mapping of a text.
pub uninterp spec fn lowercase_of(s: Seq<char>) -> Seq<char>;

/// Relies on `hex::encode`, which writes each byte as two digits from
/// `0123456789abcdef`, high nibble first.
#[verifier::external_body]
pub(crate) fn encode_lower_hex(bytes: &[u8]) -> (r: String)
    ensures
        r@ == lower_hex(bytes@),
{
    hex::encode(bytes)
}

/// Relies on `url::form_urlencoded::byte_serialize`: bytes in
/// `*-._0-9A-Za-z` are kept, a space becomes `+`, any other byte `%XX`
/// with uppercase digits.
#[verifier::external_body]
pub(crate) fn encode_form_component(bytes: &[u8]) -> (r: String)
    ensures
        r@ == form_encoded(bytes@),
{
    url::form_urlencoded::byte_serialize(bytes).collect()
}

/// Relies on `sha2::Sha256::digest`, whose output is 32 bytes.
#[verifier::external_body]
pub(crate) fn sha256_digest(data: &[u8]) -> (r: Vec<u8>)
    ensures
        r@ == sha256_of(data@),
        r@.len() == 32,
{
    <sha2::Sha256 as sha2::Digest>::digest(data).to_vec()
}

#[verifier::external_type_specification]
#[verifier::external_body]
pub struct ExInvalidLength(hmac::digest::InvalidLength);

/// Relies on `hmac::Hmac<Sha256>`: `new_from_slice` accepts a key of any
/// length (it returns `Ok` on every path), and the tag is 32 bytes.
#[verifier::external_body]
pub(crate) fn hmac_sha256(key: &[u8], msg: &[u8]) -> (r: Result<
    Vec<u8>,
    hmac::digest::InvalidLength,
>)
    ensures
        r is Ok,
        r matches Ok(tag) ==> tag@ == hmac_sha256_of(key@, msg@) && tag@.len() == 32,
{
    let mut mac = <hmac::Hmac<sha2::Sha256> as hmac::Mac>::new_from_slice(key)?;
    hmac::Mac::update(&mut mac, msg);
    Ok(hmac::Mac::finalize(mac).into_bytes().to_vec())
}

/// ASCII text with `A`-`Z` mapped to `a`-`z` and every other character kept.
pub open spec fn ascii_lowercase(s: Seq<char>) -> Seq<char> {
    s.map_values(
        |c: char|
            if 'A' <= c && c <= 'Z' {
                (((c as u8) + 32) as u8) as char
            } else {
                c
            },
    )
}

/// Relies on `str::to_lowercase`: the result depends on the characters
/// alone, and on ASCII text it lowercases `A`-`Z` and keeps the rest.
#[verifier::external_body]
pub(crate) fn to_lowercase(s: &str) -> (r: String)
    ensures
        r@ == lowercase_of(s@),
        is_ascii_chars(s@) ==> r@ == ascii_lowercase(s@),
{
    s.to_lowercase()
}

/// Unicode `White_Space`, the characters for which `char::is_whitespace` holds.
pub open spec fn is_white_space(c: char) -> bool {
    ('\u{9}' <= c && c <= '\u{d}') || c == ' ' || c == '\u{85}' || c == '\u{a0}' || c
        == '\u{1680}' || ('\u{2000}' <= c && c <= '\u{200a}') || c == '\u{2028}' || c
        == '\u{2029}' || c == '\u{202f}' || c == '\u{205f}' || c == '\u{3000}'
}

/// A text without its leading white space.
pub open spec fn trim_start(s: Seq<char>) -> Seq<char>
    decreases s.len(),
{
    if s.len() > 0 && is_white_space(s[0]) {
        trim_start(s.drop_first())
    } else {
        s
    }
}

/// A text without its trailing white space.
pub open spec fn trim_end(s: Seq<char>) -> Seq<char>
    decreases s.len(),
{
    if s.len() > 0 && is_white_space(s.last()) {
        trim_end(s.drop_last())
    } else {
        s
    }
}

/// A text without its leading and trailing white space.
pub open spec fn trimmed(s: Seq<char>) -> Seq<char> {
    trim_end(trim_start(s))
}

/// Relies on `str::trim`, which removes leading and trailing characters
/// with the Unicode `White_Space` property.
#[verifier::external_body]
pub(crate) fn trim(s: &str) -> (r: &str)
    ensures
        r@ == trimmed(s@),
{
    s.trim()
}

/// The latest second whose UTC date has a four-digit year: 9999-12-31T23:59:59Z.
pub const MAX_SIGNING_SECS: i64 = 253402300799;

/// The proleptic Gregorian UTC date, as (year, month, day), of a count of
/// seconds since the Unix epoch: whole days since 1970-01-01 counted in
/// 400-year eras of 146097 days, each year taken to start on 1 March.
pub open spec fn civil_date(secs: int) -> (int, int, int) {
    let z = secs / 86400 + 719468;
    let era = z / 146097;
    let doe = z - era * 146097;
    let yoe = (doe - doe / 1460 + doe / 36524 - doe / 146096) / 365;
    let doy = doe - (365 * yoe + yoe / 4 - yoe / 100);
    let mp = (5 * doy + 2) / 153;
    let day = doy - (153 * mp + 2) / 5 + 1;
    let month = if mp < 10 {
        mp + 3
    } else {
        mp - 9
    };
    let year = yoe + era * 400 + if month <= 2 {
        1int
    } else {
        0int
    };
    (year, month, day)
}

/// The last two decimal digits of `n`.
pub open spec fn two_digits(n: int) -> Seq<char> {
    seq![decimal_digit((n / 10) % 10), decimal_digit(n % 10)]
}

/// The last four decimal digits of `n`.
pub open spec fn four_digits(n: int) -> Seq<char> {
    seq![
        decimal_digit((n / 1000) % 10),
        decimal_digit((n / 100) % 10),
        decimal_digit((n / 10) % 10),
        decimal_digit(n % 10),
    ]
}

/// A date as `YYYYMMDD`.
pub open spec fn date_stamp(year: int, month: int, day: int) -> Seq<char> {
    four_digits(year) + two_digits(month) + two_digits(day)
}

/// The UTC date, as `YYYYMMDD`, of a count of seconds since the Unix epoch.
pub open spec fn utc_date_of(secs: i64) -> Seq<char> {
    let (y, m, d) = civil_date(secs as int);
    date_stamp(y, m, d)
}

/// The year of a date on or after the Unix epoch is not negative.
pub proof fn lemma_civil_year_nonnegative(secs: int)
    requires
        secs >= 0,
    ensures
        civil_date(secs).0 >= 0,
{
    let z = secs / 86400 + 719468;
    let era = z / 146097;
    let doe = z - era * 146097;
    assert(era >= 0);
    assert(0 <= doe);
    assert(doe / 1460 <= doe);
    assert(doe / 146096 <= doe / 36524);
    assert(doe - doe / 1460 + doe / 36524 - doe / 146096 >= 0);
}

/// Relies on chrono's `DateTime::<Utc>::from_timestamp`, which returns
/// `None` only for seconds outside chrono's calendar (about 262000 years
/// either side of year 0), and on its `Datelike` year, month and day, the
/// proleptic Gregorian date in UTC.
#[verifier::external_body]
pub(crate) fn utc_civil_date(secs: i64) -> (r: Option<(i32, u32, u32)>)
    ensures
        0 <= secs <= MAX_SIGNING_SECS ==> r is Some,
        r matches Some(t) ==> civil_date(secs as int) == (t.0 as int, t.1 as int, t.2 as int),
{
    match chrono::DateTime::from_timestamp(secs, 0) {
        Some(t) => Some(
            (chrono::Datelike::year(&t), chrono::Datelike::month(&t), chrono::Datelike::day(&t)),
        ),
        None => None,
    }
}

/// The text of one decimal digit.
fn digit_text(n: u64) -> (r: &'static str)
    requires
        n < 10,
    ensures
        r@ == seq![decimal_digit(n as int)],
{
    if n == 0 {
        proof {
            reveal_strlit("0");
        }
        "0"
    } else if n == 1 {
        proof {
            reveal_strlit("1");
        }
        "1"
    } else if n == 2 {
        proof {
            reveal_strlit("2");
        }
        "2"
    } else if n == 3 {
        proof {
            reveal_strlit("3");
        }
        "3"
    } else if n == 4 {
        proof {
            reveal_strlit("4");
        }
        "4"
    } else if n == 5 {
        proof {
            reveal_strlit("5");
        }
        "5"
    } else if n == 6 {
        proof {
            reveal_strlit("6");
        }
        "6"
    } else if n == 7 {
        proof {
            reveal_strlit("7");
        }
        "7"
    } else if n == 8 {
        proof {
            reveal_strlit("8");
        }
        "8"
    } else {
        proof {
            reveal_strlit("9");
        }
        "9"
    }
}

/// Appends the decimal digits of `n`.
fn append_digits(s: &mut String, n: u64)
    ensures
        final(s)@ == old(s)@ + decimal_digits(n as nat),
    decreases n,
{
    if n >= 10 {
        append_digits(s, n / 10);
    }
    s.append(digit_text(n % 10));
}

/// The decimal text of `n`.
pub fn format_decimal(n: i64) -> (r: String)
    ensures
        r@ == decimal_text(n as int),
{
    let mut s = String::new();
    if n < 0 {
        proof {
            reveal_strlit("-");
        }
        s.append("-");
        let m: u64 = ((-(n + 1)) as u64) + 1;
        append_digits(&mut s, m);
    } else {
        append_digits(&mut s, n as u64);
    }
    s
}

/// A date as `YYYYMMDD`.
pub fn format_date(year: u64, month: u64, day: u64) -> (r: String)
    ensures
        r@ == date_stamp(year as int, month as int, day as int),
{
    let mut s = String::new();
    s.append(digit_text((year / 1000) % 10));
    s.append(digit_text((year / 100) % 10));
    s.append(digit_text((year / 10) % 10));
    s.append(digit_text(year % 10));
    s.append(digit_text((month / 10) % 10));
    s.append(digit_text(month % 10));
    s.append(digit_text((day / 10) % 10));
    s.append(digit_text(day % 10));
    s
}

} // verus!

