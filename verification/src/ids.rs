//! Document ids: UUIDs held as 128-bit integers, read from and written as
//! text the way the `uuid` crate does.
use vstd::prelude::*;

use crate::error::{ApiError, ApiErrorView};

verus! {

// ── Hexadecimal digits ─────────────────────────────────────────────

/// The value of a hexadecimal digit of either case.
pub open spec fn hex_value(c: char) -> Option<int> {
    if '0' <= c && c <= '9' {
        Some(c as int - '0' as int)
    } else if 'a' <= c && c <= 'f' {
        Some(c as int - 'a' as int + 10)
    } else if 'A' <= c && c <= 'F' {
        Some(c as int - 'A' as int + 10)
    } else {
        None
    }
}

/// The number written by hexadecimal digits, most significant first.
pub open spec fn hex_digits_value(s: Seq<char>) -> Option<int>
    decreases s.len(),
{
    if s.len() == 0 {
        Some(0)
    } else {
        match (hex_digits_value(s.drop_last()), hex_value(s.last())) {
            (Some(a), Some(d)) => Some(a * 16 + d),
            _ => None,
        }
    }
}

/// The lowercase hexadecimal digit for `d` (below sixteen).
pub open spec fn hex_char(d: int) -> char {
    if d < 10 {
        (d + '0' as int) as char
    } else {
        (d - 10 + 'a' as int) as char
    }
}

/// The last `n` hexadecimal digits of `v`, zero-padded, lowercase.
pub open spec fn hex_digits(v: nat, n: nat) -> Seq<char>
    decreases n,
{
    if n == 0 {
        Seq::empty()
    } else {
        hex_digits(v / 16, (n - 1) as nat).push(hex_char((v % 16) as int))
    }
}

/// Sixteen to the power `n`.
pub open spec fn pow16(n: nat) -> nat
    decreases n,
{
    if n == 0 {
        1
    } else {
        16 * pow16((n - 1) as nat)
    }
}

// ── The text forms of a UUID ───────────────────────────────────────

/// `c` in ASCII lowercase.
pub open spec fn ascii_lower(c: char) -> char {
    if 'A' <= c && c <= 'Z' {
        (c as int + 32) as char
    } else {
        c
    }
}

/// Whether every character of `s` is ASCII.
pub open spec fn all_ascii(s: Seq<char>) -> bool {
    forall|k: int| 0 <= k < s.len() ==> crate::text::is_ascii_char(#[trigger] s[k])
}

/// The 36-character hyphenated form: hyphens at positions 8, 13, 18 and 23
/// and hexadecimal digits elsewhere.
pub open spec fn parse_hyphenated(s: Seq<char>) -> Option<int> {
    if s.len() == 36 && s[8] == '-' && s[13] == '-' && s[18] == '-' && s[23] == '-' {
        hex_digits_value(
            s.subrange(0, 8) + s.subrange(9, 13) + s.subrange(14, 18) + s.subrange(19, 23)
                + s.subrange(24, 36),
        )
    } else {
        None
    }
}

/// What `Uuid::parse_str` accepts, as the 128-bit value of the UUID read
/// big-endian: 32 hexadecimal digits; the hyphenated form; the hyphenated
/// form in braces; or the hyphenated form behind `urn:uuid:` (in any case).
/// Hexadecimal digits may be of either case. Any other text is refused.
pub open spec fn uuid_parse_spec(s: Seq<char>) -> Option<int> {
    if !all_ascii(s) {
        None
    } else if s.len() == 32 {
        hex_digits_value(s)
    } else if s.len() == 36 {
        parse_hyphenated(s)
    } else if s.len() == 38 {
        if s[0] == '{' && s[37] == '}' {
            parse_hyphenated(s.subrange(1, 37))
        } else {
            None
        }
    } else if s.len() == 45 {
        if s.subrange(0, 9).map_values(|c: char| ascii_lower(c)) == "urn:uuid:"@ {
            parse_hyphenated(s.subrange(9, 45))
        } else {
            None
        }
    } else {
        None
    }
}

/// The hyphenated lowercase text of a UUID, as its `Display` writes it:
/// the 32 hexadecimal digits of the value in groups of 8, 4, 4, 4 and 12.
pub open spec fn uuid_text(v: nat) -> Seq<char> {
    let h = hex_digits(v, 32);
    h.subrange(0, 8) + seq!['-'] + h.subrange(8, 12) + seq!['-'] + h.subrange(12, 16) + seq!['-']
        + h.subrange(16, 20) + seq!['-'] + h.subrange(20, 32)
}

/// `uuid::Uuid::parse_str`, the value read as `as_u128` gives it. The
/// contract states the accepted forms as the crate's parser defines them.
#[verifier::external_body]
pub(crate) fn parse_uuid(s: &str) -> (res: Option<u128>)
    ensures
        match res {
            Some(v) => uuid_parse_spec(s@) == Some(v as int),
            None => uuid_parse_spec(s@) is None,
        },
{
    uuid::Uuid::parse_str(s).ok().map(|u| u.as_u128())
}

/// `Display` of `uuid::Uuid::from_u128(v)`: the hyphenated lowercase text.
#[verifier::external_body]
pub(crate) fn uuid_string(v: u128) -> (res: String)
    ensures
        res@ == uuid_text(v as nat),
{
    uuid::Uuid::from_u128(v).to_string()
}

/// The number that bytes spell in big-endian order: the first byte is the
/// most significant.
pub open spec fn bytes_be(b: Seq<u8>) -> int
    decreases b.len(),
{
    if b.len() == 0 {
        0
    } else {
        bytes_be(b.drop_last()) * 256 + b.last()
    }
}

/// `uuid::Uuid::from_slice(b)` and `as_u128`: sixteen bytes are the id in
/// big-endian order (`from_bytes`, then `u128::from_be_bytes`); any other
/// length is refused.
#[verifier::external_body]
pub(crate) fn uuid_from_bytes(b: &[u8]) -> (res: Option<u128>)
    ensures
        match res {
            Some(v) => b@.len() == 16 && v as int == bytes_be(b@),
            None => b@.len() != 16,
        },
{
    uuid::Uuid::from_slice(b).ok().map(|u| u.as_u128())
}

/// Reads a document id from a request path. A malformed id is a bad
/// request.
pub fn parse_document_id(s: &str) -> (res: Result<u128, ApiError>)
    ensures
        match res {
            Ok(v) => uuid_parse_spec(s@) == Some(v as int),
            Err(e) => uuid_parse_spec(s@) is None && e@ == ApiErrorView::BadRequest(
                "invalid document id"@,
            ),
        },
{
    match parse_uuid(s) {
        Some(v) => Ok(v),
        None => Err(ApiError::BadRequest(crate::text::string_from("invalid document id"))),
    }
}

// ── Laws ───────────────────────────────────────────────────────────

proof fn lemma_hex_char(d: int)
    requires
        0 <= d < 16,
    ensures
        hex_value(hex_char(d)) == Some(d),
        crate::text::is_ascii_char(hex_char(d)),
        hex_char(d) != '-',
{
}

proof fn lemma_hex_digits(v: nat, n: nat)
    ensures
        hex_digits(v, n).len() == n,
        hex_digits_value(hex_digits(v, n)) == Some((v % pow16(n)) as int),
        forall|k: int|
            0 <= k < n ==> crate::text::is_ascii_char(#[trigger] hex_digits(v, n)[k])
                && hex_digits(v, n)[k] != '-',
    decreases n,
{
    if n > 0 {
        let m = (n - 1) as nat;
        lemma_hex_digits(v / 16, m);
        let t = hex_digits(v / 16, m);
        let d = (v % 16) as int;
        lemma_hex_char(d);
        let u = t.push(hex_char(d));
        assert(u.drop_last() =~= t);
        assert(pow16(m) > 0) by {
            lemma_pow16_positive(m);
        }
        vstd::arithmetic::div_mod::lemma_mod_breakdown(v as int, 16, pow16(m) as int);
        assert(hex_digits_value(u) == Some(((v / 16) % pow16(m)) * 16 + d));
        assert(forall|k: int| 0 <= k < m ==> #[trigger] u[k] == t[k]);
    } else {
        assert(pow16(0) == 1);
    }
}

proof fn lemma_pow16_positive(n: nat)
    ensures
        pow16(n) > 0,
    decreases n,
{
    if n > 0 {
        lemma_pow16_positive((n - 1) as nat);
    }
}

proof fn lemma_pow16_32()
    ensures
        pow16(32) == 0x1_0000_0000_0000_0000_0000_0000_0000_0000,
{
    reveal_with_fuel(pow16, 33);
}

/// The text a document id is written as reads back as that id: what
/// `uuid_string` writes, `parse_uuid` (and so `parse_document_id`) reads
/// as the same value.
pub proof fn lemma_uuid_text_parses_back(v: u128)
    ensures
        uuid_parse_spec(uuid_text(v as nat)) == Some(v as int),
{
    let h = hex_digits(v as nat, 32);
    lemma_hex_digits(v as nat, 32);
    lemma_pow16_32();
    let s = uuid_text(v as nat);
    assert(s.len() == 36);
    assert(all_ascii(s)) by {
        assert forall|k: int| 0 <= k < s.len() implies crate::text::is_ascii_char(
            #[trigger] s[k],
        ) by {
            if k < 8 {
                assert(s[k] == h[k]);
            } else if 8 < k < 13 {
                assert(s[k] == h[k - 1]);
            } else if 13 < k < 18 {
                assert(s[k] == h[k - 2]);
            } else if 18 < k < 23 {
                assert(s[k] == h[k - 3]);
            } else if 23 < k {
                assert(s[k] == h[k - 4]);
            }
        }
    }
    assert(s.subrange(0, 8) + s.subrange(9, 13) + s.subrange(14, 18) + s.subrange(19, 23)
        + s.subrange(24, 36) =~= h);
    assert((v as nat) % pow16(32) == v as nat);
}

} // verus!
