//! Text helpers for hex and numbers: rendering a byte as printable ASCII,
//! decoding a hex string to bytes, and parsing a decimal or `0x`-prefixed
//! offset. The hex decoder's contract is stated over the character sequence
//! of the input; the offset parser's over its byte sequence.

use vstd::prelude::*;
use vstd::arithmetic::mul::{lemma_mul_inequality, lemma_mul_is_commutative};
use vstd::string::{StringExecFns, StringSliceAdditionalSpecFns, StrSliceExecFns};

verus! {

/// Whether a character has the Unicode White_Space property — the set that
/// trimming removes: the ASCII whitespace controls and space, next line,
/// no-break space, ogham space mark, the en-quad through hair-space block,
/// the line and paragraph separators, narrow no-break space, medium
/// mathematical space, and ideographic space.
pub open spec fn is_unicode_ws(c: char) -> bool {
    ||| c as u32 == 0x09
    ||| c as u32 == 0x0A
    ||| c as u32 == 0x0B
    ||| c as u32 == 0x0C
    ||| c as u32 == 0x0D
    ||| c as u32 == 0x20
    ||| c as u32 == 0x85
    ||| c as u32 == 0xA0
    ||| c as u32 == 0x1680
    ||| (0x2000 <= c as u32 && c as u32 <= 0x200A)
    ||| c as u32 == 0x2028
    ||| c as u32 == 0x2029
    ||| c as u32 == 0x202F
    ||| c as u32 == 0x205F
    ||| c as u32 == 0x3000
}

/// The character sequence with its leading whitespace removed.
pub open spec fn spec_trim_start(s: Seq<char>) -> Seq<char>
    decreases s.len(),
{
    if s.len() == 0 {
        s
    } else if is_unicode_ws(s[0]) {
        spec_trim_start(s.skip(1))
    } else {
        s
    }
}

/// The character sequence with its trailing whitespace removed.
pub open spec fn spec_trim_end(s: Seq<char>) -> Seq<char>
    decreases s.len(),
{
    if s.len() == 0 {
        s
    } else if is_unicode_ws(s[s.len() - 1]) {
        spec_trim_end(s.take(s.len() - 1))
    } else {
        s
    }
}

/// The character sequence with whitespace removed from both ends — what
/// trimming a string leaves.
pub open spec fn spec_trim(s: Seq<char>) -> Seq<char> {
    spec_trim_end(spec_trim_start(s))
}

/// Whether a character is a hex digit, upper or lower case.
pub open spec fn is_hex_char(c: char) -> bool {
    ||| (0x30 <= c as u32 && c as u32 <= 0x39)
    ||| (0x41 <= c as u32 && c as u32 <= 0x46)
    ||| (0x61 <= c as u32 && c as u32 <= 0x66)
}

/// The numeric value of a hex digit character.
pub open spec fn hex_char_value(c: char) -> u8 {
    if 0x30 <= c as u32 && c as u32 <= 0x39 {
        (c as u32 - 0x30) as u8
    } else if 0x41 <= c as u32 && c as u32 <= 0x46 {
        (c as u32 - 0x41 + 10) as u8
    } else {
        (c as u32 - 0x61 + 10) as u8
    }
}

/// Whether a trimmed hex string is decodable: an even number of characters,
/// all hex digits. The empty string is decodable (to no bytes).
pub open spec fn spec_hex_ok(s: Seq<char>) -> bool {
    s.len() % 2 == 0 && (forall|i: int| 0 <= i < s.len() ==> is_hex_char(#[trigger] s[i]))
}

/// The bytes a decodable hex string encodes, two digits per byte, the first
/// digit of each pair most significant.
pub open spec fn spec_hex_decode(s: Seq<char>) -> Seq<u8> {
    Seq::new(
        (s.len() / 2) as nat,
        |i: int| (hex_char_value(s[2 * i]) * 16 + hex_char_value(s[2 * i + 1])) as u8,
    )
}

/// Whether a byte is a hex digit, upper or lower case.
pub open spec fn is_hex_digit(b: u8) -> bool {
    (0x30 <= b <= 0x39) || (0x41 <= b <= 0x46) || (0x61 <= b <= 0x66)
}

/// Whether a byte is a digit of the given base (10 or 16).
pub open spec fn is_digit_of(b: u8, base: int) -> bool {
    if base == 16 {
        is_hex_digit(b)
    } else {
        0x30 <= b <= 0x39
    }
}

/// The numeric value of a digit byte (decimal or hex, either case).
pub open spec fn digit_value(b: u8) -> u8 {
    if 0x30 <= b <= 0x39 {
        (b - 0x30) as u8
    } else if 0x41 <= b <= 0x46 {
        (b - 0x41 + 10) as u8
    } else {
        (b - 0x61 + 10) as u8
    }
}

/// The integer a digit string denotes in the given base, most significant
/// digit first.
pub open spec fn spec_digits_value(s: Seq<u8>, base: int) -> int
    decreases s.len(),
{
    if s.len() == 0 {
        0
    } else {
        spec_digits_value(s.take(s.len() - 1), base) * base + digit_value(s[s.len() - 1])
    }
}

/// The `u64` a digit string parses to in the given base: defined when the
/// string is nonempty, all digits of the base, and the value fits.
pub open spec fn spec_parse_radix(s: Seq<u8>, base: int) -> Option<u64> {
    if s.len() > 0 && (forall|i: int| 0 <= i < s.len() ==> is_digit_of(#[trigger] s[i], base))
        && spec_digits_value(s, base) <= u64::MAX {
        Some(spec_digits_value(s, base) as u64)
    } else {
        None
    }
}

/// Whether the byte string starts with `0x` or `0X`.
pub open spec fn spec_has_hex_prefix(s: Seq<u8>) -> bool {
    s.len() >= 2 && s[0] == 0x30 && (s[1] == 0x78 || s[1] == 0x58)
}

/// The offset a string denotes: hex after a `0x`/`0X` prefix, decimal
/// otherwise.
pub open spec fn spec_parse_offset(s: Seq<u8>) -> Option<u64> {
    if spec_has_hex_prefix(s) {
        spec_parse_radix(s.skip(2), 16)
    } else {
        spec_parse_radix(s, 10)
    }
}

/// The printable rendering of a byte: itself for printable ASCII
/// (0x20 through 0x7E), a dot for everything else.
pub fn byte_to_ascii(byte: u8) -> (c: char)
    ensures
        c == if 0x20 <= byte <= 0x7E {
            byte as char
        } else {
            '.'
        },
{
    if 0x20 <= byte && byte <= 0x7E {
        byte as char
    } else {
        '.'
    }
}

/// Whether a character is Unicode whitespace.
fn is_ws_char(c: char) -> (r: bool)
    ensures
        r == is_unicode_ws(c),
{
    let v = c as u32;
    v == 0x09 || v == 0x0A || v == 0x0B || v == 0x0C || v == 0x0D || v == 0x20 || v == 0x85 || v
        == 0xA0 || v == 0x1680 || (0x2000 <= v && v <= 0x200A) || v == 0x2028 || v == 0x2029 || v
        == 0x202F || v == 0x205F || v == 0x3000
}

/// The numeric value of a character as a hex digit, if it is one.
fn hex_char_of(c: char) -> (r: Option<u8>)
    ensures
        r is Some <==> is_hex_char(c),
        r matches Some(v) ==> v == hex_char_value(c) && v < 16,
{
    let v = c as u32;
    if 0x30 <= v && v <= 0x39 {
        Some((v - 0x30) as u8)
    } else if 0x41 <= v && v <= 0x46 {
        Some((v - 0x41 + 10) as u8)
    } else if 0x61 <= v && v <= 0x66 {
        Some((v - 0x61 + 10) as u8)
    } else {
        None
    }
}

/// Dropping a whitespace-only prefix does not change the trimmed start.
proof fn lemma_trim_start_skip(s: Seq<char>, k: int)
    requires
        0 <= k <= s.len(),
        forall|i: int| 0 <= i < k ==> is_unicode_ws(#[trigger] s[i]),
    ensures
        spec_trim_start(s) == spec_trim_start(s.skip(k)),
    decreases k,
{
    if k > 0 {
        assert(s.skip(1).skip(k - 1) =~= s.skip(k));
        lemma_trim_start_skip(s.skip(1), k - 1);
    } else {
        assert(s.skip(0) =~= s);
    }
}

/// Dropping a whitespace-only suffix does not change the trimmed end.
proof fn lemma_trim_end_take(s: Seq<char>, k: int)
    requires
        0 <= k <= s.len(),
        forall|i: int| k <= i < s.len() ==> is_unicode_ws(#[trigger] s[i]),
    ensures
        spec_trim_end(s) == spec_trim_end(s.take(k)),
    decreases s.len() - k,
{
    if k < s.len() {
        assert(s.take(s.len() - 1).take(k) =~= s.take(k));
        lemma_trim_end_take(s.take(s.len() - 1), k);
    } else {
        assert(s.take(s.len() as int) =~= s);
    }
}

/// The bounds of the whitespace-trimmed region of `s`, as character indices:
/// the trimmed content is exactly the characters from `start` up to `end`.
fn trim_char_bounds(s: &str) -> (r: (usize, usize))
    ensures
        r.0 <= r.1 <= s@.len(),
        spec_trim(s@) == s@.subrange(r.0 as int, r.1 as int),
{
    let n = s.unicode_len();
    let mut start: usize = 0;
    while start < n && is_ws_char(s.get_char(start))
        invariant
            start <= n,
            n == s@.len(),
            forall|i: int| 0 <= i < start ==> is_unicode_ws(#[trigger] s@[i]),
        decreases n - start,
    {
        start += 1;
    }
    proof {
        lemma_trim_start_skip(s@, start as int);
        if start < n {
            assert(!is_unicode_ws(s@.skip(start as int)[0]));
        }
        assert(spec_trim_start(s@) == s@.skip(start as int));
    }
    let mut end: usize = n;
    while end > start && is_ws_char(s.get_char(end - 1))
        invariant
            start <= end <= n,
            n == s@.len(),
            forall|i: int| end <= i < n ==> is_unicode_ws(#[trigger] s@[i]),
        decreases end,
    {
        end -= 1;
    }
    proof {
        let t = s@.skip(start as int);
        assert(forall|i: int| end - start <= i < t.len() ==> is_unicode_ws(#[trigger] t[i]));
        lemma_trim_end_take(t, end - start);
        if end > start {
            assert(t.take(end - start)[end - start - 1] == s@[end as int - 1]);
            assert(!is_unicode_ws(t.take(end - start)[end - start - 1]));
        }
        assert(spec_trim_end(t) == t.take(end - start));
        assert(t.take(end - start) =~= s@.subrange(start as int, end as int));
    }
    (start, end)
}

/// Decode a hex string to bytes: Unicode whitespace is trimmed from both
/// ends, then the remainder must be an even number of hex digit characters,
/// two per output byte; anything else is `None`. The empty (or
/// whitespace-only) string decodes to no bytes.
pub fn hex_to_bytes(hex: &str) -> (out: Option<Vec<u8>>)
    ensures
        out is Some <==> spec_hex_ok(spec_trim(hex@)),
        out matches Some(v) ==> v@ == spec_hex_decode(spec_trim(hex@)),
{
    let (start, end) = trim_char_bounds(hex);
    let ghost t = spec_trim(hex@);
    let len = end - start;
    if len % 2 != 0 {
        return None;
    }
    let mut v: Vec<u8> = Vec::new();
    let mut i: usize = 0;
    while i < len / 2
        invariant
            2 * i <= len,
            len == end - start,
            start <= end <= hex@.len(),
            len % 2 == 0,
            t == hex@.subrange(start as int, end as int),
            t == spec_trim(hex@),
            v@.len() == i as nat,
            forall|j: int| 0 <= j < 2 * i ==> is_hex_char(#[trigger] t[j]),
            forall|j: int|
                0 <= j < i ==> #[trigger] v@[j] == (hex_char_value(t[2 * j]) * 16 + hex_char_value(
                    t[2 * j + 1],
                )) as u8,
        decreases len - 2 * i,
    {
        let hi = match hex_char_of(hex.get_char(start + 2 * i)) {
            Some(d) => d,
            None => {
                proof {
                    assert(t.len() == len);
                    assert(t[2 * i as int] == hex@[start as int + 2 * i as int]);
                    assert(!is_hex_char(t[2 * i as int]));
                    assert(!spec_hex_ok(t));
                }
                return None;
            },
        };
        let lo = match hex_char_of(hex.get_char(start + 2 * i + 1)) {
            Some(d) => d,
            None => {
                proof {
                    assert(t.len() == len);
                    assert(t[2 * i as int + 1] == hex@[start as int + 2 * i as int + 1]);
                    assert(!is_hex_char(t[2 * i as int + 1]));
                    assert(!spec_hex_ok(t));
                }
                return None;
            },
        };
        v.push(hi * 16 + lo);
        i += 1;
    }
    proof {
        assert(v@ =~= spec_hex_decode(t));
    }
    Some(v)
}

/// Digit-string values are nonnegative.
proof fn lemma_digits_value_nonneg(s: Seq<u8>, base: int)
    requires
        base >= 1,
    ensures
        spec_digits_value(s, base) >= 0,
    decreases s.len(),
{
    if s.len() > 0 {
        lemma_digits_value_nonneg(s.take(s.len() - 1), base);
        lemma_mul_inequality(0, spec_digits_value(s.take(s.len() - 1), base), base);
    }
}

/// Extending a digit string cannot decrease its value: the value of a prefix
/// is a lower bound for the value of the whole.
proof fn lemma_digits_value_prefix_le(s: Seq<u8>, k: int, base: int)
    requires
        base >= 1,
        0 <= k <= s.len(),
    ensures
        spec_digits_value(s.take(k), base) <= spec_digits_value(s, base),
    decreases s.len() - k,
{
    if k < s.len() {
        let shorter = s.take(s.len() - 1);
        let v = spec_digits_value(shorter, base);
        assert(shorter.take(k) =~= s.take(k));
        lemma_digits_value_prefix_le(shorter, k, base);
        lemma_digits_value_nonneg(shorter, base);
        lemma_mul_inequality(1, base, v);
        lemma_mul_is_commutative(v, base);
        assert(1 * v == v);
        assert(v <= v * base);
    } else {
        assert(s.take(s.len() as int) =~= s);
    }
}

/// The numeric value of a byte as a digit of the base, if it is one.
fn digit_of(b: u8, base: u64) -> (r: Option<u8>)
    requires
        base == 10 || base == 16,
    ensures
        r is Some <==> is_digit_of(b, base as int),
        r matches Some(v) ==> v == digit_value(b) && v < base,
{
    if 0x30 <= b && b <= 0x39 {
        Some(b - 0x30)
    } else if base == 16 && 0x41 <= b && b <= 0x46 {
        Some(b - 0x41 + 10)
    } else if base == 16 && 0x61 <= b && b <= 0x66 {
        Some(b - 0x61 + 10)
    } else {
        None
    }
}

/// Parse a nonempty digit string in the given base (10 or 16) into a `u64`.
/// `None` when the string is empty, holds a non-digit, or overflows.
pub fn parse_radix(s: &[u8], base: u64) -> (r: Option<u64>)
    requires
        base == 10 || base == 16,
    ensures
        r == spec_parse_radix(s@, base as int),
{
    if s.len() == 0 {
        return None;
    }
    let mut acc: u64 = 0;
    let mut i: usize = 0;
    while i < s.len()
        invariant
            i <= s@.len(),
            base == 10 || base == 16,
            acc as int == spec_digits_value(s@.take(i as int), base as int),
            forall|j: int| 0 <= j < i ==> is_digit_of(#[trigger] s@[j], base as int),
        decreases s@.len() - i,
    {
        let d = match digit_of(s[i], base) {
            Some(d) => d,
            None => {
                return None;
            },
        };
        proof {
            assert(s@.take(i as int + 1).take(i as int) =~= s@.take(i as int));
            assert(s@.take(i as int + 1)[i as int] == s@[i as int]);
        }
        if acc > (u64::MAX - d as u64) / base {
            proof {
                let grown = s@.take(i as int + 1);
                assert(spec_digits_value(grown, base as int) == acc as int * base as int
                    + d as int);
                assert(acc as int * base as int + d as int > u64::MAX as int) by (nonlinear_arith)
                    requires
                        acc as int > (u64::MAX as int - d as int) / (base as int),
                        (base == 10 || base == 16) && d < base,
                ;
                lemma_digits_value_prefix_le(s@, i as int + 1, base as int);
            }
            return None;
        }
        acc = acc * base + d as u64;
        i += 1;
    }
    proof {
        assert(s@.take(s@.len() as int) =~= s@);
    }
    Some(acc)
}

/// Parse an offset: hex after a `0x`/`0X` prefix, decimal otherwise; digits
/// only, and the value must fit in a `u64`. On failure the error names the
/// form that was attempted and echoes the input.
pub fn parse_offset(s: &str) -> (r: Result<u64, String>)
    ensures
        r matches Ok(v) ==> spec_parse_offset(s.spec_bytes()) == Some(v),
        r is Err <==> spec_parse_offset(s.spec_bytes()) is None,
        r matches Err(m) ==> m@ == if spec_has_hex_prefix(s.spec_bytes()) {
            "Invalid hex offset: "@ + s@
        } else {
            "Invalid decimal offset: "@ + s@
        },
{
    let bytes = s.as_bytes();
    let has_prefix = bytes.len() >= 2 && bytes[0] == 0x30 && (bytes[1] == 0x78 || bytes[1]
        == 0x58);
    let parsed = if has_prefix {
        let rest = slice_drop_two(bytes);
        parse_radix(rest, 16)
    } else {
        parse_radix(bytes, 10)
    };
    match parsed {
        Some(v) => Ok(v),
        None => {
            let mut msg = if has_prefix {
                "Invalid hex offset: ".to_owned()
            } else {
                "Invalid decimal offset: ".to_owned()
            };
            msg.append(s);
            Err(msg)
        },
    }
}

/// The slice without its first two elements.
fn slice_drop_two(s: &[u8]) -> (r: &[u8])
    requires
        s@.len() >= 2,
    ensures
        r@ == s@.skip(2),
{
    let r = vstd::slice::slice_subrange(s, 2, s.len());
    proof {
        assert(s@.subrange(2, s@.len() as int) =~= s@.skip(2));
    }
    r
}

} // verus!
