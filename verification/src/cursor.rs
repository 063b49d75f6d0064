//! The resumable-cursor codec. A cursor is an opaque token whose decoded
//! form is a non-negative integer position: "next unseen index in the
//! channel log". The token is the base64 encoding of the position's decimal
//! digits. Encoding is deterministic and reversible; decoding rejects
//! every token that is not the base64 image of a plain digit string whose
//! value fits in `usize`.

use base64::Engine;
use vstd::prelude::*;

verus! {

/// The base64 encoding (standard alphabet, padded) of a byte sequence.
pub uninterp spec fn base64_of(bytes: Seq<u8>) -> Seq<char>;

/// What the base64 decoder makes of a token: the decoded bytes, or `None`
/// for text that is not a canonical base64 encoding.
pub uninterp spec fn base64_parsed(token: Seq<char>) -> Option<Seq<u8>>;

/// Relies on base64's `STANDARD` engine (`Engine::encode`): the encoding is
/// a function of the input bytes alone. The engine only panics when the
/// encoded length overflows `usize`, which the length bound rules out.
#[verifier::external_body]
fn b64_encode(bytes: &Vec<u8>) -> (r: String)
    requires
        bytes@.len() <= 1000,
    ensures
        r@ == base64_of(bytes@),
{
    base64::engine::general_purpose::STANDARD.encode(bytes.as_slice())
}

/// Relies on base64's `STANDARD` engine (`Engine::decode`): decoding is a
/// function of the token alone, and decoding inverts encoding (the engine
/// demands canonical padding and trailing bits, so exactly the encodings
/// it produces decode back to their source bytes).
#[verifier::external_body]
fn b64_decode(token: &str) -> (r: Option<Vec<u8>>)
    ensures
        r matches Some(v) ==> base64_parsed(token@) == Some(v@),
        r is None ==> base64_parsed(token@) is None,
        r is None ==> forall|b: Seq<u8>| token@ != base64_of(b),
        r matches Some(v) ==> forall|b: Seq<u8>| token@ == base64_of(b) ==> v@ == b,
{
    match base64::engine::general_purpose::STANDARD.decode(token.as_bytes()) {
        Ok(v) => Some(v),
        Err(_) => None,
    }
}

/// The decimal digits (ASCII) of `n`, most significant first, no sign and
/// no leading zeros (except for `n == 0` itself).
pub open spec fn dec_digits(n: nat) -> Seq<u8>
    decreases n,
{
    if n < 10 {
        seq![(48 + n) as u8]
    } else {
        dec_digits(n / 10) + seq![(48 + n % 10) as u8]
    }
}

/// Is `b` an ASCII decimal digit?
pub open spec fn is_digit(b: u8) -> bool {
    48 <= b <= 57
}

/// Does `s` consist of digits only?
pub open spec fn all_digits(s: Seq<u8>) -> bool {
    forall|i: int| 0 <= i < s.len() ==> is_digit(#[trigger] s[i])
}

/// The number written by a digit string, most significant first.
pub open spec fn digits_num(s: Seq<u8>) -> int
    decreases s.len(),
{
    if s.len() == 0 {
        0
    } else {
        digits_num(s.drop_last()) * 10 + (s.last() - 48)
    }
}

/// The value of a byte string read as a plain decimal number: at least one
/// digit, digits only.
pub open spec fn decimal_value(s: Seq<u8>) -> Option<int> {
    if s.len() > 0 && all_digits(s) {
        Some(digits_num(s))
    } else {
        None
    }
}

/// A decimal number accepted as a position: its value must fit in `usize`.
pub open spec fn parsed_position(s: Seq<u8>) -> Option<int> {
    match decimal_value(s) {
        Some(v) => if v <= usize::MAX { Some(v) } else { None },
        None => None,
    }
}

/// The token that encodes position `p`.
pub open spec fn cursor_token(p: nat) -> Seq<char> {
    base64_of(dec_digits(p))
}

/// What a token decodes to, if anything.
pub open spec fn cursor_value(token: Seq<char>) -> Option<int> {
    match base64_parsed(token) {
        Some(bytes) => parsed_position(bytes),
        None => None,
    }
}

/// Powers of ten, for bounding digit counts.
pub open spec fn pow10(k: nat) -> nat
    decreases k,
{
    if k == 0 {
        1
    } else {
        10 * pow10((k - 1) as nat)
    }
}

proof fn lemma_dec_digits_shape(n: nat)
    ensures
        dec_digits(n).len() >= 1,
        all_digits(dec_digits(n)),
    decreases n,
{
    if n >= 10 {
        lemma_dec_digits_shape(n / 10);
    }
}

proof fn lemma_dec_digits_value(n: nat)
    ensures
        digits_num(dec_digits(n)) == n,
    decreases n,
{
    if n < 10 {
        let s = dec_digits(n);
        assert(s =~= seq![(48 + n) as u8]);
        assert(s.drop_last() =~= Seq::<u8>::empty());
        assert((48 + n) as u8 == 48 + n);
        assert(digits_num(s.drop_last()) == 0);
        assert(digits_num(s) == s.last() - 48);
        assert(digits_num(s) == n);
    } else {
        lemma_dec_digits_value(n / 10);
        let prefix = dec_digits(n / 10);
        let whole = dec_digits(n);
        assert(whole =~= prefix + seq![(48 + n % 10) as u8]);
        assert(whole.drop_last() =~= prefix);
        assert(whole.last() == (48 + n % 10) as u8);
        assert((48 + n % 10) as u8 == 48 + n % 10);
        assert(n == (n / 10) * 10 + n % 10) by {
            vstd::arithmetic::div_mod::lemma_fundamental_div_mod(n as int, 10);
        }
        assert(digits_num(whole) == digits_num(prefix) * 10 + (whole.last() - 48));
        assert(digits_num(whole) == n);
    }
}

proof fn lemma_dec_digits_len(n: nat, k: nat)
    requires
        k >= 1,
        n < pow10(k),
    ensures
        dec_digits(n).len() <= k,
    decreases k,
{
    if n >= 10 {
        assert(pow10(k) == 10 * pow10((k - 1) as nat));
        assert(n / 10 < pow10((k - 1) as nat));
        lemma_dec_digits_len(n / 10, (k - 1) as nat);
    }
}

proof fn lemma_usize_fits_twenty_digits()
    ensures
        usize::MAX < pow10(20),
{
    assert(pow10(20) == 100000000000000000000) by {
        reveal_with_fuel(pow10, 21);
    }
}

proof fn lemma_digits_num_nonneg(s: Seq<u8>)
    requires
        all_digits(s),
    ensures
        digits_num(s) >= 0,
    decreases s.len(),
{
    if s.len() > 0 {
        assert(all_digits(s.drop_last())) by {
            assert(forall|i: int|
                0 <= i < s.drop_last().len() ==> #[trigger] s.drop_last()[i] == s[i]);
        }
        lemma_digits_num_nonneg(s.drop_last());
    }
}

/// Appending digits never shrinks the value.
proof fn lemma_digits_num_prefix_bound(s: Seq<u8>, i: int)
    requires
        all_digits(s),
        0 <= i <= s.len(),
    ensures
        digits_num(s.take(i)) <= digits_num(s),
    decreases s.len() - i,
{
    if i < s.len() {
        let t = s.take(i + 1);
        assert(t.drop_last() =~= s.take(i));
        assert(all_digits(t)) by {
            assert(forall|j: int| 0 <= j < t.len() ==> #[trigger] t[j] == s[j]);
        }
        assert(all_digits(s.take(i))) by {
            assert(forall|j: int|
                0 <= j < s.take(i).len() ==> #[trigger] s.take(i)[j] == s[j]);
        }
        lemma_digits_num_nonneg(s.take(i));
        let p = digits_num(s.take(i));
        assert(p * 10 >= p) by (nonlinear_arith)
            requires p >= 0;
        assert(digits_num(t) >= digits_num(s.take(i)));
        lemma_digits_num_prefix_bound(s, i + 1);
        assert(s.take(s.len() as int) =~= s);
    } else {
        assert(s.take(i) =~= s);
    }
}

/// Writes the decimal digits of `n` at the end of `out`.
fn push_decimal(n: usize, out: &mut Vec<u8>)
    ensures
        final(out)@ == old(out)@ + dec_digits(n as nat),
    decreases n,
{
    if n < 10 {
        out.push(48 + n as u8);
        assert(final(out)@ =~= old(out)@ + dec_digits(n as nat));
    } else {
        push_decimal(n / 10, out);
        out.push(48 + (n % 10) as u8);
        assert(final(out)@ =~= old(out)@ + dec_digits(n as nat));
    }
}

/// Reads `bytes` as a plain decimal number, rejecting anything that is not
/// a digit string or does not fit in `usize`.
fn parse_decimal(bytes: &Vec<u8>) -> (r: Option<usize>)
    ensures
        (match r {
            Some(v) => parsed_position(bytes@) == Some(v as int),
            None => parsed_position(bytes@) is None,
        }),
{
    let n = bytes.len();
    if n == 0 {
        return None;
    }
    let mut acc: usize = 0;
    let mut i: usize = 0;
    while i < n
        invariant
            0 <= i <= n,
            n == bytes@.len(),
            all_digits(bytes@.take(i as int)),
            acc == digits_num(bytes@.take(i as int)),
        decreases n - i,
    {
        let b = bytes[i];
        if b < 48 || b > 57 {
            assert(!all_digits(bytes@));
            return None;
        }
        let d = (b - 48) as usize;
        let shifted = match acc.checked_mul(10) {
            Some(s) => s,
            None => {
                proof {
                    overflow_rejection(bytes@, i as int, acc as int, d as int);
                }
                return None;
            },
        };
        let next = match shifted.checked_add(d) {
            Some(s) => s,
            None => {
                proof {
                    overflow_rejection(bytes@, i as int, acc as int, d as int);
                }
                return None;
            },
        };
        proof {
            assert(bytes@.take(i + 1).drop_last() =~= bytes@.take(i as int));
            assert(all_digits(bytes@.take(i + 1))) by {
                assert(forall|j: int|
                    0 <= j < bytes@.take(i + 1).len()
                        ==> #[trigger] bytes@.take(i + 1)[j] == bytes@[j]);
            }
        }
        acc = next;
        i = i + 1;
    }
    proof {
        assert(bytes@.take(n as int) =~= bytes@);
    }
    Some(acc)
}

/// When the accumulated value would leave `usize`, the whole digit string
/// is out of range (or not a digit string at all).
proof fn overflow_rejection(s: Seq<u8>, i: int, acc: int, d: int)
    requires
        0 <= i < s.len(),
        all_digits(s.take(i)),
        is_digit(s[i]),
        acc == digits_num(s.take(i)),
        d == s[i] - 48,
        acc * 10 + d > usize::MAX,
    ensures
        parsed_position(s) is None,
{
    if s.len() > 0 && all_digits(s) {
        assert(s.take(i + 1).drop_last() =~= s.take(i));
        assert(digits_num(s.take(i + 1)) == acc * 10 + d);
        lemma_digits_num_prefix_bound(s, i + 1);
    }
}

/// Encodes a delivery position as an opaque resume token.
pub fn encode_cursor(position: usize) -> (token: String)
    ensures
        token@ == cursor_token(position as nat),
{
    let mut bytes: Vec<u8> = Vec::new();
    proof {
        lemma_usize_fits_twenty_digits();
        lemma_dec_digits_len(position as nat, 20);
    }
    push_decimal(position, &mut bytes);
    b64_encode(&bytes)
}

/// Decodes a resume token back to a position. Fails exactly on tokens that
/// are not canonical base64, decode to something other than a plain digit
/// string, or name a position that does not fit in `usize`; in particular
/// every token made by `encode_cursor` decodes to the position it encodes.
pub fn decode_cursor(token: &str) -> (r: Option<usize>)
    ensures
        (match r {
            Some(p) => cursor_value(token@) == Some(p as int),
            None => cursor_value(token@) is None,
        }),
        forall|p: nat| token@ == cursor_token(p) && p <= usize::MAX ==> r == Some(p as usize),
{
    let decoded = match b64_decode(token) {
        Some(v) => v,
        None => {
            return None;
        },
    };
    let r = parse_decimal(&decoded);
    proof {
        assert forall|p: nat| token@ == cursor_token(p) && p <= usize::MAX implies r == Some(
            p as usize,
        ) by {
            lemma_dec_digits_shape(p);
            lemma_dec_digits_value(p);
            assert(decoded@ == dec_digits(p));
            assert(parsed_position(decoded@) == Some(p as int));
        }
    }
    r
}

/// Round-trip law: decoding the token produced by `encode_cursor` always
/// yields exactly the position that was encoded.
pub fn encode_then_decode(position: usize) -> (r: usize)
    ensures
        r == position,
{
    let token = encode_cursor(position);
    let decoded = decode_cursor(token.as_str());
    decoded.unwrap()
}

} // verus!
