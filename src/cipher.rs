//! The credential cipher: textbook RSA over the bytes of `password>mac`.
use rsa::BigUint;
use vstd::arithmetic::div_mod::{lemma_fundamental_div_mod_converse_div, lemma_fundamental_div_mod_converse_mod};
use vstd::arithmetic::power::{lemma_pow_mod_noop, lemma_pow_multiplies, pow};
use vstd::prelude::*;
use vstd::utf8::encode_utf8;

use crate::text::{mac_address, mac_of};
use crate::types::LoginError;

verus! {

/// Number of hexadecimal digits of an encrypted credential.
pub const ENCRYPTED_LEN: usize = 256;

/// The value of a big-endian byte string.
pub open spec fn be_value(b: Seq<u8>) -> nat
    decreases b.len(),
{
    if b.len() == 0 {
        0
    } else {
        be_value(b.drop_last()) * 256 + b.last() as nat
    }
}

/// The `len` bytes, most significant first, of `v` modulo `256^len`.
pub open spec fn be_bytes(v: nat, len: nat) -> Seq<u8>
    decreases len,
{
    if len == 0 {
        seq![]
    } else {
        be_bytes(v / 256, (len - 1) as nat).push((v % 256) as u8)
    }
}

/// `c` is a hexadecimal digit of either case.
pub open spec fn is_hex_digit(c: char) -> bool {
    ('0' <= c <= '9') || ('a' <= c <= 'f') || ('A' <= c <= 'F')
}

/// The value of a hexadecimal digit.
pub open spec fn hex_digit_value(c: char) -> nat {
    if '0' <= c <= '9' {
        (c as u32 - '0' as u32) as nat
    } else if 'a' <= c <= 'f' {
        (c as u32 - 'a' as u32 + 10) as nat
    } else {
        (c as u32 - 'A' as u32 + 10) as nat
    }
}

/// The value of a run of hexadecimal digits in which `_` separators are skipped.
pub open spec fn hex_digits_value(s: Seq<char>) -> nat
    decreases s.len(),
{
    if s.len() == 0 {
        0
    } else if s.last() == '_' {
        hex_digits_value(s.drop_last())
    } else {
        hex_digits_value(s.drop_last()) * 16 + hex_digit_value(s.last())
    }
}

/// A numeral without the single leading `+` that it may carry.
pub open spec fn unsigned_part(s: Seq<char>) -> Seq<char> {
    if s.len() > 0 && s[0] == '+' && !(s.len() > 1 && s[1] == '+') {
        s.drop_first()
    } else {
        s
    }
}

/// `s` reads as a base-16 natural number: an optional `+`, then digits and
/// `_` separators, not starting with a separator.
pub open spec fn is_hex_numeral(s: Seq<char>) -> bool {
    let d = unsigned_part(s);
    &&& d.len() > 0
    &&& d[0] != '_'
    &&& forall|i: int| 0 <= i < d.len() ==> is_hex_digit(#[trigger] d[i]) || d[i] == '_'
}

/// The value of a base-16 numeral.
pub open spec fn hex_numeral_value(s: Seq<char>) -> nat {
    hex_digits_value(unsigned_part(s))
}

/// The lowercase hexadecimal digit for `d < 16`.
pub open spec fn hex_char(d: nat) -> char {
    seq!['0', '1', '2', '3', '4', '5', '6', '7', '8', '9', 'a', 'b', 'c', 'd', 'e', 'f'][d as int]
}

/// `n` in lowercase hexadecimal, most significant digit first, without leading zeros.
pub open spec fn lower_hex(n: nat) -> Seq<char>
    decreases n,
{
    if n < 16 {
        seq![hex_char(n)]
    } else {
        lower_hex(n / 16).push(hex_char(n % 16))
    }
}

/// `m ^ e mod n`.
pub open spec fn rsa_apply(m: nat, e: nat, n: nat) -> nat {
    (pow(m as int, e) % (n as int)) as nat
}

/// The bytes that are encrypted: the UTF-8 encoding of `password>mac`.
pub open spec fn message_bytes(password: Seq<char>, mac: Seq<char>) -> Seq<u8> {
    encode_utf8(password + seq!['>'] + mac)
}

/// The gateway's public key, given as two numerals, can be used.
pub open spec fn key_usable(modulus: Seq<char>, exponent: Seq<char>) -> bool {
    &&& is_hex_numeral(modulus)
    &&& is_hex_numeral(exponent)
    &&& hex_numeral_value(modulus) > 0
}

/// The encrypted credential, in hexadecimal, for a password, a continuation
/// token (which carries the hardware address) and the gateway's public key.
pub open spec fn encryption_of(
    password: Seq<char>,
    query_string: Seq<char>,
    modulus: Seq<char>,
    exponent: Seq<char>,
) -> Option<Seq<char>> {
    match mac_of(query_string) {
        Some(mac) => if key_usable(modulus, exponent) {
            Some(
                lower_hex(
                    rsa_apply(
                        be_value(message_bytes(password, mac)),
                        hex_numeral_value(exponent),
                        hex_numeral_value(modulus),
                    ),
                ),
            )
        } else {
            None
        },
        None => None,
    }
}

/// A credential of 256 hexadecimal digits is taken as encrypted already.
pub open spec fn is_encrypted_text(password: Seq<char>) -> bool {
    &&& password.len() == ENCRYPTED_LEN
    &&& forall|i: int| 0 <= i < password.len() ==> is_hex_digit(#[trigger] password[i])
}

/// The credential that the login form carries: the password as it is where it
/// is encrypted already, else its encryption.
pub open spec fn credential_of(
    password: Seq<char>,
    query_string: Seq<char>,
    modulus: Seq<char>,
    exponent: Seq<char>,
) -> Option<Seq<char>> {
    if is_encrypted_text(password) {
        Some(password)
    } else {
        encryption_of(password, query_string, modulus, exponent)
    }
}

/// Relies on `BigUint::parse_bytes` with radix 16 (num-bigint-dig, re-exported
/// by rsa), then `to_bytes_be`: a numeral that `is_hex_numeral` accepts is read
/// as its value, any other text is refused.
#[verifier::external_body]
fn parse_hex(s: &str) -> (r: Option<Vec<u8>>)
    ensures
        r is Some <==> is_hex_numeral(s@),
        r matches Some(b) ==> be_value(b@) == hex_numeral_value(s@),
{
    BigUint::parse_bytes(s.as_bytes(), 16).map(|n| n.to_bytes_be())
}

/// Relies on `BigUint::modpow`: `(base ^ exponent) % modulus`; it panics on a
/// zero modulus. The numbers go in and out as big-endian bytes.
#[verifier::external_body]
fn mod_pow(base: &[u8], exponent: &[u8], modulus: &[u8]) -> (r: Vec<u8>)
    requires
        be_value(modulus@) > 0,
    ensures
        be_value(r@) == rsa_apply(be_value(base@), be_value(exponent@), be_value(modulus@)),
{
    let m = BigUint::from_bytes_be(modulus);
    BigUint::from_bytes_be(base).modpow(&BigUint::from_bytes_be(exponent), &m).to_bytes_be()
}

/// Relies on `BigUint::to_str_radix` with radix 16: lowercase digits, most
/// significant first, no leading zeros, `0` for zero.
#[verifier::external_body]
fn to_hex(b: &[u8]) -> (r: String)
    ensures
        r@ == lower_hex(be_value(b@)),
{
    BigUint::from_bytes_be(b).to_str_radix(16)
}

proof fn lemma_be_value_zero(b: Seq<u8>)
    requires
        forall|i: int| 0 <= i < b.len() ==> b[i] == 0,
    ensures
        be_value(b) == 0,
    decreases b.len(),
{
    if b.len() > 0 {
        lemma_be_value_zero(b.drop_last());
    }
}

proof fn lemma_be_value_positive(b: Seq<u8>, i: int)
    requires
        0 <= i < b.len(),
        b[i] != 0,
    ensures
        be_value(b) > 0,
    decreases b.len(),
{
    if i < b.len() - 1 {
        lemma_be_value_positive(b.drop_last(), i);
    }
}

/// Tells whether a big-endian number is above zero.
fn is_nonzero(b: &[u8]) -> (r: bool)
    ensures
        r == (be_value(b@) > 0),
{
    let n = b.len();
    let mut i: usize = 0;
    while i < n
        invariant
            n == b@.len(),
            i <= n,
            forall|k: int| 0 <= k < i ==> b@[k] == 0,
        decreases n - i,
    {
        if b[i] != 0 {
            proof {
                lemma_be_value_positive(b@, i as int);
            }
            return true;
        }
        i = i + 1;
    }
    proof {
        lemma_be_value_zero(b@);
    }
    false
}

/// Encrypts a password for the login form: the UTF-8 bytes of `password>mac`,
/// read as a big-endian number, raised to the key's exponent modulo its
/// modulus, in lowercase hexadecimal. `mac` is the hardware address that the
/// continuation token carries. Fails where the token carries none, or where the
/// key is not two base-16 numerals with a modulus above zero.
pub fn encrypt_password(password: &str, query_string: &str, modulus: &str, exponent: &str) -> (r:
    Result<String, LoginError>)
    ensures
        r is Ok <==> encryption_of(password@, query_string@, modulus@, exponent@) is Some,
        r matches Ok(h) ==> encryption_of(password@, query_string@, modulus@, exponent@) == Some(
            h@,
        ),
        r matches Err(e) ==> e is BadResponse,
{
    let mac = match mac_address(query_string) {
        Some(m) => m,
        None => {
            return Err(LoginError::BadResponse("no hardware address in the continuation token".to_owned()));
        },
    };
    let n = match parse_hex(modulus) {
        Some(v) => v,
        None => {
            return Err(LoginError::BadResponse("public key modulus is not hexadecimal".to_owned()));
        },
    };
    let e = match parse_hex(exponent) {
        Some(v) => v,
        None => {
            return Err(LoginError::BadResponse("public key exponent is not hexadecimal".to_owned()));
        },
    };
    if !is_nonzero(n.as_slice()) {
        return Err(LoginError::BadResponse("public key modulus is zero".to_owned()));
    }
    let mut message = password.to_owned();
    let sep = ">";
    proof {
        reveal_strlit(">");
    }
    message.append(sep);
    message.append(mac.as_str());
    assert(message@ == password@ + seq!['>'] + mac@);
    let c = mod_pow(message.as_str().as_bytes(), e.as_slice(), n.as_slice());
    Ok(to_hex(c.as_slice()))
}

/// Tells whether a credential is encrypted already: 256 hexadecimal digits.
pub fn is_encrypted(password: &str) -> (r: bool)
    ensures
        r == is_encrypted_text(password@),
{
    let n = password.unicode_len();
    if n != ENCRYPTED_LEN {
        return false;
    }
    let mut i: usize = 0;
    while i < n
        invariant
            n == password@.len(),
            i <= n,
            forall|k: int| 0 <= k < i ==> is_hex_digit(#[trigger] password@[k]),
        decreases n - i,
    {
        let c = password.get_char(i);
        if !(('0' <= c && c <= '9') || ('a' <= c && c <= 'f') || ('A' <= c && c <= 'F')) {
            return false;
        }
        i = i + 1;
    }
    true
}

/// The credential for the login form: a password of 256 hexadecimal digits is
/// taken as encrypted by an earlier login and passed through unchanged; any other is
/// encrypted with [`encrypt_password`].
pub fn credential(password: &str, query_string: &str, modulus: &str, exponent: &str) -> (r: Result<
    String,
    LoginError,
>)
    ensures
        r is Ok <==> credential_of(password@, query_string@, modulus@, exponent@) is Some,
        r matches Ok(h) ==> credential_of(password@, query_string@, modulus@, exponent@) == Some(
            h@,
        ),
        is_encrypted_text(password@) ==> (r matches Ok(h) && h@ == password@),
        r matches Err(e) ==> e is BadResponse,
{
    if is_encrypted(password) {
        Ok(password.to_owned())
    } else {
        encrypt_password(password, query_string, modulus, exponent)
    }
}

/// The private exponent `d` undoes the public exponent `e` modulo `n`: this is
/// what makes `d` the private exponent that matches the key `(n, e)`.
pub open spec fn inverse_exponents(e: nat, d: nat, n: nat) -> bool {
    forall|x: nat| x < n ==> #[trigger] (pow(x as int, e * d) % (n as int)) == x
}

/// Reading bytes as a number and writing the number back in as many bytes
/// gives the bytes again.
pub proof fn lemma_be_round_trip(b: Seq<u8>)
    ensures
        be_bytes(be_value(b), b.len()) == b,
    decreases b.len(),
{
    if b.len() > 0 {
        let v = be_value(b);
        let p = b.drop_last();
        lemma_be_round_trip(p);
        lemma_fundamental_div_mod_converse_div(v as int, 256, be_value(p) as int, b.last() as int);
        lemma_fundamental_div_mod_converse_mod(v as int, 256, be_value(p) as int, b.last() as int);
        assert(be_bytes(v, b.len()) =~= b);
    }
}

/// Decrypting what [`encrypt_password`] produces with the matching private
/// exponent gives back the number it encrypted, and that number written in as
/// many bytes as the message has is exactly the UTF-8 encoding of
/// `password>mac`: the cipher is a faithful modular exponentiation of the
/// message, for every message below the modulus.
pub proof fn lemma_decrypt_recovers_message(
    password: Seq<char>,
    query_string: Seq<char>,
    modulus: Seq<char>,
    exponent: Seq<char>,
    d: nat,
)
    requires
        key_usable(modulus, exponent),
        mac_of(query_string) is Some,
        inverse_exponents(hex_numeral_value(exponent), d, hex_numeral_value(modulus)),
        be_value(message_bytes(password, mac_of(query_string)->Some_0)) < hex_numeral_value(
            modulus,
        ),
    ensures
        ({
            let m = message_bytes(password, mac_of(query_string)->Some_0);
            let n = hex_numeral_value(modulus);
            let c = rsa_apply(be_value(m), hex_numeral_value(exponent), n);
            &&& encryption_of(password, query_string, modulus, exponent) == Some(lower_hex(c))
            &&& rsa_apply(c, d, n) == be_value(m)
            &&& be_bytes(rsa_apply(c, d, n), m.len()) == m
        }),
{
    let m = message_bytes(password, mac_of(query_string)->Some_0);
    let n = hex_numeral_value(modulus);
    let e = hex_numeral_value(exponent);
    let x = be_value(m);
    lemma_pow_mod_noop(pow(x as int, e), d, n as int);
    lemma_pow_multiplies(x as int, e, d);
    assert(pow(x as int, e * d) % (n as int) == x);
    lemma_be_round_trip(m);
}

/// A number below `16^d` takes at most `d` hexadecimal digits.
pub proof fn lemma_lower_hex_len(x: nat, d: nat)
    requires
        d >= 1,
        x < pow(16, d),
    ensures
        lower_hex(x).len() <= d,
    decreases x,
{
    reveal(pow);
    if x >= 16 {
        if d == 1 {
            assert(pow(16, 0) == 1);
        }
        assert(d >= 2);
        lemma_pow_multiplies(16, 1, (d - 1) as nat);
        assert(pow(16, d) == 16 * pow(16, (d - 1) as nat));
        assert(x / 16 < pow(16, (d - 1) as nat));
        lemma_lower_hex_len(x / 16, (d - 1) as nat);
    }
}

/// The encrypted credential is a residue modulo the key's modulus, so where
/// the modulus is at most `256^k` (as when it fits in `k` bytes) it takes at
/// most `2 * k` hexadecimal digits.
pub proof fn lemma_encryption_len(
    password: Seq<char>,
    query_string: Seq<char>,
    modulus: Seq<char>,
    exponent: Seq<char>,
    k: nat,
)
    requires
        k >= 1,
        encryption_of(password, query_string, modulus, exponent) is Some,
        hex_numeral_value(modulus) <= pow(256, k),
    ensures
        encryption_of(password, query_string, modulus, exponent)->Some_0.len() <= 2 * k,
{
    let n = hex_numeral_value(modulus);
    let mac = mac_of(query_string)->Some_0;
    let c = rsa_apply(be_value(message_bytes(password, mac)), hex_numeral_value(exponent), n);
    assert(c < n);
    lemma_pow_multiplies(16, 2, k);
    assert(pow(16, 2) == 256) by {
        reveal_with_fuel(pow, 3);
    }
    lemma_lower_hex_len(c, 2 * k);
}

} // verus!
