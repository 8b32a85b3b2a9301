//! Text helpers: character/byte conversions shared by the codec and the
//! terminal-side state, and the few facts about UTF-8 they rest on.

use vstd::prelude::*;
use vstd::string::StrSliceExecFns;
use vstd::utf8::{
    char_is_scalar, char_u32_cast, decode_utf8, encode_scalar, encode_utf8, valid_utf8,
};

verus! {

/// Holds when no character of the sequence is NUL.  Usernames must satisfy
/// this before they are framed: the wire format separates the username from
/// the message text with a single zero byte.
pub open spec fn has_no_nul(s: Seq<char>) -> bool {
    forall|i: int| 0 <= i < s.len() ==> s[i] != '\0'
}

/// Relies on `String::from_utf8`: it succeeds exactly on valid UTF-8 input
/// and then returns the decoded character sequence.
#[verifier::external_body]
pub(crate) fn utf8_to_string(bytes: Vec<u8>) -> (r: Option<String>)
    ensures
        match r {
            Some(s) => valid_utf8(bytes@) && s@ == decode_utf8(bytes@),
            None => !valid_utf8(bytes@),
        },
{
    String::from_utf8(bytes).ok()
}

/// Relies on `String::push`: it appends exactly one character.
#[verifier::external_body]
pub(crate) fn push_char(s: &mut String, c: char)
    ensures
        final(s)@ == old(s)@.push(c),
{
    s.push(c);
}

/// Builds a `String` holding exactly the given characters.
pub fn string_from_chars(cs: &Vec<char>) -> (r: String)
    ensures
        r@ == cs@,
{
    let mut s = String::new();
    let mut i: usize = 0;
    while i < cs.len()
        invariant
            i <= cs.len(),
            s@ == cs@.take(i as int),
        decreases cs.len() - i,
    {
        push_char(&mut s, cs[i]);
        proof {
            assert(cs@.take(i as int).push(cs@[i as int]) =~= cs@.take(i + 1));
        }
        i += 1;
    }
    proof {
        assert(cs@.take(cs@.len() as int) =~= cs@);
    }
    s
}

/// Collects the characters of a string slice.
pub fn chars_of_str(s: &str) -> (r: Vec<char>)
    ensures
        r@ == s@,
{
    let n = s.unicode_len();
    let mut r: Vec<char> = Vec::new();
    let mut i: usize = 0;
    while i < n
        invariant
            i <= n,
            n == s@.len(),
            r@ == s@.take(i as int),
        decreases n - i,
    {
        let c = s.get_char(i);
        r.push(c);
        proof {
            assert(s@.take(i as int).push(s@[i as int]) =~= s@.take(i + 1));
        }
        i += 1;
    }
    proof {
        assert(s@.take(s@.len() as int) =~= s@);
    }
    r
}

/// The decimal digit character for one value below ten.
pub open spec fn dec_digit(d: nat) -> char
    recommends
        d < 10,
{
    ((48 + d) as u8) as char
}

/// The decimal numeral of `n`, most significant digit first.
pub open spec fn dec_chars(n: nat) -> Seq<char>
    decreases n,
{
    if n < 10 {
        seq![dec_digit(n)]
    } else {
        dec_chars(n / 10).push(dec_digit(n % 10))
    }
}

/// Writes `n` in decimal, most significant digit first.
pub fn usize_to_chars(n: usize) -> (r: Vec<char>)
    ensures
        r@ == dec_chars(n as nat),
    decreases n,
{
    if n < 10 {
        let d: u8 = 48 + (n as u8);
        let mut v: Vec<char> = Vec::new();
        v.push(d as char);
        proof {
            assert(v@ =~= seq![dec_digit(n as nat)]);
        }
        v
    } else {
        let mut v = usize_to_chars(n / 10);
        let d: u8 = 48 + ((n % 10) as u8);
        v.push(d as char);
        v
    }
}

/// Powers of ten.
pub open spec fn pow10(k: nat) -> nat
    decreases k,
{
    if k == 0 {
        1
    } else {
        10 * pow10((k - 1) as nat)
    }
}

/// A number below the `k`-th power of ten has at most `k` decimal digits.
proof fn lemma_dec_chars_len_pow(n: nat, k: nat)
    requires
        k >= 1,
        n < pow10(k),
    ensures
        dec_chars(n).len() <= k,
    decreases k,
{
    if n >= 10 {
        assert(pow10(k) == 10 * pow10((k - 1) as nat));
        if k == 1 {
            assert(pow10(0) == 1);
            assert(false);
        }
        assert(n / 10 < pow10((k - 1) as nat)) by (nonlinear_arith)
            requires
                n < 10 * pow10((k - 1) as nat),
        ;
        lemma_dec_chars_len_pow(n / 10, (k - 1) as nat);
    }
}

/// Any value that fits a `u64` has at most twenty decimal digits.
pub proof fn lemma_dec_chars_len(n: nat)
    requires
        n <= u64::MAX,
    ensures
        dec_chars(n).len() <= 20,
{
    assert(pow10(0) == 1);
    assert(pow10(1) == 10);
    assert(pow10(2) == 100);
    assert(pow10(3) == 1000);
    assert(pow10(4) == 10000);
    assert(pow10(5) == 100000);
    assert(pow10(6) == 1000000);
    assert(pow10(7) == 10000000);
    assert(pow10(8) == 100000000);
    assert(pow10(9) == 1000000000);
    assert(pow10(10) == 10000000000);
    assert(pow10(11) == 100000000000);
    assert(pow10(12) == 1000000000000);
    assert(pow10(13) == 10000000000000);
    assert(pow10(14) == 100000000000000);
    assert(pow10(15) == 1000000000000000);
    assert(pow10(16) == 10000000000000000);
    assert(pow10(17) == 100000000000000000);
    assert(pow10(18) == 1000000000000000000);
    assert(pow10(19) == 10000000000000000000);
    assert(pow10(20) == 100000000000000000000);
    lemma_dec_chars_len_pow(n, 20);
}

/// UTF-8 encoding distributes over concatenation.
pub proof fn lemma_encode_utf8_concat(a: Seq<char>, b: Seq<char>)
    ensures
        encode_utf8(a + b) == encode_utf8(a) + encode_utf8(b),
    decreases a.len(),
{
    if a.len() == 0 {
        assert(a + b =~= b);
        assert(encode_utf8(a) + encode_utf8(b) =~= encode_utf8(b));
    } else {
        assert((a + b)[0] == a[0]);
        assert((a + b).drop_first() =~= a.drop_first() + b);
        lemma_encode_utf8_concat(a.drop_first(), b);
        assert(encode_utf8(a + b) =~= encode_utf8(a) + encode_utf8(b));
    }
}

/// No byte of the encoding of a non-NUL scalar is zero.
proof fn lemma_encode_scalar_nonzero(s: u32)
    requires
        s != 0,
    ensures
        forall|i: int| 0 <= i < encode_scalar(s).len() ==> encode_scalar(s)[i] != 0,
{
    assert((s & 0x7F) as u8 != 0 || !(s != 0 && s <= 0x7F)) by (bit_vector);
    assert((0xC0 | ((s >> 6) & 0x1F) as u8) != 0) by (bit_vector);
    assert((0xE0 | ((s >> 12) & 0x0F) as u8) != 0) by (bit_vector);
    assert((0xF0 | ((s >> 18) & 0x7) as u8) != 0) by (bit_vector);
    assert((0x80 | (s & 0x3F) as u8) != 0) by (bit_vector);
    assert((0x80 | ((s >> 6) & 0x3F) as u8) != 0) by (bit_vector);
    assert((0x80 | ((s >> 12) & 0x3F) as u8) != 0) by (bit_vector);
}

/// The UTF-8 encoding of a sequence without NUL characters has no zero byte.
pub proof fn lemma_encode_utf8_no_zero(a: Seq<char>)
    requires
        has_no_nul(a),
    ensures
        forall|i: int| 0 <= i < encode_utf8(a).len() ==> encode_utf8(a)[i] != 0,
    decreases a.len(),
{
    if a.len() > 0 {
        char_is_scalar(a[0]);
        if a[0] as u32 == 0 {
            char_u32_cast(a[0], 0);
            char_u32_cast('\0', 0);
            assert(false);
        }
        lemma_encode_scalar_nonzero(a[0] as u32);
        lemma_encode_utf8_no_zero(a.drop_first());
        assert forall|i: int| 0 <= i < encode_utf8(a).len() implies encode_utf8(a)[i] != 0 by {
            if i < encode_scalar(a[0] as u32).len() {
                assert(encode_utf8(a)[i] == encode_scalar(a[0] as u32)[i]);
            } else {
                assert(encode_utf8(a)[i] == encode_utf8(a.drop_first())[i - encode_scalar(
                    a[0] as u32,
                ).len()]);
            }
        }
    }
}

} // verus!
