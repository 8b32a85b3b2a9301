//! Wire codec: framing and parsing of protocol operations.
//!
//! A frame is the fixed protocol signature followed by an encrypted block.
//! The decrypted block is one opcode byte followed by the operand: for a
//! message, `username bytes, 0x00 separator, text bytes`; for an announce or
//! a leave, the username bytes alone.  Decoding tolerates every malformed
//! input: a frame without the signature, an undecryptable block, an unknown
//! opcode or invalid text all yield `None`, never a panic.

use vstd::prelude::*;
use vstd::slice::{slice_subrange, slice_to_vec};
use vstd::utf8::{
    decode_utf8, encode_utf8, encode_utf8_decode_utf8, encode_utf8_valid_utf8, valid_utf8,
};

use crate::crypto::{decrypt_bytes, decrypt_of, encrypt_bytes};
use crate::ops::{Op, OpCode, OpView};
use crate::textutil::{has_no_nul, lemma_encode_utf8_no_zero, utf8_to_string};

verus! {

/// UDP port every instance binds and broadcasts on.
pub const PORT: u16 = 7312;

/// The characters of the protocol signature, the fixed prefix of every frame.
pub open spec fn spec_signature() -> Seq<char> {
    "github.com/InfinityCity18/hackchat"@
}

/// The signature as wire bytes.
pub open spec fn sig_bytes() -> Seq<u8> {
    encode_utf8(spec_signature())
}

/// The protocol signature: a fixed ASCII string that filters out broadcast
/// traffic from unrelated senders before decryption is attempted.
pub fn signature_str() -> (r: &'static str)
    ensures
        r@ == spec_signature(),
{
    "github.com/InfinityCity18/hackchat"
}

/// The plaintext block an operation is encrypted from: one opcode byte,
/// then the operand bytes.
pub open spec fn payload_of(v: OpView) -> Seq<u8> {
    match v {
        OpView::Message { user, text } => seq![0u8] + encode_utf8(user) + seq![0u8] + encode_utf8(
            text,
        ),
        OpView::User { user } => seq![1u8] + encode_utf8(user),
        OpView::Leave { user } => seq![2u8] + encode_utf8(user),
    }
}

/// An operation may be framed only if its username cannot collide with the
/// separator byte: a message's username must hold no NUL character.
pub open spec fn sendable(v: OpView) -> bool {
    match v {
        OpView::Message { user, .. } => has_no_nul(user),
        OpView::User { .. } => true,
        OpView::Leave { .. } => true,
    }
}

/// Index of the first zero byte of the sequence, or its length if none.
pub open spec fn first_zero_index(s: Seq<u8>) -> int
    decreases s.len(),
{
    if s.len() == 0 {
        0
    } else if s[0] == 0 {
        0
    } else {
        1 + first_zero_index(s.drop_first())
    }
}

/// Holds when some byte of the sequence is zero.
pub open spec fn has_zero(s: Seq<u8>) -> bool {
    exists|k: int| 0 <= k < s.len() && s[k] == 0
}

/// A zero at `i` behind a zero-free prefix is the first zero.
pub proof fn lemma_first_zero_at(s: Seq<u8>, i: int)
    requires
        0 <= i < s.len(),
        s[i] == 0,
        forall|j: int| 0 <= j < i ==> s[j] != 0,
    ensures
        has_zero(s),
        first_zero_index(s) == i,
    decreases i,
{
    assert(s[i] == 0);
    if i > 0 {
        lemma_first_zero_at(s.drop_first(), i - 1);
    }
}

/// A zero-free sequence has no zero, and its first-zero index is its length.
pub proof fn lemma_no_zero(s: Seq<u8>)
    requires
        forall|j: int| 0 <= j < s.len() ==> s[j] != 0,
    ensures
        !has_zero(s),
        first_zero_index(s) == s.len(),
    decreases s.len(),
{
    if s.len() > 0 {
        lemma_no_zero(s.drop_first());
    }
}

/// The operation a message operand stands for: username up to the first
/// zero byte, text after it; with no separator the whole operand is the
/// username and the text is empty.  Both parts must be valid UTF-8.
pub open spec fn parse_message_operand(operand: Seq<u8>) -> Option<OpView> {
    if has_zero(operand) {
        let i = first_zero_index(operand);
        let ub = operand.take(i);
        let tb = operand.skip(i + 1);
        if valid_utf8(ub) && valid_utf8(tb) {
            Some(OpView::Message { user: decode_utf8(ub), text: decode_utf8(tb) })
        } else {
            None
        }
    } else {
        if valid_utf8(operand) {
            Some(OpView::Message { user: decode_utf8(operand), text: Seq::empty() })
        } else {
            None
        }
    }
}

/// The operation a decrypted block stands for, or `None` where the block is
/// empty, carries an unknown opcode, or holds invalid text.
pub open spec fn parse_payload(p: Seq<u8>) -> Option<OpView> {
    if p.len() == 0 {
        None
    } else {
        let operand = p.drop_first();
        if p[0] == 0 {
            parse_message_operand(operand)
        } else if p[0] == 1 {
            if valid_utf8(operand) {
                Some(OpView::User { user: decode_utf8(operand) })
            } else {
                None
            }
        } else if p[0] == 2 {
            if valid_utf8(operand) {
                Some(OpView::Leave { user: decode_utf8(operand) })
            } else {
                None
            }
        } else {
            None
        }
    }
}

/// What decoding yields for a raw datagram under the given key: the parsed
/// operation where the signature matches, the rest decrypts and the
/// plaintext parses; `None` otherwise.
pub open spec fn spec_decode(frame: Seq<u8>, key: Seq<u8>) -> Option<OpView> {
    let n = sig_bytes().len() as int;
    if frame.len() >= n && frame.take(n) == sig_bytes() {
        match decrypt_of(frame.skip(n), key) {
            Some(p) => parse_payload(p),
            None => None,
        }
    } else {
        None
    }
}

/// Holds when `f` is a well-formed frame for the operation `v` under `key`:
/// the signature, then a block that decrypts to the operation's payload.
pub open spec fn is_encoding_of(f: Seq<u8>, key: Seq<u8>, v: OpView) -> bool {
    let n = sig_bytes().len() as int;
    &&& f.len() >= n
    &&& f.take(n) == sig_bytes()
    &&& decrypt_of(f.skip(n), key) == Some(payload_of(v))
}

/// Failure of [`encode_op`]: the cryptographic primitive rejected the
/// request.  Propagated to the caller, never retried with another key.
#[derive(Clone, Copy, PartialEq, Eq, Structural, Debug)]
pub enum EncodeError {
    Encryption,
}

/// Appends the bytes of a slice to a vector.
fn push_bytes(v: &mut Vec<u8>, s: &[u8])
    ensures
        final(v)@ == old(v)@ + s@,
{
    let n = s.len();
    let mut i: usize = 0;
    while i < n
        invariant
            i <= n,
            n == s@.len(),
            v@ == old(v)@ + s@.take(i as int),
        decreases n - i,
    {
        let b = s[i];
        v.push(b);
        proof {
            assert((old(v)@ + s@.take(i as int)).push(s@[i as int]) =~= old(v)@ + s@.take(
                i + 1,
            ));
        }
        i += 1;
    }
    proof {
        assert(old(v)@ + s@.take(n as int) =~= old(v)@ + s@);
    }
}

/// Appends the UTF-8 bytes of a string to a vector.
fn push_str_bytes(v: &mut Vec<u8>, s: &str)
    ensures
        final(v)@ == old(v)@ + encode_utf8(s@),
{
    let b = s.as_bytes();
    push_bytes(v, b);
}

/// Encodes an operation into a wire frame: the signature followed by the
/// encrypted payload.  Encryption draws a fresh salt and nonce, so two
/// encodings of one operation may differ as bytes; every successful frame
/// decrypts back to the operation's payload under the same key.
pub fn encode_op(op: &Op, key: &[u8]) -> (r: Result<Vec<u8>, EncodeError>)
    requires
        op.wf(),
        sendable(op@),
    ensures
        r matches Ok(f) ==> is_encoding_of(f@, key@, op@),
{
    let mut payload: Vec<u8> = Vec::new();
    match op {
        Op::Message(c, u, t) => {
            payload.push(c.to_byte());
            push_str_bytes(&mut payload, u.as_str());
            payload.push(0);
            push_str_bytes(&mut payload, t.as_str());
            proof {
                assert(payload@ =~= payload_of(op@));
            }
        },
        Op::User(c, u) => {
            payload.push(c.to_byte());
            push_str_bytes(&mut payload, u.as_str());
            proof {
                assert(payload@ =~= payload_of(op@));
            }
        },
        Op::Leave(c, u) => {
            payload.push(c.to_byte());
            push_str_bytes(&mut payload, u.as_str());
            proof {
                assert(payload@ =~= payload_of(op@));
            }
        },
    }
    let encrypted = match encrypt_bytes(payload.as_slice(), key) {
        Ok(v) => v,
        Err(_) => {
            return Err(EncodeError::Encryption);
        },
    };
    let sig = signature_str();
    let mut f: Vec<u8> = Vec::new();
    push_str_bytes(&mut f, sig);
    proof {
        assert(f@ =~= sig_bytes());
    }
    push_bytes(&mut f, encrypted.as_slice());
    proof {
        let n = sig_bytes().len() as int;
        assert(f@.take(n) =~= sig_bytes());
        assert(f@.skip(n) =~= encrypted@);
    }
    Ok(f)
}

/// Decodes a raw datagram: verifies the signature, decrypts the rest with
/// the room key, and parses the plaintext.  Every failure yields `None`;
/// no input panics.
pub fn decode_frame(frame: &[u8], key: &[u8]) -> (r: Option<Op>)
    ensures
        match r {
            Some(op) => op.wf() && spec_decode(frame@, key@) == Some(op@),
            None => spec_decode(frame@, key@) is None,
        },
{
    let sig = signature_str();
    let sigb = sig.as_bytes();
    let sl = sigb.len();
    if frame.len() < sl {
        return None;
    }
    let mut j: usize = 0;
    while j < sl
        invariant
            j <= sl,
            sl == sig_bytes().len(),
            sigb@ == sig_bytes(),
            frame@.len() >= sl,
            forall|k: int| 0 <= k < j ==> frame@[k] == sig_bytes()[k],
        decreases sl - j,
    {
        if frame[j] != sigb[j] {
            proof {
                assert(frame@.take(sl as int)[j as int] != sig_bytes()[j as int]);
            }
            return None;
        }
        j += 1;
    }
    proof {
        assert(frame@.take(sl as int) =~= sig_bytes());
    }
    let block = slice_subrange(frame, sl, frame.len());
    proof {
        assert(block@ =~= frame@.skip(sl as int));
    }
    let p = match decrypt_bytes(block, key) {
        Ok(p) => p,
        Err(_) => {
            return None;
        },
    };
    if p.len() == 0 {
        return None;
    }
    let opcode_byte = p[0];
    let operand = slice_subrange(p.as_slice(), 1, p.len());
    let ol = operand.len();
    proof {
        assert(operand@ =~= p@.drop_first());
    }
    let opcode = match OpCode::try_from(opcode_byte) {
        Ok(c) => c,
        Err(_) => {
            return None;
        },
    };
    match opcode {
        OpCode::Message => {
            let mut i: usize = 0;
            while i < ol && operand[i] != 0
                invariant
                    i <= ol,
                    ol == operand@.len(),
                    forall|k: int| 0 <= k < i ==> operand@[k] != 0,
                decreases ol - i,
            {
                i += 1;
            }
            if i == ol {
                proof {
                    lemma_no_zero(operand@);
                }
                let ub = slice_to_vec(operand);
                match utf8_to_string(ub) {
                    Some(user) => {
                        let text = String::new();
                        Some(Op::Message(OpCode::Message, user, text))
                    },
                    None => None,
                }
            } else {
                proof {
                    lemma_first_zero_at(operand@, i as int);
                }
                let ub = slice_to_vec(slice_subrange(operand, 0, i));
                let tb = slice_to_vec(slice_subrange(operand, i + 1, ol));
                proof {
                    assert(ub@ =~= operand@.take(i as int));
                    assert(tb@ =~= operand@.skip(i as int + 1));
                }
                match utf8_to_string(ub) {
                    Some(user) => match utf8_to_string(tb) {
                        Some(text) => Some(Op::Message(OpCode::Message, user, text)),
                        None => None,
                    },
                    None => None,
                }
            }
        },
        OpCode::User => {
            let ub = slice_to_vec(operand);
            match utf8_to_string(ub) {
                Some(user) => Some(Op::User(OpCode::User, user)),
                None => None,
            }
        },
        OpCode::Leave => {
            let ub = slice_to_vec(operand);
            match utf8_to_string(ub) {
                Some(user) => Some(Op::Leave(OpCode::Leave, user)),
                None => None,
            }
        },
    }
}

/// The payload of a sendable operation parses back to that operation.
pub proof fn lemma_parse_payload_of(v: OpView)
    requires
        sendable(v),
    ensures
        parse_payload(payload_of(v)) == Some(v),
{
    match v {
        OpView::Message { user, text } => {
            let eu = encode_utf8(user);
            let et = encode_utf8(text);
            let p = payload_of(v);
            let operand = p.drop_first();
            assert(operand =~= eu + seq![0u8] + et);
            lemma_encode_utf8_no_zero(user);
            assert forall|j: int| 0 <= j < eu.len() implies operand[j] != 0 by {
                assert(operand[j] == eu[j]);
            }
            assert(operand[eu.len() as int] == 0);
            lemma_first_zero_at(operand, eu.len() as int);
            assert(operand.take(eu.len() as int) =~= eu);
            assert(operand.skip(eu.len() as int + 1) =~= et);
            encode_utf8_valid_utf8(user);
            encode_utf8_valid_utf8(text);
            encode_utf8_decode_utf8(user);
            encode_utf8_decode_utf8(text);
        },
        OpView::User { user } => {
            let p = payload_of(v);
            assert(p.drop_first() =~= encode_utf8(user));
            encode_utf8_valid_utf8(user);
            encode_utf8_decode_utf8(user);
        },
        OpView::Leave { user } => {
            let p = payload_of(v);
            assert(p.drop_first() =~= encode_utf8(user));
            encode_utf8_valid_utf8(user);
            encode_utf8_decode_utf8(user);
        },
    }
}

/// Round trip: any frame produced for a sendable operation decodes back to
/// exactly that operation under the same key.
pub proof fn lemma_round_trip(f: Seq<u8>, key: Seq<u8>, v: OpView)
    requires
        sendable(v),
        is_encoding_of(f, key, v),
    ensures
        spec_decode(f, key) == Some(v),
{
    lemma_parse_payload_of(v);
}

/// Foreign traffic: a datagram that does not begin with the protocol
/// signature decodes to nothing, whatever the key.
pub proof fn lemma_foreign_frame_discarded(frame: Seq<u8>, key: Seq<u8>)
    requires
        frame.len() < sig_bytes().len() || frame.take(sig_bytes().len() as int) != sig_bytes(),
    ensures
        spec_decode(frame, key) is None,
{
}

/// Decrypt failure: a datagram whose block does not decrypt under the key
/// (wrong key or corrupted bytes) decodes to nothing.
pub proof fn lemma_undecryptable_frame_discarded(frame: Seq<u8>, key: Seq<u8>)
    requires
        decrypt_of(frame.skip(sig_bytes().len() as int), key) is None,
    ensures
        spec_decode(frame, key) is None,
{
}

} // verus!
