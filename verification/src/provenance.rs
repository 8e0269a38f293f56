//! Provenance of an agent's prompt: a commitment to the company profile, and
//! digests of the history and of the prompt, so that a verifier can check
//! that the prompt was derived from the committed profile and the public
//! history alone.

use vstd::prelude::*;
use vstd::utf8::encode_utf8;
use sha2::Digest;
use crate::agent::{Profile, RoundResult};
use crate::text::{format_history, history_renderable, history_text};
use crate::prompt::{profile_prompt, render_prompt};

verus! {

/// The SHA-256 digest of `data`, as computed by the `sha2` crate.
pub uninterp spec fn sha256_digest(data: Seq<u8>) -> Seq<u8>;

/// SHA-256 of `bytes`.
///
/// Calls `sha2::Sha256::digest`. Claimed: the result is the digest named
/// `sha256_digest` of the input bytes, which depends on the bytes alone.
/// What the digest is on given bytes is not stated here.
#[verifier::external_body]
pub fn sha256(bytes: &[u8]) -> (r: [u8; 32])
    ensures
        r@ == sha256_digest(bytes@),
{
    sha2::Sha256::digest(bytes).into()
}

/// Appends all of `bytes`.
fn extend_bytes(v: &mut Vec<u8>, bytes: &[u8])
    ensures
        final(v)@ == old(v)@ + bytes@,
{
    for i in 0..bytes.len()
        invariant
            v@ == old(v)@ + bytes@.take(i as int),
    {
        v.push(bytes[i]);
        assert(bytes@.take(i + 1) =~= bytes@.take(i as int).push(bytes@[i as int]));
        assert(v@ =~= old(v)@ + bytes@.take(i + 1));
    }
    assert(bytes@.take(bytes@.len() as int) =~= bytes@);
}

/// The commitment to a profile: SHA-256 of its canonical bytes followed by
/// the salt.
pub fn commit_profile(profile_bytes: &[u8], salt: &[u8; 32]) -> (r: [u8; 32])
    ensures
        r@ == sha256_digest(profile_bytes@ + salt@),
{
    let mut data: Vec<u8> = Vec::new();
    extend_bytes(&mut data, profile_bytes);
    extend_bytes(&mut data, salt.as_slice());
    assert(data@ =~= profile_bytes@ + salt@);
    sha256(data.as_slice())
}

/// The lowercase hexadecimal digit of `d`.
pub open spec fn hex_digit(d: int) -> char {
    if d < 10 {
        crate::text::digit_char(d)
    } else if d == 10 {
        'a'
    } else if d == 11 {
        'b'
    } else if d == 12 {
        'c'
    } else if d == 13 {
        'd'
    } else if d == 14 {
        'e'
    } else {
        'f'
    }
}

/// Lowercase hexadecimal, two digits per byte.
pub open spec fn hex_text(bytes: Seq<u8>) -> Seq<char>
    decreases bytes.len(),
{
    if bytes.len() == 0 {
        Seq::empty()
    } else {
        hex_text(bytes.drop_last()) + seq![
            hex_digit((bytes.last() / 16) as int),
            hex_digit((bytes.last() % 16) as int),
        ]
    }
}

fn push_hex_digit(s: &mut String, d: u8)
    requires
        d < 16,
    ensures
        final(s)@ == old(s)@.push(hex_digit(d as int)),
{
    let piece: &str = match d {
        0 => "0",
        1 => "1",
        2 => "2",
        3 => "3",
        4 => "4",
        5 => "5",
        6 => "6",
        7 => "7",
        8 => "8",
        9 => "9",
        10 => "a",
        11 => "b",
        12 => "c",
        13 => "d",
        14 => "e",
        _ => "f",
    };
    proof {
        reveal_strlit("0");
        reveal_strlit("1");
        reveal_strlit("2");
        reveal_strlit("3");
        reveal_strlit("4");
        reveal_strlit("5");
        reveal_strlit("6");
        reveal_strlit("7");
        reveal_strlit("8");
        reveal_strlit("9");
        reveal_strlit("a");
        reveal_strlit("b");
        reveal_strlit("c");
        reveal_strlit("d");
        reveal_strlit("e");
        reveal_strlit("f");
        assert(piece@ =~= seq![hex_digit(d as int)]);
    }
    s.append(piece);
    assert(s@ =~= old(s)@.push(hex_digit(d as int)));
}

/// Lowercase hexadecimal of the bytes, two digits each.
pub fn hex(b: &[u8]) -> (r: String)
    ensures
        r@ == hex_text(b@),
{
    let mut s: String = String::new();
    for i in 0..b.len()
        invariant
            s@ == hex_text(b@.take(i as int)),
    {
        let byte: u8 = b[i];
        push_hex_digit(&mut s, byte / 16);
        push_hex_digit(&mut s, byte % 16);
        proof {
            assert(b@.take(i + 1).drop_last() =~= b@.take(i as int));
        }
        assert(s@ =~= hex_text(b@.take(i + 1)));
    }
    assert(b@.take(b@.len() as int) =~= b@);
    s
}

/// What a recomputation of an agent's prompt makes public: the profile
/// commitment, the digest of the history, and the digest of the prompt
/// (each over UTF-8 bytes), 32 bytes each in that order.
pub open spec fn journal(
    profile_bytes: Seq<u8>,
    salt: Seq<u8>,
    profile: Profile,
    rounds: Seq<RoundResult>,
    my_index: int,
) -> Seq<u8> {
    let history = history_text(rounds, my_index);
    sha256_digest(profile_bytes + salt) + sha256_digest(encode_utf8(history)) + sha256_digest(
        encode_utf8(profile_prompt(profile, history)),
    )
}

/// Recomputes the commitment to the profile (given by its canonical bytes),
/// the history the agent at `my_index` is shown and the prompt built from
/// them, and returns the public journal.
pub fn provenance_journal(
    profile_bytes: &[u8],
    salt: &[u8; 32],
    profile: &Profile,
    rounds: &[RoundResult],
    my_index: usize,
) -> (r: Vec<u8>)
    requires
        forall|k: int|
            0 <= k < rounds@.len() ==> history_renderable(#[trigger] rounds@[k], my_index as int),
    ensures
        r@ == journal(profile_bytes@, salt@, *profile, rounds@, my_index as int),
        r@.len() == 96,
        r@.subrange(0, 32) == sha256_digest(profile_bytes@ + salt@),
{
    let commitment: [u8; 32] = commit_profile(profile_bytes, salt);
    let history: String = format_history(rounds, my_index);
    let history_digest: [u8; 32] = sha256(history.as_str().as_bytes());
    let prompt: String = render_prompt(profile, history.as_str());
    let prompt_hash: [u8; 32] = sha256(prompt.as_str().as_bytes());
    let mut out: Vec<u8> = Vec::new();
    extend_bytes(&mut out, commitment.as_slice());
    extend_bytes(&mut out, history_digest.as_slice());
    extend_bytes(&mut out, prompt_hash.as_slice());
    assert(out@.subrange(0, 32) =~= commitment@);
    out
}

/// Two hexadecimal digits per byte.
pub proof fn lemma_hex_length(bytes: Seq<u8>)
    ensures
        hex_text(bytes).len() == 2 * bytes.len(),
    decreases bytes.len(),
{
    if bytes.len() > 0 {
        lemma_hex_length(bytes.drop_last());
    }
}

} // verus!
