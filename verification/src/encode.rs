//! The canonical intent encoding: the stable wire contract external signers
//! reproduce before signing.
//!
//! Every field is written in a fixed order, fixed-width integers big-endian
//! and variable-length byte strings behind a 4-byte big-endian length prefix,
//! so that two intents encode to the same bytes exactly when they are
//! field-wise equal.

use vstd::prelude::*;
use crate::intent::{ContractCallIntent, IntentView};

verus! {

/// Big-endian 4-byte layout of a 32-bit value.
pub open spec fn be32(n: u32) -> Seq<u8> {
    seq![(n >> 24) as u8, (n >> 16) as u8, (n >> 8) as u8, n as u8]
}

/// Big-endian 8-byte layout of a 64-bit value.
pub open spec fn be64(n: u64) -> Seq<u8> {
    seq![
        (n >> 56) as u8,
        (n >> 48) as u8,
        (n >> 40) as u8,
        (n >> 32) as u8,
        (n >> 24) as u8,
        (n >> 16) as u8,
        (n >> 8) as u8,
        n as u8,
    ]
}

/// A variable-length field: its length as 4 big-endian bytes, then its bytes.
pub open spec fn length_prefixed(b: Seq<u8>) -> Seq<u8> {
    be32(b.len() as u32) + b
}

/// The argument block: each argument length-prefixed, in order.
pub open spec fn encoded_args(args: Seq<Seq<u8>>) -> Seq<u8>
    decreases args.len(),
{
    if args.len() == 0 {
        Seq::empty()
    } else {
        length_prefixed(args[0]) + encoded_args(args.drop_first())
    }
}

/// The canonical byte layout of an intent: version, target address, function
/// selector, argument count and arguments, signer, nonce (fixed 32 bytes),
/// issued-at, expires-at.
pub open spec fn encoded_intent(iv: IntentView) -> Seq<u8> {
    be32(iv.v) + (length_prefixed(iv.contract_id) + (length_prefixed(iv.fn_name) + (be32(
        iv.args.len() as u32,
    ) + (encoded_args(iv.args) + (length_prefixed(iv.signer) + (iv.nonce + (be64(iv.iat) + be64(
        iv.exp,
    ))))))))
}

fn push_be32(out: &mut Vec<u8>, n: u32)
    ensures
        final(out)@ == old(out)@ + be32(n),
{
    out.push((n >> 24) as u8);
    out.push((n >> 16) as u8);
    out.push((n >> 8) as u8);
    out.push(n as u8);
    proof {
        assert(out@ =~= old(out)@ + be32(n));
    }
}

fn push_be64(out: &mut Vec<u8>, n: u64)
    ensures
        final(out)@ == old(out)@ + be64(n),
{
    out.push((n >> 56) as u8);
    out.push((n >> 48) as u8);
    out.push((n >> 40) as u8);
    out.push((n >> 32) as u8);
    out.push((n >> 24) as u8);
    out.push((n >> 16) as u8);
    out.push((n >> 8) as u8);
    out.push(n as u8);
    proof {
        assert(out@ =~= old(out)@ + be64(n));
    }
}

fn push_bytes(out: &mut Vec<u8>, b: &Vec<u8>)
    ensures
        final(out)@ == old(out)@ + b@,
{
    let mut j: usize = 0;
    while j < b.len()
        invariant
            j <= b@.len(),
            out@ == old(out)@ + b@.subrange(0, j as int),
        decreases b@.len() - j,
    {
        out.push(b[j]);
        proof {
            assert(out@ =~= old(out)@ + b@.subrange(0, j + 1));
        }
        j = j + 1;
    }
    proof {
        assert(b@.subrange(0, b@.len() as int) =~= b@);
    }
}

fn push_length_prefixed(out: &mut Vec<u8>, b: &Vec<u8>)
    requires
        b@.len() <= u32::MAX,
    ensures
        final(out)@ == old(out)@ + length_prefixed(b@),
{
    push_be32(out, b.len() as u32);
    push_bytes(out, b);
    proof {
        assert(out@ =~= old(out)@ + length_prefixed(b@));
    }
}

/// Appending one argument extends the argument block by that argument's
/// length-prefixed bytes.
proof fn lemma_encoded_args_snoc(args: Seq<Seq<u8>>, x: Seq<u8>)
    ensures
        encoded_args(args.push(x)) == encoded_args(args) + length_prefixed(x),
    decreases args.len(),
{
    if args.len() == 0 {
        assert(args.push(x)[0] == x);
        assert(args.push(x).drop_first() =~= args);
        assert(encoded_args(args) =~= Seq::<u8>::empty());
        assert(encoded_args(args.push(x)) == length_prefixed(x) + encoded_args(args));
        assert(encoded_args(args.push(x)) =~= encoded_args(args) + length_prefixed(x));
    } else {
        assert(args.push(x).drop_first() =~= args.drop_first().push(x));
        assert(args.push(x)[0] == args[0]);
        lemma_encoded_args_snoc(args.drop_first(), x);
        assert(encoded_args(args.push(x)) =~= encoded_args(args) + length_prefixed(x));
    }
}

/// Deterministically serialize an intent into its canonical byte encoding.
pub fn encode_intent(intent: &ContractCallIntent) -> (r: Vec<u8>)
    requires
        intent@.wf(),
    ensures
        r@ == encoded_intent(intent@),
{
    let mut out: Vec<u8> = Vec::new();
    push_be32(&mut out, intent.v);
    push_length_prefixed(&mut out, &intent.contract_id);
    push_length_prefixed(&mut out, &intent.fn_name);
    push_be32(&mut out, intent.args.len() as u32);
    let ghost header: Seq<u8> = out@;
    let mut k: usize = 0;
    while k < intent.args.len()
        invariant
            k <= intent.args@.len(),
            intent@.wf(),
            intent@.args == intent.args@.map_values(|a: Vec<u8>| a@),
            out@ == header + encoded_args(intent@.args.subrange(0, k as int)),
        decreases intent.args@.len() - k,
    {
        proof {
            assert(intent@.args[k as int] == intent.args@[k as int]@);
            assert(intent@.args[k as int].len() <= u32::MAX);
            assert(intent@.args.subrange(0, k + 1) =~= intent@.args.subrange(0, k as int).push(
                intent@.args[k as int],
            ));
            lemma_encoded_args_snoc(intent@.args.subrange(0, k as int), intent@.args[k as int]);
        }
        push_length_prefixed(&mut out, &intent.args[k]);
        proof {
            assert(out@ =~= header + encoded_args(intent@.args.subrange(0, k + 1)));
        }
        k = k + 1;
    }
    proof {
        assert(intent@.args.subrange(0, intent@.args.len() as int) =~= intent@.args);
    }
    push_length_prefixed(&mut out, &intent.signer);
    push_bytes(&mut out, &intent.nonce);
    push_be64(&mut out, intent.iat);
    push_be64(&mut out, intent.exp);
    proof {
        assert(out@ =~= encoded_intent(intent@));
    }
    out
}

proof fn lemma_be32_injective(x: u32, y: u32)
    requires
        be32(x) == be32(y),
    ensures
        x == y,
{
    assert((x >> 24) as u8 == (y >> 24) as u8) by {
        assert(be32(x)[0] == be32(y)[0]);
    }
    assert((x >> 16) as u8 == (y >> 16) as u8) by {
        assert(be32(x)[1] == be32(y)[1]);
    }
    assert((x >> 8) as u8 == (y >> 8) as u8) by {
        assert(be32(x)[2] == be32(y)[2]);
    }
    assert(x as u8 == y as u8) by {
        assert(be32(x)[3] == be32(y)[3]);
    }
    assert(x == y) by (bit_vector)
        requires
            (x >> 24) as u8 == (y >> 24) as u8,
            (x >> 16) as u8 == (y >> 16) as u8,
            (x >> 8) as u8 == (y >> 8) as u8,
            x as u8 == y as u8,
    ;
}

proof fn lemma_be64_injective(x: u64, y: u64)
    requires
        be64(x) == be64(y),
    ensures
        x == y,
{
    assert((x >> 56) as u8 == (y >> 56) as u8) by {
        assert(be64(x)[0] == be64(y)[0]);
    }
    assert((x >> 48) as u8 == (y >> 48) as u8) by {
        assert(be64(x)[1] == be64(y)[1]);
    }
    assert((x >> 40) as u8 == (y >> 40) as u8) by {
        assert(be64(x)[2] == be64(y)[2]);
    }
    assert((x >> 32) as u8 == (y >> 32) as u8) by {
        assert(be64(x)[3] == be64(y)[3]);
    }
    assert((x >> 24) as u8 == (y >> 24) as u8) by {
        assert(be64(x)[4] == be64(y)[4]);
    }
    assert((x >> 16) as u8 == (y >> 16) as u8) by {
        assert(be64(x)[5] == be64(y)[5]);
    }
    assert((x >> 8) as u8 == (y >> 8) as u8) by {
        assert(be64(x)[6] == be64(y)[6]);
    }
    assert(x as u8 == y as u8) by {
        assert(be64(x)[7] == be64(y)[7]);
    }
    assert(x == y) by (bit_vector)
        requires
            (x >> 56) as u8 == (y >> 56) as u8,
            (x >> 48) as u8 == (y >> 48) as u8,
            (x >> 40) as u8 == (y >> 40) as u8,
            (x >> 32) as u8 == (y >> 32) as u8,
            (x >> 24) as u8 == (y >> 24) as u8,
            (x >> 16) as u8 == (y >> 16) as u8,
            (x >> 8) as u8 == (y >> 8) as u8,
            x as u8 == y as u8,
    ;
}

/// Two concatenations with equally long left parts are equal exactly part by
/// part.
proof fn lemma_concat_peel(s1: Seq<u8>, t1: Seq<u8>, s2: Seq<u8>, t2: Seq<u8>)
    requires
        s1.len() == s2.len(),
        s1 + t1 == s2 + t2,
    ensures
        s1 == s2,
        t1 == t2,
{
    assert((s1 + t1).len() == s1.len() + t1.len());
    assert((s2 + t2).len() == s2.len() + t2.len());
    assert(t1.len() == t2.len());
    assert(s1 =~= s2) by {
        assert forall|i: int| 0 <= i < s1.len() implies s1[i] == s2[i] by {
            assert((s1 + t1)[i] == s1[i]);
            assert((s2 + t2)[i] == s2[i]);
        }
    }
    assert(t1 =~= t2) by {
        assert forall|i: int| 0 <= i < t1.len() implies t1[i] == t2[i] by {
            assert((s1 + t1)[s1.len() + i] == t1[i]);
            assert((s2 + t2)[s2.len() + i] == t2[i]);
        }
    }
}

/// A length prefix makes a variable-length field unambiguous: equal streams
/// that both start with a length-prefixed field carry the same field and the
/// same remainder.
proof fn lemma_length_prefixed_peel(b1: Seq<u8>, t1: Seq<u8>, b2: Seq<u8>, t2: Seq<u8>)
    requires
        b1.len() <= u32::MAX,
        b2.len() <= u32::MAX,
        length_prefixed(b1) + t1 == length_prefixed(b2) + t2,
    ensures
        b1 == b2,
        t1 == t2,
{
    assert((be32(b1.len() as u32) + b1) + t1 =~= be32(b1.len() as u32) + (b1 + t1));
    assert((be32(b2.len() as u32) + b2) + t2 =~= be32(b2.len() as u32) + (b2 + t2));
    lemma_concat_peel(be32(b1.len() as u32), b1 + t1, be32(b2.len() as u32), b2 + t2);
    lemma_be32_injective(b1.len() as u32, b2.len() as u32);
    assert(b1.len() == b2.len());
    lemma_concat_peel(b1, t1, b2, t2);
}

/// The argument block parses back unambiguously: equal streams carrying the
/// same number of length-prefixed arguments carry the same arguments and the
/// same remainder.
proof fn lemma_encoded_args_peel(a1: Seq<Seq<u8>>, t1: Seq<u8>, a2: Seq<Seq<u8>>, t2: Seq<u8>)
    requires
        a1.len() == a2.len(),
        forall|k: int| 0 <= k < a1.len() ==> #[trigger] a1[k].len() <= u32::MAX,
        forall|k: int| 0 <= k < a2.len() ==> #[trigger] a2[k].len() <= u32::MAX,
        encoded_args(a1) + t1 == encoded_args(a2) + t2,
    ensures
        a1 == a2,
        t1 == t2,
    decreases a1.len(),
{
    if a1.len() == 0 {
        assert(encoded_args(a1) =~= Seq::<u8>::empty());
        assert(encoded_args(a2) =~= Seq::<u8>::empty());
        lemma_concat_peel(encoded_args(a1), t1, encoded_args(a2), t2);
        assert(a1 =~= a2);
    } else {
        let r1 = encoded_args(a1.drop_first());
        let r2 = encoded_args(a2.drop_first());
        assert((length_prefixed(a1[0]) + r1) + t1 =~= length_prefixed(a1[0]) + (r1 + t1));
        assert((length_prefixed(a2[0]) + r2) + t2 =~= length_prefixed(a2[0]) + (r2 + t2));
        lemma_length_prefixed_peel(a1[0], r1 + t1, a2[0], r2 + t2);
        assert(forall|k: int|
            0 <= k < a1.drop_first().len() ==> #[trigger] a1.drop_first()[k].len() <= u32::MAX);
        assert(forall|k: int|
            0 <= k < a2.drop_first().len() ==> #[trigger] a2.drop_first()[k].len() <= u32::MAX);
        lemma_encoded_args_peel(a1.drop_first(), t1, a2.drop_first(), t2);
        assert forall|k: int| 0 <= k < a1.len() implies a1[k] == a2[k] by {
            if k > 0 {
                assert(a1.drop_first()[k - 1] == a1[k]);
                assert(a2.drop_first()[k - 1] == a2[k]);
            }
        }
        assert(a1 =~= a2);
    }
}

/// Structural collision-freedom of the canonical encoding: two well-formed
/// intents with the same encoding are field-wise equal.
pub proof fn lemma_encoded_intent_injective(a: IntentView, b: IntentView)
    requires
        a.wf(),
        b.wf(),
        encoded_intent(a) == encoded_intent(b),
    ensures
        a == b,
{
    let ra1 = length_prefixed(a.contract_id) + (length_prefixed(a.fn_name) + (be32(
        a.args.len() as u32,
    ) + (encoded_args(a.args) + (length_prefixed(a.signer) + (a.nonce + (be64(a.iat) + be64(
        a.exp,
    )))))));
    let rb1 = length_prefixed(b.contract_id) + (length_prefixed(b.fn_name) + (be32(
        b.args.len() as u32,
    ) + (encoded_args(b.args) + (length_prefixed(b.signer) + (b.nonce + (be64(b.iat) + be64(
        b.exp,
    )))))));
    lemma_concat_peel(be32(a.v), ra1, be32(b.v), rb1);
    lemma_be32_injective(a.v, b.v);

    let ra2 = length_prefixed(a.fn_name) + (be32(a.args.len() as u32) + (encoded_args(a.args) + (
    length_prefixed(a.signer) + (a.nonce + (be64(a.iat) + be64(a.exp))))));
    let rb2 = length_prefixed(b.fn_name) + (be32(b.args.len() as u32) + (encoded_args(b.args) + (
    length_prefixed(b.signer) + (b.nonce + (be64(b.iat) + be64(b.exp))))));
    lemma_length_prefixed_peel(a.contract_id, ra2, b.contract_id, rb2);

    let ra3 = be32(a.args.len() as u32) + (encoded_args(a.args) + (length_prefixed(a.signer) + (
    a.nonce + (be64(a.iat) + be64(a.exp)))));
    let rb3 = be32(b.args.len() as u32) + (encoded_args(b.args) + (length_prefixed(b.signer) + (
    b.nonce + (be64(b.iat) + be64(b.exp)))));
    lemma_length_prefixed_peel(a.fn_name, ra3, b.fn_name, rb3);

    let ra4 = encoded_args(a.args) + (length_prefixed(a.signer) + (a.nonce + (be64(a.iat) + be64(
        a.exp,
    ))));
    let rb4 = encoded_args(b.args) + (length_prefixed(b.signer) + (b.nonce + (be64(b.iat) + be64(
        b.exp,
    ))));
    lemma_concat_peel(be32(a.args.len() as u32), ra4, be32(b.args.len() as u32), rb4);
    lemma_be32_injective(a.args.len() as u32, b.args.len() as u32);
    assert(a.args.len() == b.args.len());

    let ra5 = length_prefixed(a.signer) + (a.nonce + (be64(a.iat) + be64(a.exp)));
    let rb5 = length_prefixed(b.signer) + (b.nonce + (be64(b.iat) + be64(b.exp)));
    lemma_encoded_args_peel(a.args, ra5, b.args, rb5);

    let ra6 = a.nonce + (be64(a.iat) + be64(a.exp));
    let rb6 = b.nonce + (be64(b.iat) + be64(b.exp));
    lemma_length_prefixed_peel(a.signer, ra6, b.signer, rb6);

    let ra7 = be64(a.iat) + be64(a.exp);
    let rb7 = be64(b.iat) + be64(b.exp);
    lemma_concat_peel(a.nonce, ra7, b.nonce, rb7);

    lemma_concat_peel(be64(a.iat), be64(a.exp), be64(b.iat), be64(b.exp));
    lemma_be64_injective(a.iat, b.iat);
    lemma_be64_injective(a.exp, b.exp);

    assert(a =~= b);
}

/// Determinism and faithfulness of the canonical encoding: the encoding is a
/// function of the intent's fields alone, and two well-formed intents encode
/// to the same bytes exactly when they are field-wise equal.
pub proof fn lemma_encoding_faithful(a: IntentView, b: IntentView)
    requires
        a.wf(),
        b.wf(),
    ensures
        encoded_intent(a) == encoded_intent(b) <==> a == b,
{
    if encoded_intent(a) == encoded_intent(b) {
        lemma_encoded_intent_injective(a, b);
    }
}

} // verus!
