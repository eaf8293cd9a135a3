//! The registry's cross-operation guarantees, each stated and proved over
//! the same spec functions the operations' own contracts use. The effect an
//! operation's `ensures` pins on its post-state appears here as a
//! hypothesis, so every law composes directly with the operation it names.

use vstd::prelude::*;

use crate::codec::{lemma_decode_encode, lemma_encode_decode, spec_decode, spec_encode};
use crate::contract::CertificationContract;
use crate::ledger::{TokenMetadataView, TokenView};

verus! {

/// The shape `cert_invalidate` guarantees of its post-state on success: the
/// invalidated token re-written with `valid` false and its original
/// recipient kept, every other token untouched.
pub open spec fn invalidate_effect(
    pre: CertificationContract,
    post: CertificationContract,
    k: Seq<u8>,
) -> bool {
    &&& pre.spec_payload(k) is Some
    &&& post.tokens.contents() == pre.tokens.contents().insert(
        k,
        TokenView {
            token_id: k,
            owner_id: pre.tokens.contents()[k].owner_id,
            metadata: TokenMetadataView {
                title: pre.tokens.contents()[k].metadata.title,
                extra: Some(spec_encode(false, pre.spec_payload(k).unwrap().1)),
            },
        },
    )
}

/// The shape `nft_transfer` guarantees of its post-state on success: only
/// the holder of the transferred token changes; its metadata — the
/// certification payload included — stays.
pub open spec fn transfer_effect(
    pre: CertificationContract,
    post: CertificationContract,
    k: Seq<u8>,
    new_owner: Seq<u8>,
) -> bool {
    &&& pre.tokens.contents().contains_key(k)
    &&& post.tokens.contents() == pre.tokens.contents().insert(
        k,
        TokenView { token_id: k, owner_id: new_owner, metadata: pre.tokens.contents()[k].metadata },
    )
}

/// A successful invalidation leaves the token reading invalid.
pub proof fn lemma_invalidate_reads_invalid(
    pre: CertificationContract,
    post: CertificationContract,
    k: Seq<u8>,
)
    requires
        invalidate_effect(pre, post, k),
    ensures
        post.spec_cert_valid(k) == Some(false),
{
    let e = pre.tokens.contents()[k].metadata.extra.unwrap();
    let p = spec_decode(e).unwrap();
    lemma_encode_decode(e, p.0, p.1);
    lemma_decode_encode(false, p.1);
}

/// Invalidation is one-way: a token that reads invalid still reads invalid
/// after any further successful invalidation, of itself or of any other
/// token.
pub proof fn lemma_invalidate_preserves_invalidity(
    pre: CertificationContract,
    post: CertificationContract,
    k: Seq<u8>,
    t: Seq<u8>,
)
    requires
        invalidate_effect(pre, post, k),
        pre.spec_cert_valid(t) == Some(false),
    ensures
        post.spec_cert_valid(t) == Some(false),
{
    if t == k {
        lemma_invalidate_reads_invalid(pre, post, k);
    } else {
        assert(post.tokens.contents().contains_key(t) == pre.tokens.contents().contains_key(t));
    }
}

/// Invalidation never touches the original recipient: the payload still
/// names exactly whom the certification was issued to.
pub proof fn lemma_invalidate_preserves_recipient(
    pre: CertificationContract,
    post: CertificationContract,
    k: Seq<u8>,
)
    requires
        invalidate_effect(pre, post, k),
    ensures
        post.spec_payload(k) is Some,
        post.spec_payload(k).unwrap().1 == pre.spec_payload(k).unwrap().1,
{
    let e = pre.tokens.contents()[k].metadata.extra.unwrap();
    let p = spec_decode(e).unwrap();
    lemma_encode_decode(e, p.0, p.1);
    lemma_decode_encode(false, p.1);
}

/// A transfer leaves every payload alone: validity and original recipient of
/// every token — the transferred one included — read the same after it.
pub proof fn lemma_transfer_preserves_payload(
    pre: CertificationContract,
    post: CertificationContract,
    k: Seq<u8>,
    new_owner: Seq<u8>,
    t: Seq<u8>,
)
    requires
        transfer_effect(pre, post, k, new_owner),
    ensures
        post.spec_payload(t) == pre.spec_payload(t),
        post.spec_cert_valid(t) == pre.spec_cert_valid(t),
{
    if t != k {
        assert(post.tokens.contents().contains_key(t) == pre.tokens.contents().contains_key(t));
    }
}

/// A mint cannot resurrect or alter anything already minted: identifiers
/// are never reused, so an insertion under a fresh identifier leaves every
/// existing token's payload as it was.
pub proof fn lemma_mint_preserves_existing(
    pre: CertificationContract,
    post: CertificationContract,
    k: Seq<u8>,
    minted: TokenView,
    t: Seq<u8>,
)
    requires
        !pre.tokens.contents().contains_key(k),
        post.tokens.contents() == pre.tokens.contents().insert(k, minted),
        t != k,
    ensures
        post.spec_payload(t) == pre.spec_payload(t),
        post.spec_cert_valid(t) == pre.spec_cert_valid(t),
{
    assert(post.tokens.contents().contains_key(t) == pre.tokens.contents().contains_key(t));
}

/// An operation that leaves the ledger as it was — a configuration change, a
/// withdrawal, any refused call — leaves every payload reading as it did.
pub proof fn lemma_same_ledger_same_payload(
    pre: CertificationContract,
    post: CertificationContract,
    t: Seq<u8>,
)
    requires
        pre.tokens.contents() == post.tokens.contents(),
    ensures
        post.spec_payload(t) == pre.spec_payload(t),
        post.spec_cert_valid(t) == pre.spec_cert_valid(t),
{
}

} // verus!
