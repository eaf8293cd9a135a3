use vstd::prelude::*;

use crate::codec::{decode, encode, spec_encode, CertificationExtraMetadata};
use crate::errors::CertError;
use crate::identity::Identity;
use crate::ledger::{
    opt_bytes_view, Token, TokenLedger, TokenMetadata, TokenMetadataView, TokenView,
};

verus! {

/// What the execution environment reports about the current call: who
/// invoked it, and how much deposit rides with the call as proof of
/// deliberate intent.
pub struct CallContext {
    pub predecessor_id: Identity,
    pub attached_deposit: u128,
}

/// The account-level figures the environment reports at the moment of a
/// call: the contract's balance, how many bytes it keeps in storage, and the
/// price of one stored byte.
pub struct AccountStats {
    pub account_balance: u128,
    pub storage_usage: u64,
    pub storage_byte_cost: u128,
}

/// What the contract's persisted data costs: funds pledged as collateral,
/// which must never leave the account.
pub open spec fn spec_storage_cost(stats: AccountStats) -> int {
    (stats.storage_byte_cost as int) * (stats.storage_usage as int)
}

/// Contract-level descriptive metadata: a name, a symbol, an optional icon.
/// It has no bearing on the certification rules.
#[derive(Debug)]
pub struct ContractMetadata {
    pub name: Vec<u8>,
    pub symbol: Vec<u8>,
    pub icon: Option<Vec<u8>>,
}

/// An instruction to move funds, handed back to the environment to dispatch.
/// Issuing it is the last step of a successful withdrawal; nothing in the
/// contract state depends on its outcome.
#[derive(Debug)]
pub struct Transfer {
    pub receiver_id: Identity,
    pub amount: u128,
}

/// A domain event, handed back to the environment to append to the event
/// sink. The registry only reports events; it never reads them back.
#[derive(Debug)]
pub enum CertEvent {
    Mint { token_id: Vec<u8>, recipient_id: Identity },
    Invalidate { token_id: Vec<u8>, recipient_id: Identity, memo: Option<Vec<u8>> },
}

/// The certification registry: a token ledger plus the policy flags and
/// owner-only configuration that govern it.
#[derive(Debug)]
pub struct CertificationContract {
    pub tokens: TokenLedger,
    pub metadata: Option<ContractMetadata>,
    pub can_transfer: bool,
    pub can_invalidate: bool,
    pub trash_account: Option<Identity>,
}

/// The stored shape of a deployment from before the trash-account override
/// existed.
pub struct ContractStateV1 {
    pub tokens: TokenLedger,
    pub metadata: Option<ContractMetadata>,
    pub can_transfer: bool,
    pub can_invalidate: bool,
}

/// What may lie in persistent storage when an upgrade runs: the previous
/// shape, or state already in the current shape.
pub enum PersistedState {
    V1(ContractStateV1),
    Current(CertificationContract),
}

/// The exact-deposit check: a call counts as deliberately confirmed when it
/// attaches exactly one indivisible unit of value.
pub fn assert_one_yocto(ctx: &CallContext) -> (r: Result<(), CertError>)
    ensures
        r is Ok <==> ctx.attached_deposit == 1,
        r is Err ==> r == Err::<(), CertError>(CertError::PaymentMismatch),
{
    if ctx.attached_deposit == 1 {
        Ok(())
    } else {
        Err(CertError::PaymentMismatch)
    }
}

impl CertificationContract {
    /// Internal consistency of the whole contract state.
    pub open spec fn wf(self) -> bool {
        self.tokens.wf()
    }

    /// Whether `caller` is the contract owner.
    pub open spec fn spec_is_owner(self, caller: Seq<u8>) -> bool {
        caller == self.tokens.spec_owner()
    }

    /// The certification payload of a token, decoded: `None` when the token
    /// does not exist, carries no payload, or carries one that does not parse.
    pub open spec fn spec_payload(self, token_id: Seq<u8>) -> Option<(bool, Seq<u8>)> {
        if self.tokens.contents().contains_key(token_id) {
            match self.tokens.contents()[token_id].metadata.extra {
                Some(e) => crate::codec::spec_decode(e),
                None => None,
            }
        } else {
            None
        }
    }

    /// The validity flag of a token's payload, when there is one.
    pub open spec fn spec_cert_valid(self, token_id: Seq<u8>) -> Option<bool> {
        match self.spec_payload(token_id) {
            Some(p) => Some(p.0),
            None => None,
        }
    }

    /// A fresh deployment: an empty ledger owned by `owner_id`, the given
    /// policy flags fixed, and no trash-account override.
    pub fn new(
        owner_id: Identity,
        metadata: Option<ContractMetadata>,
        can_transfer: bool,
        can_invalidate: bool,
    ) -> (r: CertificationContract)
        ensures
            r.wf(),
            r.tokens.spec_owner() == owner_id@,
            r.tokens.contents() == Map::<Seq<u8>, TokenView>::empty(),
            r.metadata == metadata,
            r.can_transfer == can_transfer,
            r.can_invalidate == can_invalidate,
            r.trash_account is None,
    {
        CertificationContract {
            tokens: TokenLedger::new(owner_id),
            metadata,
            can_transfer,
            can_invalidate,
            trash_account: None,
        }
    }

    /// The identity permitted to perform all privileged operations.
    pub fn owner_id(&self) -> (r: Identity)
        ensures
            r@ == self.tokens.spec_owner(),
    {
        self.tokens.owner().duplicate()
    }

    /// Refuses the call unless it comes from the contract owner.
    pub fn assert_owner(&self, ctx: &CallContext) -> (r: Result<(), CertError>)
        ensures
            r is Ok <==> self.spec_is_owner(ctx.predecessor_id@),
            r is Err ==> r == Err::<(), CertError>(CertError::Unauthorized),
    {
        if ctx.predecessor_id == *self.tokens.owner() {
            Ok(())
        } else {
            Err(CertError::Unauthorized)
        }
    }

    /// Refuses the call unless the transfer policy flag is on.
    pub fn assert_can_transfer(&self) -> (r: Result<(), CertError>)
        ensures
            r is Ok <==> self.can_transfer,
            r is Err ==> r == Err::<(), CertError>(CertError::FeatureDisabled),
    {
        if self.can_transfer {
            Ok(())
        } else {
            Err(CertError::FeatureDisabled)
        }
    }

    /// Refuses the call unless the invalidation policy flag is on.
    pub fn assert_can_invalidate(&self) -> (r: Result<(), CertError>)
        ensures
            r is Ok <==> self.can_invalidate,
            r is Err ==> r == Err::<(), CertError>(CertError::FeatureDisabled),
    {
        if self.can_invalidate {
            Ok(())
        } else {
            Err(CertError::FeatureDisabled)
        }
    }

    /// Whether certification tokens may change hands after mint.
    pub fn cert_can_transfer(&self) -> (r: bool)
        ensures
            r == self.can_transfer,
    {
        self.can_transfer
    }

    /// Whether certifications may be invalidated at all.
    pub fn cert_can_invalidate(&self) -> (r: bool)
        ensures
            r == self.can_invalidate,
    {
        self.can_invalidate
    }

    /// Owner-only, confirmed: replaces the contract-level metadata.
    pub fn set_metadata(&mut self, ctx: &CallContext, metadata: ContractMetadata) -> (r: Result<
        (),
        CertError,
    >)
        ensures
            r == Err::<(), CertError>(CertError::Unauthorized) <==> !old(self).spec_is_owner(
                ctx.predecessor_id@,
            ),
            r == Err::<(), CertError>(CertError::PaymentMismatch) <==> old(self).spec_is_owner(
                ctx.predecessor_id@,
            ) && ctx.attached_deposit != 1,
            r is Ok <==> old(self).spec_is_owner(ctx.predecessor_id@) && ctx.attached_deposit
                == 1,
            r is Err ==> *final(self) == *old(self),
            r is Ok ==> *final(self) == (CertificationContract {
                metadata: Some(metadata),
                ..*old(self)
            }),
    {
        match self.assert_owner(ctx) {
            Ok(()) => {},
            Err(e) => {
                return Err(e);
            },
        }
        match assert_one_yocto(ctx) {
            Ok(()) => {},
            Err(e) => {
                return Err(e);
            },
        }
        self.metadata = Some(metadata);
        Ok(())
    }

    /// The funds not pledged as collateral for the contract's stored data:
    /// the balance less the cost of every stored byte. The accounting
    /// invariant — pledged funds never exceed the balance — is a
    /// precondition; a deployment that broke it would have failed earlier.
    pub fn get_max_withdrawal(&self, stats: &AccountStats) -> (r: u128)
        requires
            spec_storage_cost(*stats) <= stats.account_balance,
        ensures
            r == stats.account_balance - spec_storage_cost(*stats),
    {
        stats.account_balance - stats.storage_byte_cost * (stats.storage_usage as u128)
    }

    /// Owner-only, confirmed: asks the environment to send `amount` to the
    /// owner. Refused as `InsufficientBalance` whenever `amount` exceeds the
    /// storage margin; otherwise the returned instruction moves exactly
    /// `amount`. Nothing in the stored state changes either way.
    pub fn withdraw(&mut self, ctx: &CallContext, stats: &AccountStats, amount: u128) -> (r:
        Result<Transfer, CertError>)
        requires
            spec_storage_cost(*stats) <= stats.account_balance,
        ensures
            *final(self) == *old(self),
            r == Err::<Transfer, CertError>(CertError::Unauthorized) <==> !old(self).spec_is_owner(ctx.predecessor_id@),
            r == Err::<Transfer, CertError>(CertError::PaymentMismatch) <==> old(self).spec_is_owner(ctx.predecessor_id@) && ctx.attached_deposit != 1,
            r == Err::<Transfer, CertError>(CertError::InsufficientBalance) <==> old(self).spec_is_owner(ctx.predecessor_id@) && ctx.attached_deposit == 1 && amount
                > stats.account_balance - spec_storage_cost(*stats),
            r is Ok <==> old(self).spec_is_owner(ctx.predecessor_id@) && ctx.attached_deposit == 1
                && amount <= stats.account_balance - spec_storage_cost(*stats),
            r matches Ok(t) ==> t.receiver_id@ == old(self).tokens.spec_owner() && t.amount
                == amount,
    {
        match self.assert_owner(ctx) {
            Ok(()) => {},
            Err(e) => {
                return Err(e);
            },
        }
        match assert_one_yocto(ctx) {
            Ok(()) => {},
            Err(e) => {
                return Err(e);
            },
        }
        let max = self.get_max_withdrawal(stats);
        if amount > max {
            return Err(CertError::InsufficientBalance);
        }
        Ok(Transfer { receiver_id: self.owner_id(), amount })
    }

    /// Owner-only, confirmed: withdraws the whole storage margin, computed
    /// at the moment of the call, never from a stale snapshot.
    pub fn withdraw_max(&mut self, ctx: &CallContext, stats: &AccountStats) -> (r: Result<
        Transfer,
        CertError,
    >)
        requires
            spec_storage_cost(*stats) <= stats.account_balance,
        ensures
            *final(self) == *old(self),
            r == Err::<Transfer, CertError>(CertError::Unauthorized) <==> !old(self).spec_is_owner(ctx.predecessor_id@),
            r == Err::<Transfer, CertError>(CertError::PaymentMismatch) <==> old(self).spec_is_owner(ctx.predecessor_id@) && ctx.attached_deposit != 1,
            r is Ok <==> old(self).spec_is_owner(ctx.predecessor_id@) && ctx.attached_deposit
                == 1,
            r matches Ok(t) ==> t.receiver_id@ == old(self).tokens.spec_owner() && t.amount
                == stats.account_balance - spec_storage_cost(*stats),
    {
        let max = self.get_max_withdrawal(stats);
        self.withdraw(ctx, stats, max)
    }

    /// The destination convention for retired tokens, if one is set.
    pub fn get_trash_account(&self) -> (r: Option<Identity>)
        ensures
            r is Some <==> self.trash_account is Some,
            r matches Some(t) ==> self.trash_account matches Some(c) && t@ == c@,
    {
        match &self.trash_account {
            Some(t) => Some(t.duplicate()),
            None => None,
        }
    }

    /// Owner-only, confirmed: sets the trash-account override, or clears it
    /// when no value is passed.
    pub fn set_trash_account(&mut self, ctx: &CallContext, trash_account: Option<Identity>) -> (r:
        Result<(), CertError>)
        ensures
            r == Err::<(), CertError>(CertError::Unauthorized) <==> !old(self).spec_is_owner(
                ctx.predecessor_id@,
            ),
            r == Err::<(), CertError>(CertError::PaymentMismatch) <==> old(self).spec_is_owner(
                ctx.predecessor_id@,
            ) && ctx.attached_deposit != 1,
            r is Ok <==> old(self).spec_is_owner(ctx.predecessor_id@) && ctx.attached_deposit
                == 1,
            r is Err ==> *final(self) == *old(self),
            r is Ok ==> *final(self) == (CertificationContract {
                trash_account,
                ..*old(self)
            }),
    {
        match self.assert_owner(ctx) {
            Ok(()) => {},
            Err(e) => {
                return Err(e);
            },
        }
        match assert_one_yocto(ctx) {
            Ok(()) => {},
            Err(e) => {
                return Err(e);
            },
        }
        self.trash_account = trash_account;
        Ok(())
    }

    /// The one-shot schema upgrade: re-shapes state stored under the
    /// previous layout into the current one, setting the trash account to
    /// the supplied value (or to none). State already in the current shape
    /// is refused outright rather than silently re-written.
    pub fn migrate(stored: PersistedState, trash_account: Option<Identity>) -> (r: Result<
        CertificationContract,
        CertError,
    >)
        ensures
            stored matches PersistedState::V1(prev) ==> r matches Ok(c) && c
                == (CertificationContract {
                tokens: prev.tokens,
                metadata: prev.metadata,
                can_transfer: prev.can_transfer,
                can_invalidate: prev.can_invalidate,
                trash_account: trash_account,
            }),
            stored is Current ==> r == Err::<CertificationContract, CertError>(
                CertError::SchemaError,
            ),
    {
        match stored {
            PersistedState::V1(prev) => Ok(
                CertificationContract {
                    tokens: prev.tokens,
                    metadata: prev.metadata,
                    can_transfer: prev.can_transfer,
                    can_invalidate: prev.can_invalidate,
                    trash_account,
                },
            ),
            PersistedState::Current(_) => Err(CertError::SchemaError),
        }
    }

    /// Owner-only: mints a certification token to `receiver_id`. The payload
    /// starts valid and names the receiver as the original recipient for
    /// good. The ledger refuses an identifier that is already taken.
    pub fn mint(
        &mut self,
        ctx: &CallContext,
        token_id: Vec<u8>,
        receiver_id: Identity,
        title: Option<Vec<u8>>,
    ) -> (r: Result<CertEvent, CertError>)
        requires
            old(self).wf(),
        ensures
            final(self).wf(),
            r == Err::<CertEvent, CertError>(CertError::Unauthorized) <==> !old(self).spec_is_owner(ctx.predecessor_id@),
            r == Err::<CertEvent, CertError>(CertError::TokenIdTaken) <==> old(self).spec_is_owner(
                ctx.predecessor_id@,
            ) && old(self).tokens.contents().contains_key(token_id@),
            r is Ok <==> old(self).spec_is_owner(ctx.predecessor_id@) && !old(self).tokens.contents().contains_key(token_id@),
            r is Err ==> *final(self) == *old(self),
            r is Ok ==> final(self).tokens.contents() == old(self).tokens.contents().insert(
                token_id@,
                TokenView {
                    token_id: token_id@,
                    owner_id: receiver_id@,
                    metadata: TokenMetadataView {
                        title: opt_bytes_view(title),
                        extra: Some(spec_encode(true, receiver_id@)),
                    },
                },
            ),
            r is Ok ==> final(self).tokens.spec_owner() == old(self).tokens.spec_owner() && final(self).metadata == old(self).metadata && final(self).can_transfer == old(self).can_transfer
                && final(self).can_invalidate == old(self).can_invalidate && final(self).trash_account == old(self).trash_account,
            r matches Ok(ev) ==> ev matches CertEvent::Mint { token_id: t, recipient_id: rec }
                && t@ == token_id@ && rec@ == receiver_id@,
    {
        match self.assert_owner(ctx) {
            Ok(()) => {},
            Err(e) => {
                return Err(e);
            },
        }
        let payload = CertificationExtraMetadata {
            valid: true,
            original_recipient_id: receiver_id.duplicate(),
        };
        let extra = encode(&payload);
        let id_copy = token_id.clone();
        proof {
            assert(id_copy@ =~= token_id@);
        }
        let token = Token {
            token_id,
            owner_id: receiver_id.duplicate(),
            metadata: TokenMetadata { title, extra: Some(extra) },
        };
        match self.tokens.mint_token(token) {
            Ok(()) => Ok(CertEvent::Mint { token_id: id_copy, recipient_id: receiver_id }),
            Err(e) => Err(e),
        }
    }

    /// Whether the certification a token carries is still valid. A missing
    /// token is an ordinary lookup miss; a token whose payload is absent or
    /// unparseable is an integrity fault, reported apart.
    pub fn cert_is_valid(&self, token_id: &Vec<u8>) -> (r: Result<bool, CertError>)
        requires
            self.wf(),
        ensures
            r matches Ok(v) ==> self.spec_cert_valid(token_id@) == Some(v),
            r is Ok <==> self.spec_payload(token_id@) is Some,
            r == Err::<bool, CertError>(CertError::NotFound) <==> !self.tokens.contents(
            ).contains_key(token_id@),
            r == Err::<bool, CertError>(CertError::CodecError) <==> self.tokens.contents(
            ).contains_key(token_id@) && self.spec_payload(token_id@) is None,
    {
        match self.tokens.get_metadata(token_id) {
            Some(m) => match &m.extra {
                Some(e) => match decode(e) {
                    Ok(p) => Ok(p.valid),
                    Err(_) => Err(CertError::CodecError),
                },
                None => Err(CertError::CodecError),
            },
            None => Err(CertError::NotFound),
        }
    }

    /// Invalidation: the one-way trapdoor. Policy first, then identity, then
    /// confirmation, then existence — a caller must satisfy all four before
    /// anything about the token can be learned or changed. On success the
    /// payload is re-written with `valid` false and the original recipient
    /// untouched, every other stored byte of the token kept, and an
    /// `Invalidate` event naming the original recipient is handed back.
    pub fn cert_invalidate(
        &mut self,
        ctx: &CallContext,
        token_id: &Vec<u8>,
        memo: Option<Vec<u8>>,
    ) -> (r: Result<CertEvent, CertError>)
        requires
            old(self).wf(),
        ensures
            final(self).wf(),
            r == Err::<CertEvent, CertError>(CertError::FeatureDisabled) <==> !old(self).can_invalidate,
            r == Err::<CertEvent, CertError>(CertError::Unauthorized) <==> old(self).can_invalidate
                && !old(self).spec_is_owner(ctx.predecessor_id@),
            r == Err::<CertEvent, CertError>(CertError::PaymentMismatch) <==> old(self).can_invalidate && old(self).spec_is_owner(ctx.predecessor_id@)
                && ctx.attached_deposit != 1,
            r == Err::<CertEvent, CertError>(CertError::NotFound) <==> old(self).can_invalidate
                && old(self).spec_is_owner(ctx.predecessor_id@) && ctx.attached_deposit == 1
                && !old(self).tokens.contents().contains_key(token_id@),
            r == Err::<CertEvent, CertError>(CertError::CodecError) <==> old(self).can_invalidate
                && old(self).spec_is_owner(ctx.predecessor_id@) && ctx.attached_deposit == 1
                && old(self).tokens.contents().contains_key(token_id@) && old(self).spec_payload(
                token_id@,
            ) is None,
            r is Ok <==> old(self).can_invalidate && old(self).spec_is_owner(ctx.predecessor_id@)
                && ctx.attached_deposit == 1 && old(self).spec_payload(token_id@) is Some,
            r is Err ==> *final(self) == *old(self),
            r is Ok ==> final(self).tokens.contents() == old(self).tokens.contents().insert(
                token_id@,
                TokenView {
                    token_id: token_id@,
                    owner_id: old(self).tokens.contents()[token_id@].owner_id,
                    metadata: TokenMetadataView {
                        title: old(self).tokens.contents()[token_id@].metadata.title,
                        extra: Some(
                            spec_encode(false, old(self).spec_payload(token_id@).unwrap().1),
                        ),
                    },
                },
            ),
            r is Ok ==> final(self).tokens.spec_owner() == old(self).tokens.spec_owner() && final(self).metadata == old(self).metadata && final(self).can_transfer == old(self).can_transfer
                && final(self).can_invalidate == old(self).can_invalidate && final(self).trash_account == old(self).trash_account,
            r matches Ok(ev) ==> ev matches CertEvent::Invalidate {
                token_id: t,
                recipient_id: rec,
                memo: m,
            } && t@ == token_id@ && rec@ == old(self).spec_payload(token_id@).unwrap().1
                && opt_bytes_view(m) == opt_bytes_view(memo),
    {
        match self.assert_can_invalidate() {
            Ok(()) => {},
            Err(e) => {
                return Err(e);
            },
        }
        match self.assert_owner(ctx) {
            Ok(()) => {},
            Err(e) => {
                return Err(e);
            },
        }
        match assert_one_yocto(ctx) {
            Ok(()) => {},
            Err(e) => {
                return Err(e);
            },
        }
        let md = match self.tokens.get_metadata(token_id) {
            Some(m) => m,
            None => {
                return Err(CertError::NotFound);
            },
        };
        let title = md.title;
        let extra = match md.extra {
            Some(e) => e,
            None => {
                return Err(CertError::CodecError);
            },
        };
        let payload = match decode(&extra) {
            Ok(p) => p,
            Err(_) => {
                return Err(CertError::CodecError);
            },
        };
        let recipient_id = payload.original_recipient_id;
        let fresh = CertificationExtraMetadata {
            valid: false,
            original_recipient_id: recipient_id.duplicate(),
        };
        let new_extra = encode(&fresh);
        let res = self.tokens.update_metadata(token_id, TokenMetadata {
            title,
            extra: Some(new_extra),
        });
        match res {
            Ok(()) => {},
            Err(e) => {
                // The lookup above proved the token exists, so the update
                // cannot miss; Verus confirms this branch is dead.
                proof {
                    assert(false);
                }
                return Err(e);
            },
        }
        let id_copy = token_id.clone();
        proof {
            assert(id_copy@ =~= token_id@);
        }
        Ok(CertEvent::Invalidate { token_id: id_copy, recipient_id, memo })
    }

    /// An ownership transfer, gated by the global transfer policy: policy
    /// first, then confirmation, then existence, then the holder's identity.
    /// On success only the holder changes; the token's metadata — the
    /// certification payload included — stays byte for byte.
    pub fn nft_transfer(
        &mut self,
        ctx: &CallContext,
        token_id: &Vec<u8>,
        receiver_id: Identity,
    ) -> (r: Result<(), CertError>)
        requires
            old(self).wf(),
        ensures
            final(self).wf(),
            r == Err::<(), CertError>(CertError::FeatureDisabled) <==> !old(self).can_transfer,
            r == Err::<(), CertError>(CertError::PaymentMismatch) <==> old(self).can_transfer
                && ctx.attached_deposit != 1,
            r == Err::<(), CertError>(CertError::NotFound) <==> old(self).can_transfer
                && ctx.attached_deposit == 1 && !old(self).tokens.contents().contains_key(
                token_id@,
            ),
            r == Err::<(), CertError>(CertError::Unauthorized) <==> old(self).can_transfer
                && ctx.attached_deposit == 1 && old(self).tokens.contents().contains_key(token_id@)
                && ctx.predecessor_id@ != old(self).tokens.contents()[token_id@].owner_id,
            r is Ok <==> old(self).can_transfer && ctx.attached_deposit == 1 && old(self).tokens.contents().contains_key(token_id@) && ctx.predecessor_id@ == old(self).tokens.contents()[token_id@].owner_id,
            r is Err ==> *final(self) == *old(self),
            r is Ok ==> final(self).tokens.contents() == old(self).tokens.contents().insert(
                token_id@,
                TokenView {
                    token_id: token_id@,
                    owner_id: receiver_id@,
                    metadata: old(self).tokens.contents()[token_id@].metadata,
                },
            ),
            r is Ok ==> final(self).tokens.spec_owner() == old(self).tokens.spec_owner() && final(self).metadata == old(self).metadata && final(self).can_transfer == old(self).can_transfer
                && final(self).can_invalidate == old(self).can_invalidate && final(self).trash_account == old(self).trash_account,
    {
        match self.assert_can_transfer() {
            Ok(()) => {},
            Err(e) => {
                return Err(e);
            },
        }
        match assert_one_yocto(ctx) {
            Ok(()) => {},
            Err(e) => {
                return Err(e);
            },
        }
        let holder = match self.tokens.owner_of(token_id) {
            Some(o) => o,
            None => {
                return Err(CertError::NotFound);
            },
        };
        if !(ctx.predecessor_id == holder) {
            return Err(CertError::Unauthorized);
        }
        let res = self.tokens.transfer_token(token_id, receiver_id);
        match res {
            Ok(()) => Ok(()),
            Err(e) => {
                // The holder lookup above proved the token exists, so the
                // transfer cannot miss; Verus confirms this branch is dead.
                proof {
                    assert(false);
                }
                Err(e)
            },
        }
    }
}

} // verus!
