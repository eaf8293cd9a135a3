use vstd::prelude::*;

use crate::errors::CertError;
use crate::identity::Identity;

verus! {

/// An optional byte string, abstracted to its contents.
pub open spec fn opt_bytes_view(o: Option<Vec<u8>>) -> Option<Seq<u8>> {
    match o {
        Some(v) => Some(v@),
        None => None,
    }
}

/// The ledger-level metadata of one token. The registry owns only `extra`,
/// the encoded certification payload; `title` stands for the descriptive
/// fields the ledger keeps, which the registry must never disturb.
#[derive(Debug)]
pub struct TokenMetadata {
    pub title: Option<Vec<u8>>,
    pub extra: Option<Vec<u8>>,
}

/// The abstract value of a token's metadata.
pub struct TokenMetadataView {
    pub title: Option<Seq<u8>>,
    pub extra: Option<Seq<u8>>,
}

impl View for TokenMetadata {
    type V = TokenMetadataView;

    open spec fn view(&self) -> TokenMetadataView {
        TokenMetadataView { title: opt_bytes_view(self.title), extra: opt_bytes_view(self.extra) }
    }
}

impl TokenMetadata {
    /// A fresh metadata record with the same contents.
    pub fn duplicate(&self) -> (r: TokenMetadata)
        ensures
            r@ == self@,
    {
        let title = match &self.title {
            Some(t) => {
                let c = t.clone();
                proof {
                    assert(c@ =~= t@);
                }
                Some(c)
            },
            None => None,
        };
        let extra = match &self.extra {
            Some(e) => {
                let c = e.clone();
                proof {
                    assert(c@ =~= e@);
                }
                Some(c)
            },
            None => None,
        };
        TokenMetadata { title, extra }
    }
}

/// One minted token: its identifier, its current holder, and its metadata.
#[derive(Debug)]
pub struct Token {
    pub token_id: Vec<u8>,
    pub owner_id: Identity,
    pub metadata: TokenMetadata,
}

/// The abstract value of a token.
pub struct TokenView {
    pub token_id: Seq<u8>,
    pub owner_id: Seq<u8>,
    pub metadata: TokenMetadataView,
}

impl View for Token {
    type V = TokenView;

    open spec fn view(&self) -> TokenView {
        TokenView {
            token_id: self.token_id@,
            owner_id: self.owner_id@,
            metadata: self.metadata@,
        }
    }
}

/// No two tokens share an identifier.
pub open spec fn unique_ids(s: Seq<Token>) -> bool {
    forall|i: int, j: int|
        0 <= i < j < s.len() ==> (#[trigger] s[i].token_id@) != (#[trigger] s[j].token_id@)
}

/// The mapping a sequence of tokens represents: each identifier to the token
/// that carries it. A later entry wins, which never matters once identifiers
/// are unique.
pub open spec fn contents_of(s: Seq<Token>) -> Map<Seq<u8>, TokenView>
    decreases s.len(),
{
    if s.len() == 0 {
        Map::empty()
    } else {
        contents_of(s.drop_last()).insert(s.last().token_id@, s.last()@)
    }
}

proof fn lemma_contents_index(s: Seq<Token>, i: int)
    requires
        unique_ids(s),
        0 <= i < s.len(),
    ensures
        contents_of(s).contains_key(s[i].token_id@),
        contents_of(s)[s[i].token_id@] == s[i]@,
    decreases s.len(),
{
    if i == s.len() - 1 {
    } else {
        lemma_contents_index(s.drop_last(), i);
        assert(s.drop_last()[i] == s[i]);
        assert(s[i].token_id@ != s.last().token_id@);
    }
}

proof fn lemma_contents_absent(s: Seq<Token>, k: Seq<u8>)
    requires
        forall|i: int| 0 <= i < s.len() ==> (#[trigger] s[i].token_id@) != k,
    ensures
        !contents_of(s).contains_key(k),
    decreases s.len(),
{
    if s.len() > 0 {
        assert(forall|i: int|
            0 <= i < s.drop_last().len() ==> (#[trigger] s.drop_last()[i].token_id@) != k);
        lemma_contents_absent(s.drop_last(), k);
        assert(s[s.len() - 1].token_id@ != k);
    }
}

proof fn lemma_contents_update(s: Seq<Token>, i: int, t: Token)
    requires
        unique_ids(s),
        0 <= i < s.len(),
        t.token_id@ == s[i].token_id@,
    ensures
        unique_ids(s.update(i, t)),
        contents_of(s.update(i, t)) == contents_of(s).insert(t.token_id@, t@),
    decreases s.len(),
{
    let s2 = s.update(i, t);
    assert forall|a: int, b: int| 0 <= a < b < s2.len() implies (#[trigger] s2[a].token_id@)
        != (#[trigger] s2[b].token_id@) by {
        assert(s2[a].token_id@ == s[a].token_id@);
        assert(s2[b].token_id@ == s[b].token_id@);
    }
    if i == s.len() - 1 {
        assert(s2.drop_last() =~= s.drop_last());
        assert(contents_of(s2) =~= contents_of(s).insert(t.token_id@, t@));
    } else {
        assert(unique_ids(s.drop_last())) by {
            assert(forall|a: int, b: int|
                0 <= a < b < s.drop_last().len() ==> (#[trigger] s.drop_last()[a].token_id@)
                    != (#[trigger] s.drop_last()[b].token_id@));
        }
        assert(s.drop_last()[i] == s[i]);
        lemma_contents_update(s.drop_last(), i, t);
        assert(s2.drop_last() =~= s.drop_last().update(i, t));
        assert(s2.last() == s.last());
        assert(s.last().token_id@ != t.token_id@);
        assert(contents_of(s2) =~= contents_of(s).insert(t.token_id@, t@));
    }
}

/// The token ledger: identity and metadata bookkeeping for every minted
/// token, together with the account that owns the contract.
#[derive(Debug)]
pub struct TokenLedger {
    /// The account that administers the contract.
    pub owner_id: Identity,
    tokens: Vec<Token>,
}

impl TokenLedger {
    /// The mapping from token identifier to token that the ledger holds.
    pub closed spec fn contents(self) -> Map<Seq<u8>, TokenView> {
        contents_of(self.tokens@)
    }

    /// Internal consistency: no identifier is ever reused.
    pub closed spec fn wf(self) -> bool {
        unique_ids(self.tokens@)
    }

    /// The account that administers the contract.
    pub closed spec fn spec_owner(self) -> Seq<u8> {
        self.owner_id@
    }

    /// The account that administers the contract.
    pub fn owner(&self) -> (r: &Identity)
        ensures
            r@ == self.spec_owner(),
    {
        &self.owner_id
    }

    /// The tokens the ledger holds, for the persistence boundary to read out.
    pub fn export(&self) -> (r: &Vec<Token>)
        ensures
            contents_of(r@) == self.contents(),
            self.wf() ==> unique_ids(r@),
    {
        &self.tokens
    }

    /// An empty ledger owned by `owner_id`.
    pub fn new(owner_id: Identity) -> (r: TokenLedger)
        ensures
            r.wf(),
            r.spec_owner() == owner_id@,
            r.contents() == Map::<Seq<u8>, TokenView>::empty(),
    {
        TokenLedger { owner_id, tokens: Vec::new() }
    }

    fn find(&self, token_id: &Vec<u8>) -> (r: Option<usize>)
        ensures
            r matches Some(i) ==> i < self.tokens@.len()
                && self.tokens@[i as int].token_id@ == token_id@,
            r is None ==> forall|i: int|
                0 <= i < self.tokens@.len() ==> (#[trigger] self.tokens@[i].token_id@)
                    != token_id@,
    {
        let mut i: usize = 0;
        while i < self.tokens.len()
            invariant
                i <= self.tokens@.len(),
                forall|j: int|
                    0 <= j < i ==> (#[trigger] self.tokens@[j].token_id@) != token_id@,
            decreases self.tokens@.len() - i,
        {
            if &self.tokens[i].token_id == token_id {
                proof {
                    assert(self.tokens@[i as int].token_id@ =~= token_id@);
                }
                return Some(i);
            }
            proof {
                // Had the views been equal, the comparison above would have
                // answered true: so the identifier at `i` differs.
                if self.tokens@[i as int].token_id@ == token_id@ {
                    assert(self.tokens@[i as int].token_id@.len() == token_id@.len());
                }
            }
            i += 1;
        }
        None
    }

    /// Whether a token with this identifier exists.
    pub fn contains(&self, token_id: &Vec<u8>) -> (r: bool)
        requires
            self.wf(),
        ensures
            r == self.contents().contains_key(token_id@),
    {
        match self.find(token_id) {
            Some(i) => {
                proof {
                    lemma_contents_index(self.tokens@, i as int);
                }
                true
            },
            None => {
                proof {
                    lemma_contents_absent(self.tokens@, token_id@);
                }
                false
            },
        }
    }

    /// The metadata of the token with this identifier, if it exists.
    pub fn get_metadata(&self, token_id: &Vec<u8>) -> (r: Option<TokenMetadata>)
        requires
            self.wf(),
        ensures
            r is Some <==> self.contents().contains_key(token_id@),
            r matches Some(m) ==> m@ == self.contents()[token_id@].metadata,
    {
        match self.find(token_id) {
            Some(i) => {
                proof {
                    lemma_contents_index(self.tokens@, i as int);
                }
                Some(self.tokens[i].metadata.duplicate())
            },
            None => {
                proof {
                    lemma_contents_absent(self.tokens@, token_id@);
                }
                None
            },
        }
    }

    /// The holder of the token with this identifier, if it exists.
    pub fn owner_of(&self, token_id: &Vec<u8>) -> (r: Option<Identity>)
        requires
            self.wf(),
        ensures
            r is Some <==> self.contents().contains_key(token_id@),
            r matches Some(o) ==> o@ == self.contents()[token_id@].owner_id,
    {
        match self.find(token_id) {
            Some(i) => {
                proof {
                    lemma_contents_index(self.tokens@, i as int);
                }
                Some(self.tokens[i].owner_id.duplicate())
            },
            None => {
                proof {
                    lemma_contents_absent(self.tokens@, token_id@);
                }
                None
            },
        }
    }

    /// Records a freshly minted token. Refused if the identifier is taken:
    /// identifiers are never reused.
    pub fn mint_token(&mut self, token: Token) -> (r: Result<(), CertError>)
        requires
            old(self).wf(),
        ensures
            final(self).wf(),
            final(self).spec_owner() == old(self).spec_owner(),
            r is Ok <==> !old(self).contents().contains_key(token.token_id@),
            r is Err ==> r == Err::<(), CertError>(CertError::TokenIdTaken)
                && *final(self) == *old(self),
            r is Ok ==> final(self).contents()
                == old(self).contents().insert(token.token_id@, token@),
    {
        match self.find(&token.token_id) {
            Some(i) => {
                proof {
                    lemma_contents_index(self.tokens@, i as int);
                }
                Err(CertError::TokenIdTaken)
            },
            None => {
                proof {
                    lemma_contents_absent(self.tokens@, token.token_id@);
                }
                let ghost pre = self.tokens@;
                self.tokens.push(token);
                proof {
                    assert(self.tokens@.drop_last() =~= pre);
                    assert forall|a: int, b: int| 0 <= a < b < self.tokens@.len() implies (
                    #[trigger] self.tokens@[a].token_id@) != (#[trigger] self.tokens@[
                        b
                    ].token_id@) by {
                        if b < self.tokens@.len() - 1 {
                            assert(pre[a].token_id@ != pre[b].token_id@);
                        }
                    }
                }
                Ok(())
            },
        }
    }

    /// Replaces the metadata of an existing token, leaving its identifier and
    /// holder alone.
    pub fn update_metadata(&mut self, token_id: &Vec<u8>, metadata: TokenMetadata) -> (r: Result<
        (),
        CertError,
    >)
        requires
            old(self).wf(),
        ensures
            final(self).wf(),
            final(self).spec_owner() == old(self).spec_owner(),
            r is Ok <==> old(self).contents().contains_key(token_id@),
            r is Err ==> r == Err::<(), CertError>(CertError::NotFound)
                && *final(self) == *old(self),
            r is Ok ==> final(self).contents() == old(self).contents().insert(
                token_id@,
                TokenView {
                    token_id: token_id@,
                    owner_id: old(self).contents()[token_id@].owner_id,
                    metadata: metadata@,
                },
            ),
    {
        match self.find(token_id) {
            Some(i) => {
                proof {
                    lemma_contents_index(self.tokens@, i as int);
                }
                let id = self.tokens[i].token_id.clone();
                proof {
                    assert(id@ =~= self.tokens@[i as int].token_id@);
                }
                let owner = self.tokens[i].owner_id.duplicate();
                let replacement = Token { token_id: id, owner_id: owner, metadata };
                proof {
                    lemma_contents_update(self.tokens@, i as int, replacement);
                }
                self.tokens[i] = replacement;
                Ok(())
            },
            None => {
                proof {
                    lemma_contents_absent(self.tokens@, token_id@);
                }
                Err(CertError::NotFound)
            },
        }
    }

    /// Hands an existing token to a new holder, leaving its identifier and
    /// metadata — the certification payload included — alone.
    pub fn transfer_token(&mut self, token_id: &Vec<u8>, new_owner: Identity) -> (r: Result<
        (),
        CertError,
    >)
        requires
            old(self).wf(),
        ensures
            final(self).wf(),
            final(self).spec_owner() == old(self).spec_owner(),
            r is Ok <==> old(self).contents().contains_key(token_id@),
            r is Err ==> r == Err::<(), CertError>(CertError::NotFound)
                && *final(self) == *old(self),
            r is Ok ==> final(self).contents() == old(self).contents().insert(
                token_id@,
                TokenView {
                    token_id: token_id@,
                    owner_id: new_owner@,
                    metadata: old(self).contents()[token_id@].metadata,
                },
            ),
    {
        match self.find(token_id) {
            Some(i) => {
                proof {
                    lemma_contents_index(self.tokens@, i as int);
                }
                let id = self.tokens[i].token_id.clone();
                proof {
                    assert(id@ =~= self.tokens@[i as int].token_id@);
                }
                let metadata = self.tokens[i].metadata.duplicate();
                let replacement = Token { token_id: id, owner_id: new_owner, metadata };
                proof {
                    lemma_contents_update(self.tokens@, i as int, replacement);
                }
                self.tokens[i] = replacement;
                Ok(())
            },
            None => {
                proof {
                    lemma_contents_absent(self.tokens@, token_id@);
                }
                Err(CertError::NotFound)
            },
        }
    }
}

} // verus!
