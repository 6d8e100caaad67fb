//! The world state view: the mutable projection of ledger state that
//! instructions act on, together with its mathematical model.
//!
//! Every collection is keyed and duplicate-free; `WorldV::wf` states those
//! invariants over the model and every mutation preserves them.

use vstd::prelude::*;

verus! {

/// Identity of a ledger account: a name qualified by its domain.
#[derive(Debug, Clone)]
pub struct AccountId {
    pub name: String,
    pub domain: String,
}

/// Identity of an asset definition: a name qualified by its domain.
#[derive(Debug, Clone)]
pub struct AssetDefinitionId {
    pub name: String,
    pub domain: String,
}

/// Identity of a balance: an asset definition held by an account.
#[derive(Debug, Clone)]
pub struct AssetId {
    pub definition: AssetDefinitionId,
    pub account: AccountId,
}

/// Mathematical key of a qualified name: the pair (name, domain).
pub type QualifiedKey = (Seq<char>, Seq<char>);

/// Mathematical key of a balance: its definition's and its owner's keys.
pub type AssetKey = (QualifiedKey, QualifiedKey);

impl AccountId {
    pub open spec fn key(self) -> QualifiedKey {
        (self.name@, self.domain@)
    }

    /// Whether two account identities name the same account.
    pub fn eq_id(&self, other: &AccountId) -> (r: bool)
        ensures
            r == (self.key() == other.key()),
    {
        self.name == other.name && self.domain == other.domain
    }

    pub fn duplicate(&self) -> (r: AccountId)
        ensures
            r == *self,
    {
        AccountId { name: self.name.clone(), domain: self.domain.clone() }
    }
}

impl AssetDefinitionId {
    pub open spec fn key(self) -> QualifiedKey {
        (self.name@, self.domain@)
    }

    pub fn eq_id(&self, other: &AssetDefinitionId) -> (r: bool)
        ensures
            r == (self.key() == other.key()),
    {
        self.name == other.name && self.domain == other.domain
    }

    pub fn duplicate(&self) -> (r: AssetDefinitionId)
        ensures
            r == *self,
    {
        AssetDefinitionId { name: self.name.clone(), domain: self.domain.clone() }
    }
}

impl AssetId {
    pub open spec fn key(self) -> AssetKey {
        (self.definition.key(), self.account.key())
    }

    pub fn eq_id(&self, other: &AssetId) -> (r: bool)
        ensures
            r == (self.key() == other.key()),
    {
        self.definition.eq_id(&other.definition) && self.account.eq_id(&other.account)
    }

    pub fn duplicate(&self) -> (r: AssetId)
        ensures
            r == *self,
    {
        AssetId { definition: self.definition.duplicate(), account: self.account.duplicate() }
    }
}

/// A ledger identity: its keys and its free-form metadata.
#[derive(Debug)]
pub struct Account {
    pub id: AccountId,
    pub keys: Vec<u64>,
    pub metadata: Vec<(String, String)>,
}

/// Model of an account.
#[verifier::ext_equal]
pub struct AccountV {
    pub name: Seq<char>,
    pub domain: Seq<char>,
    pub keys: Seq<u64>,
    pub metadata: Seq<(Seq<char>, Seq<char>)>,
}

impl AccountV {
    pub open spec fn key(self) -> QualifiedKey {
        (self.name, self.domain)
    }
}

impl Account {
    pub open spec fn v(self) -> AccountV {
        AccountV {
            name: self.id.name@,
            domain: self.id.domain@,
            keys: self.keys@,
            metadata: self.metadata@.map_values(|p: (String, String)| (p.0@, p.1@)),
        }
    }

    pub fn duplicate(&self) -> (r: Account)
        ensures
            r.v() == self.v(),
    {
        let mut metadata: Vec<(String, String)> = Vec::new();
        let mut i: usize = 0;
        while i < self.metadata.len()
            invariant
                i <= self.metadata.len(),
                metadata@ == self.metadata@.take(i as int),
            decreases self.metadata.len() - i,
        {
            metadata.push((self.metadata[i].0.clone(), self.metadata[i].1.clone()));
            proof {
                assert(metadata@ =~= self.metadata@.take(i as int + 1));
            }
            i += 1;
        }
        proof {
            assert(self.metadata@.take(self.metadata@.len() as int) =~= self.metadata@);
        }
        let r = Account { id: self.id.duplicate(), keys: self.keys.clone(), metadata };
        proof {
            assert(r.v() =~= self.v());
        }
        r
    }
}

/// A balance of one asset definition held by one account.
#[derive(Debug)]
pub struct Asset {
    pub id: AssetId,
    pub quantity: u64,
}

/// Model of a balance.
#[verifier::ext_equal]
pub struct AssetV {
    pub key: AssetKey,
    pub quantity: u64,
}

impl Asset {
    pub open spec fn v(self) -> AssetV {
        AssetV { key: self.id.key(), quantity: self.quantity }
    }
}

/// A permission token granted to an account.
#[derive(Debug)]
pub struct Grant {
    pub token: String,
    pub payload: String,
    pub grantee: AccountId,
}

/// Model of a grant.
#[verifier::ext_equal]
pub struct GrantV {
    pub token: Seq<char>,
    pub payload: Seq<char>,
    pub grantee: QualifiedKey,
}

impl Grant {
    pub open spec fn v(self) -> GrantV {
        GrantV { token: self.token@, payload: self.payload@, grantee: self.grantee.key() }
    }

    pub fn duplicate(&self) -> (r: Grant)
        ensures
            r.v() == self.v(),
    {
        let r = Grant {
            token: self.token.clone(),
            payload: self.payload.clone(),
            grantee: self.grantee.duplicate(),
        };
        proof {
            assert(r.v() =~= self.v());
        }
        r
    }
}

/// A runtime parameter: a named tunable value.
#[derive(Debug)]
pub struct Parameter {
    pub name: String,
    pub value: u64,
}

/// The closed set of instruction kinds, used by the policy to gate execution.
#[derive(Debug, Clone, Copy, PartialEq, Eq, Structural)]
pub enum InstructionKind {
    RegisterDomain,
    UnregisterDomain,
    RegisterAccount,
    UnregisterAccount,
    RegisterAssetDefinition,
    UnregisterAssetDefinition,
    RegisterPeer,
    UnregisterPeer,
    Mint,
    Burn,
    Transfer,
    Grant,
    Revoke,
    SetKeyValue,
    SetParameter,
    Upgrade,
}

/// The active permission policy: a versioned, resource-bounded table that
/// names, per instruction kind, the permission token its author must hold.
/// Kinds without an entry are allowed outright.
#[derive(Debug)]
pub struct Validator {
    pub version: u64,
    pub fuel_budget: u64,
    pub requirements: Vec<(InstructionKind, String)>,
}

/// Model of the policy.
#[verifier::ext_equal]
pub struct ValidatorV {
    pub version: u64,
    pub fuel_budget: u64,
    pub requirements: Seq<(InstructionKind, Seq<char>)>,
}

impl Validator {
    pub open spec fn v(self) -> ValidatorV {
        ValidatorV {
            version: self.version,
            fuel_budget: self.fuel_budget,
            requirements: self.requirements@.map_values(
                |p: (InstructionKind, String)| (p.0, p.1@),
            ),
        }
    }

    pub fn duplicate(&self) -> (r: Validator)
        ensures
            r.v() == self.v(),
    {
        let mut requirements: Vec<(InstructionKind, String)> = Vec::new();
        let mut i: usize = 0;
        while i < self.requirements.len()
            invariant
                i <= self.requirements.len(),
                requirements@ == self.requirements@.take(i as int),
            decreases self.requirements.len() - i,
        {
            requirements.push((self.requirements[i].0, self.requirements[i].1.clone()));
            proof {
                assert(requirements@ =~= self.requirements@.take(i as int + 1));
            }
            i += 1;
        }
        proof {
            assert(self.requirements@.take(self.requirements@.len() as int)
                =~= self.requirements@);
        }
        let r = Validator {
            version: self.version,
            fuel_budget: self.fuel_budget,
            requirements,
        };
        proof {
            assert(r.v() =~= self.v());
        }
        r
    }
}

/// The world state view: the sole surface through which instructions take
/// effect.
#[derive(Debug)]
pub struct World {
    pub domains: Vec<String>,
    pub accounts: Vec<Account>,
    pub asset_definitions: Vec<AssetDefinitionId>,
    pub assets: Vec<Asset>,
    pub grants: Vec<Grant>,
    pub parameters: Vec<Parameter>,
    pub peers: Vec<u64>,
    pub validator: Validator,
}

/// Model of the world state.
#[verifier::ext_equal]
pub struct WorldV {
    pub domains: Seq<Seq<char>>,
    pub accounts: Seq<AccountV>,
    pub asset_definitions: Seq<QualifiedKey>,
    pub assets: Seq<AssetV>,
    pub grants: Seq<GrantV>,
    pub parameters: Seq<(Seq<char>, u64)>,
    pub peers: Seq<u64>,
    pub validator: ValidatorV,
}

impl View for World {
    type V = WorldV;

    open spec fn view(&self) -> WorldV {
        WorldV {
            domains: self.domains@.map_values(|s: String| s@),
            accounts: self.accounts@.map_values(|a: Account| a.v()),
            asset_definitions: self.asset_definitions@.map_values(
                |d: AssetDefinitionId| d.key(),
            ),
            assets: self.assets@.map_values(|a: Asset| a.v()),
            grants: self.grants@.map_values(|g: Grant| g.v()),
            parameters: self.parameters@.map_values(|p: Parameter| (p.name@, p.value)),
            peers: self.peers@,
            validator: self.validator.v(),
        }
    }
}

impl WorldV {
    /// Identifiers are unique within their namespace, and the peer set is a
    /// non-empty list of distinct peers.
    pub open spec fn wf(self) -> bool {
        &&& forall|i: int, j: int|
            0 <= i < j < self.domains.len() ==> self.domains[i] != self.domains[j]
        &&& forall|i: int, j: int|
            0 <= i < j < self.accounts.len() ==> self.accounts[i].key() != self.accounts[j].key()
        &&& forall|i: int, j: int|
            0 <= i < j < self.asset_definitions.len() ==> self.asset_definitions[i]
                != self.asset_definitions[j]
        &&& forall|i: int, j: int|
            0 <= i < j < self.assets.len() ==> self.assets[i].key != self.assets[j].key
        &&& forall|i: int, j: int|
            0 <= i < j < self.grants.len() ==> !grant_matches(
                self.grants[j],
                self.grants[i].token,
                self.grants[i].payload,
                self.grants[i].grantee,
            )
        &&& forall|i: int, j: int|
            0 <= i < j < self.parameters.len() ==> self.parameters[i].0 != self.parameters[j].0
        &&& forall|i: int, j: int| 0 <= i < j < self.peers.len() ==> self.peers[i] != self.peers[j]
        &&& self.peers.len() > 0
    }

    pub open spec fn has_domain(self, id: Seq<char>) -> bool {
        exists|i: int| 0 <= i < self.domains.len() && self.domains[i] == id
    }

    pub open spec fn domain_index(self, id: Seq<char>) -> int {
        choose|i: int| 0 <= i < self.domains.len() && self.domains[i] == id
    }

    pub open spec fn has_account(self, key: QualifiedKey) -> bool {
        exists|i: int| 0 <= i < self.accounts.len() && self.accounts[i].key() == key
    }

    pub open spec fn account_index(self, key: QualifiedKey) -> int {
        choose|i: int| 0 <= i < self.accounts.len() && self.accounts[i].key() == key
    }

    pub open spec fn has_asset_definition(self, key: QualifiedKey) -> bool {
        exists|i: int| 0 <= i < self.asset_definitions.len() && self.asset_definitions[i] == key
    }

    pub open spec fn asset_definition_index(self, key: QualifiedKey) -> int {
        choose|i: int| 0 <= i < self.asset_definitions.len() && self.asset_definitions[i] == key
    }

    pub open spec fn has_asset(self, key: AssetKey) -> bool {
        exists|i: int| 0 <= i < self.assets.len() && self.assets[i].key == key
    }

    pub open spec fn asset_index(self, key: AssetKey) -> int {
        choose|i: int| 0 <= i < self.assets.len() && self.assets[i].key == key
    }

    /// The balance an account holds of a definition; absent entries hold
    /// nothing.
    pub open spec fn asset_quantity(self, key: AssetKey) -> u64 {
        if self.has_asset(key) {
            self.assets[self.asset_index(key)].quantity
        } else {
            0
        }
    }

    pub open spec fn has_grant(
        self,
        token: Seq<char>,
        payload: Seq<char>,
        grantee: QualifiedKey,
    ) -> bool {
        exists|i: int|
            0 <= i < self.grants.len() && grant_matches(self.grants[i], token, payload, grantee)
    }

    pub open spec fn grant_index(
        self,
        token: Seq<char>,
        payload: Seq<char>,
        grantee: QualifiedKey,
    ) -> int {
        choose|i: int|
            0 <= i < self.grants.len() && grant_matches(self.grants[i], token, payload, grantee)
    }

    /// Whether the account holds a token of the given name, whatever its
    /// payload.
    pub open spec fn holds_token(self, token: Seq<char>, grantee: QualifiedKey) -> bool {
        exists|i: int|
            0 <= i < self.grants.len() && self.grants[i].token == token && self.grants[i].grantee
                == grantee
    }

    pub open spec fn has_parameter(self, name: Seq<char>) -> bool {
        exists|i: int| 0 <= i < self.parameters.len() && self.parameters[i].0 == name
    }

    pub open spec fn parameter_index(self, name: Seq<char>) -> int {
        choose|i: int| 0 <= i < self.parameters.len() && self.parameters[i].0 == name
    }

    /// The value of a parameter, or the given fallback when it is unset.
    pub open spec fn parameter_or(self, name: Seq<char>, fallback: u64) -> u64 {
        if self.has_parameter(name) {
            self.parameters[self.parameter_index(name)].1
        } else {
            fallback
        }
    }

    pub open spec fn has_peer(self, peer: u64) -> bool {
        exists|i: int| 0 <= i < self.peers.len() && self.peers[i] == peer
    }

    pub open spec fn peer_index(self, peer: u64) -> int {
        choose|i: int| 0 <= i < self.peers.len() && self.peers[i] == peer
    }
}

/// Whether a grant is exactly the given token, payload and grantee.
pub open spec fn grant_matches(
    g: GrantV,
    token: Seq<char>,
    payload: Seq<char>,
    grantee: QualifiedKey,
) -> bool {
    g.token == token && g.payload == payload && g.grantee == grantee
}

/// In a well-formed world an index holding a domain id is the unique one.
pub proof fn lemma_domain_index(w: WorldV, id: Seq<char>, j: int)
    requires
        w.wf(),
        0 <= j < w.domains.len(),
        w.domains[j] == id,
    ensures
        w.has_domain(id),
        w.domain_index(id) == j,
{
    assert(w.has_domain(id));
    let i = w.domain_index(id);
    assert(0 <= i < w.domains.len() && w.domains[i] == id);
}

/// In a well-formed world an index holding an account key is the unique one.
pub proof fn lemma_account_index(w: WorldV, key: QualifiedKey, j: int)
    requires
        w.wf(),
        0 <= j < w.accounts.len(),
        w.accounts[j].key() == key,
    ensures
        w.has_account(key),
        w.account_index(key) == j,
{
    assert(w.has_account(key));
    let i = w.account_index(key);
    assert(0 <= i < w.accounts.len() && w.accounts[i].key() == key);
}

/// In a well-formed world an index holding a definition key is the unique one.
pub proof fn lemma_asset_definition_index(w: WorldV, key: QualifiedKey, j: int)
    requires
        w.wf(),
        0 <= j < w.asset_definitions.len(),
        w.asset_definitions[j] == key,
    ensures
        w.has_asset_definition(key),
        w.asset_definition_index(key) == j,
{
    assert(w.has_asset_definition(key));
    let i = w.asset_definition_index(key);
    assert(0 <= i < w.asset_definitions.len() && w.asset_definitions[i] == key);
}

/// In a well-formed world an index holding an asset key is the unique one.
pub proof fn lemma_asset_index(w: WorldV, key: AssetKey, j: int)
    requires
        w.wf(),
        0 <= j < w.assets.len(),
        w.assets[j].key == key,
    ensures
        w.has_asset(key),
        w.asset_index(key) == j,
{
    assert(w.has_asset(key));
    let i = w.asset_index(key);
    assert(0 <= i < w.assets.len() && w.assets[i].key == key);
}

/// In a well-formed world an index holding a grant is the unique one.
pub proof fn lemma_grant_index(
    w: WorldV,
    token: Seq<char>,
    payload: Seq<char>,
    grantee: QualifiedKey,
    j: int,
)
    requires
        w.wf(),
        0 <= j < w.grants.len(),
        grant_matches(w.grants[j], token, payload, grantee),
    ensures
        w.has_grant(token, payload, grantee),
        w.grant_index(token, payload, grantee) == j,
{
    assert(w.has_grant(token, payload, grantee));
    let i = w.grant_index(token, payload, grantee);
    assert(0 <= i < w.grants.len() && grant_matches(w.grants[i], token, payload, grantee));
    if i < j {
        assert(!grant_matches(w.grants[j], w.grants[i].token, w.grants[i].payload,
            w.grants[i].grantee));
    } else if j < i {
        assert(!grant_matches(w.grants[i], w.grants[j].token, w.grants[j].payload,
            w.grants[j].grantee));
    }
}

/// In a well-formed world an index holding a parameter name is the unique one.
pub proof fn lemma_parameter_index(w: WorldV, name: Seq<char>, j: int)
    requires
        w.wf(),
        0 <= j < w.parameters.len(),
        w.parameters[j].0 == name,
    ensures
        w.has_parameter(name),
        w.parameter_index(name) == j,
{
    assert(w.has_parameter(name));
    let i = w.parameter_index(name);
    assert(0 <= i < w.parameters.len() && w.parameters[i].0 == name);
}

/// In a well-formed world an index holding a peer is the unique one.
pub proof fn lemma_peer_index(w: WorldV, peer: u64, j: int)
    requires
        w.wf(),
        0 <= j < w.peers.len(),
        w.peers[j] == peer,
    ensures
        w.has_peer(peer),
        w.peer_index(peer) == j,
{
    assert(w.has_peer(peer));
    let i = w.peer_index(peer);
    assert(0 <= i < w.peers.len() && w.peers[i] == peer);
}

impl World {
    /// Position of a domain in the store, if registered.
    pub fn find_domain(&self, id: &String) -> (r: Option<usize>)
        ensures
            match r {
                Some(i) => i < self.domains@.len() && self@.domains[i as int] == id@,
                None => !self@.has_domain(id@),
            },
    {
        let mut i: usize = 0;
        while i < self.domains.len()
            invariant
                i <= self.domains.len(),
                forall|j: int| 0 <= j < i ==> self@.domains[j] != id@,
            decreases self.domains.len() - i,
        {
            if self.domains[i] == *id {
                return Some(i);
            }
            i += 1;
        }
        None
    }

    /// Position of an account in the store, if registered.
    pub fn find_account(&self, id: &AccountId) -> (r: Option<usize>)
        ensures
            match r {
                Some(i) => i < self.accounts@.len() && self@.accounts[i as int].key() == id.key(),
                None => !self@.has_account(id.key()),
            },
    {
        let mut i: usize = 0;
        while i < self.accounts.len()
            invariant
                i <= self.accounts.len(),
                forall|j: int| 0 <= j < i ==> self@.accounts[j].key() != id.key(),
            decreases self.accounts.len() - i,
        {
            if self.accounts[i].id.eq_id(id) {
                return Some(i);
            }
            i += 1;
        }
        None
    }

    /// Position of an asset definition in the store, if registered.
    pub fn find_asset_definition(&self, id: &AssetDefinitionId) -> (r: Option<usize>)
        ensures
            match r {
                Some(i) => i < self.asset_definitions@.len() && self@.asset_definitions[i as int]
                    == id.key(),
                None => !self@.has_asset_definition(id.key()),
            },
    {
        let mut i: usize = 0;
        while i < self.asset_definitions.len()
            invariant
                i <= self.asset_definitions.len(),
                forall|j: int| 0 <= j < i ==> self@.asset_definitions[j] != id.key(),
            decreases self.asset_definitions.len() - i,
        {
            if self.asset_definitions[i].eq_id(id) {
                return Some(i);
            }
            i += 1;
        }
        None
    }

    /// Position of a balance entry in the store, if one exists.
    pub fn find_asset(&self, id: &AssetId) -> (r: Option<usize>)
        ensures
            match r {
                Some(i) => i < self.assets@.len() && self@.assets[i as int].key == id.key(),
                None => !self@.has_asset(id.key()),
            },
    {
        let mut i: usize = 0;
        while i < self.assets.len()
            invariant
                i <= self.assets.len(),
                forall|j: int| 0 <= j < i ==> self@.assets[j].key != id.key(),
            decreases self.assets.len() - i,
        {
            if self.assets[i].id.eq_id(id) {
                return Some(i);
            }
            i += 1;
        }
        None
    }

    /// Position of an exact grant in the store, if present.
    pub fn find_grant(&self, token: &String, payload: &String, grantee: &AccountId) -> (r: Option<
        usize,
    >)
        ensures
            match r {
                Some(i) => i < self.grants@.len() && grant_matches(
                    self@.grants[i as int],
                    token@,
                    payload@,
                    grantee.key(),
                ),
                None => !self@.has_grant(token@, payload@, grantee.key()),
            },
    {
        let mut i: usize = 0;
        while i < self.grants.len()
            invariant
                i <= self.grants.len(),
                forall|j: int|
                    0 <= j < i ==> !grant_matches(self@.grants[j], token@, payload@, grantee.key()),
            decreases self.grants.len() - i,
        {
            if self.grants[i].token == *token && self.grants[i].payload == *payload
                && self.grants[i].grantee.eq_id(grantee) {
                return Some(i);
            }
            i += 1;
        }
        None
    }

    /// Whether the account holds a token of the given name, whatever its
    /// payload.
    pub fn holds_token(&self, token: &String, grantee: &AccountId) -> (r: bool)
        ensures
            r == self@.holds_token(token@, grantee.key()),
    {
        let mut i: usize = 0;
        while i < self.grants.len()
            invariant
                i <= self.grants.len(),
                forall|j: int|
                    0 <= j < i ==> !(self@.grants[j].token == token@ && self@.grants[j].grantee
                        == grantee.key()),
            decreases self.grants.len() - i,
        {
            if self.grants[i].token == *token && self.grants[i].grantee.eq_id(grantee) {
                proof {
                    assert(self@.grants[i as int].token == token@ && self@.grants[i as int].grantee
                        == grantee.key());
                }
                return true;
            }
            i += 1;
        }
        false
    }

    /// Position of a parameter in the store, if set.
    pub fn find_parameter(&self, name: &String) -> (r: Option<usize>)
        ensures
            match r {
                Some(i) => i < self.parameters@.len() && self@.parameters[i as int].0 == name@,
                None => !self@.has_parameter(name@),
            },
    {
        let mut i: usize = 0;
        while i < self.parameters.len()
            invariant
                i <= self.parameters.len(),
                forall|j: int| 0 <= j < i ==> self@.parameters[j].0 != name@,
            decreases self.parameters.len() - i,
        {
            if self.parameters[i].name == *name {
                return Some(i);
            }
            i += 1;
        }
        None
    }

    /// The value of a parameter, or the fallback when it is unset.
    pub fn parameter_or(&self, name: &String, fallback: u64) -> (r: u64)
        requires
            self@.wf(),
        ensures
            r == self@.parameter_or(name@, fallback),
    {
        match self.find_parameter(name) {
            Some(i) => {
                proof {
                    lemma_parameter_index(self@, name@, i as int);
                }
                self.parameters[i].value
            },
            None => fallback,
        }
    }

    /// Position of a peer in the current peer set, if present.
    pub fn find_peer(&self, peer: u64) -> (r: Option<usize>)
        ensures
            match r {
                Some(i) => i < self.peers@.len() && self@.peers[i as int] == peer,
                None => !self@.has_peer(peer),
            },
    {
        let mut i: usize = 0;
        while i < self.peers.len()
            invariant
                i <= self.peers.len(),
                forall|j: int| 0 <= j < i ==> self@.peers[j] != peer,
            decreases self.peers.len() - i,
        {
            if self.peers[i] == peer {
                return Some(i);
            }
            i += 1;
        }
        None
    }

    /// An independent copy of the whole world state, used as a scratch scope
    /// for trial execution.
    pub fn snapshot(&self) -> (r: World)
        ensures
            r@ == self@,
    {
        let mut domains: Vec<String> = Vec::new();
        let mut i: usize = 0;
        while i < self.domains.len()
            invariant
                i <= self.domains.len(),
                domains@ == self.domains@.take(i as int),
            decreases self.domains.len() - i,
        {
            domains.push(self.domains[i].clone());
            proof {
                assert(domains@ =~= self.domains@.take(i as int + 1));
            }
            i += 1;
        }
        let mut accounts: Vec<Account> = Vec::new();
        let mut i: usize = 0;
        while i < self.accounts.len()
            invariant
                i <= self.accounts.len(),
                accounts@.len() == i,
                forall|j: int| 0 <= j < i ==> accounts@[j].v() == self.accounts@[j].v(),
            decreases self.accounts.len() - i,
        {
            accounts.push(self.accounts[i].duplicate());
            i += 1;
        }
        let mut asset_definitions: Vec<AssetDefinitionId> = Vec::new();
        let mut i: usize = 0;
        while i < self.asset_definitions.len()
            invariant
                i <= self.asset_definitions.len(),
                asset_definitions@ == self.asset_definitions@.take(i as int),
            decreases self.asset_definitions.len() - i,
        {
            asset_definitions.push(self.asset_definitions[i].duplicate());
            proof {
                assert(asset_definitions@ =~= self.asset_definitions@.take(i as int + 1));
            }
            i += 1;
        }
        let mut assets: Vec<Asset> = Vec::new();
        let mut i: usize = 0;
        while i < self.assets.len()
            invariant
                i <= self.assets.len(),
                assets@.len() == i,
                forall|j: int| 0 <= j < i ==> assets@[j].v() == self.assets@[j].v(),
            decreases self.assets.len() - i,
        {
            let a = &self.assets[i];
            assets.push(Asset { id: a.id.duplicate(), quantity: a.quantity });
            i += 1;
        }
        let mut grants: Vec<Grant> = Vec::new();
        let mut i: usize = 0;
        while i < self.grants.len()
            invariant
                i <= self.grants.len(),
                grants@.len() == i,
                forall|j: int| 0 <= j < i ==> grants@[j].v() == self.grants@[j].v(),
            decreases self.grants.len() - i,
        {
            grants.push(self.grants[i].duplicate());
            i += 1;
        }
        let mut parameters: Vec<Parameter> = Vec::new();
        let mut i: usize = 0;
        while i < self.parameters.len()
            invariant
                i <= self.parameters.len(),
                parameters@.len() == i,
                forall|j: int|
                    0 <= j < i ==> parameters@[j].name@ == self.parameters@[j].name@
                        && parameters@[j].value == self.parameters@[j].value,
            decreases self.parameters.len() - i,
        {
            let p = &self.parameters[i];
            parameters.push(Parameter { name: p.name.clone(), value: p.value });
            i += 1;
        }
        let r = World {
            domains,
            accounts,
            asset_definitions,
            assets,
            grants,
            parameters,
            peers: self.peers.clone(),
            validator: self.validator.duplicate(),
        };
        proof {
            assert(r.domains@ =~= self.domains@);
            assert(r.asset_definitions@ =~= self.asset_definitions@);
            assert(r@.domains =~= self@.domains);
            assert(r@.accounts =~= self@.accounts);
            assert(r@.asset_definitions =~= self@.asset_definitions);
            assert(r@.assets =~= self@.assets);
            assert(r@.grants =~= self@.grants);
            assert(r@.parameters =~= self@.parameters);
            assert(r@ =~= self@);
        }
        r
    }
}

/// Name of the tunable pause between block proposals.
pub open spec fn block_time_name() -> Seq<char> {
    "block_time_ms"@
}

/// Name of the tunable bound on transactions batched into one block.
pub open spec fn max_transactions_name() -> Seq<char> {
    "max_transactions_in_block"@
}

/// Name of the tunable bound on instructions in one transaction.
pub open spec fn max_instructions_name() -> Seq<char> {
    "max_instructions_per_transaction"@
}

pub const DEFAULT_BLOCK_TIME_MS: u64 = 2000;

pub const DEFAULT_MAX_TRANSACTIONS: u64 = 512;

pub const DEFAULT_MAX_INSTRUCTIONS: u64 = 4096;

/// The parameters every ledger starts from.
pub open spec fn default_parameters() -> Seq<(Seq<char>, u64)> {
    seq![
        (block_time_name(), DEFAULT_BLOCK_TIME_MS),
        (max_transactions_name(), DEFAULT_MAX_TRANSACTIONS),
        (max_instructions_name(), DEFAULT_MAX_INSTRUCTIONS),
    ]
}

impl World {
    /// An empty world governed by the given genesis peer set and policy,
    /// carrying the default parameters.
    pub fn new(peers: Vec<u64>, validator: Validator) -> (r: World)
        requires
            peers@.len() > 0,
            forall|i: int, j: int| 0 <= i < j < peers@.len() ==> peers@[i] != peers@[j],
        ensures
            r@ == (WorldV {
                domains: Seq::empty(),
                accounts: Seq::empty(),
                asset_definitions: Seq::empty(),
                assets: Seq::empty(),
                grants: Seq::empty(),
                parameters: default_parameters(),
                peers: peers@,
                validator: validator.v(),
            }),
            r@.wf(),
    {
        let mut parameters: Vec<Parameter> = Vec::new();
        parameters.push(Parameter { name: "block_time_ms".to_owned(), value: DEFAULT_BLOCK_TIME_MS });
        parameters.push(
            Parameter { name: "max_transactions_in_block".to_owned(), value: DEFAULT_MAX_TRANSACTIONS },
        );
        parameters.push(
            Parameter {
                name: "max_instructions_per_transaction".to_owned(),
                value: DEFAULT_MAX_INSTRUCTIONS,
            },
        );
        let r = World {
            domains: Vec::new(),
            accounts: Vec::new(),
            asset_definitions: Vec::new(),
            assets: Vec::new(),
            grants: Vec::new(),
            parameters,
            peers,
            validator,
        };
        proof {
            reveal_strlit("block_time_ms");
            reveal_strlit("max_transactions_in_block");
            reveal_strlit("max_instructions_per_transaction");
            assert(block_time_name().len() != max_transactions_name().len());
            assert(block_time_name().len() != max_instructions_name().len());
            assert(max_transactions_name().len() != max_instructions_name().len());
            assert(r@.domains =~= Seq::<Seq<char>>::empty());
            assert(r@.accounts =~= Seq::<AccountV>::empty());
            assert(r@.asset_definitions =~= Seq::<QualifiedKey>::empty());
            assert(r@.assets =~= Seq::<AssetV>::empty());
            assert(r@.grants =~= Seq::<GrantV>::empty());
            assert(r@.parameters =~= default_parameters());
            assert(r@ =~= (WorldV {
                domains: Seq::empty(),
                accounts: Seq::empty(),
                asset_definitions: Seq::empty(),
                assets: Seq::empty(),
                grants: Seq::empty(),
                parameters: default_parameters(),
                peers: r.peers@,
                validator: r.validator.v(),
            }));
        }
        r
    }
}

} // verus!
