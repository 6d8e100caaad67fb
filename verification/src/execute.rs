//! The instruction execution engine: per-instruction effects on the world
//! state, stated as a functional model and implemented by a verified
//! interpreter that preserves every world invariant.

use vstd::prelude::*;

use crate::instruction::{Instruction, RejectionReason};
use crate::world::{
    lemma_account_index, lemma_asset_definition_index, lemma_asset_index, lemma_domain_index,
    lemma_grant_index, lemma_parameter_index, lemma_peer_index, Account, AccountId, AccountV,
    Asset, AssetDefinitionId, AssetId, AssetKey, AssetV, Grant, GrantV, Parameter, World, WorldV,
};

verus! {

/// Credit a quantity to a balance: a fresh entry when none exists, an
/// updated entry otherwise, refusing to pass the representable bound.
pub open spec fn deposit_v(w: WorldV, key: AssetKey, amount: u64) -> Result<
    WorldV,
    RejectionReason,
> {
    if w.has_asset(key) {
        if w.asset_quantity(key) + amount > u64::MAX {
            Err(RejectionReason::Overflow)
        } else {
            Ok(
                WorldV {
                    assets: w.assets.update(
                        w.asset_index(key),
                        AssetV { key, quantity: (w.asset_quantity(key) + amount) as u64 },
                    ),
                    ..w
                },
            )
        }
    } else {
        Ok(WorldV { assets: w.assets.push(AssetV { key, quantity: amount }), ..w })
    }
}

/// Move a quantity between two accounts' balances of one definition. The
/// sender must hold at least the amount; the receiving account must exist;
/// the receiving balance must stay representable.
pub open spec fn transfer_v(
    w: WorldV,
    definition: (Seq<char>, Seq<char>),
    source: (Seq<char>, Seq<char>),
    destination: (Seq<char>, Seq<char>),
    amount: u64,
) -> Result<WorldV, RejectionReason> {
    let src_key = (definition, source);
    if w.asset_quantity(src_key) < amount {
        Err(RejectionReason::InsufficientBalance)
    } else if !w.has_account(destination) {
        Err(RejectionReason::AccountNotFound)
    } else if amount == 0 {
        Ok(w)
    } else {
        let withdrawn = WorldV {
            assets: w.assets.update(
                w.asset_index(src_key),
                AssetV { key: src_key, quantity: (w.asset_quantity(src_key) - amount) as u64 },
            ),
            ..w
        };
        deposit_v(withdrawn, (definition, destination), amount)
    }
}

/// The effect of one instruction on the world state, or the exact reason it
/// is rejected.
pub open spec fn apply_v(w: WorldV, instr: Instruction) -> Result<WorldV, RejectionReason> {
    match instr {
        Instruction::RegisterDomain { id } => {
            if w.has_domain(id@) {
                Err(RejectionReason::DomainAlreadyExists)
            } else {
                Ok(WorldV { domains: w.domains.push(id@), ..w })
            }
        },
        Instruction::UnregisterDomain { id } => {
            if !w.has_domain(id@) {
                Err(RejectionReason::DomainNotFound)
            } else {
                Ok(WorldV { domains: w.domains.remove(w.domain_index(id@)), ..w })
            }
        },
        Instruction::RegisterAccount { id, key } => {
            if !w.has_domain(id.domain@) {
                Err(RejectionReason::DomainNotFound)
            } else if w.has_account(id.key()) {
                Err(RejectionReason::AccountAlreadyExists)
            } else {
                Ok(
                    WorldV {
                        accounts: w.accounts.push(
                            AccountV {
                                name: id.name@,
                                domain: id.domain@,
                                keys: seq![key],
                                metadata: Seq::empty(),
                            },
                        ),
                        ..w
                    },
                )
            }
        },
        Instruction::UnregisterAccount { id } => {
            if !w.has_account(id.key()) {
                Err(RejectionReason::AccountNotFound)
            } else {
                Ok(WorldV { accounts: w.accounts.remove(w.account_index(id.key())), ..w })
            }
        },
        Instruction::RegisterAssetDefinition { id } => {
            if !w.has_domain(id.domain@) {
                Err(RejectionReason::DomainNotFound)
            } else if w.has_asset_definition(id.key()) {
                Err(RejectionReason::AssetDefinitionAlreadyExists)
            } else {
                Ok(WorldV { asset_definitions: w.asset_definitions.push(id.key()), ..w })
            }
        },
        Instruction::UnregisterAssetDefinition { id } => {
            if !w.has_asset_definition(id.key()) {
                Err(RejectionReason::AssetDefinitionNotFound)
            } else {
                Ok(
                    WorldV {
                        asset_definitions: w.asset_definitions.remove(
                            w.asset_definition_index(id.key()),
                        ),
                        ..w
                    },
                )
            }
        },
        Instruction::RegisterPeer { peer } => {
            if w.has_peer(peer) {
                Err(RejectionReason::PeerAlreadyRegistered)
            } else {
                Ok(WorldV { peers: w.peers.push(peer), ..w })
            }
        },
        Instruction::UnregisterPeer { peer } => {
            if !w.has_peer(peer) {
                Err(RejectionReason::PeerNotFound)
            } else if w.peers.len() == 1 {
                Err(RejectionReason::LastPeer)
            } else {
                Ok(WorldV { peers: w.peers.remove(w.peer_index(peer)), ..w })
            }
        },
        Instruction::Mint { asset, amount } => {
            if !w.has_asset_definition(asset.definition.key()) {
                Err(RejectionReason::AssetDefinitionNotFound)
            } else if !w.has_account(asset.account.key()) {
                Err(RejectionReason::AccountNotFound)
            } else {
                deposit_v(w, asset.key(), amount)
            }
        },
        Instruction::Burn { asset, amount } => {
            if !w.has_asset(asset.key()) {
                Err(RejectionReason::AssetNotFound)
            } else if w.asset_quantity(asset.key()) < amount {
                Err(RejectionReason::InsufficientBalance)
            } else {
                Ok(
                    WorldV {
                        assets: w.assets.update(
                            w.asset_index(asset.key()),
                            AssetV {
                                key: asset.key(),
                                quantity: (w.asset_quantity(asset.key()) - amount) as u64,
                            },
                        ),
                        ..w
                    },
                )
            }
        },
        Instruction::Transfer { source, destination, definition, amount } => {
            transfer_v(w, definition.key(), source.key(), destination.key(), amount)
        },
        Instruction::Grant { token, payload, to } => {
            if !w.has_account(to.key()) {
                Err(RejectionReason::AccountNotFound)
            } else if w.has_grant(token@, payload@, to.key()) {
                Err(RejectionReason::GrantAlreadyExists)
            } else {
                Ok(
                    WorldV {
                        grants: w.grants.push(
                            GrantV { token: token@, payload: payload@, grantee: to.key() },
                        ),
                        ..w
                    },
                )
            }
        },
        Instruction::Revoke { token, payload, from } => {
            if !w.has_grant(token@, payload@, from.key()) {
                Err(RejectionReason::GrantNotFound)
            } else {
                Ok(
                    WorldV {
                        grants: w.grants.remove(w.grant_index(token@, payload@, from.key())),
                        ..w
                    },
                )
            }
        },
        Instruction::SetKeyValue { account, key, value } => {
            if !w.has_account(account.key()) {
                Err(RejectionReason::AccountNotFound)
            } else {
                let i = w.account_index(account.key());
                let a = w.accounts[i];
                Ok(
                    WorldV {
                        accounts: w.accounts.update(
                            i,
                            AccountV { metadata: a.metadata.push((key@, value@)), ..a },
                        ),
                        ..w
                    },
                )
            }
        },
        Instruction::SetParameter { name, value } => {
            if w.has_parameter(name@) {
                Ok(
                    WorldV {
                        parameters: w.parameters.update(w.parameter_index(name@), (name@, value)),
                        ..w
                    },
                )
            } else {
                Ok(WorldV { parameters: w.parameters.push((name@, value)), ..w })
            }
        },
        Instruction::Upgrade { validator } => Ok(WorldV { validator: validator.v(), ..w }),
    }
}

impl World {
    /// Interpret one instruction against this world: on success the world
    /// holds the instruction's effect, on rejection it is untouched, and in
    /// both cases the outcome is exactly the one the model assigns.
    pub fn apply_instruction(&mut self, instr: &Instruction) -> (r: Result<(), RejectionReason>)
        requires
            old(self)@.wf(),
        ensures
            final(self)@.wf(),
            match r {
                Ok(()) => apply_v(old(self)@, *instr) == Ok::<WorldV, RejectionReason>(
                    final(self)@,
                ),
                Err(e) => apply_v(old(self)@, *instr) == Err::<WorldV, RejectionReason>(e)
                    && final(self)@ == old(self)@,
            },
    {
        match instr {
            Instruction::RegisterDomain { id } => {
                match self.find_domain(id) {
                    Some(_) => Err(RejectionReason::DomainAlreadyExists),
                    None => {
                        self.domains.push(id.clone());
                        proof {
                            assert(self@.domains =~= old(self)@.domains.push(id@));
                            assert(self@ =~= (WorldV {
                                domains: old(self)@.domains.push(id@),
                                ..old(self)@
                            }));
                        }
                        Ok(())
                    },
                }
            },
            Instruction::UnregisterDomain { id } => {
                match self.find_domain(id) {
                    None => Err(RejectionReason::DomainNotFound),
                    Some(i) => {
                        proof {
                            lemma_domain_index(self@, id@, i as int);
                        }
                        self.domains.remove(i);
                        proof {
                            assert(self@.domains =~= old(self)@.domains.remove(i as int));
                            assert(self@ =~= (WorldV {
                                domains: old(self)@.domains.remove(i as int),
                                ..old(self)@
                            }));
                        }
                        Ok(())
                    },
                }
            },
            Instruction::RegisterAccount { id, key } => {
                match self.find_domain(&id.domain) {
                    None => Err(RejectionReason::DomainNotFound),
                    Some(_) => {
                        match self.find_account(id) {
                            Some(_) => Err(RejectionReason::AccountAlreadyExists),
                            None => {
                                let mut keys: Vec<u64> = Vec::new();
                                keys.push(*key);
                                let account = Account {
                                    id: id.duplicate(),
                                    keys,
                                    metadata: Vec::new(),
                                };
                                let ghost av = account.v();
                                proof {
                                    assert(av.keys =~= seq![*key]);
                                    assert(av.metadata =~= Seq::<(Seq<char>, Seq<char>)>::empty());
                                    assert(av =~= (AccountV {
                                        name: id.name@,
                                        domain: id.domain@,
                                        keys: seq![*key],
                                        metadata: Seq::empty(),
                                    }));
                                }
                                self.accounts.push(account);
                                proof {
                                    assert(self@.accounts =~= old(self)@.accounts.push(av));
                                    assert(self@ =~= (WorldV {
                                        accounts: old(self)@.accounts.push(
                                            AccountV {
                                                name: id.name@,
                                                domain: id.domain@,
                                                keys: seq![*key],
                                                metadata: Seq::empty(),
                                            },
                                        ),
                                        ..old(self)@
                                    }));
                                }
                                Ok(())
                            },
                        }
                    },
                }
            },
            Instruction::UnregisterAccount { id } => {
                match self.find_account(id) {
                    None => Err(RejectionReason::AccountNotFound),
                    Some(i) => {
                        proof {
                            lemma_account_index(self@, id.key(), i as int);
                        }
                        self.accounts.remove(i);
                        proof {
                            assert(self@.accounts =~= old(self)@.accounts.remove(i as int));
                            assert(self@ =~= (WorldV {
                                accounts: old(self)@.accounts.remove(i as int),
                                ..old(self)@
                            }));
                        }
                        Ok(())
                    },
                }
            },
            Instruction::RegisterAssetDefinition { id } => {
                match self.find_domain(&id.domain) {
                    None => Err(RejectionReason::DomainNotFound),
                    Some(_) => {
                        match self.find_asset_definition(id) {
                            Some(_) => Err(RejectionReason::AssetDefinitionAlreadyExists),
                            None => {
                                self.asset_definitions.push(id.duplicate());
                                proof {
                                    assert(self@.asset_definitions
                                        =~= old(self)@.asset_definitions.push(id.key()));
                                    assert(self@ =~= (WorldV {
                                        asset_definitions: self@.asset_definitions,
                                        ..old(self)@
                                    }));
                                }
                                Ok(())
                            },
                        }
                    },
                }
            },
            Instruction::UnregisterAssetDefinition { id } => {
                match self.find_asset_definition(id) {
                    None => Err(RejectionReason::AssetDefinitionNotFound),
                    Some(i) => {
                        proof {
                            lemma_asset_definition_index(self@, id.key(), i as int);
                        }
                        self.asset_definitions.remove(i);
                        proof {
                            assert(self@.asset_definitions
                                =~= old(self)@.asset_definitions.remove(i as int));
                            assert(self@ =~= (WorldV {
                                asset_definitions: old(self)@.asset_definitions.remove(i as int),
                                ..old(self)@
                            }));
                        }
                        Ok(())
                    },
                }
            },
            Instruction::RegisterPeer { peer } => {
                match self.find_peer(*peer) {
                    Some(_) => Err(RejectionReason::PeerAlreadyRegistered),
                    None => {
                        self.peers.push(*peer);
                        proof {
                            assert(self@ =~= (WorldV {
                                peers: old(self)@.peers.push(*peer),
                                ..old(self)@
                            }));
                        }
                        Ok(())
                    },
                }
            },
            Instruction::UnregisterPeer { peer } => {
                match self.find_peer(*peer) {
                    None => Err(RejectionReason::PeerNotFound),
                    Some(i) => {
                        if self.peers.len() == 1 {
                            Err(RejectionReason::LastPeer)
                        } else {
                            proof {
                                lemma_peer_index(self@, *peer, i as int);
                            }
                            self.peers.remove(i);
                            proof {
                                assert(self@ =~= (WorldV {
                                    peers: old(self)@.peers.remove(i as int),
                                    ..old(self)@
                                }));
                            }
                            Ok(())
                        }
                    },
                }
            },
            Instruction::Mint { asset, amount } => {
                match self.find_asset_definition(&asset.definition) {
                    None => Err(RejectionReason::AssetDefinitionNotFound),
                    Some(_) => {
                        match self.find_account(&asset.account) {
                            None => Err(RejectionReason::AccountNotFound),
                            Some(_) => self.deposit(asset, *amount),
                        }
                    },
                }
            },
            Instruction::Burn { asset, amount } => {
                match self.find_asset(asset) {
                    None => Err(RejectionReason::AssetNotFound),
                    Some(i) => {
                        proof {
                            lemma_asset_index(self@, asset.key(), i as int);
                        }
                        let q = self.assets[i].quantity;
                        if q < *amount {
                            Err(RejectionReason::InsufficientBalance)
                        } else {
                            let updated = Asset {
                                id: self.assets[i].id.duplicate(),
                                quantity: q - *amount,
                            };
                            self.assets.set(i, updated);
                            proof {
                                assert(self@.assets =~= old(self)@.assets.update(
                                    i as int,
                                    AssetV { key: asset.key(), quantity: (q - *amount) as u64 },
                                ));
                                assert(self@ =~= (WorldV {
                                    assets: self@.assets,
                                    ..old(self)@
                                }));
                            }
                            Ok(())
                        }
                    },
                }
            },
            Instruction::Transfer { source, destination, definition, amount } => {
                self.transfer(source, destination, definition, *amount)
            },
            Instruction::Grant { token, payload, to } => {
                match self.find_account(to) {
                    None => Err(RejectionReason::AccountNotFound),
                    Some(_) => {
                        match self.find_grant(token, payload, to) {
                            Some(_) => Err(RejectionReason::GrantAlreadyExists),
                            None => {
                                self.grants.push(
                                    Grant {
                                        token: token.clone(),
                                        payload: payload.clone(),
                                        grantee: to.duplicate(),
                                    },
                                );
                                proof {
                                    assert(self@.grants =~= old(self)@.grants.push(
                                        GrantV {
                                            token: token@,
                                            payload: payload@,
                                            grantee: to.key(),
                                        },
                                    ));
                                    assert(self@ =~= (WorldV {
                                        grants: self@.grants,
                                        ..old(self)@
                                    }));
                                }
                                Ok(())
                            },
                        }
                    },
                }
            },
            Instruction::Revoke { token, payload, from } => {
                match self.find_grant(token, payload, from) {
                    None => Err(RejectionReason::GrantNotFound),
                    Some(i) => {
                        proof {
                            lemma_grant_index(self@, token@, payload@, from.key(), i as int);
                        }
                        self.grants.remove(i);
                        proof {
                            assert(self@.grants =~= old(self)@.grants.remove(i as int));
                            assert(self@ =~= (WorldV {
                                grants: old(self)@.grants.remove(i as int),
                                ..old(self)@
                            }));
                        }
                        Ok(())
                    },
                }
            },
            Instruction::SetKeyValue { account, key, value } => {
                match self.find_account(account) {
                    None => Err(RejectionReason::AccountNotFound),
                    Some(i) => {
                        proof {
                            lemma_account_index(self@, account.key(), i as int);
                        }
                        let mut a = self.accounts[i].duplicate();
                        a.metadata.push((key.clone(), value.clone()));
                        let ghost av = a.v();
                        self.accounts.set(i, a);
                        proof {
                            assert(av.metadata =~= old(self)@.accounts[i as int].metadata.push(
                                (key@, value@),
                            ));
                            assert(av =~= (AccountV {
                                metadata: old(self)@.accounts[i as int].metadata.push(
                                    (key@, value@),
                                ),
                                ..old(self)@.accounts[i as int]
                            }));
                            assert(self@.accounts =~= old(self)@.accounts.update(i as int, av));
                            assert(self@ =~= (WorldV {
                                accounts: self@.accounts,
                                ..old(self)@
                            }));
                        }
                        Ok(())
                    },
                }
            },
            Instruction::SetParameter { name, value } => {
                match self.find_parameter(name) {
                    Some(i) => {
                        proof {
                            lemma_parameter_index(self@, name@, i as int);
                        }
                        self.parameters.set(i, Parameter { name: name.clone(), value: *value });
                        proof {
                            assert(self@.parameters =~= old(self)@.parameters.update(
                                i as int,
                                (name@, *value),
                            ));
                            assert(self@ =~= (WorldV {
                                parameters: self@.parameters,
                                ..old(self)@
                            }));
                        }
                        Ok(())
                    },
                    None => {
                        self.parameters.push(Parameter { name: name.clone(), value: *value });
                        proof {
                            assert(self@.parameters =~= old(self)@.parameters.push((name@, *value)));
                            assert(self@ =~= (WorldV {
                                parameters: self@.parameters,
                                ..old(self)@
                            }));
                        }
                        Ok(())
                    },
                }
            },
            Instruction::Upgrade { validator } => {
                self.validator = validator.duplicate();
                proof {
                    assert(self@ =~= (WorldV { validator: validator.v(), ..old(self)@ }));
                }
                Ok(())
            },
        }
    }

    /// Credit a quantity to a balance entry, creating it when absent.
    fn deposit(&mut self, asset: &AssetId, amount: u64) -> (r: Result<
        (),
        RejectionReason,
    >)
        requires
            old(self)@.wf(),
        ensures
            final(self)@.wf(),
            match r {
                Ok(()) => deposit_v(old(self)@, asset.key(), amount) == Ok::<
                    WorldV,
                    RejectionReason,
                >(final(self)@),
                Err(e) => deposit_v(old(self)@, asset.key(), amount) == Err::<
                    WorldV,
                    RejectionReason,
                >(e) && final(self)@ == old(self)@,
            },
    {
        match self.find_asset(asset) {
            Some(i) => {
                proof {
                    lemma_asset_index(self@, asset.key(), i as int);
                }
                let q = self.assets[i].quantity;
                if amount > u64::MAX - q {
                    Err(RejectionReason::Overflow)
                } else {
                    let updated = Asset { id: self.assets[i].id.duplicate(), quantity: q + amount };
                    self.assets.set(i, updated);
                    proof {
                        assert(self@.assets =~= old(self)@.assets.update(
                            i as int,
                            AssetV { key: asset.key(), quantity: (q + amount) as u64 },
                        ));
                        assert(self@ =~= (WorldV { assets: self@.assets, ..old(self)@ }));
                    }
                    Ok(())
                }
            },
            None => {
                self.assets.push(Asset { id: asset.duplicate(), quantity: amount });
                proof {
                    assert(self@.assets =~= old(self)@.assets.push(
                        AssetV { key: asset.key(), quantity: amount },
                    ));
                    assert(self@ =~= (WorldV { assets: self@.assets, ..old(self)@ }));
                }
                Ok(())
            },
        }
    }

    /// Move a quantity between two balances of one definition.
    fn transfer(
        &mut self,
        source: &AccountId,
        destination: &AccountId,
        definition: &AssetDefinitionId,
        amount: u64,
    ) -> (r: Result<(), RejectionReason>)
        requires
            old(self)@.wf(),
        ensures
            final(self)@.wf(),
            match r {
                Ok(()) => transfer_v(
                    old(self)@,
                    definition.key(),
                    source.key(),
                    destination.key(),
                    amount,
                ) == Ok::<WorldV, RejectionReason>(final(self)@),
                Err(e) => transfer_v(
                    old(self)@,
                    definition.key(),
                    source.key(),
                    destination.key(),
                    amount,
                ) == Err::<WorldV, RejectionReason>(e) && final(self)@ == old(self)@,
            },
    {
        let src_id = AssetId { definition: definition.duplicate(), account: source.duplicate() };
        let dst_id = AssetId {
            definition: definition.duplicate(),
            account: destination.duplicate(),
        };
        let src_entry = self.find_asset(&src_id);
        let held: u64 = match src_entry {
            Some(i) => {
                proof {
                    lemma_asset_index(self@, src_id.key(), i as int);
                }
                self.assets[i].quantity
            },
            None => 0,
        };
        proof {
            assert(held == self@.asset_quantity(src_id.key()));
        }
        if held < amount {
            return Err(RejectionReason::InsufficientBalance);
        }
        if self.find_account(destination).is_none() {
            return Err(RejectionReason::AccountNotFound);
        }
        if amount == 0 {
            return Ok(());
        }
        let i = match src_entry {
            Some(i) => i,
            None => {
                proof {
                    assert(false);
                }
                0
            },
        };
        let updated = Asset { id: self.assets[i].id.duplicate(), quantity: held - amount };
        self.assets.set(i, updated);
        let ghost withdrawn = self@;
        proof {
            assert(self@.assets =~= old(self)@.assets.update(
                i as int,
                AssetV { key: src_id.key(), quantity: (held - amount) as u64 },
            ));
            assert(self@ =~= (WorldV { assets: self@.assets, ..old(self)@ }));
            assert(withdrawn.wf());
        }
        let r = self.deposit(&dst_id, amount);
        match r {
            Ok(()) => Ok(()),
            Err(e) => {
                // The deposit may refuse only on overflow of the receiving
                // balance; the transfer then reports the same reason, with
                // the withdrawal undone.
                proof {
                    assert(deposit_v(withdrawn, dst_id.key(), amount) == Err::<
                        WorldV,
                        RejectionReason,
                    >(e));
                }
                let ghost after_deposit = self@;
                proof {
                    assert(after_deposit == withdrawn);
                    assert(after_deposit.assets[i as int].key == src_id.key());
                    assert(self.assets@[i as int].v() == after_deposit.assets[i as int]);
                    assert(self.assets@[i as int].id.key() == src_id.key());
                }
                let restored = Asset { id: self.assets[i].id.duplicate(), quantity: held };
                let ghost rv = restored.v();
                proof {
                    assert(rv.key == src_id.key());
                    assert(rv == (AssetV { key: src_id.key(), quantity: held }));
                }
                self.assets.set(i, restored);
                proof {
                    assert(self@.assets =~= after_deposit.assets.update(i as int, rv));
                    assert(old(self)@.assets[i as int] == (AssetV {
                        key: src_id.key(),
                        quantity: held,
                    }));
                    assert(self@.assets =~= old(self)@.assets);
                    assert(self@ =~= old(self)@);
                }
                Err(e)
            },
        }
    }
}

} // verus!
