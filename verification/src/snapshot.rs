//! The canonical byte form of a world state snapshot: two equal world states
//! always serialize to identical bytes, which is what makes replay
//! idempotence observable.

use vstd::prelude::*;

use crate::block::{
    enc_qualified, enc_requirements, enc_str, enc_u64, enc_u64_seq, enc_validator, push_qualified,
    push_str, push_u64, push_u64_list, push_validator,
};
use crate::world::{AccountV, AssetV, GrantV, QualifiedKey, World, WorldV};

verus! {

/// Encoding of the domain list.
pub open spec fn enc_domains(domains: Seq<Seq<char>>) -> Seq<u8>
    decreases domains.len(),
{
    if domains.len() == 0 {
        Seq::empty()
    } else {
        enc_domains(domains.drop_last()) + enc_str(domains.last())
    }
}

/// Encoding of one account: its identity, keys and metadata pairs.
pub open spec fn enc_account(a: AccountV) -> Seq<u8> {
    enc_qualified(a.name, a.domain) + enc_u64(a.keys.len() as u64) + enc_u64_seq(a.keys)
        + enc_u64(a.metadata.len() as u64) + enc_metadata(a.metadata)
}

pub open spec fn enc_metadata(pairs: Seq<(Seq<char>, Seq<char>)>) -> Seq<u8>
    decreases pairs.len(),
{
    if pairs.len() == 0 {
        Seq::empty()
    } else {
        enc_metadata(pairs.drop_last()) + enc_str(pairs.last().0) + enc_str(pairs.last().1)
    }
}

pub open spec fn enc_accounts(accounts: Seq<AccountV>) -> Seq<u8>
    decreases accounts.len(),
{
    if accounts.len() == 0 {
        Seq::empty()
    } else {
        enc_accounts(accounts.drop_last()) + enc_account(accounts.last())
    }
}

pub open spec fn enc_definitions(defs: Seq<QualifiedKey>) -> Seq<u8>
    decreases defs.len(),
{
    if defs.len() == 0 {
        Seq::empty()
    } else {
        enc_definitions(defs.drop_last()) + enc_qualified(defs.last().0, defs.last().1)
    }
}

/// Encoding of one balance entry: definition, owner, quantity.
pub open spec fn enc_asset(a: AssetV) -> Seq<u8> {
    enc_qualified(a.key.0.0, a.key.0.1) + enc_qualified(a.key.1.0, a.key.1.1) + enc_u64(a.quantity)
}

pub open spec fn enc_assets(assets: Seq<AssetV>) -> Seq<u8>
    decreases assets.len(),
{
    if assets.len() == 0 {
        Seq::empty()
    } else {
        enc_assets(assets.drop_last()) + enc_asset(assets.last())
    }
}

/// Encoding of one grant: token, payload, grantee.
pub open spec fn enc_grant(g: GrantV) -> Seq<u8> {
    enc_str(g.token) + enc_str(g.payload) + enc_qualified(g.grantee.0, g.grantee.1)
}

pub open spec fn enc_grants(grants: Seq<GrantV>) -> Seq<u8>
    decreases grants.len(),
{
    if grants.len() == 0 {
        Seq::empty()
    } else {
        enc_grants(grants.drop_last()) + enc_grant(grants.last())
    }
}

pub open spec fn enc_parameters(params: Seq<(Seq<char>, u64)>) -> Seq<u8>
    decreases params.len(),
{
    if params.len() == 0 {
        Seq::empty()
    } else {
        enc_parameters(params.drop_last()) + enc_str(params.last().0) + enc_u64(params.last().1)
    }
}

/// The canonical byte form of a whole world state.
pub open spec fn enc_world(w: WorldV) -> Seq<u8> {
    enc_u64(w.domains.len() as u64) + enc_domains(w.domains) + enc_u64(w.accounts.len() as u64)
        + enc_accounts(w.accounts) + enc_u64(w.asset_definitions.len() as u64) + enc_definitions(
        w.asset_definitions,
    ) + enc_u64(w.assets.len() as u64) + enc_assets(w.assets) + enc_u64(w.grants.len() as u64)
        + enc_grants(w.grants) + enc_u64(w.parameters.len() as u64) + enc_parameters(w.parameters)
        + enc_u64(w.peers.len() as u64) + enc_u64_seq(w.peers) + enc_validator(w.validator)
}

/// Serialize a world state snapshot: equal states give identical bytes.
pub fn encode_world(w: &World) -> (r: Vec<u8>)
    ensures
        r@ == enc_world(w@),
{
    let mut out: Vec<u8> = Vec::new();
    push_u64(&mut out, w.domains.len() as u64);
    let ghost mid_domains = out@;
    let mut i: usize = 0;
    while i < w.domains.len()
        invariant
            i <= w.domains.len(),
            out@ == mid_domains + enc_domains(w@.domains.take(i as int)),
        decreases w.domains.len() - i,
    {
        push_str(&mut out, &w.domains[i]);
        proof {
            assert(w@.domains.take(i as int + 1).drop_last() =~= w@.domains.take(i as int));
            assert(w@.domains.take(i as int + 1).last() == w@.domains[i as int]);
            assert(out@ =~= mid_domains + enc_domains(w@.domains.take(i as int + 1)));
        }
        i += 1;
    }
    proof {
        assert(w@.domains.take(w@.domains.len() as int) =~= w@.domains);
    }
    push_u64(&mut out, w.accounts.len() as u64);
    let ghost mid_accounts = out@;
    let mut i: usize = 0;
    while i < w.accounts.len()
        invariant
            i <= w.accounts.len(),
            out@ == mid_accounts + enc_accounts(w@.accounts.take(i as int)),
        decreases w.accounts.len() - i,
    {
        let a = &w.accounts[i];
        push_qualified(&mut out, &a.id.name, &a.id.domain);
        push_u64_list(&mut out, &a.keys);
        push_u64(&mut out, a.metadata.len() as u64);
        let ghost av = w@.accounts[i as int];
        let ghost mid_meta = out@;
        let mut k: usize = 0;
        while k < a.metadata.len()
            invariant
                k <= a.metadata.len(),
                av == w@.accounts[i as int],
                a == &w.accounts[i as int],
                i < w.accounts@.len(),
                out@ == mid_meta + enc_metadata(av.metadata.take(k as int)),
            decreases a.metadata.len() - k,
        {
            push_str(&mut out, &a.metadata[k].0);
            push_str(&mut out, &a.metadata[k].1);
            proof {
                assert(av.metadata.take(k as int + 1).drop_last() =~= av.metadata.take(k as int));
                assert(av.metadata.take(k as int + 1).last() == av.metadata[k as int]);
                assert(out@ =~= mid_meta + enc_metadata(av.metadata.take(k as int + 1)));
            }
            k += 1;
        }
        proof {
            assert(av.metadata.take(av.metadata.len() as int) =~= av.metadata);
            assert(w@.accounts.take(i as int + 1).drop_last() =~= w@.accounts.take(i as int));
            assert(w@.accounts.take(i as int + 1).last() == w@.accounts[i as int]);
            assert(out@ =~= mid_accounts + enc_accounts(w@.accounts.take(i as int + 1)));
        }
        i += 1;
    }
    proof {
        assert(w@.accounts.take(w@.accounts.len() as int) =~= w@.accounts);
    }
    push_u64(&mut out, w.asset_definitions.len() as u64);
    let ghost mid_defs = out@;
    let mut i: usize = 0;
    while i < w.asset_definitions.len()
        invariant
            i <= w.asset_definitions.len(),
            out@ == mid_defs + enc_definitions(w@.asset_definitions.take(i as int)),
        decreases w.asset_definitions.len() - i,
    {
        push_qualified(&mut out, &w.asset_definitions[i].name, &w.asset_definitions[i].domain);
        proof {
            assert(w@.asset_definitions.take(i as int + 1).drop_last() =~= w@.asset_definitions.take(
                i as int,
            ));
            assert(w@.asset_definitions.take(i as int + 1).last()
                == w@.asset_definitions[i as int]);
            assert(out@ =~= mid_defs + enc_definitions(w@.asset_definitions.take(i as int + 1)));
        }
        i += 1;
    }
    proof {
        assert(w@.asset_definitions.take(w@.asset_definitions.len() as int)
            =~= w@.asset_definitions);
    }
    push_u64(&mut out, w.assets.len() as u64);
    let ghost mid_assets = out@;
    let mut i: usize = 0;
    while i < w.assets.len()
        invariant
            i <= w.assets.len(),
            out@ == mid_assets + enc_assets(w@.assets.take(i as int)),
        decreases w.assets.len() - i,
    {
        let a = &w.assets[i];
        push_qualified(&mut out, &a.id.definition.name, &a.id.definition.domain);
        push_qualified(&mut out, &a.id.account.name, &a.id.account.domain);
        push_u64(&mut out, a.quantity);
        proof {
            assert(w@.assets.take(i as int + 1).drop_last() =~= w@.assets.take(i as int));
            assert(w@.assets.take(i as int + 1).last() == w@.assets[i as int]);
            assert(out@ =~= mid_assets + enc_assets(w@.assets.take(i as int + 1)));
        }
        i += 1;
    }
    proof {
        assert(w@.assets.take(w@.assets.len() as int) =~= w@.assets);
    }
    push_u64(&mut out, w.grants.len() as u64);
    let ghost mid_grants = out@;
    let mut i: usize = 0;
    while i < w.grants.len()
        invariant
            i <= w.grants.len(),
            out@ == mid_grants + enc_grants(w@.grants.take(i as int)),
        decreases w.grants.len() - i,
    {
        let g = &w.grants[i];
        push_str(&mut out, &g.token);
        push_str(&mut out, &g.payload);
        push_qualified(&mut out, &g.grantee.name, &g.grantee.domain);
        proof {
            assert(w@.grants.take(i as int + 1).drop_last() =~= w@.grants.take(i as int));
            assert(w@.grants.take(i as int + 1).last() == w@.grants[i as int]);
            assert(out@ =~= mid_grants + enc_grants(w@.grants.take(i as int + 1)));
        }
        i += 1;
    }
    proof {
        assert(w@.grants.take(w@.grants.len() as int) =~= w@.grants);
    }
    push_u64(&mut out, w.parameters.len() as u64);
    let ghost mid_params = out@;
    let mut i: usize = 0;
    while i < w.parameters.len()
        invariant
            i <= w.parameters.len(),
            out@ == mid_params + enc_parameters(w@.parameters.take(i as int)),
        decreases w.parameters.len() - i,
    {
        push_str(&mut out, &w.parameters[i].name);
        push_u64(&mut out, w.parameters[i].value);
        proof {
            assert(w@.parameters.take(i as int + 1).drop_last() =~= w@.parameters.take(i as int));
            assert(w@.parameters.take(i as int + 1).last() == w@.parameters[i as int]);
            assert(out@ =~= mid_params + enc_parameters(w@.parameters.take(i as int + 1)));
        }
        i += 1;
    }
    proof {
        assert(w@.parameters.take(w@.parameters.len() as int) =~= w@.parameters);
    }
    push_u64_list(&mut out, &w.peers);
    push_validator(&mut out, &w.validator);
    proof {
        assert(out@ =~= enc_world(w@));
    }
    out
}

} // verus!
