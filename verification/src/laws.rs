use crate::account_info::AccountInfo;
use crate::instruction::AccountMeta;
use crate::invoke::{spec_account_ok, spec_find_info, spec_views_ok};
use crate::pubkey::spec_try_find_program_address;
use crate::scope::Scope;
use vstd::prelude::*;

verus! {

broadcast use crate::pubkey::lemma_pubkey_len;

/// Determinism: address derivation is a pure function of the seeds and
/// the program id — two derivations from identical inputs agree.
pub proof fn lemma_derive_deterministic(
    seeds: Seq<Seq<u8>>,
    program_id: Seq<u8>,
    r1: Option<(Seq<u8>, u8)>,
    r2: Option<(Seq<u8>, u8)>,
)
    requires
        r1 == spec_try_find_program_address(seeds, program_id),
        r2 == spec_try_find_program_address(seeds, program_id),
    ensures
        r1 == r2,
{
}

/// Privilege monotonicity, writable side: an admitted declaration that
/// asks for a writable view names an account whose view in the caller is
/// itself writable — writable privilege is never escalated, whatever the
/// instruction asked for.
pub proof fn lemma_privilege_monotonicity(
    infos: Seq<AccountInfo>,
    m: AccountMeta,
    signed: Option<Seq<u8>>,
)
    requires
        spec_account_ok(infos, m, signed),
        m.is_writable,
    ensures
        spec_find_info(infos, m.pubkey@) matches Some(i) && infos[i].is_writable,
{
}

/// Privilege monotonicity, signer side: an admitted declaration that
/// asks for a signing view names an account whose caller view signs, or
/// whose id is exactly the seed-derived key — signing authority comes
/// only from a parent signature or a verified derivation.
pub proof fn lemma_signer_escalation_needs_derived_key(
    infos: Seq<AccountInfo>,
    m: AccountMeta,
    signed: Option<Seq<u8>>,
)
    requires
        spec_account_ok(infos, m, signed),
        m.is_signer,
    ensures
        spec_find_info(infos, m.pubkey@) matches Some(i) && (infos[i].is_signer || signed == Some(
            m.pubkey@,
        )),
{
}

/// The per-account rule extended to a whole admitted declaration list.
pub proof fn lemma_views_privilege_monotonic(
    infos: Seq<AccountInfo>,
    metas: Seq<AccountMeta>,
    signed: Option<Seq<u8>>,
    k: int,
)
    requires
        spec_views_ok(infos, metas, signed),
        0 <= k < metas.len(),
    ensures
        metas[k].is_writable ==> (spec_find_info(infos, metas[k].pubkey@) matches Some(i)
            && infos[i].is_writable),
        metas[k].is_signer ==> (spec_find_info(infos, metas[k].pubkey@) matches Some(i) && (
        infos[i].is_signer || signed == Some(metas[k].pubkey@))),
{
    assert(spec_account_ok(infos, metas[k], signed));
}

/// The rent gate is repeatable: its verdict depends only on the touched
/// accounts' balances and data sizes and on the cluster parameters, so
/// over unchanged accounts it comes out the same every time.
pub proof fn lemma_gate_deterministic(a: Scope, b: Scope, accounts: Seq<AccountInfo>)
    requires
        a.settings == b.settings,
        forall|k: int|
            0 <= k < accounts.len() ==> {
                &&& (#[trigger] accounts[k]).index < a.spec_len()
                &&& accounts[k].index < b.spec_len()
                &&& a.metas@[accounts[k].index as int].1.lamports
                    == b.metas@[accounts[k].index as int].1.lamports
                &&& a.metas@[accounts[k].index as int].1.data@.len()
                    == b.metas@[accounts[k].index as int].1.data@.len()
            },
    ensures
        (forall|k: int|
            0 <= k < accounts.len() ==> a.spec_rent_exempt_entry(
                (#[trigger] accounts[k]).index as int,
            )) <==> (forall|k: int|
            0 <= k < accounts.len() ==> b.spec_rent_exempt_entry(
                (#[trigger] accounts[k]).index as int,
            )),
{
    assert forall|k: int|
        0 <= k < accounts.len() implies (a.spec_rent_exempt_entry(
        (#[trigger] accounts[k]).index as int,
    ) <==> b.spec_rent_exempt_entry(accounts[k].index as int)) by {
        assert(a.metas@[accounts[k].index as int].1.lamports == b.metas@[accounts[
            k].index as int].1.lamports);
    }
}

} // verus!
