use crate::account_info::AccountInfo;
use crate::pubkey::Pubkey;
use crate::scope::Scope;
use vstd::prelude::*;
use vstd::string::StringExecFns;

verus! {

broadcast use crate::pubkey::lemma_pubkey_len;

/// Records one program log line.
pub fn sol_log(message: &str, scope: &mut Scope)
    ensures
        final(scope).metas == old(scope).metas,
        final(scope).settings == old(scope).settings,
        final(scope).receipt.result == old(scope).receipt.result,
        final(scope).receipt.call_stack == old(scope).receipt.call_stack,
        final(scope).receipt.log_datas == old(scope).receipt.log_datas,
        final(scope).receipt.return_data == old(scope).receipt.return_data,
        crate::receipt::spec_log_prefix(old(scope).receipt, final(scope).receipt),
        final(scope).receipt.spec_contains_log("Program logged: \""@ + message@ + "\""@),
{
    scope.sol_log(message);
    proof {
        let logs = final(scope).receipt.log_messages@;
        assert(logs[logs.len() - 1]@ == "Program logged: \""@ + message@ + "\""@);
    }
}

/// Records five numbers, rendered in hexadecimal, as one log line.
pub fn sol_log_64(arg1: u64, arg2: u64, arg3: u64, arg4: u64, arg5: u64, scope: &mut Scope)
    ensures
        final(scope).metas == old(scope).metas,
        final(scope).settings == old(scope).settings,
        final(scope).receipt.result == old(scope).receipt.result,
        final(scope).receipt.call_stack == old(scope).receipt.call_stack,
        final(scope).receipt.log_datas == old(scope).receipt.log_datas,
        final(scope).receipt.return_data == old(scope).receipt.return_data,
        crate::receipt::spec_log_prefix(old(scope).receipt, final(scope).receipt),
{
    scope.sol_log_64(arg1, arg2, arg3, arg4, arg5);
}

/// Records a data tuple under the active program.
pub fn sol_log_data(data: &Vec<Vec<u8>>, scope: &mut Scope)
    requires
        old(scope).spec_depth() > 0,
    ensures
        final(scope).metas == old(scope).metas,
        final(scope).settings == old(scope).settings,
        final(scope).receipt.result == old(scope).receipt.result,
        final(scope).receipt.call_stack == old(scope).receipt.call_stack,
        final(scope).receipt.return_data == old(scope).receipt.return_data,
        crate::receipt::spec_log_prefix(old(scope).receipt, final(scope).receipt),
        final(scope).receipt.spec_contains_data(
            old(scope).receipt.call_stack@.last()@,
            data.deep_view(),
        ),
        final(scope).receipt.spec_contains_log(crate::scope::spec_data_line(data.deep_view())),
{
    scope.sol_log_data(data);
    proof {
        let datas = final(scope).receipt.log_datas@;
        assert(datas[datas.len() - 1].0@ == old(scope).receipt.call_stack@.last()@);
        let logs = final(scope).receipt.log_messages@;
        assert(logs[logs.len() - 1]@ == crate::scope::spec_data_line(data.deep_view()));
    }
}

/// Logs every byte of a slice, one line each.
pub fn sol_log_slice(slice: &Vec<u8>, scope: &mut Scope)
    ensures
        final(scope).metas == old(scope).metas,
        final(scope).settings == old(scope).settings,
        final(scope).receipt.result == old(scope).receipt.result,
        final(scope).receipt.call_stack == old(scope).receipt.call_stack,
        final(scope).receipt.log_datas == old(scope).receipt.log_datas,
        final(scope).receipt.return_data == old(scope).receipt.return_data,
        crate::receipt::spec_log_prefix(old(scope).receipt, final(scope).receipt),
{
    let n = slice.len();
    let mut i: usize = 0;
    while i < n
        invariant
            n == slice@.len(),
            0 <= i <= n,
            scope.metas == old(scope).metas,
            scope.settings == old(scope).settings,
            scope.receipt.result == old(scope).receipt.result,
            scope.receipt.call_stack == old(scope).receipt.call_stack,
            scope.receipt.log_datas == old(scope).receipt.log_datas,
            scope.receipt.return_data == old(scope).receipt.return_data,
            crate::receipt::spec_log_prefix(old(scope).receipt, scope.receipt),
        decreases n - i,
    {
        sol_log_64(0, 0, 0, i as u64, slice[i] as u64, scope);
        i += 1;
    }
}

/// Logs each account's flags, key, balance, data length and owner, then
/// the instruction bytes.
pub fn sol_log_params(accounts: &Vec<AccountInfo>, data: &Vec<u8>, scope: &mut Scope)
    requires
        forall|i: int|
            0 <= i < accounts@.len() ==> old(scope).spec_valid_info(#[trigger] accounts@[i]),
    ensures
        final(scope).metas == old(scope).metas,
        final(scope).settings == old(scope).settings,
        final(scope).receipt.result == old(scope).receipt.result,
        final(scope).receipt.call_stack == old(scope).receipt.call_stack,
        final(scope).receipt.log_datas == old(scope).receipt.log_datas,
        final(scope).receipt.return_data == old(scope).receipt.return_data,
        crate::receipt::spec_log_prefix(old(scope).receipt, final(scope).receipt),
{
    let n = accounts.len();
    let mut i: usize = 0;
    while i < n
        invariant
            n == accounts@.len(),
            0 <= i <= n,
            forall|j: int|
                0 <= j < accounts@.len() ==> old(scope).spec_valid_info(#[trigger] accounts@[j]),
            scope.metas == old(scope).metas,
            scope.settings == old(scope).settings,
            scope.receipt.result == old(scope).receipt.result,
            scope.receipt.call_stack == old(scope).receipt.call_stack,
            scope.receipt.log_datas == old(scope).receipt.log_datas,
            scope.receipt.return_data == old(scope).receipt.return_data,
            crate::receipt::spec_log_prefix(old(scope).receipt, scope.receipt),
        decreases n - i,
    {
        let info = &accounts[i];
        sol_log("AccountInfo", scope);
        sol_log_64(0, 0, 0, 0, i as u64, scope);
        sol_log("- Is signer", scope);
        sol_log_64(0, 0, 0, 0, if info.is_signer { 1 } else { 0 }, scope);
        sol_log("- Key", scope);
        info.key.log(scope);
        sol_log("- Lamports", scope);
        sol_log_64(0, 0, 0, 0, info.lamports(scope), scope);
        sol_log("- Account data length", scope);
        sol_log_64(0, 0, 0, 0, info.data_len(scope) as u64, scope);
        sol_log("- Owner", scope);
        let owner = info.owner(scope);
        owner.log(scope);
        i += 1;
    }
    sol_log("Instruction data", scope);
    sol_log_slice(data, scope);
}

/// Records the fixed line the runtime prints for a compute-unit query.
pub fn sol_log_compute_units(scope: &mut Scope)
    ensures
        final(scope).metas == old(scope).metas,
        final(scope).settings == old(scope).settings,
        final(scope).receipt.result == old(scope).receipt.result,
        final(scope).receipt.call_stack == old(scope).receipt.call_stack,
        final(scope).receipt.log_datas == old(scope).receipt.log_datas,
        final(scope).receipt.return_data == old(scope).receipt.return_data,
        crate::receipt::spec_log_prefix(old(scope).receipt, final(scope).receipt),
{
    scope.sol_log_compute_units();
}

impl Pubkey {
    /// Logs this id in base58.
    pub fn log(&self, scope: &mut Scope)
        ensures
            final(scope).metas == old(scope).metas,
            final(scope).settings == old(scope).settings,
            final(scope).receipt.result == old(scope).receipt.result,
            final(scope).receipt.call_stack == old(scope).receipt.call_stack,
            final(scope).receipt.log_datas == old(scope).receipt.log_datas,
            final(scope).receipt.return_data == old(scope).receipt.return_data,
            crate::receipt::spec_log_prefix(old(scope).receipt, final(scope).receipt),
    {
        let b58 = self.to_base58();
        scope.sol_log(b58.as_str());
    }
}

} // verus!
