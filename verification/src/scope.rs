use crate::account::Meta;
use crate::account_info::AccountInfo;
use crate::cluster_settings::{spec_minimum_balance, Clock, ClusterSettings, Rent};
use crate::errors::{ProgramError, ProgramResult};
use crate::pubkey::{clone_bytes, Pubkey};
use crate::receipt::Receipt;
use base64::Engine;
use vstd::prelude::*;
use vstd::string::StringExecFns;

verus! {

broadcast use crate::pubkey::lemma_pubkey_len;

/// The most bytes a program may hand back as return data.
pub const MAX_RETURN_DATA: usize = 1024;

/// The hard bound on the call stack.
pub const MAX_CALL_DEPTH: usize = 4;

/// The base64 rendering of a byte string.
pub uninterp spec fn base64_of(bytes: Seq<u8>) -> Seq<char>;

/// The log line recorded for a data tuple: the fixed prefix, then each
/// chunk base64-rendered.
pub open spec fn spec_data_line(chunks: Seq<Seq<u8>>) -> Seq<char>
    decreases chunks.len(),
{
    if chunks.len() == 0 {
        "Program data:"@
    } else {
        spec_data_line(chunks.drop_last()) + " "@ + base64_of(chunks.last())
    }
}

/// Relies on base64's standard engine: the text is a pure function of the bytes.
#[verifier::external_body]
fn base64_encode(bytes: &[u8]) -> (r: String)
    ensures
        r@ == base64_of(bytes@),
{
    base64::prelude::BASE64_STANDARD.encode(bytes)
}

/// Looks an id up in a record list.
fn find_key(store: &Vec<(Pubkey, Meta)>, key: &Pubkey) -> (r: Option<usize>)
    ensures
        match r {
            Some(i) => i < store@.len() && store@[i as int].0@ == key@,
            None => forall|i: int| 0 <= i < store@.len() ==> (#[trigger] store@[i]).0@ != key@,
        },
{
    let n = store.len();
    let mut i: usize = 0;
    while i < n
        invariant
            n == store@.len(),
            0 <= i <= n,
            forall|j: int| 0 <= j < i ==> (#[trigger] store@[j]).0@ != key@,
        decreases n - i,
    {
        let entry_key: &Pubkey = &store[i].0;
        if entry_key.eq(key) {
            return Some(i);
        }
        i += 1;
    }
    None
}

/// The execution context of one top-level call tree: the shared account
/// store (the working set), the receipt under construction, and the
/// cluster parameters. There is one store and one call stack per call
/// tree; every nested call re-enters this scope.
#[derive(Debug)]
pub struct Scope {
    pub metas: Vec<(Pubkey, Meta)>,
    pub receipt: Receipt,
    pub settings: ClusterSettings,
}

/// What no call may change about a scope: which accounts exist, their
/// order, their executability and packages, their top-level flags, and
/// the cluster parameters.
pub open spec fn spec_same_shape(a: Scope, b: Scope) -> bool {
    &&& b.spec_len() == a.spec_len()
    &&& forall|i: int|
        0 <= i < a.spec_len() ==> {
            &&& (#[trigger] b.metas@[i]).0 == a.metas@[i].0
            &&& b.metas@[i].1.executable == a.metas@[i].1.executable
            &&& b.metas@[i].1.package == a.metas@[i].1.package
            &&& b.metas@[i].1.is_signer == a.metas@[i].1.is_signer
            &&& b.metas@[i].1.is_writable == a.metas@[i].1.is_writable
        }
    &&& b.settings == a.settings
}

/// Whether some entry of `store` carries `key`.
pub open spec fn spec_key_in(key: Seq<u8>, store: Seq<(Pubkey, Meta)>) -> bool {
    exists|i: int| 0 <= i < store.len() && key == (#[trigger] store[i]).0@
}

/// Whether `entry` is, among the first `upto` supplied records, the last
/// one under its id.
pub open spec fn spec_entry_last_upto(
    entry: (Pubkey, Meta),
    inputs: Seq<(Pubkey, Meta)>,
    upto: int,
) -> bool {
    exists|j: int|
        0 <= j < upto && entry == #[trigger] inputs[j] && (forall|j2: int|
            j < j2 < upto ==> (#[trigger] inputs[j2]).0@ != entry.0@)
}

/// Whether `entry` is the last record supplied under its id.
pub open spec fn spec_entry_from_last(entry: (Pubkey, Meta), inputs: Seq<(Pubkey, Meta)>) -> bool {
    spec_entry_last_upto(entry, inputs, inputs.len() as int)
}

impl Scope {
    /// Number of accounts in the working set.
    pub open spec fn spec_len(self) -> nat {
        self.metas@.len()
    }

    /// The current call depth.
    pub open spec fn spec_depth(self) -> nat {
        self.receipt.call_stack@.len()
    }

    /// No two entries share an id.
    pub open spec fn spec_keys_unique(self) -> bool {
        forall|i: int, j: int|
            0 <= i < j < self.spec_len() ==> (#[trigger] self.metas@[i]).0@ != (
            #[trigger] self.metas@[j]).0@
    }

    /// The scope's standing invariant: unique ids, exactly the executable
    /// entries carry a package, and sane cluster parameters.
    pub open spec fn spec_wf(self) -> bool {
        &&& self.spec_keys_unique()
        &&& self.settings.spec_wf()
        &&& forall|i: int|
            0 <= i < self.spec_len() ==> ((#[trigger] self.metas@[i]).1.executable <==> self.metas@[i].1.package is Some)
    }

    /// Whether `info` is a view into this scope's store: its index is in
    /// range and agrees with the entry's id and executability.
    pub open spec fn spec_valid_info(self, info: AccountInfo) -> bool {
        &&& info.index < self.spec_len()
        &&& self.metas@[info.index as int].0@ == info.key@
        &&& info.executable == self.metas@[info.index as int].1.executable
    }

    /// Whether entry `i` holds at least the rent-exempt minimum for its
    /// current data size.
    pub open spec fn spec_rent_exempt_entry(self, i: int) -> bool {
        self.metas@[i].1.lamports as nat >= spec_minimum_balance(
            self.settings.lamports_per_byte_year,
            self.settings.exemption_threshold,
            self.metas@[i].1.data@.len(),
        )
    }

    /// A fresh scope over the given records; a later record under an id
    /// already seen replaces the earlier one, and the receipt is empty.
    pub fn new(metas: Vec<(Pubkey, Meta)>) -> (r: Scope)
        requires
            forall|j: int|
                0 <= j < metas@.len() ==> ((#[trigger] metas@[j]).1.executable
                    <==> metas@[j].1.package is Some),
        ensures
            r.spec_wf(),
            r.spec_depth() == 0,
            r.receipt.result is Ok,
            r.receipt.log_messages@.len() == 0,
            r.spec_len() <= metas@.len(),
            forall|j: int|
                0 <= j < metas@.len() ==> spec_key_in((#[trigger] metas@[j]).0@, r.metas@),
            forall|i: int|
                0 <= i < r.spec_len() ==> spec_entry_from_last(#[trigger] r.metas@[i], metas@),
    {
        let ghost all = metas@;
        let mut store: Vec<(Pubkey, Meta)> = Vec::new();
        let mut source = metas;
        proof {
            assert(source@ =~= all.subrange(all.len() - source@.len(), all.len() as int));
        }
        while source.len() > 0
            invariant
                source@.len() <= all.len(),
                source@ == all.subrange(all.len() - source@.len(), all.len() as int),
                forall|j: int|
                    0 <= j < all.len() ==> ((#[trigger] all[j]).1.executable <==> all[j].1.package is Some),
                forall|i: int, j: int|
                    0 <= i < j < store@.len() ==> (#[trigger] store@[i]).0@ != (
                    #[trigger] store@[j]).0@,
                forall|i: int|
                    0 <= i < store@.len() ==> ((#[trigger] store@[i]).1.executable
                        <==> store@[i].1.package is Some),
                store@.len() <= all.len() - source@.len(),
                forall|j: int|
                    0 <= j < all.len() - source@.len() ==> spec_key_in(
                        (#[trigger] all[j]).0@,
                        store@,
                    ),
                forall|i: int|
                    0 <= i < store@.len() ==> spec_entry_last_upto(
                        #[trigger] store@[i],
                        all,
                        all.len() - source@.len(),
                    ),
            decreases source@.len(),
        {
            let ghost pre_store = store@;
            let ghost processed = all.len() - source@.len();
            let entry = source.remove(0);
            proof {
                assert(entry == all[processed]);
                assert(source@ =~= all.subrange(all.len() - source@.len(), all.len() as int));
            }
            match find_key(&store, &entry.0) {
                Some(i) => {
                    let ghost e = entry;
                    store[i] = entry;
                    proof {
                        assert forall|j: int| 0 <= j < processed + 1 implies spec_key_in(
                            (#[trigger] all[j]).0@,
                            store@,
                        ) by {
                            if j < processed {
                                let w = choose|w: int|
                                    0 <= w < pre_store.len() && all[j].0@ == (
                                    #[trigger] pre_store[w]).0@;
                                assert(store@[w].0@ == all[j].0@);
                            } else {
                                assert(store@[i as int].0@ == all[j].0@);
                            }
                        }
                        assert forall|i2: int| 0 <= i2 < store@.len() implies spec_entry_last_upto(
                            #[trigger] store@[i2],
                            all,
                            processed + 1,
                        ) by {
                            if i2 == i {
                                assert(store@[i2] == all[processed]);
                                assert(0 <= processed < processed + 1 && store@[i2]
                                    == all[processed] && (forall|j2: int|
                                    processed < j2 < processed + 1 ==> (#[trigger] all[j2]).0@
                                        != store@[i2].0@));
                            } else {
                                assert(spec_entry_last_upto(pre_store[i2], all, processed));
                                let w = choose|w: int|
                                    0 <= w < processed && pre_store[i2] == #[trigger] all[w] && (
                                    forall|j2: int|
                                        w < j2 < processed ==> (#[trigger] all[j2]).0@
                                            != pre_store[i2].0@);
                                assert(store@[i2] == pre_store[i2]);
                                assert(pre_store[i as int].0@ == e.0@);
                                assert(pre_store[i2].0@ != e.0@);
                                assert(all[processed].0@ != store@[i2].0@);
                                assert(0 <= w < processed + 1 && store@[i2] == all[w] && (forall|
                                    j2: int,
                                |
                                    w < j2 < processed + 1 ==> (#[trigger] all[j2]).0@
                                        != store@[i2].0@));
                            }
                        }
                    }
                },
                None => {
                    let ghost e = entry;
                    store.push(entry);
                    proof {
                        assert forall|j: int| 0 <= j < processed + 1 implies spec_key_in(
                            (#[trigger] all[j]).0@,
                            store@,
                        ) by {
                            if j < processed {
                                let w = choose|w: int|
                                    0 <= w < pre_store.len() && all[j].0@ == (
                                    #[trigger] pre_store[w]).0@;
                                assert(store@[w].0@ == all[j].0@);
                            } else {
                                assert(store@[store@.len() - 1].0@ == all[j].0@);
                            }
                        }
                        assert forall|i2: int| 0 <= i2 < store@.len() implies spec_entry_last_upto(
                            #[trigger] store@[i2],
                            all,
                            processed + 1,
                        ) by {
                            if i2 == store@.len() - 1 {
                                assert(store@[i2] == all[processed]);
                                assert(0 <= processed < processed + 1 && store@[i2]
                                    == all[processed] && (forall|j2: int|
                                    processed < j2 < processed + 1 ==> (#[trigger] all[j2]).0@
                                        != store@[i2].0@));
                            } else {
                                assert(spec_entry_last_upto(pre_store[i2], all, processed));
                                let w = choose|w: int|
                                    0 <= w < processed && pre_store[i2] == #[trigger] all[w] && (
                                    forall|j2: int|
                                        w < j2 < processed ==> (#[trigger] all[j2]).0@
                                            != pre_store[i2].0@);
                                assert(store@[i2] == pre_store[i2]);
                                assert(pre_store[i2].0@ != e.0@);
                                assert(all[processed].0@ != store@[i2].0@);
                                assert(0 <= w < processed + 1 && store@[i2] == all[w] && (forall|
                                    j2: int,
                                |
                                    w < j2 < processed + 1 ==> (#[trigger] all[j2]).0@
                                        != store@[i2].0@));
                            }
                        }
                    }
                },
            }
        }
        Scope { metas: store, receipt: Receipt::new(), settings: ClusterSettings::new() }
    }

    /// Looks an id up in the store.
    pub fn find_index(&self, key: &Pubkey) -> (r: Option<usize>)
        ensures
            match r {
                Some(i) => i < self.spec_len() && self.metas@[i as int].0@ == key@,
                None => forall|i: int|
                    0 <= i < self.spec_len() ==> (#[trigger] self.metas@[i]).0@ != key@,
            },
    {
        let n = self.metas.len();
        let mut i: usize = 0;
        while i < n
            invariant
                n == self.spec_len(),
                0 <= i <= n,
                forall|j: int| 0 <= j < i ==> (#[trigger] self.metas@[j]).0@ != key@,
            decreases n - i,
        {
            let entry_key: &Pubkey = &self.metas[i].0;
            if entry_key.eq(key) {
                return Some(i);
            }
            i += 1;
        }
        None
    }

    /// The balance of entry `index`.
    pub fn lamports_at(&self, index: usize) -> (r: u64)
        requires
            index < self.spec_len(),
        ensures
            r == self.metas@[index as int].1.lamports,
    {
        self.metas[index].1.lamports
    }

    /// The owner of entry `index`.
    pub fn owner_at(&self, index: usize) -> (r: Pubkey)
        requires
            index < self.spec_len(),
        ensures
            r == self.metas@[index as int].1.owner,
    {
        self.metas[index].1.owner.clone()
    }

    /// The data of entry `index`.
    pub fn data_at(&self, index: usize) -> (r: &Vec<u8>)
        requires
            index < self.spec_len(),
        ensures
            r@ == self.metas@[index as int].1.data@,
    {
        &self.metas[index].1.data
    }

    /// The package of entry `index`, for executable entries.
    pub fn package_at(&self, index: usize) -> (r: Option<crate::package::Package>)
        requires
            index < self.spec_len(),
        ensures
            r == self.metas@[index as int].1.package,
    {
        self.metas[index].1.package
    }

    /// The data length of entry `index`.
    pub fn data_len_at(&self, index: usize) -> (r: usize)
        requires
            index < self.spec_len(),
        ensures
            r == self.metas@[index as int].1.data@.len(),
    {
        self.metas[index].1.data.len()
    }

    /// Sets the balance of entry `index`.
    pub fn set_lamports_at(&mut self, index: usize, lamports: u64)
        requires
            index < old(self).spec_len(),
        ensures
            final(self).spec_len() == old(self).spec_len(),
            forall|i: int|
                0 <= i < old(self).spec_len() && i != index ==> #[trigger] final(self).metas@[i]
                    == old(self).metas@[i],
            final(self).metas@[index as int].0 == old(self).metas@[index as int].0,
            final(self).metas@[index as int].1.lamports == lamports,
            final(self).metas@[index as int].1.owner == old(self).metas@[index as int].1.owner,
            final(self).metas@[index as int].1.data == old(self).metas@[index as int].1.data,
            final(self).metas@[index as int].1.is_signer == old(self).metas@[index as int].1.is_signer,
            final(self).metas@[index as int].1.is_writable == old(self).metas@[index as int].1.is_writable,
            final(self).metas@[index as int].1.executable == old(self).metas@[index as int].1.executable,
            final(self).metas@[index as int].1.package == old(self).metas@[index as int].1.package,
            final(self).receipt == old(self).receipt,
            final(self).settings == old(self).settings,
    {
        self.metas[index].1.lamports = lamports;
    }

    /// Sets the owner of entry `index`.
    pub fn set_owner_at(&mut self, index: usize, owner: &Pubkey)
        requires
            index < old(self).spec_len(),
        ensures
            final(self).spec_len() == old(self).spec_len(),
            forall|i: int|
                0 <= i < old(self).spec_len() && i != index ==> #[trigger] final(self).metas@[i]
                    == old(self).metas@[i],
            final(self).metas@[index as int].0 == old(self).metas@[index as int].0,
            final(self).metas@[index as int].1.lamports == old(self).metas@[index as int].1.lamports,
            final(self).metas@[index as int].1.owner == *owner,
            final(self).metas@[index as int].1.data == old(self).metas@[index as int].1.data,
            final(self).metas@[index as int].1.is_signer == old(self).metas@[index as int].1.is_signer,
            final(self).metas@[index as int].1.is_writable == old(self).metas@[index as int].1.is_writable,
            final(self).metas@[index as int].1.executable == old(self).metas@[index as int].1.executable,
            final(self).metas@[index as int].1.package == old(self).metas@[index as int].1.package,
            final(self).receipt == old(self).receipt,
            final(self).settings == old(self).settings,
    {
        self.metas[index].1.owner = owner.clone();
    }

    /// Replaces the data of entry `index`.
    pub fn set_data_at(&mut self, index: usize, data: Vec<u8>)
        requires
            index < old(self).spec_len(),
        ensures
            final(self).spec_len() == old(self).spec_len(),
            forall|i: int|
                0 <= i < old(self).spec_len() && i != index ==> #[trigger] final(self).metas@[i]
                    == old(self).metas@[i],
            final(self).metas@[index as int].0 == old(self).metas@[index as int].0,
            final(self).metas@[index as int].1.lamports == old(self).metas@[index as int].1.lamports,
            final(self).metas@[index as int].1.owner == old(self).metas@[index as int].1.owner,
            final(self).metas@[index as int].1.data == data,
            final(self).metas@[index as int].1.is_signer == old(self).metas@[index as int].1.is_signer,
            final(self).metas@[index as int].1.is_writable == old(self).metas@[index as int].1.is_writable,
            final(self).metas@[index as int].1.executable == old(self).metas@[index as int].1.executable,
            final(self).metas@[index as int].1.package == old(self).metas@[index as int].1.package,
            final(self).receipt == old(self).receipt,
            final(self).settings == old(self).settings,
    {
        self.metas[index].1.data = data;
    }

    /// The current stack height seen by a program: its own frame counts.
    pub fn get_stack_height(&self) -> (r: usize)
        requires
            self.spec_depth() < usize::MAX,
        ensures
            r == self.spec_depth() + 1,
    {
        self.receipt.call_stack.len() + 1
    }

    /// The id of the program currently executing.
    pub fn get_program_id(&self) -> (r: Pubkey)
        requires
            self.spec_depth() > 0,
        ensures
            r == self.receipt.call_stack@.last(),
    {
        self.receipt.active_program()
    }

    pub fn get_clock(&self) -> (r: Clock)
        ensures
            r.slot == self.settings.slot,
            r.unix_timestamp == self.settings.unix_timestamp,
    {
        self.settings.as_clock()
    }

    pub fn get_rent(&self) -> (r: Rent)
        ensures
            r.lamports_per_byte_year == self.settings.lamports_per_byte_year,
            r.exemption_threshold == self.settings.exemption_threshold,
            self.settings.spec_wf() ==> r.spec_wf(),
    {
        self.settings.as_rent()
    }

    /// The rent-exempt minimum for `size` data bytes at this scope's
    /// parameters, clamped to the largest representable balance.
    pub fn rent_exempt_for_size(&self, size: usize) -> (r: u64)
        requires
            self.settings.spec_wf(),
        ensures
            r as nat == if spec_minimum_balance(
                self.settings.lamports_per_byte_year,
                self.settings.exemption_threshold,
                size as nat,
            ) <= u64::MAX as nat {
                spec_minimum_balance(
                    self.settings.lamports_per_byte_year,
                    self.settings.exemption_threshold,
                    size as nat,
                )
            } else {
                u64::MAX as nat
            },
    {
        let wide = self.minimum_balance_wide(size);
        if wide > u64::MAX as u128 {
            u64::MAX
        } else {
            wide as u64
        }
    }

    /// The exact rent-exempt minimum for `size` data bytes, unclamped.
    pub fn minimum_balance_wide(&self, size: usize) -> (r: u128)
        requires
            self.settings.spec_wf(),
        ensures
            r as nat == spec_minimum_balance(
                self.settings.lamports_per_byte_year,
                self.settings.exemption_threshold,
                size as nat,
            ),
    {
        let per_byte = self.settings.lamports_per_byte_year * self.settings.exemption_threshold;
        proof {
            let x = per_byte as nat;
            let y = size as nat;
            assert(x * y <= (u64::MAX as nat) * (u64::MAX as nat) && (u64::MAX as nat) * (
            u64::MAX as nat) < u128::MAX as nat) by (nonlinear_arith)
                requires
                    x <= u64::MAX as nat,
                    y <= u64::MAX as nat,
            ;
        }
        (per_byte as u128) * (size as u128)
    }

    /// Records one program log line.
    pub fn sol_log(&mut self, message: &str)
        ensures
            final(self).metas == old(self).metas,
            final(self).settings == old(self).settings,
            final(self).receipt.result == old(self).receipt.result,
            final(self).receipt.call_stack == old(self).receipt.call_stack,
            final(self).receipt.log_datas == old(self).receipt.log_datas,
            final(self).receipt.return_data == old(self).receipt.return_data,
            final(self).receipt.log_messages@.len() == old(self).receipt.log_messages@.len() + 1,
            forall|i: int|
                0 <= i < old(self).receipt.log_messages@.len() ==> final(self).receipt.log_messages@[i] == old(self).receipt.log_messages@[i],
            final(self).receipt.log_messages@.last()@ == "Program logged: \""@ + message@
                + "\""@,
    {
        let mut line = String::from_str("Program logged: \"");
        line.append(message);
        line.append("\"");
        self.receipt.push_msg(line);
    }

    /// Records five numbers, rendered in hexadecimal, as one log line.
    pub fn sol_log_64(&mut self, arg1: u64, arg2: u64, arg3: u64, arg4: u64, arg5: u64)
        ensures
            final(self).metas == old(self).metas,
            final(self).settings == old(self).settings,
            final(self).receipt.result == old(self).receipt.result,
            final(self).receipt.call_stack == old(self).receipt.call_stack,
            final(self).receipt.log_datas == old(self).receipt.log_datas,
            final(self).receipt.return_data == old(self).receipt.return_data,
            final(self).receipt.log_messages@.len() == old(self).receipt.log_messages@.len() + 1,
            forall|i: int|
                0 <= i < old(self).receipt.log_messages@.len() ==> final(self).receipt.log_messages@[i] == old(self).receipt.log_messages@[i],
    {
        let mut line = crate::utils::u64_to_hex_string(arg1);
        line.append(", ");
        let h2 = crate::utils::u64_to_hex_string(arg2);
        line.append(h2.as_str());
        line.append(", ");
        let h3 = crate::utils::u64_to_hex_string(arg3);
        line.append(h3.as_str());
        line.append(", ");
        let h4 = crate::utils::u64_to_hex_string(arg4);
        line.append(h4.as_str());
        line.append(", ");
        let h5 = crate::utils::u64_to_hex_string(arg5);
        line.append(h5.as_str());
        let mut msg = String::from_str("Program logged: \"");
        msg.append(line.as_str());
        msg.append("\"");
        self.receipt.push_msg(msg);
    }

    /// Records a data tuple under the active program, and a matching
    /// base64 log line.
    pub fn sol_log_data(&mut self, data: &Vec<Vec<u8>>)
        requires
            old(self).spec_depth() > 0,
        ensures
            final(self).metas == old(self).metas,
            final(self).settings == old(self).settings,
            final(self).receipt.result == old(self).receipt.result,
            final(self).receipt.call_stack == old(self).receipt.call_stack,
            final(self).receipt.return_data == old(self).receipt.return_data,
            final(self).receipt.log_datas@.len() == old(self).receipt.log_datas@.len() + 1,
            forall|i: int|
                0 <= i < old(self).receipt.log_datas@.len() ==> #[trigger] final(self).receipt.log_datas@[i] == old(self).receipt.log_datas@[i],
            final(self).receipt.log_datas@.last().0 == old(self).receipt.call_stack@.last(),
            final(self).receipt.log_datas@.last().1.deep_view() == data.deep_view(),
            final(self).receipt.log_messages@.len() == old(self).receipt.log_messages@.len() + 1,
            final(self).receipt.log_messages@.last()@ == spec_data_line(data.deep_view()),
            forall|i: int|
                0 <= i < old(self).receipt.log_messages@.len() ==> final(self).receipt.log_messages@[i] == old(self).receipt.log_messages@[i],
    {
        let mut line = String::from_str("Program data:");
        let mut copies: Vec<Vec<u8>> = Vec::new();
        let n = data.len();
        let mut i: usize = 0;
        proof {
            assert(data.deep_view().subrange(0, 0).len() == 0);
        }
        while i < n
            invariant
                n == data@.len(),
                0 <= i <= n,
                copies@.len() == i,
                forall|j: int| 0 <= j < i ==> #[trigger] copies@[j]@ == data@[j]@,
                line@ == spec_data_line(data.deep_view().subrange(0, i as int)),
            decreases n - i,
        {
            line.append(" ");
            let chunk = base64_encode(data[i].as_slice());
            line.append(chunk.as_str());
            copies.push(clone_bytes(data[i].as_slice()));
            proof {
                let dv = data.deep_view();
                assert(dv.subrange(0, i + 1).drop_last() =~= dv.subrange(0, i as int));
                assert(dv.subrange(0, i + 1).last() == dv[i as int]);
                assert(dv[i as int] =~= data@[i as int]@);
            }
            i += 1;
        }
        proof {
            assert(data.deep_view().subrange(0, n as int) =~= data.deep_view());
        }
        proof {
            assert forall|j: int| 0 <= j < n implies copies.deep_view()[j]
                == data.deep_view()[j] by {
                assert(copies@[j]@ == data@[j]@);
                assert(copies@[j].deep_view() =~= copies@[j]@);
                assert(data@[j].deep_view() =~= data@[j]@);
            }
            assert(copies.deep_view() =~= data.deep_view());
        }
        let active = self.receipt.active_program();
        self.receipt.log_datas.push((active, copies));
        self.receipt.push_msg(line);
    }

    /// Records the fixed line the runtime prints for a compute-unit query.
    pub fn sol_log_compute_units(&mut self)
        ensures
            final(self).metas == old(self).metas,
            final(self).settings == old(self).settings,
            final(self).receipt.result == old(self).receipt.result,
            final(self).receipt.call_stack == old(self).receipt.call_stack,
            final(self).receipt.log_datas == old(self).receipt.log_datas,
            final(self).receipt.return_data == old(self).receipt.return_data,
            final(self).receipt.log_messages@.len() == old(self).receipt.log_messages@.len() + 1,
            forall|i: int|
                0 <= i < old(self).receipt.log_messages@.len() ==> final(self).receipt.log_messages@[i] == old(self).receipt.log_messages@[i],
    {
        self.receipt.push_msg(String::from_str("Compute units not available"));
    }

    /// Stores the active program's return data.
    pub fn set_return_data(&mut self, data: &[u8])
        requires
            old(self).spec_depth() > 0,
            data@.len() <= MAX_RETURN_DATA,
        ensures
            final(self).metas == old(self).metas,
            final(self).settings == old(self).settings,
            final(self).receipt.result == old(self).receipt.result,
            final(self).receipt.call_stack == old(self).receipt.call_stack,
            final(self).receipt.log_datas == old(self).receipt.log_datas,
            final(self).receipt.log_messages == old(self).receipt.log_messages,
            final(self).receipt.return_data matches Some(p) && p.0 == old(self).receipt.call_stack@.last() && p.1@ == data@,
    {
        let active = self.receipt.active_program();
        self.receipt.return_data = Some((active, clone_bytes(data)));
    }

    /// The most recent return data, if any.
    pub fn get_return_data(&self) -> (r: Option<(Pubkey, Vec<u8>)>)
        ensures
            match r {
                Some(p) => self.receipt.return_data matches Some(q) && q.0 == p.0 && q.1@ == p.1@,
                None => self.receipt.return_data is None,
            },
    {
        match &self.receipt.return_data {
            Some(p) => Some((p.0.clone(), clone_bytes(p.1.as_slice()))),
            None => None,
        }
    }

    /// The rent gate: after a system-program call, every touched account
    /// must hold its rent-exempt minimum. Passes exactly when they all do;
    /// the store itself is left untouched either way.
    pub fn finalize_system_invoke(&mut self, accounts: &Vec<AccountInfo>) -> (r: ProgramResult)
        requires
            old(self).settings.spec_wf(),
            forall|k: int|
                0 <= k < accounts@.len() ==> old(self).spec_valid_info(#[trigger] accounts@[k]),
        ensures
            final(self).metas == old(self).metas,
            final(self).settings == old(self).settings,
            final(self).receipt.result == old(self).receipt.result,
            final(self).receipt.call_stack == old(self).receipt.call_stack,
            final(self).receipt.log_datas == old(self).receipt.log_datas,
            final(self).receipt.return_data == old(self).receipt.return_data,
            crate::receipt::spec_log_prefix(old(self).receipt, final(self).receipt),
            r is Ok <==> forall|k: int|
                0 <= k < accounts@.len() ==> old(self).spec_rent_exempt_entry(
                    (#[trigger] accounts@[k]).index as int,
                ),
            r is Err ==> r == Err::<(), ProgramError>(ProgramError::AccountNotRentExempt),
    {
        let n = accounts.len();
        let mut k: usize = 0;
        while k < n
            invariant
                n == accounts@.len(),
                0 <= k <= n,
                self == old(self),
                forall|j: int|
                    0 <= j < k ==> self.spec_rent_exempt_entry(
                        (#[trigger] accounts@[j]).index as int,
                    ),
                self.settings.spec_wf(),
                forall|j: int|
                    0 <= j < accounts@.len() ==> self.spec_valid_info(#[trigger] accounts@[j]),
            decreases n - k,
        {
            let info = &accounts[k];
            let size = self.data_len_at(info.index);
            let min = self.minimum_balance_wide(size);
            let have = self.lamports_at(info.index);
            if (have as u128) < min {
                let mut line = String::from_str("Account ");
                let b58 = info.key.to_base58();
                line.append(b58.as_str());
                line.append(" is not rent exempt");
                self.receipt.push_msg(line);
                return Err(ProgramError::AccountNotRentExempt);
            }
            k += 1;
        }
        Ok(())
    }
}

} // verus!
