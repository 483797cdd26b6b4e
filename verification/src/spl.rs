use crate::account_info::{next_account_info, AccountInfo};
use crate::codec::{read_pubkey, read_u64_le, write_pubkey, write_u64_le, Pack};
use crate::errors::{ProgramError, ProgramResult};
use crate::instruction::{AccountMeta, Instruction};
use crate::invoke::{invoke, invoke_signed};
use crate::program_ids::{associated_program_id, spl_program_id};
use crate::pubkey::{lemma_pubkey_view_injective, Pubkey};
use crate::scope::{spec_same_shape, Scope, MAX_CALL_DEPTH};
use vstd::bytes::{lemma_auto_spec_u64_to_from_le_bytes, spec_u64_to_le_bytes};
use vstd::prelude::*;

verus! {

broadcast use crate::pubkey::lemma_pubkey_len;

/// The lifecycle state of a token account.
#[derive(Clone, Copy, Debug, PartialEq, Eq, Structural)]
pub enum SPLAccountState {
    Uninitialized,
    Initialized,
    Frozen,
}

impl SPLAccountState {
    /// The packed byte of each state.
    pub open spec fn spec_byte(self) -> u8 {
        match self {
            SPLAccountState::Uninitialized => 0,
            SPLAccountState::Initialized => 1,
            SPLAccountState::Frozen => 2,
        }
    }

    pub fn to_byte(self) -> (r: u8)
        ensures
            r == self.spec_byte(),
    {
        match self {
            SPLAccountState::Uninitialized => 0,
            SPLAccountState::Initialized => 1,
            SPLAccountState::Frozen => 2,
        }
    }
}

/// The 36-byte image of an optional pubkey: a 4-byte tag and the key, or
/// zeros.
pub open spec fn spec_copt_pubkey(o: Option<Pubkey>) -> Seq<u8> {
    match o {
        None => seq![0u8, 0u8, 0u8, 0u8] + Seq::new(32, |i: int| 0u8),
        Some(p) => seq![1u8, 0u8, 0u8, 0u8] + p@,
    }
}

/// The 12-byte image of an optional amount.
pub open spec fn spec_copt_u64(o: Option<u64>) -> Seq<u8> {
    match o {
        None => seq![0u8, 0u8, 0u8, 0u8] + spec_u64_to_le_bytes(0),
        Some(v) => seq![1u8, 0u8, 0u8, 0u8] + spec_u64_to_le_bytes(v),
    }
}

/// Appends the image of an optional pubkey.
fn write_copt_pubkey(dst: &mut Vec<u8>, o: &Option<Pubkey>)
    ensures
        final(dst)@ == old(dst)@ + spec_copt_pubkey(*o),
{
    match o {
        None => {
            let mut i: usize = 0;
            let ghost base = dst@;
            while i < 36
                invariant
                    0 <= i <= 36,
                    dst@ == base + Seq::new(i as nat, |k: int| 0u8),
                decreases 36 - i,
            {
                dst.push(0u8);
                proof {
                    assert(base + Seq::new(i as nat, |k: int| 0u8) + seq![0u8] =~= base + Seq::new(
                        (i + 1) as nat,
                        |k: int| 0u8,
                    ));
                }
                i += 1;
            }
            proof {
                assert(base + Seq::new(36, |k: int| 0u8) =~= base + spec_copt_pubkey(None));
            }
        },
        Some(p) => {
            dst.push(1u8);
            dst.push(0u8);
            dst.push(0u8);
            dst.push(0u8);
            write_pubkey(dst, p);
            proof {
                assert(final(dst)@ =~= old(dst)@ + spec_copt_pubkey(Some(*p)));
            }
        },
    }
}

/// Appends the image of an optional amount.
fn write_copt_u64(dst: &mut Vec<u8>, o: &Option<u64>)
    ensures
        final(dst)@ == old(dst)@ + spec_copt_u64(*o),
{
    match o {
        None => {
            dst.push(0u8);
            dst.push(0u8);
            dst.push(0u8);
            dst.push(0u8);
            write_u64_le(dst, 0);
            proof {
                assert(final(dst)@ =~= old(dst)@ + spec_copt_u64(None));
            }
        },
        Some(v) => {
            dst.push(1u8);
            dst.push(0u8);
            dst.push(0u8);
            dst.push(0u8);
            write_u64_le(dst, *v);
            proof {
                assert(final(dst)@ =~= old(dst)@ + spec_copt_u64(Some(*v)));
            }
        },
    }
}

/// Reads an optional pubkey at `off`; `None` when the image is invalid.
fn read_copt_pubkey(data: &[u8], off: usize) -> (r: Option<Option<Pubkey>>)
    requires
        off + 36 <= data@.len(),
    ensures
        r matches Some(o) ==> spec_copt_pubkey(o) == data@.subrange(off as int, off + 36),
        r is None ==> forall|o: Option<Pubkey>| spec_copt_pubkey(o) != data@.subrange(
            off as int,
            off + 36,
        ),
{
    let ghost img = data@.subrange(off as int, off + 36);
    proof {
        assert forall|o: Option<Pubkey>| spec_copt_pubkey(o) == img implies (img[1] == 0u8
            && img[2] == 0u8 && img[3] == 0u8 && (img[0] == 0u8 || img[0] == 1u8) && (img[0]
            == 0u8 ==> forall|k: int| 4 <= k < 36 ==> img[k] == 0u8)) by {
            match o {
                None => {},
                Some(_) => {},
            }
        }
    }
    let n = data.len();
    let tag0 = data[off];
    let tag1 = data[off + 1];
    let tag2 = data[off + 2];
    let tag3 = data[off + 3];
    if tag1 != 0 || tag2 != 0 || tag3 != 0 {
        return None;
    }
    if tag0 == 0 {
        let mut i: usize = off + 4;
        while i < off + 36
            invariant
                n == data@.len(),
                off + 36 <= data@.len(),
                off + 4 <= i <= off + 36,
                img == data@.subrange(off as int, off + 36),
                forall|o: Option<Pubkey>| spec_copt_pubkey(o) == img ==> img[0] == 0u8 ==> forall|
                    k: int,
                |
                    4 <= k < 36 ==> img[k] == 0u8,
                data@[off as int] == 0u8,
                forall|k: int| off + 4 <= k < i ==> data@[k] == 0u8,
            decreases off + 36 - i,
        {
            if data[i] != 0 {
                proof {
                    assert(img[i - off] == data@[i as int]);
                }
                return None;
            }
            i += 1;
        }
        proof {
            assert(spec_copt_pubkey(None) =~= data@.subrange(off as int, off + 36));
        }
        Some(None)
    } else if tag0 == 1 {
        let key = read_pubkey(data, off + 4);
        proof {
            assert(spec_copt_pubkey(Some(key)) =~= data@.subrange(off as int, off + 36));
        }
        Some(Some(key))
    } else {
        proof {
            assert(img[0] == data@[off as int]);
        }
        None
    }
}

/// Reads an optional amount at `off`; `None` when the image is invalid.
fn read_copt_u64(data: &[u8], off: usize) -> (r: Option<Option<u64>>)
    requires
        off + 12 <= data@.len(),
    ensures
        r matches Some(o) ==> spec_copt_u64(o) == data@.subrange(off as int, off + 12),
        r is None ==> forall|o: Option<u64>| spec_copt_u64(o) != data@.subrange(
            off as int,
            off + 12,
        ),
{
    let ghost img = data@.subrange(off as int, off + 12);
    proof {
        lemma_auto_spec_u64_to_from_le_bytes();
        assert forall|o: Option<u64>| spec_copt_u64(o) == img implies (img[1] == 0u8 && img[2]
            == 0u8 && img[3] == 0u8 && (img[0] == 0u8 || img[0] == 1u8) && (img[0] == 0u8
            ==> img.subrange(4, 12) =~= spec_u64_to_le_bytes(0))) by {
            match o {
                None => {
                    assert(img.subrange(4, 12) =~= spec_u64_to_le_bytes(0));
                },
                Some(_) => {},
            }
        }
    }
    proof {
        lemma_auto_spec_u64_to_from_le_bytes();
    }
    let tag0 = data[off];
    let tag1 = data[off + 1];
    let tag2 = data[off + 2];
    let tag3 = data[off + 3];
    if tag1 != 0 || tag2 != 0 || tag3 != 0 {
        proof {
            assert(img[1] == data@[off + 1] && img[2] == data@[off + 2] && img[3] == data@[off
                + 3]);
        }
        return None;
    }
    let v = read_u64_le(data, off + 4);
    proof {
        assert(data@.subrange(off + 4, off + 12) =~= img.subrange(4, 12));
    }
    if tag0 == 0 {
        if v != 0 {
            return None;
        }
        proof {
            assert(spec_copt_u64(None) =~= data@.subrange(off as int, off + 12));
        }
        Some(None)
    } else if tag0 == 1 {
        proof {
            assert(spec_copt_u64(Some(v)) =~= data@.subrange(off as int, off + 12));
        }
        Some(Some(v))
    } else {
        None
    }
}

/// A mint: the issuing authority and supply of one token kind.
#[derive(Clone, Copy, Debug)]
pub struct SPLMint {
    pub mint_authority: Option<Pubkey>,
    pub supply: u64,
    pub decimals: u8,
    pub is_initialized: bool,
    pub freeze_authority: Option<Pubkey>,
}

/// A token account: a holding of one mint by one owner.
#[derive(Clone, Copy, Debug)]
pub struct SPLAccount {
    pub mint: Pubkey,
    pub owner: Pubkey,
    pub amount: u64,
    pub delegate: Option<Pubkey>,
    pub state: SPLAccountState,
    pub is_native: Option<u64>,
    pub delegated_amount: u64,
    pub close_authority: Option<Pubkey>,
}

impl Pack for SPLAccount {
    open spec fn spec_packed_len() -> nat {
        165
    }

    fn get_packed_len() -> usize {
        165
    }

    open spec fn spec_pack(&self) -> Seq<u8> {
        self.mint@ + self.owner@ + spec_u64_to_le_bytes(self.amount) + spec_copt_pubkey(
            self.delegate,
        ) + seq![self.state.spec_byte()] + spec_copt_u64(self.is_native) + spec_u64_to_le_bytes(
            self.delegated_amount,
        ) + spec_copt_pubkey(self.close_authority)
    }

    open spec fn spec_unpacks(data: Seq<u8>) -> bool {
        exists|v: SPLAccount| (#[trigger] v.spec_pack()) == data
    }

    fn pack(&self) -> (r: Vec<u8>) {
        let mut out: Vec<u8> = Vec::new();
        write_pubkey(&mut out, &self.mint);
        write_pubkey(&mut out, &self.owner);
        write_u64_le(&mut out, self.amount);
        write_copt_pubkey(&mut out, &self.delegate);
        out.push(self.state.to_byte());
        write_copt_u64(&mut out, &self.is_native);
        write_u64_le(&mut out, self.delegated_amount);
        write_copt_pubkey(&mut out, &self.close_authority);
        proof {
            assert(out@ =~= self.spec_pack());
        }
        out
    }

    fn unpack_from_slice(input: &[u8]) -> (r: Option<Self>) {
        proof {
            lemma_auto_spec_u64_to_from_le_bytes();
        }
        let n = input.len();
        if n != 165 {
            proof {
                if SPLAccount::spec_unpacks(input@) {
                    let v = choose|v: SPLAccount| (#[trigger] v.spec_pack()) == input@;
                    lemma_copt_pubkey_image_len(v.delegate);
                    lemma_copt_u64_image_len(v.is_native);
                    lemma_copt_pubkey_image_len(v.close_authority);
                    lemma_auto_spec_u64_to_from_le_bytes();
                    assert(v.spec_pack().len() == 165);
                }
            }
            return None;
        }
        let mint = read_pubkey(input, 0);
        let owner = read_pubkey(input, 32);
        let amount = read_u64_le(input, 64);
        let delegate = match read_copt_pubkey(input, 72) {
            Some(o) => o,
            None => {
                proof {
                    if SPLAccount::spec_unpacks(input@) {
                        let v = choose|v: SPLAccount| (#[trigger] v.spec_pack()) == input@;
                        lemma_copt_pubkey_image_len(v.delegate);
                        lemma_copt_u64_image_len(v.is_native);
                        assert(v.spec_pack().subrange(72, 108) =~= spec_copt_pubkey(v.delegate));
                        assert(false);
                    }
                }
                return None;
            },
        };
        let state_byte = input[108];
        if state_byte > 2 {
            proof {
                if SPLAccount::spec_unpacks(input@) {
                    let v = choose|v: SPLAccount| (#[trigger] v.spec_pack()) == input@;
                    lemma_copt_pubkey_image_len(v.delegate);
                    lemma_copt_u64_image_len(v.is_native);
                    assert(v.spec_pack()[108] == v.state.spec_byte());
                }
            }
            return None;
        }
        let state = if state_byte == 0 {
            SPLAccountState::Uninitialized
        } else if state_byte == 1 {
            SPLAccountState::Initialized
        } else {
            SPLAccountState::Frozen
        };
        let is_native = match read_copt_u64(input, 109) {
            Some(o) => o,
            None => {
                proof {
                    if SPLAccount::spec_unpacks(input@) {
                        let v = choose|v: SPLAccount| (#[trigger] v.spec_pack()) == input@;
                        lemma_copt_pubkey_image_len(v.delegate);
                        lemma_copt_u64_image_len(v.is_native);
                        assert(v.spec_pack().subrange(109, 121) =~= spec_copt_u64(v.is_native));
                        assert(false);
                    }
                }
                return None;
            },
        };
        let delegated_amount = read_u64_le(input, 121);
        let close_authority = match read_copt_pubkey(input, 129) {
            Some(o) => o,
            None => {
                proof {
                    if SPLAccount::spec_unpacks(input@) {
                        let v = choose|v: SPLAccount| (#[trigger] v.spec_pack()) == input@;
                        lemma_copt_pubkey_image_len(v.delegate);
                        lemma_copt_u64_image_len(v.is_native);
                        lemma_copt_pubkey_image_len(v.close_authority);
                        assert(v.spec_pack().subrange(129, 165) =~= spec_copt_pubkey(
                            v.close_authority,
                        ));
                        assert(false);
                    }
                }
                return None;
            },
        };
        let v = SPLAccount {
            mint,
            owner,
            amount,
            delegate,
            state,
            is_native,
            delegated_amount,
            close_authority,
        };
        proof {
            assert(v.spec_pack() =~= input@);
        }
        Some(v)
    }

    proof fn lemma_pack_len(v: Self) {
        lemma_auto_spec_u64_to_from_le_bytes();
        lemma_copt_pubkey_image_len(v.delegate);
        lemma_copt_u64_image_len(v.is_native);
        lemma_copt_pubkey_image_len(v.close_authority);
    }

    proof fn lemma_pack_unpacks(v: Self) {
        assert(v.spec_pack() == v.spec_pack());
    }

    proof fn lemma_unpacks_is_image(data: Seq<u8>) {
    }

    proof fn lemma_pack_injective(a: Self, b: Self) {
        let sa = a.spec_pack();
        let sb = b.spec_pack();
        lemma_auto_spec_u64_to_from_le_bytes();
        lemma_copt_pubkey_image_len(a.delegate);
        lemma_copt_u64_image_len(a.is_native);
        lemma_copt_pubkey_image_len(a.close_authority);
        lemma_copt_pubkey_image_len(b.delegate);
        lemma_copt_u64_image_len(b.is_native);
        lemma_copt_pubkey_image_len(b.close_authority);
        assert(sa.subrange(0, 32) =~= a.mint@);
        assert(sb.subrange(0, 32) =~= b.mint@);
        assert(sa.subrange(32, 64) =~= a.owner@);
        assert(sb.subrange(32, 64) =~= b.owner@);
        assert(sa.subrange(64, 72) =~= spec_u64_to_le_bytes(a.amount));
        assert(sb.subrange(64, 72) =~= spec_u64_to_le_bytes(b.amount));
        assert(sa.subrange(72, 108) =~= spec_copt_pubkey(a.delegate));
        assert(sb.subrange(72, 108) =~= spec_copt_pubkey(b.delegate));
        assert(sa[108] == a.state.spec_byte());
        assert(sb[108] == b.state.spec_byte());
        assert(sa.subrange(109, 121) =~= spec_copt_u64(a.is_native));
        assert(sb.subrange(109, 121) =~= spec_copt_u64(b.is_native));
        assert(sa.subrange(121, 129) =~= spec_u64_to_le_bytes(a.delegated_amount));
        assert(sb.subrange(121, 129) =~= spec_u64_to_le_bytes(b.delegated_amount));
        assert(sa.subrange(129, 165) =~= spec_copt_pubkey(a.close_authority));
        assert(sb.subrange(129, 165) =~= spec_copt_pubkey(b.close_authority));
        lemma_pubkey_view_injective(a.mint, b.mint);
        lemma_pubkey_view_injective(a.owner, b.owner);
        lemma_copt_pubkey_injective(a.delegate, b.delegate);
        lemma_copt_u64_injective(a.is_native, b.is_native);
        lemma_copt_pubkey_injective(a.close_authority, b.close_authority);
    }
}

/// An optional-pubkey image is 36 bytes.
proof fn lemma_copt_pubkey_image_len(o: Option<Pubkey>)
    ensures
        spec_copt_pubkey(o).len() == 36,
{
    broadcast use crate::pubkey::lemma_pubkey_len;

    match o {
        None => {},
        Some(_) => {},
    }
}

/// An optional-amount image is 12 bytes.
proof fn lemma_copt_u64_image_len(o: Option<u64>)
    ensures
        spec_copt_u64(o).len() == 12,
{
    lemma_auto_spec_u64_to_from_le_bytes();
    match o {
        None => {},
        Some(_) => {},
    }
}

/// Equal optional-pubkey images mean equal options.
proof fn lemma_copt_pubkey_injective(a: Option<Pubkey>, b: Option<Pubkey>)
    requires
        spec_copt_pubkey(a) == spec_copt_pubkey(b),
    ensures
        a == b,
{
    broadcast use crate::pubkey::lemma_pubkey_len;

    match (a, b) {
        (Some(x), Some(y)) => {
            assert(spec_copt_pubkey(Some(x)).subrange(4, 36) =~= x@);
            assert(spec_copt_pubkey(Some(y)).subrange(4, 36) =~= y@);
            lemma_pubkey_view_injective(x, y);
        },
        (None, Some(y)) => {
            assert(spec_copt_pubkey(a)[0] == 0u8);
            assert(spec_copt_pubkey(b)[0] == 1u8);
        },
        (Some(x), None) => {
            assert(spec_copt_pubkey(a)[0] == 1u8);
            assert(spec_copt_pubkey(b)[0] == 0u8);
        },
        (None, None) => {},
    }
}

/// Equal optional-amount images mean equal options.
proof fn lemma_copt_u64_injective(a: Option<u64>, b: Option<u64>)
    requires
        spec_copt_u64(a) == spec_copt_u64(b),
    ensures
        a == b,
{
    lemma_auto_spec_u64_to_from_le_bytes();
    match (a, b) {
        (Some(x), Some(y)) => {
            assert(spec_copt_u64(Some(x)).subrange(4, 12) =~= spec_u64_to_le_bytes(x));
            assert(spec_copt_u64(Some(y)).subrange(4, 12) =~= spec_u64_to_le_bytes(y));
        },
        (None, Some(y)) => {
            assert(spec_copt_u64(a)[0] == 0u8);
            assert(spec_copt_u64(b)[0] == 1u8);
        },
        (Some(x), None) => {
            assert(spec_copt_u64(a)[0] == 1u8);
            assert(spec_copt_u64(b)[0] == 0u8);
        },
        (None, None) => {},
    }
}

/// A fresh mint controlled by `owner`.
pub fn new_mint_struct(owner: &Pubkey, decimals: u8) -> (r: SPLMint)
    ensures
        r.mint_authority == Some(*owner),
        r.supply == 0,
        r.decimals == decimals,
        r.is_initialized == true,
        r.freeze_authority is None,
{
    SPLMint {
        mint_authority: Some(owner.clone()),
        supply: 0,
        decimals,
        is_initialized: true,
        freeze_authority: None,
    }
}

/// A fresh, empty holding of `mint_key` owned by `owner`.
pub fn new_token_account_struct(mint_key: &Pubkey, owner: &Pubkey) -> (r: SPLAccount)
    ensures
        r.mint == *mint_key,
        r.owner == *owner,
        r.amount == 0,
        r.delegate is None,
        r.state == SPLAccountState::Initialized,
        r.is_native is None,
        r.delegated_amount == 0,
        r.close_authority is None,
{
    SPLAccount {
        mint: mint_key.clone(),
        owner: owner.clone(),
        amount: 0,
        delegate: None,
        state: SPLAccountState::Initialized,
        is_native: None,
        delegated_amount: 0,
        close_authority: None,
    }
}


impl Pack for SPLMint {
    open spec fn spec_packed_len() -> nat {
        82
    }

    fn get_packed_len() -> usize {
        82
    }

    open spec fn spec_pack(&self) -> Seq<u8> {
        spec_copt_pubkey(self.mint_authority) + spec_u64_to_le_bytes(self.supply) + seq![
            self.decimals ] + seq![if self.is_initialized { 1u8 } else { 0u8 }] + spec_copt_pubkey(
            self.freeze_authority,
        )
    }

    open spec fn spec_unpacks(data: Seq<u8>) -> bool {
        exists|v: SPLMint| (#[trigger] v.spec_pack()) == data
    }

    fn pack(&self) -> (r: Vec<u8>) {
        let mut out: Vec<u8> = Vec::new();
        write_copt_pubkey(&mut out, &self.mint_authority);
        write_u64_le(&mut out, self.supply);
        out.push(self.decimals);
        out.push(if self.is_initialized { 1u8 } else { 0u8 });
        write_copt_pubkey(&mut out, &self.freeze_authority);
        proof {
            assert(out@ =~= self.spec_pack());
        }
        out
    }

    fn unpack_from_slice(input: &[u8]) -> (r: Option<Self>) {
        proof {
            lemma_auto_spec_u64_to_from_le_bytes();
        }
        let n = input.len();
        if n != 82 {
            proof {
                if SPLMint::spec_unpacks(input@) {
                    let v = choose|v: SPLMint| (#[trigger] v.spec_pack()) == input@;
                    lemma_copt_pubkey_image_len(v.mint_authority);
                    lemma_copt_pubkey_image_len(v.freeze_authority);
                    lemma_auto_spec_u64_to_from_le_bytes();
                    assert(v.spec_pack().len() == 82);
                }
            }
            return None;
        }
        let mint_authority = match read_copt_pubkey(input, 0) {
            Some(o) => o,
            None => {
                proof {
                    if SPLMint::spec_unpacks(input@) {
                        let v = choose|v: SPLMint| (#[trigger] v.spec_pack()) == input@;
                        lemma_copt_pubkey_image_len(v.mint_authority);
                        assert(v.spec_pack().subrange(0, 36) =~= spec_copt_pubkey(
                            v.mint_authority,
                        ));
                        assert(false);
                    }
                }
                return None;
            },
        };
        let supply = read_u64_le(input, 36);
        let decimals = input[44];
        let init_byte = input[45];
        if init_byte > 1 {
            proof {
                if SPLMint::spec_unpacks(input@) {
                    let v = choose|v: SPLMint| (#[trigger] v.spec_pack()) == input@;
                    lemma_copt_pubkey_image_len(v.mint_authority);
                    assert(v.spec_pack()[45] == (if v.is_initialized { 1u8 } else { 0u8 }));
                }
            }
            return None;
        }
        let is_initialized = init_byte == 1;
        let freeze_authority = match read_copt_pubkey(input, 46) {
            Some(o) => o,
            None => {
                proof {
                    if SPLMint::spec_unpacks(input@) {
                        let v = choose|v: SPLMint| (#[trigger] v.spec_pack()) == input@;
                        lemma_copt_pubkey_image_len(v.mint_authority);
                        lemma_copt_pubkey_image_len(v.freeze_authority);
                        assert(v.spec_pack().subrange(46, 82) =~= spec_copt_pubkey(
                            v.freeze_authority,
                        ));
                        assert(false);
                    }
                }
                return None;
            },
        };
        let v = SPLMint { mint_authority, supply, decimals, is_initialized, freeze_authority };
        proof {
            assert(v.spec_pack() =~= input@);
        }
        Some(v)
    }

    proof fn lemma_pack_len(v: Self) {
        lemma_auto_spec_u64_to_from_le_bytes();
        lemma_copt_pubkey_image_len(v.mint_authority);
        lemma_copt_pubkey_image_len(v.freeze_authority);
    }

    proof fn lemma_pack_unpacks(v: Self) {
        assert(v.spec_pack() == v.spec_pack());
    }

    proof fn lemma_unpacks_is_image(data: Seq<u8>) {
    }

    proof fn lemma_pack_injective(a: Self, b: Self) {
        let sa = a.spec_pack();
        let sb = b.spec_pack();
        lemma_auto_spec_u64_to_from_le_bytes();
        lemma_copt_pubkey_image_len(a.mint_authority);
        lemma_copt_pubkey_image_len(a.freeze_authority);
        lemma_copt_pubkey_image_len(b.mint_authority);
        lemma_copt_pubkey_image_len(b.freeze_authority);
        assert(sa.subrange(0, 36) =~= spec_copt_pubkey(a.mint_authority));
        assert(sb.subrange(0, 36) =~= spec_copt_pubkey(b.mint_authority));
        assert(sa.subrange(36, 44) =~= spec_u64_to_le_bytes(a.supply));
        assert(sb.subrange(36, 44) =~= spec_u64_to_le_bytes(b.supply));
        assert(sa[44] == a.decimals);
        assert(sb[44] == b.decimals);
        assert(sa[45] == (if a.is_initialized { 1u8 } else { 0u8 }));
        assert(sb[45] == (if b.is_initialized { 1u8 } else { 0u8 }));
        assert(sa.subrange(46, 82) =~= spec_copt_pubkey(a.freeze_authority));
        assert(sb.subrange(46, 82) =~= spec_copt_pubkey(b.freeze_authority));
        lemma_copt_pubkey_injective(a.mint_authority, b.mint_authority);
        lemma_copt_pubkey_injective(a.freeze_authority, b.freeze_authority);
    }
}

/// The ASCII bytes of the seed word `vault`.
pub fn vault_seed_text() -> (r: Vec<u8>)
    ensures
        r@ =~= seq![118u8, 97u8, 117u8, 108u8, 116u8],
{
    let mut v: Vec<u8> = Vec::new();
    v.push(118);
    v.push(97);
    v.push(117);
    v.push(108);
    v.push(116);
    proof {
        assert(v@ =~= seq![118u8, 97u8, 117u8, 108u8, 116u8]);
    }
    v
}

/// The derivation seeds of a pool vault account.
fn vault_seeds_for(program_id: &Pubkey, mint_id: &Pubkey) -> (r: Vec<Vec<u8>>)
    ensures
        r.deep_view() == seq![seq![118u8, 97u8, 117u8, 108u8, 116u8], program_id@, mint_id@],
{
    let mut seeds: Vec<Vec<u8>> = Vec::new();
    seeds.push(vault_seed_text());
    seeds.push(crate::pubkey::clone_bytes(program_id.as_bytes().as_slice()));
    seeds.push(crate::pubkey::clone_bytes(mint_id.as_bytes().as_slice()));
    proof {
        assert(seeds.deep_view() =~~= seq![
            seq![118u8, 97u8, 117u8, 108u8, 116u8],
            program_id@,
            mint_id@,
        ]);
    }
    seeds
}

/// The vault address a pool program derives for a mint, when derivable.
pub fn try_get_vault_account_address(program_id: &Pubkey, mint_id: &Pubkey) -> (r: Option<
    (Pubkey, u8),
>)
    ensures
        match r {
            Some(p) => crate::pubkey::spec_try_find_program_address(
                seq![seq![118u8, 97u8, 117u8, 108u8, 116u8], program_id@, mint_id@],
                program_id@,
            ) == Some((p.0@, p.1)),
            None => crate::pubkey::spec_try_find_program_address(
                seq![seq![118u8, 97u8, 117u8, 108u8, 116u8], program_id@, mint_id@],
                program_id@,
            ) is None,
        },
{
    let seeds = vault_seeds_for(program_id, mint_id);
    Pubkey::try_find_program_address(&seeds, program_id)
}

/// The vault address a pool program derives for a mint.
pub fn get_vault_account_address(program_id: &Pubkey, mint_id: &Pubkey) -> (r: Pubkey)
    requires
        crate::pubkey::spec_try_find_program_address(
            seq![seq![118u8, 97u8, 117u8, 108u8, 116u8], program_id@, mint_id@],
            program_id@,
        ) is Some,
    ensures
        Some(r@) == (match crate::pubkey::spec_try_find_program_address(
            seq![seq![118u8, 97u8, 117u8, 108u8, 116u8], program_id@, mint_id@],
            program_id@,
        ) {
            Some(p) => Some(p.0),
            None => None,
        }),
{
    let seeds = vault_seeds_for(program_id, mint_id);
    let found = Pubkey::find_program_address(&seeds, program_id);
    found.0
}

/// The derivation seeds of an associated token account.
fn associated_seeds_for(wallet: &Pubkey, mint: &Pubkey) -> (r: Vec<Vec<u8>>)
    ensures
        r.deep_view() == seq![wallet@, crate::program_ids::SPL_PROGRAM_ID_BYTES@, mint@],
{
    let mut seeds: Vec<Vec<u8>> = Vec::new();
    seeds.push(crate::pubkey::clone_bytes(wallet.as_bytes().as_slice()));
    let token_id = spl_program_id();
    seeds.push(crate::pubkey::clone_bytes(token_id.as_bytes().as_slice()));
    seeds.push(crate::pubkey::clone_bytes(mint.as_bytes().as_slice()));
    proof {
        assert(seeds.deep_view() =~~= seq![
            wallet@,
            crate::program_ids::SPL_PROGRAM_ID_BYTES@,
            mint@,
        ]);
    }
    seeds
}

/// The associated token address of a wallet and mint, when derivable.
pub fn try_get_associated_token_address(wallet: &Pubkey, mint: &Pubkey) -> (r: Option<(Pubkey, u8)>)
    ensures
        match r {
            Some(p) => crate::pubkey::spec_try_find_program_address(
                seq![wallet@, crate::program_ids::SPL_PROGRAM_ID_BYTES@, mint@],
                crate::program_ids::ASSOCIATED_PROGRAM_ID_BYTES@,
            ) == Some((p.0@, p.1)),
            None => crate::pubkey::spec_try_find_program_address(
                seq![wallet@, crate::program_ids::SPL_PROGRAM_ID_BYTES@, mint@],
                crate::program_ids::ASSOCIATED_PROGRAM_ID_BYTES@,
            ) is None,
        },
{
    let seeds = associated_seeds_for(wallet, mint);
    let program = associated_program_id();
    Pubkey::try_find_program_address(&seeds, &program)
}

/// The associated token address of a wallet and mint.
pub fn get_associated_token_address(wallet: &Pubkey, mint: &Pubkey) -> (r: Pubkey)
    requires
        crate::pubkey::spec_try_find_program_address(
            seq![wallet@, crate::program_ids::SPL_PROGRAM_ID_BYTES@, mint@],
            crate::program_ids::ASSOCIATED_PROGRAM_ID_BYTES@,
        ) is Some,
    ensures
        Some(r@) == (match crate::pubkey::spec_try_find_program_address(
            seq![wallet@, crate::program_ids::SPL_PROGRAM_ID_BYTES@, mint@],
            crate::program_ids::ASSOCIATED_PROGRAM_ID_BYTES@,
        ) {
            Some(p) => Some(p.0),
            None => None,
        }),
{
    let seeds = associated_seeds_for(wallet, mint);
    let program = associated_program_id();
    let found = Pubkey::find_program_address(&seeds, &program);
    found.0
}

/// Builds the token instruction that moves `amount` units between
/// accounts, authorized by `authority`.
pub fn transfer_instruction(
    token_program_id: &Pubkey,
    source: &Pubkey,
    destination: &Pubkey,
    authority: &Pubkey,
    amount: u64,
) -> (r: Instruction)
    ensures
        r.program_id == *token_program_id,
        r.data@ == seq![3u8] + spec_u64_to_le_bytes(amount),
        r.accounts@.len() == 3,
        r.accounts@[0].pubkey == *source,
        r.accounts@[0].is_signer == false,
        r.accounts@[0].is_writable == true,
        r.accounts@[1].pubkey == *destination,
        r.accounts@[1].is_signer == false,
        r.accounts@[1].is_writable == true,
        r.accounts@[2].pubkey == *authority,
        r.accounts@[2].is_signer == true,
        r.accounts@[2].is_writable == false,
{
    let mut data: Vec<u8> = Vec::new();
    data.push(3u8);
    write_u64_le(&mut data, amount);
    proof {
        assert(data@ =~= seq![3u8] + spec_u64_to_le_bytes(amount));
    }
    let mut accounts: Vec<AccountMeta> = Vec::new();
    accounts.push(AccountMeta::new(source.clone(), false));
    accounts.push(AccountMeta::new(destination.clone(), false));
    accounts.push(AccountMeta::new_readonly(authority.clone(), true));
    Instruction { program_id: token_program_id.clone(), accounts, data }
}

/// Finds the pool's vault for a mint, creating and initializing it when
/// it does not exist yet.
pub fn find_or_create_vault(
    program_id: &Pubkey,
    payer: &AccountInfo,
    pool_ai: &AccountInfo,
    mint_ai: &AccountInfo,
    vault_ai: &AccountInfo,
    system_program: &AccountInfo,
    token_program: &AccountInfo,
    sysvar: &AccountInfo,
    scope: &mut Scope,
) -> (r: ProgramResult)
    requires
        old(scope).spec_wf(),
        1 <= old(scope).spec_depth() <= MAX_CALL_DEPTH,
        old(scope).spec_valid_info(*payer),
        old(scope).spec_valid_info(*pool_ai),
        old(scope).spec_valid_info(*mint_ai),
        old(scope).spec_valid_info(*vault_ai),
        old(scope).spec_valid_info(*system_program),
        old(scope).spec_valid_info(*token_program),
        old(scope).spec_valid_info(*sysvar),
    ensures
        final(scope).spec_wf(),
        spec_same_shape(*old(scope), *final(scope)),
        final(scope).spec_depth() == old(scope).spec_depth(),
        final(scope).receipt.call_stack@ == old(scope).receipt.call_stack@,
        final(scope).receipt.result == old(scope).receipt.result,
        crate::receipt::spec_log_prefix(old(scope).receipt, final(scope).receipt),
        old(scope).receipt.return_data is None ==> final(scope).receipt.return_data is None,
    decreases 4 - old(scope).spec_depth(), 4int,
{
    let seeds = vault_seeds_for(program_id, &mint_ai.key);
    let key: Pubkey;
    let bump: u8;
    match Pubkey::try_find_program_address(&seeds, program_id) {
        None => {
            return Err(crate::pool::PoolError::InvalidVaultAccountPDA.to_program_error());
        },
        Some(p) => {
            key = p.0;
            bump = p.1;
        },
    }
    if !key.eq(&vault_ai.key) {
        return Err(crate::pool::PoolError::InvalidVaultAccountPDA.to_program_error());
    }
    if vault_ai.data_len(scope) > 0 {
        crate::log::sol_log("Vault already exists", scope);
        return Ok(());
    }
    let mut bump_seed: Vec<u8> = Vec::new();
    bump_seed.push(bump);
    let signing = crate::pubkey::seeds_with_extra(&seeds, bump_seed);
    let mut signers: Vec<Vec<Vec<u8>>> = Vec::new();
    signers.push(signing);
    let rent = scope.get_rent();
    let min = rent.minimum_balance(165);
    let idx = crate::system_instruction::create_account(
        &payer.key,
        &vault_ai.key,
        min,
        165,
        &token_program.key,
    );
    let mut infos: Vec<AccountInfo> = Vec::new();
    infos.push(payer.clone());
    infos.push(vault_ai.clone());
    infos.push(system_program.clone());
    invoke_signed(&idx, &infos, &signers, scope)?;
    let mut init_data: Vec<u8> = Vec::new();
    init_data.push(1u8);
    let mut metas: Vec<AccountMeta> = Vec::new();
    metas.push(AccountMeta::new(vault_ai.key.clone(), false));
    metas.push(AccountMeta::new_readonly(mint_ai.key.clone(), false));
    metas.push(AccountMeta::new_readonly(pool_ai.key.clone(), false));
    metas.push(AccountMeta::new_readonly(sysvar.key.clone(), false));
    let init_idx = Instruction {
        program_id: token_program.key.clone(),
        accounts: metas,
        data: init_data,
    };
    let mut init_infos: Vec<AccountInfo> = Vec::new();
    init_infos.push(mint_ai.clone());
    init_infos.push(vault_ai.clone());
    init_infos.push(sysvar.clone());
    init_infos.push(token_program.clone());
    init_infos.push(pool_ai.clone());
    invoke(&init_idx, &init_infos, scope)
}

/// Finds a wallet's associated account for a mint, creating it through
/// the associated-token program when it does not exist yet.
pub fn find_or_create_associated_account(
    payer: &AccountInfo,
    mint_ai: &AccountInfo,
    account_ai: &AccountInfo,
    system_program: &AccountInfo,
    token_program: &AccountInfo,
    associated_program: &AccountInfo,
    sysvar: &AccountInfo,
    scope: &mut Scope,
) -> (r: ProgramResult)
    requires
        old(scope).spec_wf(),
        1 <= old(scope).spec_depth() <= MAX_CALL_DEPTH,
        old(scope).spec_valid_info(*payer),
        old(scope).spec_valid_info(*mint_ai),
        old(scope).spec_valid_info(*account_ai),
        old(scope).spec_valid_info(*system_program),
        old(scope).spec_valid_info(*token_program),
        old(scope).spec_valid_info(*associated_program),
        old(scope).spec_valid_info(*sysvar),
    ensures
        final(scope).spec_wf(),
        spec_same_shape(*old(scope), *final(scope)),
        final(scope).spec_depth() == old(scope).spec_depth(),
        final(scope).receipt.call_stack@ == old(scope).receipt.call_stack@,
        final(scope).receipt.result == old(scope).receipt.result,
        crate::receipt::spec_log_prefix(old(scope).receipt, final(scope).receipt),
        old(scope).receipt.return_data is None ==> final(scope).receipt.return_data is None,
    decreases 4 - old(scope).spec_depth(), 4int,
{
    let expected: Pubkey;
    match try_get_associated_token_address(&payer.key, &mint_ai.key) {
        None => {
            return Err(crate::pool::PoolError::InvalidAssociatedAccountPDA.to_program_error());
        },
        Some(_found) => {
            expected = get_associated_token_address(&payer.key, &mint_ai.key);
        },
    }
    if !expected.eq(&account_ai.key) {
        return Err(crate::pool::PoolError::InvalidAssociatedAccountPDA.to_program_error());
    }
    if account_ai.data_len(scope) > 0 {
        crate::log::sol_log("Associated account already exists", scope);
        return Ok(());
    }
    let mut data: Vec<u8> = Vec::new();
    data.push(0u8);
    let mut metas: Vec<AccountMeta> = Vec::new();
    metas.push(AccountMeta::new(payer.key.clone(), true));
    metas.push(AccountMeta::new(account_ai.key.clone(), false));
    metas.push(AccountMeta::new_readonly(payer.key.clone(), false));
    metas.push(AccountMeta::new_readonly(mint_ai.key.clone(), false));
    metas.push(AccountMeta::new_readonly(system_program.key.clone(), false));
    metas.push(AccountMeta::new_readonly(token_program.key.clone(), false));
    metas.push(AccountMeta::new_readonly(sysvar.key.clone(), false));
    let idx = Instruction {
        program_id: associated_program.key.clone(),
        accounts: metas,
        data,
    };
    let mut infos: Vec<AccountInfo> = Vec::new();
    infos.push(payer.clone());
    infos.push(account_ai.clone());
    infos.push(mint_ai.clone());
    infos.push(system_program.clone());
    infos.push(token_program.clone());
    infos.push(sysvar.clone());
    infos.push(associated_program.clone());
    invoke(&idx, &infos, scope)
}

/// Moves tokens from the payer's account into a pool vault.
pub fn take_token(
    amount: u64,
    payer: &AccountInfo,
    from_account: &AccountInfo,
    to_vault: &AccountInfo,
    token_program: &AccountInfo,
    scope: &mut Scope,
) -> (r: ProgramResult)
    requires
        old(scope).spec_wf(),
        1 <= old(scope).spec_depth() <= MAX_CALL_DEPTH,
        old(scope).spec_valid_info(*payer),
        old(scope).spec_valid_info(*from_account),
        old(scope).spec_valid_info(*to_vault),
        old(scope).spec_valid_info(*token_program),
    ensures
        final(scope).spec_wf(),
        spec_same_shape(*old(scope), *final(scope)),
        final(scope).spec_depth() == old(scope).spec_depth(),
        final(scope).receipt.call_stack@ == old(scope).receipt.call_stack@,
        final(scope).receipt.result == old(scope).receipt.result,
        crate::receipt::spec_log_prefix(old(scope).receipt, final(scope).receipt),
        old(scope).receipt.return_data is None ==> final(scope).receipt.return_data is None,
        amount == 0 ==> r is Ok && final(scope).metas == old(scope).metas,
    decreases 4 - old(scope).spec_depth(), 5int,
{
    if amount == 0 {
        return Ok(());
    }
    let idx = transfer_instruction(
        &token_program.key,
        &from_account.key,
        &to_vault.key,
        &payer.key,
        amount,
    );
    let mut infos: Vec<AccountInfo> = Vec::new();
    infos.push(payer.clone());
    infos.push(to_vault.clone());
    infos.push(token_program.clone());
    infos.push(from_account.clone());
    invoke(&idx, &infos, scope)
}

/// Moves tokens from a pool vault to an account, signing as the pool.
pub fn give_token(
    amount: u64,
    pool: &crate::pool::Pool,
    pool_ai: &AccountInfo,
    from_vault: &AccountInfo,
    to_account: &AccountInfo,
    token_program: &AccountInfo,
    scope: &mut Scope,
) -> (r: ProgramResult)
    requires
        old(scope).spec_wf(),
        1 <= old(scope).spec_depth() <= MAX_CALL_DEPTH,
        old(scope).spec_valid_info(*pool_ai),
        old(scope).spec_valid_info(*from_vault),
        old(scope).spec_valid_info(*to_account),
        old(scope).spec_valid_info(*token_program),
    ensures
        final(scope).spec_wf(),
        spec_same_shape(*old(scope), *final(scope)),
        final(scope).spec_depth() == old(scope).spec_depth(),
        final(scope).receipt.call_stack@ == old(scope).receipt.call_stack@,
        final(scope).receipt.result == old(scope).receipt.result,
        crate::receipt::spec_log_prefix(old(scope).receipt, final(scope).receipt),
        old(scope).receipt.return_data is None ==> final(scope).receipt.return_data is None,
        amount == 0 ==> r is Ok && final(scope).metas == old(scope).metas,
    decreases 4 - old(scope).spec_depth(), 5int,
{
    if amount == 0 {
        return Ok(());
    }
    let idx = transfer_instruction(
        &token_program.key,
        &from_vault.key,
        &to_account.key,
        &pool_ai.key,
        amount,
    );
    let mut infos: Vec<AccountInfo> = Vec::new();
    infos.push(token_program.clone());
    infos.push(from_vault.clone());
    infos.push(to_account.clone());
    infos.push(pool_ai.clone());
    pool.invoke_signed(pool_ai, &idx, &infos, scope)
}

/// What the bundled token program decides and does: initialization
/// plants a fresh packed holding, a transfer moves the amount between
/// the two unpacked accounts, and every refusal leaves the store as it
/// was.
pub open spec fn spec_token_post(
    pre: Scope,
    post: Scope,
    accounts: Seq<AccountInfo>,
    data: Seq<u8>,
    r: crate::errors::ProgramResult,
) -> bool {
    if data.len() < 1 {
        r == Err::<(), ProgramError>(ProgramError::InvalidInstructionData) && post.metas
            == pre.metas
    } else if data[0] == 1 {
        &&& (accounts.len() < 4 ==> r == Err::<(), ProgramError>(
            ProgramError::NotEnoughAccountKeys,
        ) && post.metas == pre.metas)
        &&& (accounts.len() >= 4 && accounts[0].index < pre.spec_len() ==> {
            let ai = accounts[0].index as int;
            &&& (r is Ok <==> pre.metas@[ai].1.data@.len() == 165)
            &&& (r is Err ==> r == Err::<(), ProgramError>(ProgramError::InvalidAccountData)
                && post.metas == pre.metas)
            &&& (r is Ok ==> {
                &&& post.spec_len() == pre.spec_len()
                &&& (forall|i: int|
                    0 <= i < pre.spec_len() && i != ai ==> #[trigger] post.metas@[i]
                        == pre.metas@[i])
                &&& post.metas@[ai].0 == pre.metas@[ai].0
                &&& post.metas@[ai].1.lamports == pre.metas@[ai].1.lamports
                &&& post.metas@[ai].1.owner == pre.metas@[ai].1.owner
                &&& post.metas@[ai].1.data@ == (SPLAccount {
                    mint: accounts[1].key,
                    owner: accounts[2].key,
                    amount: 0,
                    delegate: None,
                    state: SPLAccountState::Initialized,
                    is_native: None,
                    delegated_amount: 0,
                    close_authority: None,
                }).spec_pack()
            })
        })
    } else if data[0] == 3 {
        &&& (data.len() < 9 ==> r == Err::<(), ProgramError>(
            ProgramError::InvalidInstructionData,
        ) && post.metas == pre.metas)
        &&& (data.len() >= 9 && accounts.len() < 3 ==> r == Err::<(), ProgramError>(
            ProgramError::NotEnoughAccountKeys,
        ) && post.metas == pre.metas)
        &&& (data.len() >= 9 && accounts.len() >= 3 && accounts[0].index < pre.spec_len()
            && accounts[1].index < pre.spec_len() ==> {
            let amount = vstd::bytes::spec_u64_from_le_bytes(data.subrange(1, 9));
            let si = accounts[0].index as int;
            let di = accounts[1].index as int;
            &&& (!SPLAccount::spec_unpacks(pre.metas@[si].1.data@) ==> r == Err::<
                (),
                ProgramError,
            >(ProgramError::InvalidAccountData) && post.metas == pre.metas)
            &&& (SPLAccount::spec_unpacks(pre.metas@[si].1.data@) && !SPLAccount::spec_unpacks(
                pre.metas@[di].1.data@,
            ) ==> r == Err::<(), ProgramError>(ProgramError::InvalidAccountData) && post.metas
                == pre.metas)
            &&& (forall|src: SPLAccount, dst: SPLAccount|
                (#[trigger] src.spec_pack()) == pre.metas@[si].1.data@ && (
                #[trigger] dst.spec_pack()) == pre.metas@[di].1.data@ ==> {
                    if !accounts[2].is_signer {
                        r == Err::<(), ProgramError>(ProgramError::MissingRequiredSignature)
                            && post.metas == pre.metas
                    } else if src.owner@ != accounts[2].key@ {
                        r == Err::<(), ProgramError>(ProgramError::Custom(4)) && post.metas
                            == pre.metas
                    } else if amount > src.amount {
                        r == Err::<(), ProgramError>(ProgramError::Custom(1)) && post.metas
                            == pre.metas
                    } else if si == di {
                        r is Ok && post.metas == pre.metas
                    } else if amount > u64::MAX - dst.amount {
                        r == Err::<(), ProgramError>(ProgramError::InvalidArgument) && post.metas
                            == pre.metas
                    } else {
                        &&& r is Ok
                        &&& post.spec_len() == pre.spec_len()
                        &&& (forall|i: int|
                            0 <= i < pre.spec_len() && i != si && i != di
                                ==> #[trigger] post.metas@[i] == pre.metas@[i])
                        &&& post.metas@[si].0 == pre.metas@[si].0
                        &&& post.metas@[si].1.lamports == pre.metas@[si].1.lamports
                        &&& post.metas@[si].1.owner == pre.metas@[si].1.owner
                        &&& post.metas@[si].1.data@ == (SPLAccount {
                            amount: (src.amount - amount) as u64,
                            ..src
                        }).spec_pack()
                        &&& post.metas@[di].0 == pre.metas@[di].0
                        &&& post.metas@[di].1.lamports == pre.metas@[di].1.lamports
                        &&& post.metas@[di].1.owner == pre.metas@[di].1.owner
                        &&& post.metas@[di].1.data@ == (SPLAccount {
                            amount: (dst.amount + amount) as u64,
                            ..dst
                        }).spec_pack()
                    }
                })
        })
    } else {
        r == Err::<(), ProgramError>(ProgramError::InvalidInstructionData) && post.metas
            == pre.metas
    }
}

/// The bundled token program's entry point: account initialization and
/// transfers over packed token accounts.
pub fn token_process_instruction(
    program_id: &Pubkey,
    accounts: &Vec<AccountInfo>,
    instruction_data: &Vec<u8>,
    scope: &mut Scope,
) -> (r: ProgramResult)
    requires
        old(scope).spec_wf(),
        1 <= old(scope).spec_depth() <= MAX_CALL_DEPTH,
        forall|i: int|
            0 <= i < accounts@.len() ==> old(scope).spec_valid_info(#[trigger] accounts@[i]),
    ensures
        final(scope).spec_wf(),
        spec_same_shape(*old(scope), *final(scope)),
        final(scope).spec_depth() == old(scope).spec_depth(),
        final(scope).receipt.call_stack@ == old(scope).receipt.call_stack@,
        final(scope).receipt.result == old(scope).receipt.result,
        crate::receipt::spec_log_prefix(old(scope).receipt, final(scope).receipt),
        old(scope).receipt.return_data is None ==> final(scope).receipt.return_data is None,
        spec_token_post(*old(scope), *final(scope), accounts@, instruction_data@, r),
    decreases 4 - old(scope).spec_depth(), 7int,
{
    if instruction_data.len() < 1 {
        return Err(ProgramError::InvalidInstructionData);
    }
    let tag = instruction_data[0];
    let mut cursor: usize = 0;
    if tag == 1 {
        // InitializeAccount: the target becomes a fresh holding of the
        // mint, owned by the owner account.
        let account_ai = next_account_info(accounts, &mut cursor)?;
        let mint_ai = next_account_info(accounts, &mut cursor)?;
        let owner_ai = next_account_info(accounts, &mut cursor)?;
        let _rent_ai = next_account_info(accounts, &mut cursor)?;
        if account_ai.data_len(scope) != 165 {
            return Err(ProgramError::InvalidAccountData);
        }
        let fresh = new_token_account_struct(&mint_ai.key, &owner_ai.key);
        let packed = fresh.pack();
        scope.set_data_at(account_ai.index, packed);
        proof {
            assert forall|i2: int| 0 <= i2 < scope.spec_len() implies (
            #[trigger] scope.metas@[i2]).0 == old(scope).metas@[i2].0
                && scope.metas@[i2].1.executable == old(scope).metas@[i2].1.executable
                && scope.metas@[i2].1.package == old(scope).metas@[i2].1.package by {}
            assert(scope.spec_wf());
        }
        Ok(())
    } else if tag == 3 {
        // Transfer: move `amount` units from source to destination, with
        // the source's owner signing.
        if instruction_data.len() < 9 {
            return Err(ProgramError::InvalidInstructionData);
        }
        let amount = read_u64_le(instruction_data.as_slice(), 1);
        let source_ai = next_account_info(accounts, &mut cursor)?;
        let dest_ai = next_account_info(accounts, &mut cursor)?;
        let authority_ai = next_account_info(accounts, &mut cursor)?;
        let source_acc = match SPLAccount::unpack_from_slice(source_ai.data(scope).as_slice()) {
            Some(a) => a,
            None => {
                return Err(ProgramError::InvalidAccountData);
            },
        };
        let dest_acc = match SPLAccount::unpack_from_slice(dest_ai.data(scope).as_slice()) {
            Some(a) => a,
            None => {
                return Err(ProgramError::InvalidAccountData);
            },
        };
        proof {
            let si = source_ai.index as int;
            let di = dest_ai.index as int;
            assert forall|src: SPLAccount, dst: SPLAccount|
                (#[trigger] src.spec_pack()) == old(scope).metas@[si].1.data@ && (
                #[trigger] dst.spec_pack()) == old(scope).metas@[di].1.data@ implies src
                == source_acc && dst == dest_acc by {
                SPLAccount::lemma_pack_injective(src, source_acc);
                SPLAccount::lemma_pack_injective(dst, dest_acc);
            }
        }
        if !authority_ai.is_signer {
            return Err(ProgramError::MissingRequiredSignature);
        }
        if !source_acc.owner.eq(&authority_ai.key) {
            return Err(ProgramError::Custom(4));
        }
        if amount > source_acc.amount {
            return Err(ProgramError::Custom(1));
        }
        if source_ai.index == dest_ai.index {
            return Ok(());
        }
        if amount > u64::MAX - dest_acc.amount {
            return Err(ProgramError::InvalidArgument);
        }
        let mut new_source = source_acc;
        new_source.amount = source_acc.amount - amount;
        let mut new_dest = dest_acc;
        new_dest.amount = dest_acc.amount + amount;
        let packed_source = new_source.pack();
        let packed_dest = new_dest.pack();
        scope.set_data_at(source_ai.index, packed_source);
        scope.set_data_at(dest_ai.index, packed_dest);
        proof {
            assert forall|i2: int| 0 <= i2 < scope.spec_len() implies (
            #[trigger] scope.metas@[i2]).0 == old(scope).metas@[i2].0
                && scope.metas@[i2].1.executable == old(scope).metas@[i2].1.executable
                && scope.metas@[i2].1.package == old(scope).metas@[i2].1.package by {}
            assert(scope.spec_wf());
        }
        Ok(())
    } else {
        Err(ProgramError::InvalidInstructionData)
    }
}

/// The bundled associated-token-account program's entry point: creates a
/// wallet's associated account at its derived address and initializes it
/// as a token account. Its whole work is two nested calls, so its own
/// contract is the dispatch frame; the calls' outcomes are pinned by the
/// dispatcher's and the callees' contracts.
pub fn associated_process_instruction(
    program_id: &Pubkey,
    accounts: &Vec<AccountInfo>,
    instruction_data: &Vec<u8>,
    scope: &mut Scope,
) -> (r: ProgramResult)
    requires
        old(scope).spec_wf(),
        1 <= old(scope).spec_depth() <= MAX_CALL_DEPTH,
        forall|i: int|
            0 <= i < accounts@.len() ==> old(scope).spec_valid_info(#[trigger] accounts@[i]),
    ensures
        final(scope).spec_wf(),
        spec_same_shape(*old(scope), *final(scope)),
        final(scope).spec_depth() == old(scope).spec_depth(),
        final(scope).receipt.call_stack@ == old(scope).receipt.call_stack@,
        final(scope).receipt.result == old(scope).receipt.result,
        crate::receipt::spec_log_prefix(old(scope).receipt, final(scope).receipt),
        old(scope).receipt.return_data is None ==> final(scope).receipt.return_data is None,
    decreases 4 - old(scope).spec_depth(), 7int,
{
    let mut cursor: usize = 0;
    let payer = next_account_info(accounts, &mut cursor)?;
    let account_ai = next_account_info(accounts, &mut cursor)?;
    let wallet_ai = next_account_info(accounts, &mut cursor)?;
    let mint_ai = next_account_info(accounts, &mut cursor)?;
    let system_program = next_account_info(accounts, &mut cursor)?;
    let token_program = next_account_info(accounts, &mut cursor)?;
    let rent_ai = next_account_info(accounts, &mut cursor)?;
    let seeds = associated_seeds_for(&wallet_ai.key, &mint_ai.key);
    let expected: Pubkey;
    let bump: u8;
    match try_get_associated_token_address(&wallet_ai.key, &mint_ai.key) {
        None => {
            return Err(ProgramError::InvalidSeeds);
        },
        Some(p) => {
            expected = p.0;
            bump = p.1;
        },
    }
    if !expected.eq(&account_ai.key) {
        return Err(ProgramError::InvalidSeeds);
    }
    let mut bump_seed: Vec<u8> = Vec::new();
    bump_seed.push(bump);
    let signing = crate::pubkey::seeds_with_extra(&seeds, bump_seed);
    let mut signers: Vec<Vec<Vec<u8>>> = Vec::new();
    signers.push(signing);
    let rent = scope.get_rent();
    let min = rent.minimum_balance(165);
    let create_idx = crate::system_instruction::create_account(
        &payer.key,
        &account_ai.key,
        min,
        165,
        &token_program.key,
    );
    let mut create_infos: Vec<AccountInfo> = Vec::new();
    create_infos.push(payer.clone());
    create_infos.push(account_ai.clone());
    create_infos.push(system_program.clone());
    invoke_signed(&create_idx, &create_infos, &signers, scope)?;
    let mut init_data: Vec<u8> = Vec::new();
    init_data.push(1u8);
    let mut metas: Vec<AccountMeta> = Vec::new();
    metas.push(AccountMeta::new(account_ai.key.clone(), false));
    metas.push(AccountMeta::new_readonly(mint_ai.key.clone(), false));
    metas.push(AccountMeta::new_readonly(wallet_ai.key.clone(), false));
    metas.push(AccountMeta::new_readonly(rent_ai.key.clone(), false));
    let init_idx = Instruction {
        program_id: token_program.key.clone(),
        accounts: metas,
        data: init_data,
    };
    let mut init_infos: Vec<AccountInfo> = Vec::new();
    init_infos.push(account_ai.clone());
    init_infos.push(mint_ai.clone());
    init_infos.push(wallet_ai.clone());
    init_infos.push(rent_ai.clone());
    init_infos.push(token_program.clone());
    invoke(&init_idx, &init_infos, scope)
}

} // verus!
