use crate::pubkey::Pubkey;
use vstd::prelude::*;

verus! {

pub const SYSTEM_PROGRAM_ID_BYTES: [u8; 32] = [
    0, 0, 0, 0, 0, 0, 0, 0, 0, 0, 0, 0, 0, 0, 0, 0, 0, 0, 0, 0, 0, 0, 0, 0, 0, 0, 0, 0, 0, 0, 0,
    0,
];

pub const SPL_PROGRAM_ID_BYTES: [u8; 32] = [
    6, 221, 246, 225, 215, 101, 161, 147, 217, 203, 225, 70, 206, 235, 121, 172, 28, 180, 133,
    237, 95, 91, 55, 145, 58, 140, 245, 133, 126, 255, 0, 169,
];

pub const ASSOCIATED_PROGRAM_ID_BYTES: [u8; 32] = [
    140, 151, 37, 143, 78, 36, 137, 241, 187, 61, 16, 41, 20, 142, 13, 131, 11, 90, 19, 153, 218,
    255, 16, 132, 4, 142, 123, 216, 219, 233, 248, 89,
];

pub const SYSVAR_PROGRAM_ID_BYTES: [u8; 32] = [
    6, 167, 213, 23, 25, 44, 92, 81, 33, 140, 201, 76, 61, 74, 241, 127, 88, 218, 238, 8, 155,
    161, 253, 68, 227, 219, 217, 138, 0, 0, 0, 0,
];

pub const BPF_LOADER_ID_BYTES: [u8; 32] = [
    2, 168, 246, 145, 78, 136, 161, 110, 57, 90, 225, 40, 148, 143, 250, 105, 86, 147, 55, 104,
    24, 221, 71, 67, 82, 33, 243, 198, 0, 0, 0, 0,
];

pub const CLOCK_ID_BYTES: [u8; 32] = [
    6, 167, 213, 23, 24, 199, 116, 201, 40, 86, 99, 152, 105, 29, 94, 182, 139, 94, 184, 163, 155,
    75, 109, 92, 115, 85, 91, 33, 0, 0, 0, 0,
];

/// The id of the built-in system program.
pub fn system_program_id() -> (r: Pubkey)
    ensures
        r@ == SYSTEM_PROGRAM_ID_BYTES@,
{
    Pubkey::new_from_array(SYSTEM_PROGRAM_ID_BYTES)
}

/// Whether `key` is the system program's id.
pub fn is_system_program_id(key: &Pubkey) -> (r: bool)
    ensures
        r == (key@ == SYSTEM_PROGRAM_ID_BYTES@),
{
    let sys = system_program_id();
    *key == sys
}

/// The id of the bundled token program.
pub fn spl_program_id() -> (r: Pubkey)
    ensures
        r@ == SPL_PROGRAM_ID_BYTES@,
{
    Pubkey::new_from_array(SPL_PROGRAM_ID_BYTES)
}

/// The id of the bundled associated-token-account program.
pub fn associated_program_id() -> (r: Pubkey)
    ensures
        r@ == ASSOCIATED_PROGRAM_ID_BYTES@,
{
    Pubkey::new_from_array(ASSOCIATED_PROGRAM_ID_BYTES)
}

/// The id under which the rent sysvar is addressed.
pub fn sysvar_program_id() -> (r: Pubkey)
    ensures
        r@ == SYSVAR_PROGRAM_ID_BYTES@,
{
    Pubkey::new_from_array(SYSVAR_PROGRAM_ID_BYTES)
}

/// The id under which the rent sysvar is addressed.
pub fn id() -> (r: Pubkey)
    ensures
        r@ == SYSVAR_PROGRAM_ID_BYTES@,
{
    Pubkey::new_from_array(SYSVAR_PROGRAM_ID_BYTES)
}

/// The id of the loader that owns program accounts.
pub fn bpf_loader_id() -> (r: Pubkey)
    ensures
        r@ == BPF_LOADER_ID_BYTES@,
{
    Pubkey::new_from_array(BPF_LOADER_ID_BYTES)
}

/// The id under which the clock sysvar is addressed.
pub fn clock_id() -> (r: Pubkey)
    ensures
        r@ == CLOCK_ID_BYTES@,
{
    Pubkey::new_from_array(CLOCK_ID_BYTES)
}

} // verus!
