use vstd::prelude::*;
use vstd::string::StringExecFns;

verus! {

/// Error surfaced to programs and recorded in a `Receipt`.
#[derive(Clone, Copy, Debug, PartialEq, Eq, Structural)]
pub enum ProgramError {
    Custom(u32),
    InvalidArgument,
    InvalidInstructionData,
    InvalidAccountData,
    AccountDataTooSmall,
    InsufficientFunds,
    IncorrectProgramId,
    MissingRequiredSignature,
    AccountAlreadyInitialized,
    UninitializedAccount,
    NotEnoughAccountKeys,
    AccountBorrowFailed,
    MaxSeedLengthExceeded,
    InvalidSeeds,
    BorshIoError,
    AccountNotRentExempt,
    UnsupportedSysvar,
    InvalidRealloc,
    CallDepthExceeded,
}

pub type ProgramResult = Result<(), ProgramError>;

impl ProgramError {
    /// The text under which this error appears in a receipt's log.
    pub open spec fn spec_message(self) -> Seq<char> {
        match self {
            ProgramError::Custom(n) => "Custom("@ + crate::utils::spec_u64_string(n as nat)
                + ")"@,
            ProgramError::InvalidArgument => "InvalidArgument"@,
            ProgramError::InvalidInstructionData => "InvalidInstructionData"@,
            ProgramError::InvalidAccountData => "InvalidAccountData"@,
            ProgramError::AccountDataTooSmall => "AccountDataTooSmall"@,
            ProgramError::InsufficientFunds => "InsufficientFunds"@,
            ProgramError::IncorrectProgramId => "IncorrectProgramId"@,
            ProgramError::MissingRequiredSignature => "MissingRequiredSignature"@,
            ProgramError::AccountAlreadyInitialized => "AccountAlreadyInitialized"@,
            ProgramError::UninitializedAccount => "UninitializedAccount"@,
            ProgramError::NotEnoughAccountKeys => "NotEnoughAccountKeys"@,
            ProgramError::AccountBorrowFailed => "AccountBorrowFailed"@,
            ProgramError::MaxSeedLengthExceeded => "MaxSeedLengthExceeded"@,
            ProgramError::InvalidSeeds => "InvalidSeeds"@,
            ProgramError::BorshIoError => "BorshIoError"@,
            ProgramError::AccountNotRentExempt => "AccountNotRentExempt"@,
            ProgramError::UnsupportedSysvar => "UnsupportedSysvar"@,
            ProgramError::InvalidRealloc => "InvalidRealloc"@,
            ProgramError::CallDepthExceeded => "CallDepthExceeded"@,
        }
    }

    /// Renders the error for a receipt log line.
    pub fn message(&self) -> (r: String)
        ensures
            r@ == self.spec_message(),
    {
        match self {
            ProgramError::Custom(n) => {
                let mut s = String::from_str("Custom(");
                let digits = crate::utils::u64_to_string(*n as u64);
                s.append(digits.as_str());
                s.append(")");
                s
            },
            ProgramError::InvalidArgument => String::from_str("InvalidArgument"),
            ProgramError::InvalidInstructionData => String::from_str("InvalidInstructionData"),
            ProgramError::InvalidAccountData => String::from_str("InvalidAccountData"),
            ProgramError::AccountDataTooSmall => String::from_str("AccountDataTooSmall"),
            ProgramError::InsufficientFunds => String::from_str("InsufficientFunds"),
            ProgramError::IncorrectProgramId => String::from_str("IncorrectProgramId"),
            ProgramError::MissingRequiredSignature => String::from_str("MissingRequiredSignature"),
            ProgramError::AccountAlreadyInitialized => String::from_str(
                "AccountAlreadyInitialized",
            ),
            ProgramError::UninitializedAccount => String::from_str("UninitializedAccount"),
            ProgramError::NotEnoughAccountKeys => String::from_str("NotEnoughAccountKeys"),
            ProgramError::AccountBorrowFailed => String::from_str("AccountBorrowFailed"),
            ProgramError::MaxSeedLengthExceeded => String::from_str("MaxSeedLengthExceeded"),
            ProgramError::InvalidSeeds => String::from_str("InvalidSeeds"),
            ProgramError::BorshIoError => String::from_str("BorshIoError"),
            ProgramError::AccountNotRentExempt => String::from_str("AccountNotRentExempt"),
            ProgramError::UnsupportedSysvar => String::from_str("UnsupportedSysvar"),
            ProgramError::InvalidRealloc => String::from_str("InvalidRealloc"),
            ProgramError::CallDepthExceeded => String::from_str("CallDepthExceeded"),
        }
    }

}

/// Error produced by the built-in system program before it is
/// converted into a `ProgramError`.
#[derive(Clone, Copy, Debug, PartialEq, Eq, Structural)]
pub enum InstructionError {
    GenericError,
    InvalidArgument,
    InvalidInstructionData,
    MissingRequiredSignature,
    NotEnoughAccountKeys,
    ExecutableLamportChange,
    ReadonlyLamportChange,
    Custom(u32),
}

/// Failure codes of the system program's own instruction set.
#[derive(Clone, Copy, Debug, PartialEq, Eq, Structural)]
pub enum SystemError {
    AccountAlreadyInUse,
    ResultWithNegativeLamports,
    InvalidAccountDataLength,
}

impl SystemError {
    /// The numeric code under which a system-program failure travels.
    pub open spec fn spec_code(self) -> u32 {
        match self {
            SystemError::AccountAlreadyInUse => 0,
            SystemError::ResultWithNegativeLamports => 1,
            SystemError::InvalidAccountDataLength => 3,
        }
    }

    pub fn code(self) -> (r: u32)
        ensures
            r == self.spec_code(),
    {
        match self {
            SystemError::AccountAlreadyInUse => 0,
            SystemError::ResultWithNegativeLamports => 1,
            SystemError::InvalidAccountDataLength => 3,
        }
    }

    pub fn to_instruction_error(self) -> (r: InstructionError)
        ensures
            r == InstructionError::Custom(self.spec_code()),
    {
        InstructionError::Custom(self.code())
    }
}

/// How a system-program failure appears to the calling program.
pub open spec fn spec_convert_instruction_error(err: InstructionError) -> ProgramError {
    match err {
        InstructionError::Custom(n) => ProgramError::Custom(n),
        InstructionError::InvalidArgument => ProgramError::InvalidArgument,
        InstructionError::InvalidInstructionData => ProgramError::InvalidInstructionData,
        InstructionError::MissingRequiredSignature => ProgramError::MissingRequiredSignature,
        InstructionError::NotEnoughAccountKeys => ProgramError::NotEnoughAccountKeys,
        InstructionError::GenericError => ProgramError::Custom(0),
        InstructionError::ExecutableLamportChange => ProgramError::Custom(0),
        InstructionError::ReadonlyLamportChange => ProgramError::Custom(0),
    }
}

pub fn convert_instruction_error(err: InstructionError) -> (r: ProgramError)
    ensures
        r == spec_convert_instruction_error(err),
{
    match err {
        InstructionError::Custom(n) => ProgramError::Custom(n),
        InstructionError::InvalidArgument => ProgramError::InvalidArgument,
        InstructionError::InvalidInstructionData => ProgramError::InvalidInstructionData,
        InstructionError::MissingRequiredSignature => ProgramError::MissingRequiredSignature,
        InstructionError::NotEnoughAccountKeys => ProgramError::NotEnoughAccountKeys,
        InstructionError::GenericError => ProgramError::Custom(0),
        InstructionError::ExecutableLamportChange => ProgramError::Custom(0),
        InstructionError::ReadonlyLamportChange => ProgramError::Custom(0),
    }
}

} // verus!
