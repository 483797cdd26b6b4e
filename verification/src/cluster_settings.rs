use vstd::prelude::*;

verus! {

/// A snapshot of the cluster's time parameters.
#[derive(Clone, Copy, Debug)]
pub struct Clock {
    pub slot: u64,
    pub epoch_start_timestamp: i64,
    pub epoch: u64,
    pub leader_schedule_epoch: u64,
    pub unix_timestamp: i64,
}

/// The cluster's rent parameters: the minimum balance that exempts an
/// account from rent is `lamports_per_byte_year * exemption_threshold`
/// lamports per byte of data.
#[derive(Clone, Copy, Debug)]
pub struct Rent {
    pub lamports_per_byte_year: u64,
    pub exemption_threshold: u64,
    pub burn_percent: u8,
}

/// The bytes of bookkeeping the ledger charges each account for, on top
/// of its own data, when a program sizes a funding transfer.
pub const ACCOUNT_STORAGE_OVERHEAD: u64 = 128;

/// The minimum balance that exempts `size` bytes of data from rent.
pub open spec fn spec_minimum_balance(
    lamports_per_byte_year: u64,
    exemption_threshold: u64,
    size: nat,
) -> nat {
    (lamports_per_byte_year * exemption_threshold) as nat * size
}

impl Rent {
    pub open spec fn spec_wf(self) -> bool {
        self.lamports_per_byte_year * self.exemption_threshold <= u64::MAX
    }

    /// The balance a program funds an account with to keep it rent
    /// exempt: the storage overhead is charged on top of the data bytes.
    /// Clamped to the largest representable balance.
    pub fn minimum_balance(&self, size: usize) -> (r: u64)
        requires
            self.spec_wf(),
        ensures
            r as nat == if spec_minimum_balance(
                self.lamports_per_byte_year,
                self.exemption_threshold,
                size as nat + ACCOUNT_STORAGE_OVERHEAD as nat,
            ) <= u64::MAX as nat {
                spec_minimum_balance(
                    self.lamports_per_byte_year,
                    self.exemption_threshold,
                    size as nat + ACCOUNT_STORAGE_OVERHEAD as nat,
                )
            } else {
                u64::MAX as nat
            },
    {
        let per_byte = self.lamports_per_byte_year * self.exemption_threshold;
        proof {
            let x = per_byte as nat;
            let y = size as nat;
            assert(x * y <= (u64::MAX as nat) * (u64::MAX as nat) && x * 128 <= (u64::MAX as nat)
                * 128 && (u64::MAX as nat) * (u64::MAX as nat) < u128::MAX as nat && (
            u64::MAX as nat) * 128 < u128::MAX as nat && x * (y + 128) == x * y + x * 128)
                by (nonlinear_arith)
                requires
                    x <= u64::MAX as nat,
                    y <= u64::MAX as nat,
            ;
        }
        let wide_data: u128 = (per_byte as u128) * (size as u128);
        let wide_overhead: u128 = (per_byte as u128) * (ACCOUNT_STORAGE_OVERHEAD as u128);
        if wide_data > u128::MAX - wide_overhead {
            return u64::MAX;
        }
        let wide: u128 = wide_data + wide_overhead;
        if wide > u64::MAX as u128 {
            u64::MAX
        } else {
            wide as u64
        }
    }
}

/// Per-scope economic and time parameters of the simulated cluster.
#[derive(Clone, Copy, Debug)]
pub struct ClusterSettings {
    pub lamports_per_byte_year: u64,
    pub exemption_threshold: u64,
    pub burn_percent: u8,
    pub slot: u64,
    pub epoch_start_timestamp: i64,
    pub epoch: u64,
    pub leader_schedule_epoch: u64,
    pub unix_timestamp: i64,
}

/// Relies on chrono::Utc::now for the current time; nothing is assumed of
/// the result.
#[verifier::external_body]
fn now_timestamp() -> i64 {
    chrono::Utc::now().timestamp()
}

impl ClusterSettings {
    pub open spec fn spec_wf(self) -> bool {
        self.lamports_per_byte_year * self.exemption_threshold <= u64::MAX
    }

    /// Fresh settings with the default rent rates and the clock set to now.
    pub fn new() -> (r: ClusterSettings)
        ensures
            r.lamports_per_byte_year == crate::utils::DEFAULT_LAMPORTS_PER_BYTE_YEAR,
            r.exemption_threshold == crate::utils::DEFAULT_EXEMPTION_THRESHOLD,
            r.burn_percent == 50,
            r.slot == 1,
            r.epoch == 1,
            r.leader_schedule_epoch == 0,
            r.spec_wf(),
    {
        let time = now_timestamp();
        ClusterSettings {
            lamports_per_byte_year: crate::utils::DEFAULT_LAMPORTS_PER_BYTE_YEAR,
            exemption_threshold: crate::utils::DEFAULT_EXEMPTION_THRESHOLD,
            burn_percent: 50,
            slot: 1,
            epoch_start_timestamp: time,
            epoch: 1,
            leader_schedule_epoch: 0,
            unix_timestamp: time,
        }
    }

    pub fn as_clock(&self) -> (r: Clock)
        ensures
            r.slot == self.slot,
            r.epoch_start_timestamp == self.epoch_start_timestamp,
            r.epoch == self.epoch,
            r.leader_schedule_epoch == self.leader_schedule_epoch,
            r.unix_timestamp == self.unix_timestamp,
    {
        Clock {
            slot: self.slot,
            epoch_start_timestamp: self.epoch_start_timestamp,
            epoch: self.epoch,
            leader_schedule_epoch: self.leader_schedule_epoch,
            unix_timestamp: self.unix_timestamp,
        }
    }

    pub fn as_rent(&self) -> (r: Rent)
        ensures
            r.lamports_per_byte_year == self.lamports_per_byte_year,
            r.exemption_threshold == self.exemption_threshold,
            r.burn_percent == self.burn_percent,
            self.spec_wf() ==> r.spec_wf(),
    {
        Rent {
            lamports_per_byte_year: self.lamports_per_byte_year,
            exemption_threshold: self.exemption_threshold,
            burn_percent: self.burn_percent,
        }
    }
}

} // verus!
