//! Password-hardening difficulty tiers.
//!
//! Each tier maps to fixed argon2id ops / mem cost parameters.  The tier is
//! supplied per lock operation and recorded inside every record it
//! produces, so that unlocking re-runs the hash with the parameters the
//! lock used.

use vstd::prelude::*;

verus! {

/// A named difficulty tier for the password-hardening function.
///
/// `Minimum` is for testing only; the other tiers trade login latency for
/// brute-force resistance.
#[derive(Clone, Copy, Debug, PartialEq, Eq, Structural)]
pub enum PwHashLimits {
    /// Fastest parameters libsodium accepts; testing only.
    Minimum,
    /// Suitable for interactive logins.
    Interactive,
    /// Moderate hardening.
    Moderate,
    /// Maximum-security hardening.
    Sensitive,
}

impl PwHashLimits {
    /// The argon2id ops-limit of this tier.
    pub open spec fn ops_limit_spec(self) -> u32 {
        match self {
            PwHashLimits::Minimum => 1,
            PwHashLimits::Interactive => 2,
            PwHashLimits::Moderate => 3,
            PwHashLimits::Sensitive => 4,
        }
    }

    /// The argon2id mem-limit of this tier, in bytes.
    pub open spec fn mem_limit_spec(self) -> u32 {
        match self {
            PwHashLimits::Minimum => 8192,
            PwHashLimits::Interactive => 67108864,
            PwHashLimits::Moderate => 268435456,
            PwHashLimits::Sensitive => 1073741824,
        }
    }

    /// The byte that stands for this tier on the wire.
    pub open spec fn tier_byte_spec(self) -> u8 {
        match self {
            PwHashLimits::Minimum => 1,
            PwHashLimits::Interactive => 2,
            PwHashLimits::Moderate => 3,
            PwHashLimits::Sensitive => 4,
        }
    }

    /// The tier a wire byte stands for, if it is a recognized one.
    pub open spec fn of_tier_byte_spec(b: u8) -> Option<PwHashLimits> {
        if b == 1 {
            Some(PwHashLimits::Minimum)
        } else if b == 2 {
            Some(PwHashLimits::Interactive)
        } else if b == 3 {
            Some(PwHashLimits::Moderate)
        } else if b == 4 {
            Some(PwHashLimits::Sensitive)
        } else {
            None
        }
    }

    /// The concrete argon2id ops-limit parameter of this tier.
    pub fn as_ops_limit(&self) -> (r: u32)
        ensures
            r == self.ops_limit_spec(),
    {
        match self {
            PwHashLimits::Minimum => 1,
            PwHashLimits::Interactive => 2,
            PwHashLimits::Moderate => 3,
            PwHashLimits::Sensitive => 4,
        }
    }

    /// The concrete argon2id mem-limit parameter of this tier, in bytes.
    pub fn as_mem_limit(&self) -> (r: u32)
        ensures
            r == self.mem_limit_spec(),
    {
        match self {
            PwHashLimits::Minimum => 8192,
            PwHashLimits::Interactive => 67108864,
            PwHashLimits::Moderate => 268435456,
            PwHashLimits::Sensitive => 1073741824,
        }
    }

    /// Encode this tier as its wire byte.
    pub fn to_tier_byte(&self) -> (r: u8)
        ensures
            r == self.tier_byte_spec(),
    {
        match self {
            PwHashLimits::Minimum => 1,
            PwHashLimits::Interactive => 2,
            PwHashLimits::Moderate => 3,
            PwHashLimits::Sensitive => 4,
        }
    }

    /// Decode a wire byte back into a tier; unrecognized bytes are refused.
    pub fn from_tier_byte(b: u8) -> (r: Option<PwHashLimits>)
        ensures
            r == Self::of_tier_byte_spec(b),
    {
        if b == 1 {
            Some(PwHashLimits::Minimum)
        } else if b == 2 {
            Some(PwHashLimits::Interactive)
        } else if b == 3 {
            Some(PwHashLimits::Moderate)
        } else if b == 4 {
            Some(PwHashLimits::Sensitive)
        } else {
            None
        }
    }

    /// Every tier's parameters lie inside the range the argon2id provider
    /// accepts.
    pub proof fn lemma_limits_valid(self)
        ensures
            self.ops_limit_spec() >= 1,
            self.mem_limit_spec() >= 8192,
    {
    }

    /// Round trip: a tier's wire byte decodes back to the tier.
    pub proof fn lemma_tier_byte_round_trip(self)
        ensures
            Self::of_tier_byte_spec(self.tier_byte_spec()) == Some(self),
    {
    }
}

} // verus!
