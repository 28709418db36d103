//! The security levels at which the protocols run.

use vstd::prelude::*;

verus! {

/// The full level.
#[derive(Clone)]
pub struct Std;

/// The middle level: faster to set up than the full one.
#[derive(Clone)]
pub struct Mid;

/// The parameters of a security level.
#[derive(Debug, Clone, Copy, PartialEq, Eq, Structural)]
pub struct SecurityParams {
    /// The security parameter.
    pub kappa_bits: u32,
    /// The length of each of the primes of a public key, in bits.
    pub rsa_prime_bitlen: u32,
    /// The least length of a public key, in bits.
    pub rsa_pubkey_bitlen: u32,
    /// The parameter epsilon of the protocol, in bits.
    pub epsilon: usize,
    /// The parameter ell of the protocol.
    pub ell: usize,
    /// The parameter ell prime of the protocol.
    pub ell_prime: usize,
    /// The parameter m of the protocol.
    pub m: usize,
}

/// The parameters hang together: a public key is at least one bit short of twice
/// the length of a prime, epsilon is twice the security parameter, ell is that
/// parameter, and ell prime is five times ell.
pub open spec fn coherent(params: SecurityParams) -> bool {
    &&& params.rsa_pubkey_bitlen == 2 * params.rsa_prime_bitlen - 1
    &&& params.epsilon == 2 * params.kappa_bits
    &&& params.ell == params.kappa_bits
    &&& params.ell_prime == 5 * params.ell
}

impl Std {
    pub const KAPPA_BITS: u32 = 256;

    pub const RSA_PRIME_BITLEN: u32 = 1536;

    pub const RSA_PUBKEY_BITLEN: u32 = 3071;

    pub const EPSILON: usize = 512;

    pub const ELL: usize = 256;

    pub const ELL_PRIME: usize = 1280;

    pub const M: usize = 128;

    /// The parameters of the full level.
    pub open spec fn level() -> SecurityParams {
        SecurityParams {
            kappa_bits: 256,
            rsa_prime_bitlen: 1536,
            rsa_pubkey_bitlen: 3071,
            epsilon: 512,
            ell: 256,
            ell_prime: 1280,
            m: 128,
        }
    }

    /// The parameters of the full level.
    pub fn params() -> (params: SecurityParams)
        ensures
            params == Self::level(),
            coherent(params),
    {
        SecurityParams {
            kappa_bits: Self::KAPPA_BITS,
            rsa_prime_bitlen: Self::RSA_PRIME_BITLEN,
            rsa_pubkey_bitlen: Self::RSA_PUBKEY_BITLEN,
            epsilon: Self::EPSILON,
            ell: Self::ELL,
            ell_prime: Self::ELL_PRIME,
            m: Self::M,
        }
    }
}

impl Mid {
    pub const KAPPA_BITS: u32 = 192;

    pub const RSA_PRIME_BITLEN: u32 = 1024;

    pub const RSA_PUBKEY_BITLEN: u32 = 2047;

    pub const EPSILON: usize = 384;

    pub const ELL: usize = 192;

    pub const ELL_PRIME: usize = 960;

    pub const M: usize = 128;

    /// The parameters of the middle level.
    pub open spec fn level() -> SecurityParams {
        SecurityParams {
            kappa_bits: 192,
            rsa_prime_bitlen: 1024,
            rsa_pubkey_bitlen: 2047,
            epsilon: 384,
            ell: 192,
            ell_prime: 960,
            m: 128,
        }
    }

    /// The parameters of the middle level.
    pub fn params() -> (params: SecurityParams)
        ensures
            params == Self::level(),
            coherent(params),
    {
        SecurityParams {
            kappa_bits: Self::KAPPA_BITS,
            rsa_prime_bitlen: Self::RSA_PRIME_BITLEN,
            rsa_pubkey_bitlen: Self::RSA_PUBKEY_BITLEN,
            epsilon: Self::EPSILON,
            ell: Self::ELL,
            ell_prime: Self::ELL_PRIME,
            m: Self::M,
        }
    }
}

} // verus!
