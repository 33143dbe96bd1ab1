//! What the operator configures: the seed of the node's key, the port, and the family of
//! addresses to listen on.

use vstd::prelude::*;
use crate::hexcode::{decode_hex, hex_bytes, is_hex_text};

verus! {

/// Why the configured seed cannot be used.
#[derive(Clone, Copy, Debug, PartialEq, Eq, Structural)]
pub enum SeedError {
    /// The text is not an even number of hexadecimal digits.
    InvalidHex,
    /// The text does not stand for 32 bytes.
    WrongLength,
}

/// The family of addresses that the node listens on.
#[derive(Clone, Copy, Debug, PartialEq, Eq, Structural)]
pub enum IpFamily {
    V4,
    V6,
}

/// Where the node listens: on every address of one family, on one TCP port, for
/// WebSocket connections.
#[derive(Clone, Copy, Debug, PartialEq, Eq, Structural)]
pub struct ListenAddress {
    pub family: IpFamily,
    pub port: u16,
}

/// What the operator configures.
#[derive(Debug)]
pub struct Opt {
    /// Whether the relay listens on IPv6 or on IPv4. Where nothing is said it is IPv4.
    pub use_ipv6: Option<bool>,
    /// The seed of the node's key, 32 bytes in hexadecimal digits.
    pub secret_key_seed: String,
    /// The port to listen on, on all interfaces.
    pub port: u16,
}

impl Opt {
    /// Whether the configured seed is 64 hexadecimal digits.
    pub open spec fn seed_is_valid(&self) -> bool {
        is_hex_text(self.secret_key_seed@) && self.secret_key_seed@.len() == 64
    }

    /// The family that the configuration asks for.
    pub open spec fn family(&self) -> IpFamily {
        if self.use_ipv6 == Some(true) {
            IpFamily::V6
        } else {
            IpFamily::V4
        }
    }

    /// The 32 bytes of the configured seed, or why there are none.
    pub fn checked_secret_key_seed(&self) -> (result: Result<[u8; 32], SeedError>)
        ensures
            match result {
                Ok(seed) => self.seed_is_valid() && seed@ == hex_bytes(self.secret_key_seed@),
                Err(SeedError::InvalidHex) => !is_hex_text(self.secret_key_seed@),
                Err(SeedError::WrongLength) => is_hex_text(self.secret_key_seed@)
                    && self.secret_key_seed@.len() != 64,
            },
    {
        let bytes = match decode_hex(self.secret_key_seed.as_str()) {
            Ok(bytes) => bytes,
            Err(_) => {
                return Err(SeedError::InvalidHex);
            },
        };
        if bytes.len() != 32 {
            return Err(SeedError::WrongLength);
        }
        let mut seed = [0u8; 32];
        let mut i: usize = 0;
        while i < 32
            invariant
                i <= 32,
                bytes@.len() == 32,
                forall|j: int| 0 <= j < i ==> seed@[j] == bytes@[j],
            decreases 32 - i,
        {
            seed[i] = bytes[i];
            i += 1;
        }
        assert(seed@ =~= bytes@);
        Ok(seed)
    }

    /// The 32 bytes of the configured seed.
    pub fn secret_key_seed(&self) -> (seed: [u8; 32])
        requires
            self.seed_is_valid(),
        ensures
            seed@ == hex_bytes(self.secret_key_seed@),
    {
        self.checked_secret_key_seed().unwrap()
    }

    /// Where the node listens.
    pub fn listen_address(&self) -> (address: ListenAddress)
        ensures
            address.family == self.family(),
            address.port == self.port,
    {
        let family = match self.use_ipv6 {
            Some(true) => IpFamily::V6,
            _ => IpFamily::V4,
        };
        ListenAddress { family, port: self.port }
    }
}

} // verus!
