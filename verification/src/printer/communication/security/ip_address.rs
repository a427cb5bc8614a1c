//! This module provides functionality related to IP address handling for security mechanisms:
//! protections made of lists of IP addresses that can't or can pass.
use vstd::prelude::*;

use super::Protection;

verus! {

/// A trait for retrieving the IP address from a request.
pub trait GetIpAddress {
    /// Returns the IP address associated with the current request, if available.
    fn get_ip_address(&self) -> Option<IpAddress>;
}

/// Represents an IP address as a 32-bit unsigned integer.
#[derive(PartialEq, Eq, Clone, Copy, Debug, Hash, Structural)]
pub struct IpAddress(pub u32);

/// Returns `true` if `ip_addresses` contains `ip_address`.
fn contains_ip_address(ip_addresses: &Vec<IpAddress>, ip_address: IpAddress) -> (found: bool)
    ensures
        found == ip_addresses@.contains(ip_address),
{
    let mut i: usize = 0;
    while i < ip_addresses.len()
        invariant
            i <= ip_addresses@.len(),
            forall|j: int| 0 <= j < i ==> ip_addresses@[j] != ip_address,
        decreases ip_addresses@.len() - i,
    {
        if ip_addresses[i] == ip_address {
            return true;
        }
        i = i + 1;
    }
    false
}

/// A protection that lets pass every IP address but the black listed ones.
pub struct BlackListProtection {
    black_listed_ips: Vec<IpAddress>,
}

impl BlackListProtection {
    /// The black listed IP addresses.
    pub closed spec fn spec_black_listed_ips(&self) -> Seq<IpAddress> {
        self.black_listed_ips@
    }

    /// Returns the protection that doesn't let pass the `black_listed_ips`.
    pub fn new(black_listed_ips: Vec<IpAddress>) -> (protection: Self)
        ensures
            protection.spec_black_listed_ips() == black_listed_ips@,
    {
        Self { black_listed_ips }
    }
}

impl Protection for BlackListProtection {
    type Input = IpAddress;

    open spec fn spec_can_check(&self, input: IpAddress) -> bool {
        true
    }

    fn can_pass(&mut self, input: IpAddress) -> (passes: bool)
        ensures
            passes == !old(self).spec_black_listed_ips().contains(input),
            final(self).spec_black_listed_ips() == old(self).spec_black_listed_ips(),
    {
        !contains_ip_address(&self.black_listed_ips, input)
    }
}

/// A protection that lets pass only the white listed IP addresses.
pub struct WhiteListProtection {
    white_listed_ips: Vec<IpAddress>,
}

impl WhiteListProtection {
    /// The white listed IP addresses.
    pub closed spec fn spec_white_listed_ips(&self) -> Seq<IpAddress> {
        self.white_listed_ips@
    }

    /// Returns the protection that lets pass only the `white_listed_ips`.
    pub fn new(white_listed_ips: Vec<IpAddress>) -> (protection: Self)
        ensures
            protection.spec_white_listed_ips() == white_listed_ips@,
    {
        Self { white_listed_ips }
    }
}

impl Protection for WhiteListProtection {
    type Input = IpAddress;

    open spec fn spec_can_check(&self, input: IpAddress) -> bool {
        true
    }

    fn can_pass(&mut self, input: IpAddress) -> (passes: bool)
        ensures
            passes == old(self).spec_white_listed_ips().contains(input),
            final(self).spec_white_listed_ips() == old(self).spec_white_listed_ips(),
    {
        contains_ip_address(&self.white_listed_ips, input)
    }
}

} // verus!
