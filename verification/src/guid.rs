use vstd::prelude::*;

verus! {

/// The provider GUID that `eventheader::Guid::from_name` derives from a provider
/// name, read as a big-endian `u128`.
pub uninterp spec fn name_hash_guid(name: Seq<char>) -> u128;

/// Calls `eventheader::Guid::from_name` and reads the GUID back with `to_u128`.
/// Claimed: the result is a function of the name's characters alone (the crate
/// hashes the upper-cased UTF-16BE name with SHA-1 under a fixed namespace).
#[verifier::external_body]
fn guid_from_name_u128(name: &str) -> (r: u128)
    ensures
        r == name_hash_guid(name@),
{
    eventheader::Guid::from_name(name).to_u128()
}

/// A provider GUID, held as its big-endian 128-bit value.
#[derive(Clone, Copy, Debug, PartialEq, Eq, Hash)]
pub struct GuidWrapper {
    value: u128,
}

impl View for GuidWrapper {
    type V = u128;

    /// The GUID as a 128-bit value.
    closed spec fn view(&self) -> u128 {
        self.value
    }
}

impl GuidWrapper {
    /// Wraps a 128-bit GUID value.
    pub fn from_u128(value: u128) -> (g: GuidWrapper)
        ensures
            g@ == value,
    {
        GuidWrapper { value }
    }

    /// The 128-bit GUID value.
    pub fn to_u128(&self) -> (r: u128)
        ensures
            r == self@,
    {
        self.value
    }

    /// The GUID that the standard ETW provider-name algorithm assigns to `name`.
    pub fn from_name(name: &str) -> (g: GuidWrapper)
        ensures
            g@ == name_hash_guid(name@),
    {
        GuidWrapper { value: guid_from_name_u128(name) }
    }
}

} // verus!
