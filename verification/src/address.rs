//! Well-formedness of ledger address strings.
//!
//! An address is 56 characters of the base-32 alphabet (`A`–`Z`,
//! `2`–`7`), starting with `G` (an account) or `C` (a contract).  The
//! check exists in two shapes, over text and over raw bytes.

use vstd::prelude::*;

use crate::errors::ContractError;

verus! {

/// Whether `byte` belongs to the base-32 alphabet `A`–`Z`, `2`–`7`.
pub open spec fn spec_is_base32_byte(byte: u8) -> bool {
    ('A' as int <= byte as int && byte as int <= 'Z' as int) || ('2' as int <= byte as int
        && byte as int <= '7' as int)
}

/// Whether `c` belongs to the base-32 alphabet `A`–`Z`, `2`–`7`.
pub open spec fn spec_is_base32_char(c: char) -> bool {
    ('A' as int <= c as int && c as int <= 'Z' as int) || ('2' as int <= c as int && c as int
        <= '7' as int)
}

/// A well-formed address as text: 56 base-32 characters starting with
/// `G` or `C`.
pub open spec fn spec_valid_address(s: Seq<char>) -> bool {
    &&& s.len() == 56
    &&& (s[0] == 'G' || s[0] == 'C')
    &&& forall|i: int| 0 <= i < s.len() ==> spec_is_base32_char(#[trigger] s[i])
}

/// A well-formed address as raw bytes: 56 base-32 bytes starting with
/// `G` or `C`.
pub open spec fn spec_valid_address_bytes(s: Seq<u8>) -> bool {
    &&& s.len() == 56
    &&& (s[0] as int == 'G' as int || s[0] as int == 'C' as int)
    &&& forall|i: int| 0 <= i < s.len() ==> spec_is_base32_byte(#[trigger] s[i])
}

/// Whether `byte` belongs to the base-32 alphabet.
pub fn is_valid_base32(byte: u8) -> (r: bool)
    ensures
        r == spec_is_base32_byte(byte),
{
    // 65..=90 is 'A'..='Z', 50..=55 is '2'..='7'
    (65 <= byte && byte <= 90) || (50 <= byte && byte <= 55)
}

/// Whether `address` is a well-formed address string.
pub fn is_valid_string_address(address: &String) -> (r: bool)
    ensures
        r == spec_valid_address(address@),
{
    let s = address.as_str();
    let len = s.unicode_len();
    if len != 56 {
        return false;
    }
    let first = s.get_char(0);
    if first != 'G' && first != 'C' {
        return false;
    }
    let mut i: usize = 0;
    while i < 56
        invariant
            i <= 56,
            s@ == address@,
            s@.len() == 56,
            forall|k: int| 0 <= k < i ==> spec_is_base32_char(#[trigger] s@[k]),
        decreases 56 - i,
    {
        let c = s.get_char(i);
        let v = c as u32;
        if !((65 <= v && v <= 90) || (50 <= v && v <= 55)) {
            return false;
        }
        i += 1;
    }
    true
}

/// The account part of a network address: everything after the first
/// `/`.  A network address reads `nid/account`; fails with
/// `InvalidAddress` when no separator is present.
pub fn get_address(network_address: &String) -> (r: Result<String, ContractError>)
    ensures
        r is Ok <==> (exists|i: int|
            0 <= i < network_address@.len() && network_address@[i] == '/'),
        r matches Ok(account) ==> exists|i: int|
            {
                &&& 0 <= i < network_address@.len()
                &&& network_address@[i] == '/'
                &&& forall|j: int| 0 <= j < i ==> network_address@[j] != '/'
                &&& account@ == network_address@.subrange(
                    i + 1,
                    network_address@.len() as int,
                )
            },
        r matches Err(e) ==> e == ContractError::InvalidAddress,
{
    let s = network_address.as_str();
    let len = s.unicode_len();
    let mut i: usize = 0;
    while i < len
        invariant
            i <= len,
            s@ == network_address@,
            len == s@.len(),
            forall|j: int| 0 <= j < i ==> s@[j] != '/',
        decreases len - i,
    {
        if s.get_char(i) == '/' {
            let account = s.substring_char(i + 1, len);
            return Ok(String::from_str(account));
        }
        i += 1;
    }
    Err(ContractError::InvalidAddress)
}

/// Whether `address` is a well-formed address in raw bytes.
pub fn is_valid_bytes_address(address: &Vec<u8>) -> (r: bool)
    ensures
        r == spec_valid_address_bytes(address@),
{
    if address.len() != 56 {
        return false;
    }
    let first = address[0];
    // 71 is 'G', 67 is 'C'
    if first != 71 && first != 67 {
        return false;
    }
    let mut i: usize = 0;
    while i < 56
        invariant
            i <= 56,
            address@.len() == 56,
            forall|k: int| 0 <= k < i ==> spec_is_base32_byte(#[trigger] address@[k]),
        decreases 56 - i,
    {
        if !is_valid_base32(address[i]) {
            return false;
        }
        i += 1;
    }
    true
}

} // verus!
