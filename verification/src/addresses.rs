//! Payment addresses of invoices.

use vstd::prelude::*;

use crate::hexadecimal;
use crate::hexadecimal::{hex_roundtrip, hex_text};
use crate::scanner::decrypt::{first_orchard, find_orchard, fvk_of, parse_orchard_fvk, KeyError};
use crate::zcash::{
    decode_address, decode_ufvk, encode_address, orchard_address_text, orchard_receiver_at,
    receiver_at, unified_address, unified_fvk,
};

verus! {

/// An address that was derived for an invoice: the text that is shown, and the
/// receiver by which its payments are recognised.
pub struct DerivedAddress {
    pub ua_string: String,
    pub orchard_receiver_hex: String,
}

/// The address text and the receiver that a viewing key has at an index.
pub open spec fn derived_address(ufvk: Seq<char>, index: u32) -> Result<
    (Seq<char>, Seq<char>),
    KeyError,
> {
    match fvk_of(ufvk) {
        Err(e) => Err(e),
        Ok(fvk) => {
            let raw = orchard_receiver_at(fvk, index);
            match orchard_address_text(raw, (unified_fvk(ufvk)->0).0) {
                Some(ua) => Ok((ua, hex_text(raw))),
                None => Err(KeyError::AddressConstruction),
            }
        },
    }
}

/// Whether an address and its receiver are those of one index of a viewing key
/// only: at every other index the key has another address, with another
/// receiver.
pub open spec fn is_unique_at(ufvk: Seq<char>, index: u32, a: &DerivedAddress) -> bool {
    forall|j: u32|
        j != index ==> (#[trigger] derived_address(ufvk, j) matches Ok(b) && b.0 != a.ua_string@
            && b.1 != a.orchard_receiver_hex@)
}

/// Derives the payment address of a viewing key at a diversifier index. The
/// address holds exactly the receiver that is given along with it, and no
/// other index of the key has either of them.
pub fn derive_invoice_address(ufvk_str: &str, index: u32) -> (r: Result<DerivedAddress, KeyError>)
    ensures
        match r {
            Ok(a) => derived_address(ufvk_str@, index) == Ok::<(Seq<char>, Seq<char>), KeyError>(
                (a.ua_string@, a.orchard_receiver_hex@),
            ),
            Err(e) => derived_address(ufvk_str@, index) == Err::<(Seq<char>, Seq<char>), KeyError>(
                e,
            ),
        },
        r matches Ok(a) ==> receiver_of(a.ua_string@) == Some(a.orchard_receiver_hex@)
            && is_unique_at(ufvk_str@, index, &a),
{
    match decode_ufvk(ufvk_str) {
        None => Err(KeyError::UfvkDecode),
        Some((network, _)) => match parse_orchard_fvk(ufvk_str) {
            Err(e) => Err(e),
            Ok(fvk) => {
                let raw: Vec<u8> = receiver_at(fvk.as_slice(), index);
                let orchard_receiver_hex: String = hexadecimal::encode(raw.as_slice());
                match encode_address(raw.as_slice(), network) {
                    None => Err(KeyError::AddressConstruction),
                    Some(ua_string) => {
                        assert(seq![Some(raw@)][0] == Some(raw@));
                        proof {
                            hex_roundtrip(raw@);
                            assert forall|j: u32| j != index implies (
                            #[trigger] derived_address(ufvk_str@, j) matches Ok(b) && b.0
                                != ua_string@ && b.1 != orchard_receiver_hex@) by {
                                hex_roundtrip(orchard_receiver_at(fvk@, j));
                            }
                        }
                        Ok(DerivedAddress { ua_string, orchard_receiver_hex })
                    },
                }
            },
        },
    }
}

/// The Orchard receiver of a unified address, in hexadecimal.
pub open spec fn receiver_of(address: Seq<char>) -> Option<Seq<char>> {
    match unified_address(address) {
        None => None,
        Some(items) => match first_orchard(items) {
            Some(raw) => Some(hex_text(raw)),
            None => None,
        },
    }
}

/// The Orchard receiver of a unified address, in hexadecimal.
pub fn orchard_receiver(address: &str) -> (r: Option<String>)
    ensures
        match r {
            Some(s) => receiver_of(address@) == Some(s@),
            None => receiver_of(address@) is None,
        },
{
    match decode_address(address) {
        None => None,
        Some(items) => match find_orchard(&items) {
            Some(raw) => Some(hexadecimal::encode(raw.as_slice())),
            None => None,
        },
    }
}

// ---------------------------------------------------------------------------
// Laws
// ---------------------------------------------------------------------------

/// An address is derived exactly where the key can be read and the address can
/// be written. It is the one at its index, on the network of the key, with the
/// receiver in hexadecimal.
pub proof fn address_is_the_one_at_its_index(ufvk: Seq<char>, index: u32)
    ensures
        fvk_of(ufvk) matches Err(e) ==> derived_address(ufvk, index) == Err::<
            (Seq<char>, Seq<char>),
            KeyError,
        >(e),
        fvk_of(ufvk) matches Ok(fvk) ==> {
            let raw = orchard_receiver_at(fvk, index);
            match orchard_address_text(raw, (unified_fvk(ufvk)->0).0) {
                Some(text) => derived_address(ufvk, index) == Ok::<
                    (Seq<char>, Seq<char>),
                    KeyError,
                >((text, hex_text(raw))),
                None => derived_address(ufvk, index) == Err::<(Seq<char>, Seq<char>), KeyError>(
                    KeyError::AddressConstruction,
                ),
            }
        },
{
}

/// The receiver of an address is its first Orchard item in hexadecimal, and an
/// address that cannot be read or has none has no receiver.
pub proof fn receiver_is_the_first_orchard_item(address: Seq<char>)
    ensures
        unified_address(address) is None ==> receiver_of(address) is None,
        unified_address(address) matches Some(items) ==> (match first_orchard(items) {
            Some(raw) => receiver_of(address) == Some(hex_text(raw)),
            None => receiver_of(address) is None,
        }),
{
}

} // verus!
