//! The calls into the Zcash crates: unified addresses and viewing keys,
//! Orchard keys, transactions and trial decryption. Keys, receivers and
//! actions are known here by their raw encodings.

use vstd::prelude::*;

use orchard::keys::{FullViewingKey, IncomingViewingKey, PreparedIncomingViewingKey, Scope};
use orchard::note_encryption::OrchardDomain;
use zcash_address::unified::{
    Address, Container, Encoding, Fvk, Ivk, Receiver, Revision, Ufvk, Uitem, Uivk,
};
use zcash_note_encryption::try_note_decryption;
use zcash_primitives::transaction::Transaction;
use zcash_protocol::consensus::{BranchId, NetworkType};

verus! {

/// Length of the raw encoding of an Orchard full viewing key.
pub const FVK_LEN: usize = 96;

/// Length of the raw encoding of an Orchard incoming viewing key.
pub const IVK_LEN: usize = 64;

/// Length of the raw encoding of an Orchard receiver.
pub const RECEIVER_LEN: usize = 43;

/// A Zcash network.
#[derive(Debug, Clone, Copy, PartialEq, Eq, Structural)]
pub enum Network {
    Main,
    Test,
    Regtest,
}

/// An outside transaction, known by the Orchard actions in it.
#[verifier::external_type_specification]
#[verifier::external_body]
pub struct ExTransaction(Transaction);

/// An outside key that was prepared for trial decryption.
#[verifier::external_type_specification]
#[verifier::external_body]
pub struct ExPreparedIncomingViewingKey(PreparedIncomingViewingKey);

/// What trial decryption recovers from an action.
pub struct RawNote {
    pub amount_zatoshis: u64,
    pub recipient_raw: Vec<u8>,
    pub memo: Vec<u8>,
}

/// What trial decryption recovers from an action: the amount, the raw receiver
/// and the memo.
pub struct NoteView {
    pub amount_zatoshis: u64,
    pub recipient_raw: Seq<u8>,
    pub memo: Seq<u8>,
}

/// The items of a unified container: the encoding of an Orchard item, nothing
/// for any other.
pub open spec fn items_view(items: Seq<Option<Vec<u8>>>) -> Seq<Option<Seq<u8>>> {
    items.map_values(
        |item: Option<Vec<u8>>|
            match item {
                Some(b) => Some(b@),
                None => None,
            },
    )
}

pub open spec fn note_view(n: RawNote) -> NoteView {
    NoteView {
        amount_zatoshis: n.amount_zatoshis,
        recipient_raw: n.recipient_raw@,
        memo: n.memo@,
    }
}

/// The network and the items of a unified full viewing key.
pub uninterp spec fn unified_fvk(text: Seq<char>) -> Option<(Network, Seq<Option<Seq<u8>>>)>;

/// The network and the items of a unified incoming viewing key.
pub uninterp spec fn unified_ivk(text: Seq<char>) -> Option<(Network, Seq<Option<Seq<u8>>>)>;

/// The items of a unified address.
pub uninterp spec fn unified_address(text: Seq<char>) -> Option<Seq<Option<Seq<u8>>>>;

/// The unified address of an Orchard receiver on a network.
pub uninterp spec fn orchard_address_text(raw: Seq<u8>, network: Network) -> Option<Seq<char>>;

/// The unified incoming viewing key of an Orchard key on a network.
pub uninterp spec fn orchard_uivk_text(ivk: Seq<u8>, network: Network) -> Option<Seq<char>>;

/// Whether a raw encoding is that of an Orchard full viewing key.
pub uninterp spec fn is_orchard_fvk(bytes: Seq<u8>) -> bool;

/// Whether a raw encoding is that of an Orchard incoming viewing key.
pub uninterp spec fn is_orchard_ivk(bytes: Seq<u8>) -> bool;

/// The incoming viewing key of a full viewing key in the external or the
/// internal scope.
pub uninterp spec fn orchard_ivk(fvk: Seq<u8>, internal: bool) -> Seq<u8>;

/// The raw receiver of a full viewing key at a diversifier index, in the
/// external scope.
pub uninterp spec fn orchard_receiver_at(fvk: Seq<u8>, index: u32) -> Seq<u8>;

/// The encodings of the Orchard actions of a transaction given by its bytes;
/// `None` where the bytes are no transaction.
pub uninterp spec fn raw_transaction_actions(raw: Seq<u8>) -> Option<Seq<Seq<u8>>>;

/// The encodings of the Orchard actions that a transaction holds.
pub uninterp spec fn transaction_actions(tx: Transaction) -> Seq<Seq<u8>>;

/// The secret part of the incoming viewing key that a prepared key holds: the
/// last 32 bytes of its encoding.
pub uninterp spec fn prepared_scalar(key: PreparedIncomingViewingKey) -> Seq<u8>;

/// What trial decryption of an action recovers with an incoming viewing key,
/// which it needs the secret part of.
pub uninterp spec fn orchard_note(scalar: Seq<u8>, action: Seq<u8>) -> Option<NoteView>;

/// Calls `Ufvk::decode` and `Container::items`. Network and items are a
/// function of the text. An Orchard item is 96 bytes long.
#[verifier::external_body]
pub(crate) fn decode_ufvk(text: &str) -> (r: Option<(Network, Vec<Option<Vec<u8>>>)>)
    ensures
        match r {
            Some(k) => unified_fvk(text@) == Some((k.0, items_view(k.1@))),
            None => unified_fvk(text@) is None,
        },
        r matches Some(k) ==> forall|i: int|
            0 <= i < k.1@.len() ==> (#[trigger] k.1@[i] matches Some(b) ==> b@.len() == FVK_LEN),
{
    let (net, _, key) = Ufvk::decode(text).ok()?;
    let items = key.items().into_iter().map(|i| match i {
        Fvk::Orchard(d) => Some(d.to_vec()),
        Fvk::Sapling(_) | Fvk::P2pkh(_) | Fvk::P2sh(_) | Fvk::Unknown { .. } => None,
    });
    let network = match net {
        NetworkType::Main => Network::Main,
        NetworkType::Test => Network::Test,
        NetworkType::Regtest => Network::Regtest,
    };
    Some((network, items.collect()))
}

/// Calls `Uivk::decode` and `Container::items`. Network and items are a
/// function of the text. An Orchard item is 64 bytes long.
#[verifier::external_body]
pub(crate) fn decode_uivk(text: &str) -> (r: Option<(Network, Vec<Option<Vec<u8>>>)>)
    ensures
        match r {
            Some(k) => unified_ivk(text@) == Some((k.0, items_view(k.1@))),
            None => unified_ivk(text@) is None,
        },
        r matches Some(k) ==> forall|i: int|
            0 <= i < k.1@.len() ==> (#[trigger] k.1@[i] matches Some(b) ==> b@.len() == IVK_LEN),
{
    let (net, _, key) = Uivk::decode(text).ok()?;
    let items = key.items().into_iter().map(|i| match i {
        Ivk::Orchard(d) => Some(d.to_vec()),
        Ivk::Sapling(_) | Ivk::P2pkh(_) | Ivk::P2sh(_) | Ivk::Unknown { .. } => None,
    });
    let network = match net {
        NetworkType::Main => Network::Main,
        NetworkType::Test => Network::Test,
        NetworkType::Regtest => Network::Regtest,
    };
    Some((network, items.collect()))
}

/// Calls `Address::decode` and `Container::items` on a unified address. The
/// items are a function of the text. An Orchard receiver is 43 bytes long.
#[verifier::external_body]
pub(crate) fn decode_address(text: &str) -> (r: Option<Vec<Option<Vec<u8>>>>)
    ensures
        match r {
            Some(items) => unified_address(text@) == Some(items_view(items@)),
            None => unified_address(text@) is None,
        },
        r matches Some(items) ==> forall|i: int|
            0 <= i < items@.len() ==> (#[trigger] items@[i] matches Some(b) ==> b@.len()
                == RECEIVER_LEN),
{
    let (_, _, address) = Address::decode(text).ok()?;
    let items = address.items().into_iter().map(|i| match i {
        Receiver::Orchard(d) => Some(d.to_vec()),
        Receiver::Sapling(_) | Receiver::P2pkh(_) | Receiver::P2sh(_) => None,
        Receiver::Unknown { .. } => None,
    });
    Some(items.collect())
}

/// Calls `Address::try_from_items` with one Orchard receiver, and `encode`.
/// The address is a function of receiver and network, and decoding it gives
/// the receiver back, so that no other receiver has the same address. One
/// receiver of the right length always makes an address.
#[verifier::external_body]
pub(crate) fn encode_address(raw: &[u8], network: Network) -> (r: Option<String>)
    requires
        raw@.len() == RECEIVER_LEN,
    ensures
        match r {
            Some(s) => {
                &&& orchard_address_text(raw@, network) == Some(s@)
                &&& unified_address(s@) == Some(seq![Some(raw@)])
                &&& forall|other: Seq<u8>|
                    other.len() == RECEIVER_LEN && other != raw@ ==> (
                    #[trigger] orchard_address_text(other, network) matches Some(t) && t != s@)
            },
            None => false,
        },
{
    let item = Uitem::Data(Receiver::Orchard(raw.try_into().ok()?));
    let address = Address::try_from_items(Revision::R0, vec![item]).ok()?;
    let network = match network {
        Network::Main => NetworkType::Main,
        Network::Test => NetworkType::Test,
        Network::Regtest => NetworkType::Regtest,
    };
    Some(address.encode(&network))
}

/// Calls `Uivk::try_from_items` with one Orchard item, and `encode`. The text
/// is a function of key and network; it begins with `uivk`, and decoding it
/// gives network and key back.
#[verifier::external_body]
pub(crate) fn encode_uivk(ivk: &[u8], network: Network) -> (r: Option<String>)
    requires
        ivk@.len() == IVK_LEN,
    ensures
        match r {
            Some(s) => {
                &&& orchard_uivk_text(ivk@, network) == Some(s@)
                &&& unified_ivk(s@) == Some((network, seq![Some(ivk@)]))
                &&& "uivk"@.is_prefix_of(s@)
            },
            None => orchard_uivk_text(ivk@, network) is None,
        },
{
    let item = Uitem::Data(Ivk::Orchard(ivk.try_into().ok()?));
    let key = Uivk::try_from_items(Revision::R0, vec![item]).ok()?;
    let network = match network {
        Network::Main => NetworkType::Main,
        Network::Test => NetworkType::Test,
        Network::Regtest => NetworkType::Regtest,
    };
    Some(key.encode(&network))
}

/// Calls `FullViewingKey::from_bytes`, which decides whether the encoding is
/// that of a key.
#[verifier::external_body]
pub(crate) fn check_fvk(bytes: &[u8]) -> (r: bool)
    requires
        bytes@.len() == FVK_LEN,
    ensures
        r == is_orchard_fvk(bytes@),
{
    FullViewingKey::from_bytes(bytes.try_into().unwrap()).is_some()
}

/// Calls `IncomingViewingKey::from_bytes`, which decides whether the encoding
/// is that of a key.
#[verifier::external_body]
pub(crate) fn check_ivk(bytes: &[u8]) -> (r: bool)
    requires
        bytes@.len() == IVK_LEN,
    ensures
        r == is_orchard_ivk(bytes@),
{
    bool::from(IncomingViewingKey::from_bytes(bytes.try_into().unwrap()).is_some())
}

/// Calls `FullViewingKey::to_ivk` and `IncomingViewingKey::to_bytes`. The key
/// is a function of the full viewing key and the scope, and its encoding, of
/// 64 bytes, is that of a key again.
#[verifier::external_body]
pub(crate) fn ivk_of_fvk(fvk: &[u8], internal: bool) -> (r: Vec<u8>)
    requires
        fvk@.len() == FVK_LEN,
        is_orchard_fvk(fvk@),
    ensures
        r@ == orchard_ivk(fvk@, internal),
        r@.len() == IVK_LEN,
        is_orchard_ivk(r@),
{
    let key = FullViewingKey::from_bytes(fvk.try_into().unwrap()).unwrap();
    let scope = if internal { Scope::Internal } else { Scope::External };
    key.to_ivk(scope).to_bytes().to_vec()
}

/// Calls `FullViewingKey::address_at` in the external scope. The raw receiver,
/// of 43 bytes, is a function of key and index. It begins with the diversifier,
/// which is the index under a permutation that the key chooses, so that no
/// other index of the key has the same receiver.
#[verifier::external_body]
pub(crate) fn receiver_at(fvk: &[u8], index: u32) -> (r: Vec<u8>)
    requires
        fvk@.len() == FVK_LEN,
        is_orchard_fvk(fvk@),
    ensures
        r@ == orchard_receiver_at(fvk@, index),
        r@.len() == RECEIVER_LEN,
        forall|j: u32|
            j != index ==> (#[trigger] orchard_receiver_at(fvk@, j)).len() == r@.len()
                && orchard_receiver_at(fvk@, j) != r@,
{
    let key = FullViewingKey::from_bytes(fvk.try_into().unwrap()).unwrap();
    key.address_at(index, Scope::External).to_raw_address_bytes().to_vec()
}

/// Calls `PreparedIncomingViewingKey::new`. What is prepared depends on the
/// secret part of the key alone.
#[verifier::external_body]
pub(crate) fn prepare_ivk(ivk: &[u8]) -> (r: PreparedIncomingViewingKey)
    requires
        ivk@.len() == IVK_LEN,
        is_orchard_ivk(ivk@),
    ensures
        prepared_scalar(r) == ivk@.skip(32),
{
    let key = IncomingViewingKey::from_bytes(ivk.try_into().unwrap()).unwrap();
    PreparedIncomingViewingKey::new(&key)
}

/// Calls `Transaction::read` with the branch of network upgrade five. Whether
/// the bytes are a transaction, and which actions it holds, is a function of
/// the bytes.
#[verifier::external_body]
pub(crate) fn read_transaction(raw: &[u8]) -> (r: Option<Transaction>)
    ensures
        match r {
            Some(tx) => raw_transaction_actions(raw@) == Some(transaction_actions(tx)),
            None => raw_transaction_actions(raw@) is None,
        },
{
    Transaction::read(std::io::Cursor::new(raw), BranchId::Nu5).ok()
}

/// Calls `Transaction::orchard_bundle` and counts its actions; a transaction
/// without a bundle has none.
#[verifier::external_body]
pub(crate) fn action_count(tx: &Transaction) -> (r: usize)
    ensures
        r == transaction_actions(*tx).len(),
{
    tx.orchard_bundle().map_or(0, |b| b.actions().len())
}

/// Calls `try_note_decryption` on an action of the transaction. What it
/// recovers is a function of the key's secret part and the action; the raw
/// receiver is 43 bytes long and the memo 512.
#[verifier::external_body]
pub(crate) fn decrypt_action(
    tx: &Transaction,
    i: usize,
    key: &PreparedIncomingViewingKey,
) -> (r: Option<RawNote>)
    requires
        i < transaction_actions(*tx).len(),
    ensures
        match r {
            Some(n) => {
                &&& orchard_note(prepared_scalar(*key), transaction_actions(*tx)[i as int])
                    == Some(note_view(n))
                &&& n.recipient_raw@.len() == RECEIVER_LEN
                &&& n.memo@.len() == 512
            },
            None => orchard_note(prepared_scalar(*key), transaction_actions(*tx)[i as int]) is None,
        },
{
    let action = tx.orchard_bundle()?.actions().get(i)?;
    let domain = OrchardDomain::for_action(action);
    let (note, _, memo) = try_note_decryption(&domain, key, action)?;
    Some(RawNote {
        amount_zatoshis: note.value().inner(),
        recipient_raw: note.recipient().to_raw_address_bytes().to_vec(),
        memo: memo.to_vec(),
    })
}

} // verus!
