//! Viewing keys and trial decryption of transaction outputs.

use vstd::prelude::*;
use vstd::utf8::*;

use orchard::keys::PreparedIncomingViewingKey;
use zcash_primitives::transaction::Transaction;

use crate::hexadecimal;
use crate::hexadecimal::{hex_bytes, is_hex_text};
use crate::text::{starts_with, utf8_text};
use crate::zcash::{
    action_count, check_fvk, check_ivk, decode_ufvk, decode_uivk, decrypt_action, encode_uivk,
    is_orchard_fvk, is_orchard_ivk, items_view, ivk_of_fvk, note_view, orchard_ivk, orchard_note,
    orchard_uivk_text, prepare_ivk, prepared_scalar, raw_transaction_actions, read_transaction,
    transaction_actions, unified_fvk, unified_ivk, Network, NoteView, RawNote, FVK_LEN, IVK_LEN,
    RECEIVER_LEN,
};

verus! {

/// Absolute floor, in zatoshis, below which a partial payment is dust.
pub const DUST_THRESHOLD_MIN_ZATOSHIS: i64 = 10_000;

/// Shortest transaction, in bytes, that is looked at.
pub const MIN_TX_BYTES: usize = 4;

/// Why a viewing key could not be used.
#[derive(Debug, Clone, Copy, PartialEq, Eq, Structural)]
pub enum KeyError {
    UfvkDecode,
    UivkDecode,
    NoOrchardFvk,
    NoOrchardIvk,
    InvalidFvk,
    InvalidIvk,
    UivkConstruction,
    AddressConstruction,
}

impl KeyError {
    pub open spec fn spec_message(self) -> Seq<char> {
        match self {
            KeyError::UfvkDecode => "UFVK decode failed"@,
            KeyError::UivkDecode => "UIVK decode failed"@,
            KeyError::NoOrchardFvk => "No Orchard FVK found in UFVK"@,
            KeyError::NoOrchardIvk => "No Orchard IVK found in UIVK"@,
            KeyError::InvalidFvk => "Failed to parse Orchard FVK from bytes"@,
            KeyError::InvalidIvk => "Failed to parse Orchard IVK from bytes"@,
            KeyError::UivkConstruction => "UIVK construction failed"@,
            KeyError::AddressConstruction => "UA construction failed"@,
        }
    }

    pub fn message(&self) -> (r: &'static str)
        ensures
            r@ == self.spec_message(),
    {
        match self {
            KeyError::UfvkDecode => "UFVK decode failed",
            KeyError::UivkDecode => "UIVK decode failed",
            KeyError::NoOrchardFvk => "No Orchard FVK found in UFVK",
            KeyError::NoOrchardIvk => "No Orchard IVK found in UIVK",
            KeyError::InvalidFvk => "Failed to parse Orchard FVK from bytes",
            KeyError::InvalidIvk => "Failed to parse Orchard IVK from bytes",
            KeyError::UivkConstruction => "UIVK construction failed",
            KeyError::AddressConstruction => "UA construction failed",
        }
    }
}

/// A raw transaction that is no hexadecimal text.
#[derive(Debug, Clone, Copy, PartialEq, Eq, Structural)]
pub struct NotHex;

pub struct DecryptedOutput {
    pub memo: String,
    pub amount_zatoshis: u64,
    pub recipient_raw: Vec<u8>,
}

/// A decrypted output by what it holds.
pub struct OutputView {
    pub memo: Seq<char>,
    pub amount_zatoshis: u64,
    pub recipient_raw: Seq<u8>,
}

pub open spec fn output_view(o: DecryptedOutput) -> OutputView {
    OutputView {
        memo: o.memo@,
        amount_zatoshis: o.amount_zatoshis,
        recipient_raw: o.recipient_raw@,
    }
}

/// The outputs by what they hold.
pub open spec fn outputs_view(outputs: Seq<DecryptedOutput>) -> Seq<OutputView> {
    outputs.map_values(|o: DecryptedOutput| output_view(o))
}

/// The key of a merchant, prepared once and used for many transactions. Only
/// the external scope is needed, since only incoming payments are looked for.
pub struct CachedKeys {
    pub pivk_external: PreparedIncomingViewingKey,
}

// ---------------------------------------------------------------------------
// Keys
// ---------------------------------------------------------------------------

/// The first Orchard item of a unified container.
pub open spec fn first_orchard(items: Seq<Option<Seq<u8>>>) -> Option<Seq<u8>>
    decreases items.len(),
{
    if items.len() == 0 {
        None
    } else if items[0] is Some {
        items[0]
    } else {
        first_orchard(items.skip(1))
    }
}

/// Finds the first Orchard item of a unified container.
pub(crate) fn find_orchard(items: &Vec<Option<Vec<u8>>>) -> (r: Option<Vec<u8>>)
    ensures
        match r {
            Some(b) => first_orchard(items_view(items@)) == Some(b@) && exists|i: int|
                0 <= i < items@.len() && (#[trigger] items@[i]) is Some && (items@[i]->0)@ == b@,
            None => first_orchard(items_view(items@)) is None,
        },
{
    let ghost all = items_view(items@);
    let mut i: usize = 0;
    assert(all.skip(0) =~= all);
    while i < items.len()
        invariant
            i <= items@.len(),
            all == items_view(items@),
            first_orchard(all) == first_orchard(all.skip(i as int)),
        decreases items@.len() - i,
    {
        assert(all.skip(i as int)[0] == all[i as int]);
        match &items[i] {
            Some(b) => {
                return Some(b.clone());
            },
            None => {},
        }
        assert(all.skip(i as int).skip(1) =~= all.skip(i + 1));
        i = i + 1;
    }
    None
}

/// The Orchard full viewing key in a unified full viewing key.
pub open spec fn fvk_of(ufvk: Seq<char>) -> Result<Seq<u8>, KeyError> {
    match unified_fvk(ufvk) {
        None => Err(KeyError::UfvkDecode),
        Some(k) => match first_orchard(k.1) {
            None => Err(KeyError::NoOrchardFvk),
            Some(b) => if is_orchard_fvk(b) {
                Ok(b)
            } else {
                Err(KeyError::InvalidFvk)
            },
        },
    }
}

/// The Orchard incoming viewing key in a unified incoming viewing key.
pub open spec fn ivk_of_uivk(uivk: Seq<char>) -> Result<Seq<u8>, KeyError> {
    match unified_ivk(uivk) {
        None => Err(KeyError::UivkDecode),
        Some(k) => match first_orchard(k.1) {
            None => Err(KeyError::NoOrchardIvk),
            Some(b) => if is_orchard_ivk(b) {
                Ok(b)
            } else {
                Err(KeyError::InvalidIvk)
            },
        },
    }
}

/// The Orchard incoming viewing key that a viewing key of either kind stands
/// for: one that begins with `uivk` is an incoming one, any other a full one,
/// taken in the external scope.
pub open spec fn ivk_of(key: Seq<char>) -> Result<Seq<u8>, KeyError> {
    if "uivk"@.is_prefix_of(key) {
        ivk_of_uivk(key)
    } else {
        match fvk_of(key) {
            Ok(fvk) => Ok(orchard_ivk(fvk, false)),
            Err(e) => Err(e),
        }
    }
}

pub open spec fn bytes_result(r: Result<Vec<u8>, KeyError>) -> Result<Seq<u8>, KeyError> {
    match r {
        Ok(b) => Ok(b@),
        Err(e) => Err(e),
    }
}

/// The raw encoding of the Orchard full viewing key in a unified one.
pub fn parse_orchard_fvk(ufvk_str: &str) -> (r: Result<Vec<u8>, KeyError>)
    ensures
        bytes_result(r) == fvk_of(ufvk_str@),
        r matches Ok(b) ==> b@.len() == FVK_LEN,
{
    match decode_ufvk(ufvk_str) {
        None => Err(KeyError::UfvkDecode),
        Some((_, items)) => match find_orchard(&items) {
            None => Err(KeyError::NoOrchardFvk),
            Some(b) => if check_fvk(b.as_slice()) {
                Ok(b)
            } else {
                Err(KeyError::InvalidFvk)
            },
        },
    }
}

fn parse_ivk_from_uivk(uivk_str: &str) -> (r: Result<Vec<u8>, KeyError>)
    ensures
        bytes_result(r) == ivk_of_uivk(uivk_str@),
        r matches Ok(b) ==> b@.len() == IVK_LEN,
{
    match decode_uivk(uivk_str) {
        None => Err(KeyError::UivkDecode),
        Some((_, items)) => match find_orchard(&items) {
            None => Err(KeyError::NoOrchardIvk),
            Some(b) => if check_ivk(b.as_slice()) {
                Ok(b)
            } else {
                Err(KeyError::InvalidIvk)
            },
        },
    }
}

/// The raw encoding of the Orchard incoming viewing key that a viewing key of
/// either kind stands for.
pub fn parse_orchard_ivk(key_str: &str) -> (r: Result<Vec<u8>, KeyError>)
    ensures
        bytes_result(r) == ivk_of(key_str@),
        r matches Ok(b) ==> b@.len() == IVK_LEN && is_orchard_ivk(b@),
{
    if starts_with(key_str, "uivk") {
        parse_ivk_from_uivk(key_str)
    } else {
        match parse_orchard_fvk(key_str) {
            Ok(fvk) => Ok(ivk_of_fvk(fvk.as_slice(), false)),
            Err(e) => Err(e),
        }
    }
}

/// The network of a viewing key of either kind.
pub open spec fn network_of(key: Seq<char>) -> Option<Network> {
    if "uivk"@.is_prefix_of(key) {
        match unified_ivk(key) {
            Some(k) => Some(k.0),
            None => None,
        }
    } else {
        match unified_fvk(key) {
            Some(k) => Some(k.0),
            None => None,
        }
    }
}

/// The network and the incoming viewing key of a viewing key of either kind.
pub fn parse_key_with_network(key_str: &str) -> (r: Result<(Network, Vec<u8>), KeyError>)
    ensures
        match r {
            Ok(k) => network_of(key_str@) == Some(k.0) && ivk_of(key_str@) == Ok::<
                Seq<u8>,
                KeyError,
            >(k.1@),
            Err(e) => ivk_of(key_str@) == Err::<Seq<u8>, KeyError>(e),
        },
{
    if starts_with(key_str, "uivk") {
        match decode_uivk(key_str) {
            None => Err(KeyError::UivkDecode),
            Some((network, items)) => match find_orchard(&items) {
                None => Err(KeyError::NoOrchardIvk),
                Some(b) => if check_ivk(b.as_slice()) {
                    Ok((network, b))
                } else {
                    Err(KeyError::InvalidIvk)
                },
            },
        }
    } else {
        match decode_ufvk(key_str) {
            None => Err(KeyError::UfvkDecode),
            Some((network, _)) => match parse_orchard_fvk(key_str) {
                Ok(fvk) => Ok((network, ivk_of_fvk(fvk.as_slice(), false))),
                Err(e) => Err(e),
            },
        }
    }
}

/// Prepares the key of a merchant, given as a viewing key of either kind.
pub fn prepare_keys(key_str: &str) -> (r: Result<CachedKeys, KeyError>)
    ensures
        match r {
            Ok(k) => ivk_of(key_str@) matches Ok(b) && prepared_scalar(k.pivk_external) == b.skip(
                32,
            ),
            Err(e) => ivk_of(key_str@) == Err::<Seq<u8>, KeyError>(e),
        },
{
    match parse_orchard_ivk(key_str) {
        Ok(ivk) => Ok(CachedKeys { pivk_external: prepare_ivk(ivk.as_slice()) }),
        Err(e) => Err(e),
    }
}

/// The unified incoming viewing key that a unified full one is reduced to.
pub open spec fn reduced_key(ufvk: Seq<char>) -> Result<Seq<char>, KeyError> {
    match fvk_of(ufvk) {
        Err(e) => Err(e),
        Ok(fvk) => match orchard_uivk_text(orchard_ivk(fvk, false), (unified_fvk(ufvk)->0).0) {
            Some(s) => Ok(s),
            None => Err(KeyError::UivkConstruction),
        },
    }
}

/// Reduces a unified full viewing key to the unified incoming viewing key of
/// its external scope. The result stands for the same incoming viewing key.
pub fn derive_uivk_from_ufvk(ufvk_str: &str) -> (r: Result<String, KeyError>)
    ensures
        match r {
            Ok(s) => reduced_key(ufvk_str@) == Ok::<Seq<char>, KeyError>(s@),
            Err(e) => reduced_key(ufvk_str@) == Err::<Seq<char>, KeyError>(e),
        },
        r matches Ok(s) ==> {
            &&& "uivk"@.is_prefix_of(s@)
            &&& ivk_of(s@) == Ok::<Seq<u8>, KeyError>(orchard_ivk(fvk_of(ufvk_str@)->Ok_0, false))
            &&& network_of(s@) == Some((unified_fvk(ufvk_str@)->0).0)
        },
{
    match decode_ufvk(ufvk_str) {
        None => Err(KeyError::UfvkDecode),
        Some((network, _)) => match parse_orchard_fvk(ufvk_str) {
            Err(e) => Err(e),
            Ok(fvk) => {
                let ivk: Vec<u8> = ivk_of_fvk(fvk.as_slice(), false);
                match encode_uivk(ivk.as_slice(), network) {
                    None => Err(KeyError::UivkConstruction),
                    Some(s) => {
                        assert(seq![Some(ivk@)][0] == Some(ivk@));
                        Ok(s)
                    },
                }
            },
        },
    }
}

// ---------------------------------------------------------------------------
// Memos
// ---------------------------------------------------------------------------

/// The bytes before the first zero byte.
pub open spec fn until_zero(bytes: Seq<u8>) -> Seq<u8>
    decreases bytes.len(),
{
    if bytes.len() == 0 || bytes[0] == 0 {
        Seq::empty()
    } else {
        seq![bytes[0]] + until_zero(bytes.skip(1))
    }
}

fn bytes_until_zero(bytes: &[u8]) -> (r: Vec<u8>)
    ensures
        r@ == until_zero(bytes@),
{
    let mut r: Vec<u8> = Vec::new();
    let mut i: usize = 0;
    assert(bytes@.skip(0) =~= bytes@);
    assert(Seq::<u8>::empty() + until_zero(bytes@) =~= until_zero(bytes@));
    while i < bytes.len() && bytes[i] != 0
        invariant
            i <= bytes@.len(),
            until_zero(bytes@) == r@ + until_zero(bytes@.skip(i as int)),
        ensures
            until_zero(bytes@) == r@,
        decreases bytes@.len() - i,
    {
        proof {
            assert(bytes@.skip(i as int).skip(1) =~= bytes@.skip(i + 1));
            assert(r@ + (seq![bytes@[i as int]] + until_zero(bytes@.skip(i + 1))) =~= r@.push(
                bytes@[i as int],
            ) + until_zero(bytes@.skip(i + 1)));
        }
        r.push(bytes[i]);
        i = i + 1;
        proof {
            if i == bytes@.len() {
                assert(r@ + until_zero(bytes@.skip(i as int)) =~= r@);
            } else if bytes@[i as int] == 0 {
                assert(r@ + until_zero(bytes@.skip(i as int)) =~= r@);
            }
        }
    }
    r
}

/// The text of a memo: what stands before its first zero byte, or nothing
/// where that is no text.
pub open spec fn memo_text(memo: Seq<u8>) -> Seq<char> {
    if valid_utf8(until_zero(memo)) {
        decode_utf8(until_zero(memo))
    } else {
        Seq::empty()
    }
}

fn memo_string(memo: &Vec<u8>) -> (r: String)
    ensures
        r@ == memo_text(memo@),
{
    match utf8_text(bytes_until_zero(memo.as_slice())) {
        Some(s) => s,
        None => String::new(),
    }
}

/// The text that memo bytes hold: none where they are empty or their first
/// byte marks them as no text or as private data.
pub fn memo_bytes_to_text(memo_bytes: &[u8]) -> (r: Option<String>)
    ensures
        match r {
            Some(s) => {
                &&& memo_bytes@.len() > 0
                &&& memo_bytes@[0] != 0xF6
                &&& memo_bytes@[0] != 0xFF
                &&& valid_utf8(until_zero(memo_bytes@))
                &&& s@ == decode_utf8(until_zero(memo_bytes@))
            },
            None => memo_bytes@.len() == 0 || memo_bytes@[0] == 0xF6 || memo_bytes@[0] == 0xFF
                || !valid_utf8(until_zero(memo_bytes@)),
        },
{
    if memo_bytes.len() == 0 {
        return None;
    }
    if memo_bytes[0] == 0xF6 || memo_bytes[0] == 0xFF {
        return None;
    }
    utf8_text(bytes_until_zero(memo_bytes))
}

// ---------------------------------------------------------------------------
// Outputs
// ---------------------------------------------------------------------------

/// The output that a recovered note makes.
pub open spec fn output_of(note: NoteView) -> OutputView {
    OutputView {
        memo: memo_text(note.memo),
        amount_zatoshis: note.amount_zatoshis,
        recipient_raw: note.recipient_raw,
    }
}

/// The outputs of an action that the keys recover, in the order of the keys.
pub open spec fn action_outputs(action: Seq<u8>, scalars: Seq<Seq<u8>>) -> Seq<OutputView>
    decreases scalars.len(),
{
    if scalars.len() == 0 {
        Seq::empty()
    } else {
        let earlier = action_outputs(action, scalars.drop_last());
        match orchard_note(scalars.last(), action) {
            Some(note) => earlier.push(output_of(note)),
            None => earlier,
        }
    }
}

/// The outputs of the first `n` actions that the keys recover, in the order of
/// the actions.
pub open spec fn recovered(actions: Seq<Seq<u8>>, scalars: Seq<Seq<u8>>, n: int) -> Seq<OutputView>
    decreases n,
{
    if n <= 0 {
        Seq::empty()
    } else {
        recovered(actions, scalars, n - 1) + action_outputs(actions[n - 1], scalars)
    }
}

/// What a raw transaction gives with keys: nothing where it is too short or
/// no transaction.
pub open spec fn outputs_of(raw: Seq<u8>, scalars: Seq<Seq<u8>>) -> Seq<OutputView> {
    if raw.len() < MIN_TX_BYTES {
        Seq::empty()
    } else {
        match raw_transaction_actions(raw) {
            Some(actions) => recovered(actions, scalars, actions.len() as int),
            None => Seq::empty(),
        }
    }
}

fn push_output(outputs: &mut Vec<DecryptedOutput>, note: Option<RawNote>)
    ensures
        outputs_view(final(outputs)@) == match note {
            Some(n) => outputs_view(old(outputs)@).push(output_of(note_view(n))),
            None => outputs_view(old(outputs)@),
        },
        note matches Some(n) ==> forall|i: int|
            0 <= i < final(outputs)@.len() ==> (#[trigger] final(outputs)@[i]).recipient_raw
                == n.recipient_raw || old(outputs)@.contains(final(outputs)@[i]),
        note is None ==> final(outputs)@ == old(outputs)@,
{
    match note {
        Some(n) => {
            let ghost before = outputs@;
            let memo: String = memo_string(&n.memo);
            outputs.push(
                DecryptedOutput {
                    memo,
                    amount_zatoshis: n.amount_zatoshis,
                    recipient_raw: n.recipient_raw,
                },
            );
            proof {
                assert(outputs_view(outputs@) =~= outputs_view(before).push(
                    output_of(note_view(n)),
                ));
                assert forall|i: int| 0 <= i < outputs@.len() implies (
                #[trigger] outputs@[i]).recipient_raw == n.recipient_raw || before.contains(
                    outputs@[i],
                ) by {
                    if i < before.len() {
                        assert(outputs@[i] == before[i]);
                    }
                }
            }
        },
        None => {},
    }
}

/// Whether each output has a receiver of the right length.
pub open spec fn receivers_sized(outputs: Seq<DecryptedOutput>) -> bool {
    forall|i: int|
        0 <= i < outputs.len() ==> (#[trigger] outputs[i]).recipient_raw@.len() == RECEIVER_LEN
}

/// Tries the keys on each action of a transaction in turn.
fn decrypt_all(tx: &Transaction, keys: &Vec<PreparedIncomingViewingKey>) -> (r: Vec<
    DecryptedOutput,
>)
    ensures
        outputs_view(r@) == recovered(
            transaction_actions(*tx),
            keys@.map_values(|k: PreparedIncomingViewingKey| prepared_scalar(k)),
            transaction_actions(*tx).len() as int,
        ),
        receivers_sized(r@),
{
    let ghost actions = transaction_actions(*tx);
    let ghost scalars = keys@.map_values(|k: PreparedIncomingViewingKey| prepared_scalar(k));
    let n: usize = action_count(tx);
    let mut outputs: Vec<DecryptedOutput> = Vec::new();
    let mut i: usize = 0;
    assert(outputs_view(outputs@) =~= Seq::<OutputView>::empty());
    while i < n
        invariant
            i <= n,
            n == actions.len(),
            actions == transaction_actions(*tx),
            scalars == keys@.map_values(|k: PreparedIncomingViewingKey| prepared_scalar(k)),
            outputs_view(outputs@) == recovered(actions, scalars, i as int),
            receivers_sized(outputs@),
        decreases n - i,
    {
        let ghost base = outputs_view(outputs@);
        let mut j: usize = 0;
        assert(base + action_outputs(actions[i as int], scalars.take(0)) =~= base);
        while j < keys.len()
            invariant
                i < n,
                n == actions.len(),
                actions == transaction_actions(*tx),
                scalars == keys@.map_values(|k: PreparedIncomingViewingKey| prepared_scalar(k)),
                j <= keys@.len(),
                outputs_view(outputs@) == base + action_outputs(
                    actions[i as int],
                    scalars.take(j as int),
                ),
                receivers_sized(outputs@),
            decreases keys@.len() - j,
        {
            let ghost before = outputs@;
            let note: Option<RawNote> = decrypt_action(tx, i, &keys[j]);
            push_output(&mut outputs, note);
            proof {
                assert(scalars.take(j + 1).drop_last() =~= scalars.take(j as int));
                assert(scalars.take(j + 1).last() == prepared_scalar(keys@[j as int]));
                assert forall|k: int| 0 <= k < outputs@.len() implies (
                #[trigger] outputs@[k]).recipient_raw@.len() == RECEIVER_LEN by {
                    if before.contains(outputs@[k]) {
                        let m = choose|m: int| 0 <= m < before.len() && before[m] == outputs@[k];
                        assert(before[m].recipient_raw@.len() == RECEIVER_LEN);
                    }
                }
                let step = action_outputs(actions[i as int], scalars.take(j as int));
                match orchard_note(prepared_scalar(keys@[j as int]), actions[i as int]) {
                    Some(nv) => {
                        assert((base + step).push(output_of(nv)) =~= base + step.push(
                            output_of(nv),
                        ));
                    },
                    None => {},
                }
            }
            j = j + 1;
        }
        assert(scalars.take(j as int) =~= scalars);
        i = i + 1;
    }
    outputs
}

/// The bytes of a raw transaction, where the text gives enough of them.
enum RawTx {
    NotHex,
    TooShort,
    Bytes(Vec<u8>),
}

fn raw_tx(raw_hex: &str) -> (r: RawTx)
    ensures
        match r {
            RawTx::NotHex => !is_hex_text(raw_hex@),
            RawTx::TooShort => is_hex_text(raw_hex@) && hex_bytes(raw_hex@).len() < MIN_TX_BYTES,
            RawTx::Bytes(b) => is_hex_text(raw_hex@) && b@ == hex_bytes(raw_hex@) && b@.len()
                >= MIN_TX_BYTES,
        },
{
    match hexadecimal::decode(raw_hex) {
        None => RawTx::NotHex,
        Some(b) => if b.len() < MIN_TX_BYTES {
            RawTx::TooShort
        } else {
            RawTx::Bytes(b)
        },
    }
}

fn decrypt_bytes(bytes: &Vec<u8>, keys: &Vec<PreparedIncomingViewingKey>) -> (r: Vec<
    DecryptedOutput,
>)
    requires
        bytes@.len() >= MIN_TX_BYTES,
    ensures
        outputs_view(r@) == outputs_of(
            bytes@,
            keys@.map_values(|k: PreparedIncomingViewingKey| prepared_scalar(k)),
        ),
        receivers_sized(r@),
{
    match read_transaction(bytes.as_slice()) {
        Some(tx) => decrypt_all(&tx, keys),
        None => {
            let r: Vec<DecryptedOutput> = Vec::new();
            assert(outputs_view(r@) =~= Seq::<OutputView>::empty());
            r
        },
    }
}

fn no_outputs() -> (r: Vec<DecryptedOutput>)
    ensures
        r@.len() == 0,
        outputs_view(r@) == Seq::<OutputView>::empty(),
{
    let r: Vec<DecryptedOutput> = Vec::new();
    assert(outputs_view(r@) =~= Seq::<OutputView>::empty());
    r
}

/// What trial decryption of a transaction in hexadecimal gives.
pub open spec fn outputs_result(
    r: Result<Vec<DecryptedOutput>, NotHex>,
    raw_hex: Seq<char>,
    outputs: Seq<OutputView>,
) -> bool {
    match r {
        Ok(v) => is_hex_text(raw_hex) && outputs_view(v@) == outputs && receivers_sized(v@),
        Err(_) => !is_hex_text(raw_hex),
    }
}

/// Decrypts all outputs of a transaction with a prepared key.
pub fn try_decrypt_with_keys(raw_hex: &str, keys: &CachedKeys) -> (r: Result<
    Vec<DecryptedOutput>,
    NotHex,
>)
    ensures
        outputs_result(
            r,
            raw_hex@,
            outputs_of(hex_bytes(raw_hex@), seq![prepared_scalar(keys.pivk_external)]),
        ),
{
    match raw_tx(raw_hex) {
        RawTx::NotHex => Err(NotHex),
        RawTx::TooShort => Ok(no_outputs()),
        RawTx::Bytes(b) => match read_transaction(b.as_slice()) {
            None => Ok(no_outputs()),
            Some(tx) => Ok(decrypt_one(&tx, &keys.pivk_external)),
        },
    }
}

/// Tries one key on each action of a transaction in turn.
fn decrypt_one(tx: &Transaction, key: &PreparedIncomingViewingKey) -> (r: Vec<DecryptedOutput>)
    ensures
        outputs_view(r@) == recovered(
            transaction_actions(*tx),
            seq![prepared_scalar(*key)],
            transaction_actions(*tx).len() as int,
        ),
        receivers_sized(r@),
{
    let ghost actions = transaction_actions(*tx);
    let ghost scalars = seq![prepared_scalar(*key)];
    let n: usize = action_count(tx);
    let mut outputs: Vec<DecryptedOutput> = Vec::new();
    let mut i: usize = 0;
    assert(outputs_view(outputs@) =~= Seq::<OutputView>::empty());
    while i < n
        invariant
            i <= n,
            n == actions.len(),
            actions == transaction_actions(*tx),
            scalars == seq![prepared_scalar(*key)],
            outputs_view(outputs@) == recovered(actions, scalars, i as int),
            receivers_sized(outputs@),
        decreases n - i,
    {
        let ghost before = outputs@;
        let note: Option<RawNote> = decrypt_action(tx, i, key);
        push_output(&mut outputs, note);
        proof {
            let action = actions[i as int];
            assert(scalars.drop_last() =~= Seq::<Seq<u8>>::empty());
            assert(action_outputs(action, scalars.drop_last()) =~= Seq::<OutputView>::empty());
            match orchard_note(prepared_scalar(*key), action) {
                Some(nv) => {
                    assert(action_outputs(action, scalars) =~= seq![output_of(nv)]);
                    assert(outputs_view(before).push(output_of(nv)) =~= outputs_view(before)
                        + seq![output_of(nv)]);
                },
                None => {
                    assert(outputs_view(before) + Seq::<OutputView>::empty() =~= outputs_view(
                        before,
                    ));
                },
            }
            assert forall|k: int| 0 <= k < outputs@.len() implies (
            #[trigger] outputs@[k]).recipient_raw@.len() == RECEIVER_LEN by {
                if before.contains(outputs@[k]) {
                    let m = choose|m: int| 0 <= m < before.len() && before[m] == outputs@[k];
                    assert(before[m].recipient_raw@.len() == RECEIVER_LEN);
                }
            }
        }
        i = i + 1;
    }
    outputs
}

/// The outputs that a viewing key of either kind recovers; none where it is no
/// such key.
pub open spec fn incoming_outputs(raw: Seq<u8>, key: Seq<char>) -> Seq<OutputView> {
    match ivk_of(key) {
        Ok(ivk) => outputs_of(raw, seq![ivk.skip(32)]),
        Err(_) => Seq::empty(),
    }
}

/// Decrypts all outputs of a transaction with a viewing key of either kind, in
/// the external scope.
pub fn try_decrypt_all_outputs_ivk(raw_hex: &str, key_str: &str) -> (r: Result<
    Vec<DecryptedOutput>,
    NotHex,
>)
    ensures
        outputs_result(r, raw_hex@, incoming_outputs(hex_bytes(raw_hex@), key_str@)),
{
    match raw_tx(raw_hex) {
        RawTx::NotHex => Err(NotHex),
        RawTx::TooShort => Ok(no_outputs()),
        RawTx::Bytes(b) => match prepare_keys(key_str) {
            Err(_) => Ok(no_outputs()),
            Ok(keys) => match read_transaction(b.as_slice()) {
                None => Ok(no_outputs()),
                Some(tx) => Ok(decrypt_one(&tx, &keys.pivk_external)),
            },
        },
    }
}

/// The first output that a viewing key of either kind recovers.
pub fn try_decrypt_outputs(raw_hex: &str, key_str: &str) -> (r: Result<
    Option<DecryptedOutput>,
    NotHex,
>)
    ensures
        match r {
            Err(_) => !is_hex_text(raw_hex@),
            Ok(None) => is_hex_text(raw_hex@) && incoming_outputs(
                hex_bytes(raw_hex@),
                key_str@,
            ).len() == 0,
            Ok(Some(o)) => is_hex_text(raw_hex@) && incoming_outputs(
                hex_bytes(raw_hex@),
                key_str@,
            ).len() > 0 && output_view(o) == incoming_outputs(hex_bytes(raw_hex@), key_str@)[0],
        },
{
    match try_decrypt_all_outputs_ivk(raw_hex, key_str) {
        Err(e) => Err(e),
        Ok(v) => {
            let mut v: Vec<DecryptedOutput> = v;
            assert(outputs_view(v@).len() == v@.len());
            if v.len() == 0 {
                Ok(None)
            } else {
                assert(outputs_view(v@)[0] == output_view(v@[0]));
                Ok(Some(v.swap_remove(0)))
            }
        },
    }
}

/// The memo of the first output that a viewing key of either kind recovers.
pub fn try_decrypt_memo(raw_hex: &str, ufvk: &str) -> (r: Result<Option<String>, NotHex>)
    ensures
        match r {
            Err(_) => !is_hex_text(raw_hex@),
            Ok(None) => is_hex_text(raw_hex@) && incoming_outputs(
                hex_bytes(raw_hex@),
                ufvk@,
            ).len() == 0,
            Ok(Some(m)) => is_hex_text(raw_hex@) && incoming_outputs(
                hex_bytes(raw_hex@),
                ufvk@,
            ).len() > 0 && m@ == incoming_outputs(hex_bytes(raw_hex@), ufvk@)[0].memo,
        },
{
    match try_decrypt_outputs(raw_hex, ufvk) {
        Err(e) => Err(e),
        Ok(None) => Ok(None),
        Ok(Some(o)) => Ok(Some(o.memo)),
    }
}

/// The outputs that a full viewing key recovers in both of its scopes.
pub open spec fn full_outputs(raw: Seq<u8>, ufvk: Seq<char>) -> Seq<OutputView> {
    match fvk_of(ufvk) {
        Ok(fvk) => outputs_of(
            raw,
            seq![orchard_ivk(fvk, false).skip(32), orchard_ivk(fvk, true).skip(32)],
        ),
        Err(_) => Seq::empty(),
    }
}

/// Decrypts all outputs of a transaction with a unified full viewing key, in
/// the external and the internal scope. This is for fees, which may come back
/// as change.
pub fn try_decrypt_all_outputs(raw_hex: &str, ufvk_str: &str) -> (r: Result<
    Vec<DecryptedOutput>,
    NotHex,
>)
    ensures
        outputs_result(r, raw_hex@, full_outputs(hex_bytes(raw_hex@), ufvk_str@)),
{
    match raw_tx(raw_hex) {
        RawTx::NotHex => Err(NotHex),
        RawTx::TooShort => Ok(no_outputs()),
        RawTx::Bytes(b) => match parse_orchard_fvk(ufvk_str) {
            Err(_) => Ok(no_outputs()),
            Ok(fvk) => {
                let external: Vec<u8> = ivk_of_fvk(fvk.as_slice(), false);
                let internal: Vec<u8> = ivk_of_fvk(fvk.as_slice(), true);
                let mut keys: Vec<PreparedIncomingViewingKey> = Vec::new();
                keys.push(prepare_ivk(external.as_slice()));
                keys.push(prepare_ivk(internal.as_slice()));
                assert(keys@.map_values(|k: PreparedIncomingViewingKey| prepared_scalar(k))
                    =~= seq![external@.skip(32), internal@.skip(32)]);
                Ok(decrypt_bytes(&b, &keys))
            },
        },
    }
}

// ---------------------------------------------------------------------------
// Laws
// ---------------------------------------------------------------------------

/// A memo ends at its first zero byte, or with its last byte.
pub proof fn memo_ends_at_the_first_zero(text: Seq<u8>, rest: Seq<u8>)
    requires
        !text.contains(0u8),
    ensures
        until_zero(text) == text,
        until_zero(text + seq![0u8] + rest) == text,
    decreases text.len(),
{
    let memo = text + seq![0u8] + rest;
    if text.len() == 0 {
        assert(memo[0] == 0);
        assert(text =~= Seq::<u8>::empty());
    } else {
        let tail = text.skip(1);
        assert(text[0] != 0) by {
            assert(text.contains(text[0]));
        }
        assert(!tail.contains(0u8)) by {
            if tail.contains(0u8) {
                let i = choose|i: int| 0 <= i < tail.len() && tail[i] == 0u8;
                assert(text[i + 1] == 0u8);
            }
        }
        memo_ends_at_the_first_zero(tail, rest);
        assert(memo[0] == text[0]);
        assert(memo.skip(1) =~= tail + seq![0u8] + rest);
        assert(seq![text[0]] + tail =~= text);
    }
}

/// A memo is read as text where it is text, and as nothing where it is not; the
/// amount and the receiver are those of the note.
pub proof fn note_is_read_as_an_output(note: NoteView)
    ensures
        output_of(note).amount_zatoshis == note.amount_zatoshis,
        output_of(note).recipient_raw == note.recipient_raw,
        valid_utf8(until_zero(note.memo)) ==> output_of(note).memo == decode_utf8(
            until_zero(note.memo),
        ),
        !valid_utf8(until_zero(note.memo)) ==> output_of(note).memo.len() == 0,
{
}

/// Every note that one of the keys opens is found, in every action of the
/// transaction.
pub proof fn every_note_is_found(
    raw: Seq<u8>,
    scalars: Seq<Seq<u8>>,
    actions: Seq<Seq<u8>>,
    a: int,
    s: int,
)
    requires
        raw.len() >= 4,
        raw_transaction_actions(raw) == Some(actions),
        0 <= a < actions.len(),
        0 <= s < scalars.len(),
        orchard_note(scalars[s], actions[a]) is Some,
    ensures
        outputs_of(raw, scalars).contains(output_of(orchard_note(scalars[s], actions[a])->0)),
{
    let o = output_of(orchard_note(scalars[s], actions[a])->0);
    key_opens_its_note(actions[a], scalars, s);
    action_is_searched(actions, scalars, actions.len() as int, a, o);
}

proof fn key_opens_its_note(action: Seq<u8>, scalars: Seq<Seq<u8>>, s: int)
    requires
        0 <= s < scalars.len(),
        orchard_note(scalars[s], action) is Some,
    ensures
        action_outputs(action, scalars).contains(output_of(orchard_note(scalars[s], action)->0)),
    decreases scalars.len(),
{
    let o = output_of(orchard_note(scalars[s], action)->0);
    let all = action_outputs(action, scalars);
    let rest = scalars.drop_last();
    if s == scalars.len() - 1 {
        assert(all[all.len() - 1] == o);
    } else {
        assert(rest[s] == scalars[s]);
        key_opens_its_note(action, rest, s);
        let earlier = action_outputs(action, rest);
        let i = choose|i: int| 0 <= i < earlier.len() && earlier[i] == o;
        assert(all[i] == o);
    }
}

proof fn action_is_searched(
    actions: Seq<Seq<u8>>,
    scalars: Seq<Seq<u8>>,
    n: int,
    a: int,
    o: OutputView,
)
    requires
        0 <= a < n <= actions.len(),
        action_outputs(actions[a], scalars).contains(o),
    ensures
        recovered(actions, scalars, n).contains(o),
    decreases n,
{
    let earlier = recovered(actions, scalars, n - 1);
    let own = action_outputs(actions[n - 1], scalars);
    let all = recovered(actions, scalars, n);
    if a == n - 1 {
        let i = choose|i: int| 0 <= i < own.len() && own[i] == o;
        assert(all[earlier.len() + i] == o);
    } else {
        action_is_searched(actions, scalars, n - 1, a, o);
        let i = choose|i: int| 0 <= i < earlier.len() && earlier[i] == o;
        assert(all[i] == o);
    }
}

/// Nothing is found but such notes: no more than one for each key in each
/// action, nothing without a key, and nothing in what is no transaction.
pub proof fn only_notes_are_found(
    raw: Seq<u8>,
    scalars: Seq<Seq<u8>>,
    actions: Seq<Seq<u8>>,
)
    requires
        raw_transaction_actions(raw) == Some(actions),
        scalars.len() <= 1,
    ensures
        outputs_of(raw, scalars).len() <= actions.len(),
        scalars.len() == 0 ==> outputs_of(raw, scalars).len() == 0,
        raw.len() < 4 ==> outputs_of(raw, scalars).len() == 0,
{
    one_note_in_each_action(actions, scalars, actions.len() as int);
}

proof fn one_note_in_each_action(actions: Seq<Seq<u8>>, scalars: Seq<Seq<u8>>, n: int)
    requires
        0 <= n <= actions.len(),
        scalars.len() <= 1,
    ensures
        recovered(actions, scalars, n).len() <= n,
        scalars.len() == 0 ==> recovered(actions, scalars, n).len() == 0,
    decreases n,
{
    if n > 0 {
        one_note_in_each_action(actions, scalars, n - 1);
        if scalars.len() == 1 {
            let none = scalars.drop_last();
            assert(action_outputs(actions[n - 1], none).len() == 0);
        }
    }
}

/// A merchant's payments are found with the key for incoming ones, and a fee
/// with both keys of the platform; a key that cannot be read finds nothing.
pub proof fn keys_find_what_they_open(raw: Seq<u8>, key: Seq<char>)
    ensures
        ivk_of(key) matches Ok(ivk) ==> incoming_outputs(raw, key) == outputs_of(
            raw,
            seq![ivk.skip(32)],
        ),
        ivk_of(key) is Err ==> incoming_outputs(raw, key).len() == 0,
        fvk_of(key) matches Ok(fvk) ==> full_outputs(raw, key) == outputs_of(
            raw,
            seq![orchard_ivk(fvk, false).skip(32), orchard_ivk(fvk, true).skip(32)],
        ),
        fvk_of(key) is Err ==> full_outputs(raw, key).len() == 0,
{
}

/// The first Orchard item of a key or an address is the one that counts.
pub proof fn first_orchard_item_counts(items: Seq<Option<Seq<u8>>>, k: int)
    requires
        0 <= k < items.len(),
    ensures
        items[k] is Some && (forall|i: int| 0 <= i < k ==> (#[trigger] items[i]) is None)
            ==> first_orchard(items) == items[k],
        (forall|i: int| 0 <= i < items.len() ==> (#[trigger] items[i]) is None) ==> first_orchard(
            items,
        ) is None,
    decreases items.len(),
{
    let rest = items.skip(1);
    if k > 0 {
        assert(forall|i: int| 0 <= i < rest.len() ==> #[trigger] rest[i] == items[i + 1]);
        first_orchard_item_counts(rest, k - 1);
    } else if items.len() > 1 {
        assert(forall|i: int| 0 <= i < rest.len() ==> #[trigger] rest[i] == items[i + 1]);
        first_orchard_item_counts(rest, 0);
    } else {
        assert(rest.len() == 0);
    }
}

/// A key is read where it decodes, holds an Orchard item and that is valid; the
/// first of these that fails is the error.
pub proof fn key_is_read_where_nothing_fails(key: Seq<char>)
    ensures
        ({
            let r = fvk_of(key);
            match unified_fvk(key) {
                None => r == Err::<Seq<u8>, KeyError>(KeyError::UfvkDecode),
                Some(k) => match first_orchard(k.1) {
                    None => r == Err::<Seq<u8>, KeyError>(KeyError::NoOrchardFvk),
                    Some(b) => (is_orchard_fvk(b) <==> r == Ok::<Seq<u8>, KeyError>(b)) && (
                    !is_orchard_fvk(b) <==> r == Err::<Seq<u8>, KeyError>(KeyError::InvalidFvk)),
                },
            }
        }),
        ({
            let r = ivk_of_uivk(key);
            match unified_ivk(key) {
                None => r == Err::<Seq<u8>, KeyError>(KeyError::UivkDecode),
                Some(k) => match first_orchard(k.1) {
                    None => r == Err::<Seq<u8>, KeyError>(KeyError::NoOrchardIvk),
                    Some(b) => (is_orchard_ivk(b) <==> r == Ok::<Seq<u8>, KeyError>(b)) && (
                    !is_orchard_ivk(b) <==> r == Err::<Seq<u8>, KeyError>(KeyError::InvalidIvk)),
                },
            }
        }),
{
}

/// A key that shows incoming payments only is taken as it is, and of any other
/// the key for incoming payments is derived, on its own network.
pub proof fn incoming_key_is_enough(key: Seq<char>)
    ensures
        "uivk"@.is_prefix_of(key) ==> ivk_of(key) == ivk_of_uivk(key),
        !"uivk"@.is_prefix_of(key) && fvk_of(key) is Ok ==> ivk_of(key) == Ok::<Seq<u8>, KeyError>(
            orchard_ivk(fvk_of(key)->Ok_0, false),
        ),
        !"uivk"@.is_prefix_of(key) && fvk_of(key) is Err ==> ivk_of(key) == Err::<
            Seq<u8>,
            KeyError,
        >(fvk_of(key)->Err_0),
        "uivk"@.is_prefix_of(key) && unified_ivk(key) is Some ==> network_of(key) == Some(
            (unified_ivk(key)->0).0,
        ),
        !"uivk"@.is_prefix_of(key) && unified_fvk(key) is Some ==> network_of(key) == Some(
            (unified_fvk(key)->0).0,
        ),
        fvk_of(key) matches Ok(fvk) && orchard_uivk_text(
            orchard_ivk(fvk, false),
            (unified_fvk(key)->0).0,
        ) is Some ==> reduced_key(key) == Ok::<Seq<char>, KeyError>(
            orchard_uivk_text(orchard_ivk(fvk_of(key)->Ok_0, false), (unified_fvk(key)->0).0)->0,
        ),
        fvk_of(key) matches Err(e) ==> reduced_key(key) == Err::<Seq<char>, KeyError>(e),
{
}

} // verus!
