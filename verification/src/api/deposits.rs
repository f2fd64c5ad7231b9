//! What a transaction pays to whom.

use vstd::prelude::*;

use crate::hexadecimal::{self, hex_text};
use crate::scanner::decrypt::{output_view, outputs_view, DecryptedOutput, OutputView};
use crate::text::{char_is_hex_digit, chars_of, is_hex_digit, text_eq, trim, trimmed};

verus! {

/// Whether a text is a transaction identifier: 64 hexadecimal digits.
pub open spec fn is_txid(s: Seq<char>) -> bool {
    s.len() == 64 && forall|i: int| 0 <= i < s.len() ==> is_hex_digit(#[trigger] s[i])
}

/// Whether a text is a transaction identifier.
pub fn valid_txid(s: &str) -> (r: bool)
    ensures
        r == is_txid(s@),
{
    let x: Vec<char> = chars_of(s);
    if x.len() != 64 {
        return false;
    }
    let mut i: usize = 0;
    while i < x.len()
        invariant
            i <= x@.len(),
            x@ == s@,
            forall|k: int| 0 <= k < i ==> is_hex_digit(#[trigger] x@[k]),
        decreases x@.len() - i,
    {
        if !char_is_hex_digit(x[i]) {
            return false;
        }
        i = i + 1;
    }
    true
}

/// The sum of the outputs to a receiver that is given in hexadecimal.
pub open spec fn received(outputs: Seq<OutputView>, receiver: Seq<char>) -> int
    decreases outputs.len(),
{
    if outputs.len() == 0 {
        0
    } else {
        received(outputs.drop_last(), receiver) + if hex_text(outputs.last().recipient_raw)
            == receiver {
            outputs.last().amount_zatoshis as int
        } else {
            0
        }
    }
}

/// The sum of the outputs whose memo, without white space around it, is the
/// given text.
pub open spec fn received_with_memo(outputs: Seq<OutputView>, memo: Seq<char>) -> int
    decreases outputs.len(),
{
    if outputs.len() == 0 {
        0
    } else {
        received_with_memo(outputs.drop_last(), memo) + if trimmed(outputs.last().memo) == memo {
            outputs.last().amount_zatoshis as int
        } else {
            0
        }
    }
}

/// Whether an output carries the memo.
pub open spec fn has_memo(outputs: Seq<OutputView>, memo: Seq<char>) -> bool {
    exists|i: int| 0 <= i < outputs.len() && trimmed((#[trigger] outputs[i]).memo) == memo
}

/// The sum of the outputs to a receiver that is given in hexadecimal.
pub fn receiver_total(outputs: &Vec<DecryptedOutput>, receiver: &str) -> (r: u128)
    ensures
        r == received(outputs_view(outputs@), receiver@),
{
    let mut total: u128 = 0;
    let mut i: usize = 0;
    let ghost all = outputs_view(outputs@);
    assert(all.take(0).len() == 0);
    while i < outputs.len()
        invariant
            i <= outputs@.len(),
            all == outputs_view(outputs@),
            total == received(all.take(i as int), receiver@),
            total <= i * 0xffff_ffff_ffff_ffff,
        decreases outputs@.len() - i,
    {
        let code: String = hexadecimal::encode(outputs[i].recipient_raw.as_slice());
        proof {
            let next = all.take(i + 1);
            assert(next.drop_last() =~= all.take(i as int));
            assert(next.last() == output_view(outputs@[i as int]));
            assert((i + 1) * 0xffff_ffff_ffff_ffff == i * 0xffff_ffff_ffff_ffff
                + 0xffff_ffff_ffff_ffff) by (nonlinear_arith);
            assert((i + 1) * 0xffff_ffff_ffff_ffff <= 0x1_0000_0000_0000_0000
                * 0xffff_ffff_ffff_ffff) by (nonlinear_arith)
                requires
                    i + 1 <= 0x1_0000_0000_0000_0000,
            ;
        }
        if text_eq(code.as_str(), receiver) {
            total = total + outputs[i].amount_zatoshis as u128;
        }
        i = i + 1;
    }
    assert(all.take(i as int) =~= all);
    total
}

/// The sum of the outputs to a receiver that is given in hexadecimal.
pub fn sum_outputs_for_receiver(outputs: &Vec<DecryptedOutput>, expected_receiver_hex: &str) -> (r:
    i64)
    requires
        received(outputs_view(outputs@), expected_receiver_hex@) <= i64::MAX,
    ensures
        r == received(outputs_view(outputs@), expected_receiver_hex@),
{
    receiver_total(outputs, expected_receiver_hex) as i64
}

/// The sum of the outputs with a memo, or nothing where no output has it.
pub fn memo_total(outputs: &Vec<DecryptedOutput>, memo: &str) -> (r: Option<u128>)
    ensures
        match r {
            Some(t) => has_memo(outputs_view(outputs@), memo@) && t == received_with_memo(
                outputs_view(outputs@),
                memo@,
            ),
            None => !has_memo(outputs_view(outputs@), memo@),
        },
{
    let mut total: u128 = 0;
    let mut found: bool = false;
    let mut i: usize = 0;
    let ghost all = outputs_view(outputs@);
    assert(all.take(0).len() == 0);
    while i < outputs.len()
        invariant
            i <= outputs@.len(),
            all == outputs_view(outputs@),
            total == received_with_memo(all.take(i as int), memo@),
            total <= i * 0xffff_ffff_ffff_ffff,
            found == has_memo(all.take(i as int), memo@),
        decreases outputs@.len() - i,
    {
        let own: String = trim(outputs[i].memo.as_str());
        let ghost next = all.take(i + 1);
        proof {
            assert(next.drop_last() =~= all.take(i as int));
            assert(next.last() == output_view(outputs@[i as int]));
            assert((i + 1) * 0xffff_ffff_ffff_ffff == i * 0xffff_ffff_ffff_ffff
                + 0xffff_ffff_ffff_ffff) by (nonlinear_arith);
            assert((i + 1) * 0xffff_ffff_ffff_ffff <= 0x1_0000_0000_0000_0000
                * 0xffff_ffff_ffff_ffff) by (nonlinear_arith)
                requires
                    i + 1 <= 0x1_0000_0000_0000_0000,
            ;
            if has_memo(all.take(i as int), memo@) {
                let k = choose|k: int|
                    0 <= k < i && trimmed((#[trigger] all.take(i as int)[k]).memo) == memo@;
                assert(next[k] == all.take(i as int)[k]);
            }
        }
        if text_eq(own.as_str(), memo) {
            total = total + outputs[i].amount_zatoshis as u128;
            found = true;
            assert(next[i as int].memo == outputs@[i as int].memo@);
        } else {
            assert(has_memo(next, memo@) ==> has_memo(all.take(i as int), memo@)) by {
                if has_memo(next, memo@) {
                    let k = choose|k: int|
                        0 <= k < next.len() && trimmed((#[trigger] next[k]).memo) == memo@;
                    assert(all.take(i as int)[k] == next[k]);
                }
            }
        }
        i = i + 1;
    }
    assert(all.take(i as int) =~= all);
    if found {
        Some(total)
    } else {
        None
    }
}

// ---------------------------------------------------------------------------
// Laws
// ---------------------------------------------------------------------------

/// A transaction id is 64 hexadecimal digits, in either case.
pub proof fn txid_is_64_hex_digits(s: Seq<char>)
    ensures
        is_txid(s) <==> s.len() == 64 && forall|i: int|
            0 <= i < 64 ==> ('0' <= #[trigger] s[i] <= '9' || 'a' <= s[i] <= 'f' || 'A' <= s[i]
                <= 'F'),
{
    if is_txid(s) {
        assert(forall|i: int| 0 <= i < 64 ==> is_hex_digit(#[trigger] s[i]));
    }
    if s.len() == 64 && forall|i: int|
        0 <= i < 64 ==> ('0' <= #[trigger] s[i] <= '9' || 'a' <= s[i] <= 'f' || 'A' <= s[i]
            <= 'F') {
        assert(forall|i: int| 0 <= i < s.len() ==> is_hex_digit(#[trigger] s[i]));
    }
}

/// One more output adds its amount at its own receiver, and nothing at any
/// other; the order of the outputs does not matter.
pub proof fn output_counts_at_its_receiver(
    outputs: Seq<OutputView>,
    o: OutputView,
    receiver: Seq<char>,
)
    ensures
        received(Seq::<OutputView>::empty(), receiver) == 0,
        hex_text(o.recipient_raw) == receiver ==> received(outputs.push(o), receiver) == received(
            outputs,
            receiver,
        ) + o.amount_zatoshis,
        hex_text(o.recipient_raw) != receiver ==> received(outputs.push(o), receiver) == received(
            outputs,
            receiver,
        ),
        received(seq![o] + outputs, receiver) == received(outputs.push(o), receiver),
    decreases outputs.len(),
{
    assert(outputs.push(o).drop_last() =~= outputs);
    let all = seq![o] + outputs;
    if outputs.len() > 0 {
        let rest = outputs.drop_last();
        output_counts_at_its_receiver(rest, o, receiver);
        assert(all.drop_last() =~= seq![o] + rest);
        assert(received(rest.push(o), receiver) + received(outputs, receiver) == received(
            outputs.push(o),
            receiver,
        ) + received(rest, receiver));
        assert(all.last() == outputs.last());
        assert(rest.push(o).drop_last() =~= rest);
    } else {
        assert(all =~= outputs.push(o));
    }
}

/// At each receiver no less is counted than any one output sends there, and
/// nothing where no output goes.
pub proof fn every_output_is_counted(outputs: Seq<OutputView>, receiver: Seq<char>, i: int)
    requires
        0 <= i < outputs.len(),
    ensures
        received(outputs, receiver) >= 0,
        hex_text(outputs[i].recipient_raw) == receiver ==> received(outputs, receiver)
            >= outputs[i].amount_zatoshis,
        (forall|k: int|
            0 <= k < outputs.len() ==> hex_text((#[trigger] outputs[k]).recipient_raw) != receiver)
            ==> received(outputs, receiver) == 0,
    decreases outputs.len(),
{
    let rest = outputs.drop_last();
    assert(forall|k: int| 0 <= k < rest.len() ==> rest[k] == #[trigger] outputs[k]);
    if rest.len() == 0 {
        assert(received(rest, receiver) == 0);
    } else {
        every_output_is_counted(
            rest,
            receiver,
            if i < rest.len() {
                i
            } else {
                0
            },
        );
    }
}

/// One more output adds its amount under its own memo, with the white space
/// around it left aside, and nothing under any other.
pub proof fn output_counts_under_its_memo(
    outputs: Seq<OutputView>,
    o: OutputView,
    memo: Seq<char>,
)
    ensures
        received_with_memo(Seq::<OutputView>::empty(), memo) == 0,
        trimmed(o.memo) == memo ==> received_with_memo(outputs.push(o), memo)
            == received_with_memo(outputs, memo) + o.amount_zatoshis && has_memo(
            outputs.push(o),
            memo,
        ),
        trimmed(o.memo) != memo ==> received_with_memo(outputs.push(o), memo)
            == received_with_memo(outputs, memo) && has_memo(outputs.push(o), memo) == has_memo(
            outputs,
            memo,
        ),
        !has_memo(Seq::<OutputView>::empty(), memo),
{
    let more = outputs.push(o);
    assert(more.drop_last() =~= outputs);
    assert(more[outputs.len() as int] == o);
    assert(forall|k: int| 0 <= k < outputs.len() ==> outputs[k] == #[trigger] more[k]);
    if has_memo(outputs, memo) {
        let k = choose|k: int|
            0 <= k < outputs.len() && trimmed((#[trigger] outputs[k]).memo) == memo;
        assert(trimmed(more[k].memo) == memo);
    }
    if has_memo(more, memo) && trimmed(o.memo) != memo {
        let k = choose|k: int| 0 <= k < more.len() && trimmed((#[trigger] more[k]).memo) == memo;
        assert(trimmed(outputs[k].memo) == memo);
    }
}

/// Nothing was received under a memo that no output carries.
pub proof fn nothing_comes_under_a_strange_memo(outputs: Seq<OutputView>, memo: Seq<char>)
    requires
        !has_memo(outputs, memo),
    ensures
        received_with_memo(outputs, memo) == 0,
        forall|k: int| 0 <= k < outputs.len() ==> trimmed((#[trigger] outputs[k]).memo) != memo,
    decreases outputs.len(),
{
    if outputs.len() > 0 {
        let rest = outputs.drop_last();
        assert(forall|k: int| 0 <= k < rest.len() ==> rest[k] == #[trigger] outputs[k]);
        assert(outputs.last() == outputs[outputs.len() - 1]);
        nothing_comes_under_a_strange_memo(rest, memo);
    }
}

} // verus!
