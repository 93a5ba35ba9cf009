//! What the numbers, hashes and errors in messages look like, character by character.

use crate::payload::{hash_list_text, ExecutionPayloadValidationError};
use crate::primitives::H256;
use crate::text::{decimal, hex};
use vstd::prelude::*;

verus! {

/// The decimal notation of a number stands for it: its characters are digits, their value is the
/// number, and there is no leading zero but that of zero itself.
pub proof fn decimal_is_read_back(n: nat)
    ensures
        decimal(n).len() > 0,
        forall|i: int| 0 <= i < decimal(n).len() ==> '0' <= #[trigger] decimal(n)[i] <= '9',
        decimal(n).fold_left(0int, |value: int, c: char| value * 10 + (c as int - '0' as int)) == n,
        n > 0 ==> decimal(n)[0] != '0',
        n == 0 ==> decimal(n).len() == 1,
    decreases n,
{
    let f = |value: int, c: char| value * 10 + (c as int - '0' as int);
    let text = decimal(n);
    reveal_with_fuel(Seq::fold_left, 2);
    if n < 10 {
        assert(text.drop_last() =~= Seq::empty());
        assert(text.fold_left(0int, f) == f(text.drop_last().fold_left(0int, f), text.last()));
    } else {
        decimal_is_read_back(n / 10);
        assert(text.drop_last() =~= decimal(n / 10));
        assert(text.fold_left(0int, f) == f(text.drop_last().fold_left(0int, f), text.last()));
        assert forall|i: int| 0 <= i < text.len() implies '0' <= #[trigger] text[i] <= '9' by {
            if i < text.len() - 1 {
                assert(text[i] == decimal(n / 10)[i]);
            }
        }
        assert(text[0] == decimal(n / 10)[0]);
    }
}

/// In hexadecimal notation each byte is two characters, the higher half first: a digit below ten is
/// one of `0` to `9`, and a larger one is one of `a` to `f`.
pub proof fn hex_is_read_back(bytes: Seq<u8>, i: int)
    requires
        0 <= i < bytes.len(),
    ensures
        hex(bytes).len() == 2 * bytes.len(),
        ({
            let high = bytes[i] as int / 16;
            let low = bytes[i] as int % 16;
            &&& hex(bytes)[2 * i] as int == if high < 10 {
                '0' as int + high
            } else {
                'a' as int + (high - 10)
            }
            &&& hex(bytes)[2 * i + 1] as int == if low < 10 {
                '0' as int + low
            } else {
                'a' as int + (low - 10)
            }
        }),
    decreases bytes.len(),
{
    hex_has_two_characters_per_byte(bytes);
    hex_has_two_characters_per_byte(bytes.drop_last());
    if i < bytes.len() - 1 {
        hex_is_read_back(bytes.drop_last(), i);
    }
}

proof fn hex_has_two_characters_per_byte(bytes: Seq<u8>)
    ensures
        hex(bytes).len() == 2 * bytes.len(),
    decreases bytes.len(),
{
    if bytes.len() > 0 {
        hex_has_two_characters_per_byte(bytes.drop_last());
    }
}

/// A list of hashes is written one hash after the other, each with its prefix, with a comma and a
/// space in between.
pub proof fn hashes_are_listed_in_order(hashes: Seq<H256>, last: H256)
    ensures
        hash_list_text(Seq::empty()) == Seq::<char>::empty(),
        hash_list_text(seq![last]) == "0x"@ + hex(last.0@),
        hashes.len() > 0 ==> hash_list_text(hashes.push(last)) == hash_list_text(hashes) + ", "@
            + "0x"@ + hex(last.0@),
{
    assert(hashes.push(last).drop_last() =~= hashes);
    assert(hashes.push(last).last() == last);
}

/// The message of an error names what is wrong: the field, or what was expected and what was got.
pub proof fn messages_name_what_is_wrong(error: ExecutionPayloadValidationError, message: String)
    requires
        call_ensures(ExecutionPayloadValidationError::message, (&error,), message),
    ensures
        match error {
            ExecutionPayloadValidationError::MissingField { field } => message@
                == "missing field `"@ + field@ + "` in execution payload"@,
            ExecutionPayloadValidationError::UnexpectedField { field } => message@
                == "unexpected field `"@ + field@ + "` in execution payload"@,
            ExecutionPayloadValidationError::BlockHashMismatch { expected, actual } => message@
                == "block hash mismatch: expected "@ + "0x"@ + hex(expected.0@) + ", got "@ + "0x"@
                + hex(actual.0@),
            ExecutionPayloadValidationError::BlobVersionedHashesMismatch { expected, actual } =>
            message@ == "blob versioned hashes mismatch: expected "@ + "["@ + hash_list_text(
                expected@,
            ) + "]"@ + ", got "@ + "["@ + hash_list_text(actual@) + "]"@,
        },
{
}

} // verus!
