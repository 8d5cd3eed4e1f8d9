//! Event identifiers: 32 bytes, written as hexadecimal digits.
use vstd::prelude::*;

verus! {

/// Whether a character is a hexadecimal digit, of either case.
pub open spec fn is_hex_digit(c: char) -> bool {
    ||| '0' <= c <= '9'
    ||| 'a' <= c <= 'f'
    ||| 'A' <= c <= 'F'
}

/// The value of a hexadecimal digit.
pub open spec fn hex_digit_value(c: char) -> int {
    if '0' <= c <= '9' {
        c as int - '0' as int
    } else if 'a' <= c <= 'f' {
        c as int - 'a' as int + 10
    } else {
        c as int - 'A' as int + 10
    }
}

/// The bytes that a text of hexadecimal digits spells, two digits a byte; none
/// where the text has another character or an odd number of digits.
pub open spec fn hex_bytes(s: Seq<char>) -> Option<Seq<u8>> {
    if s.len() % 2 == 0 && (forall|i: int| 0 <= i < s.len() ==> is_hex_digit(#[trigger] s[i])) {
        Some(
            Seq::new(
                s.len() / 2,
                |i: int| (16 * hex_digit_value(s[2 * i]) + hex_digit_value(s[2 * i + 1])) as u8,
            ),
        )
    } else {
        None
    }
}

/// Calls `hex::decode`, which reads two hexadecimal digits a byte, of either case,
/// the high digit first, and fails on an odd length and on any other character.
#[verifier::external_body]
fn hex_decode(s: &str) -> (r: Option<Vec<u8>>)
    ensures
        match r {
            Some(v) => hex_bytes(s@) == Some(v@),
            None => hex_bytes(s@) is None,
        },
{
    hex::decode(s).ok()
}

/// The identifier that a text spells, if it spells exactly 32 bytes.
pub open spec fn event_id(s: Seq<char>) -> Option<Seq<u8>> {
    match hex_bytes(s) {
        Some(b) => if b.len() == 32 {
            Some(b)
        } else {
            None
        },
        None => None,
    }
}

/// Reads an identifier.
pub fn parse_event_id(s: &str) -> (r: Option<[u8; 32]>)
    ensures
        match r {
            Some(id) => event_id(s@) == Some(id@),
            None => event_id(s@) is None,
        },
{
    match hex_decode(s) {
        Some(bytes) => {
            if bytes.len() != 32 {
                return None;
            }
            let mut id: [u8; 32] = [0u8;32];
            let mut i: usize = 0;
            while i < 32
                invariant
                    i <= 32,
                    bytes@.len() == 32,
                    forall|k: int| 0 <= k < i ==> id@[k] == bytes@[k],
                decreases 32 - i,
            {
                id[i] = bytes[i];
                i = i + 1;
            }
            assert(id@ =~= bytes@);
            Some(id)
        },
        None => None,
    }
}

/// The identifiers among some texts, in their order; texts that spell none are
/// left out.
pub open spec fn event_ids(list: Seq<Seq<char>>) -> Seq<Seq<u8>>
    decreases list.len(),
{
    if list.len() == 0 {
        Seq::empty()
    } else {
        match event_id(list.last()) {
            Some(id) => event_ids(list.drop_last()).push(id),
            None => event_ids(list.drop_last()),
        }
    }
}

/// The contents of a list of identifiers.
pub open spec fn id_bytes(list: Seq<[u8; 32]>) -> Seq<Seq<u8>> {
    list.map_values(|id: [u8; 32]| id@)
}

} // verus!
