//! Room identifiers.
use vstd::prelude::*;

verus! {

/// A letter, a digit, `-` or `_`.
pub open spec fn is_room_id_char(c: char) -> bool {
    ||| 'a' <= c <= 'z'
    ||| 'A' <= c <= 'Z'
    ||| '0' <= c <= '9'
    ||| c == '-'
    ||| c == '_'
}

/// One to twenty letters, digits, `-` or `_`.
pub open spec fn room_id_ok(id: Seq<char>) -> bool {
    &&& 1 <= id.len() <= 20
    &&& forall|i: int| 0 <= i < id.len() ==> is_room_id_char(#[trigger] id[i])
}

/// Whether `id` can name a room.
pub fn is_room_id(id: &str) -> (r: bool)
    ensures
        r == room_id_ok(id@),
{
    let n: usize = id.unicode_len();
    if n == 0 || n > 20 {
        return false;
    }
    let mut i: usize = 0;
    while i < n
        invariant
            i <= n,
            n == id@.len(),
            forall|j: int| 0 <= j < i ==> is_room_id_char(#[trigger] id@[j]),
        decreases n - i,
    {
        let c: char = id.get_char(i);
        let ok: bool = ('a' <= c && c <= 'z') || ('A' <= c && c <= 'Z') || ('0' <= c && c <= '9')
            || c == '-' || c == '_';
        if !ok {
            return false;
        }
        i = i + 1;
    }
    true
}

/// An identifier with a character that is not a letter or digit of ASCII, `-` or `_` names no
/// room. Neither does an empty one, nor one with more than twenty characters.
pub proof fn room_ids_are_short_and_plain(id: Seq<char>)
    ensures
        id.len() == 0 || id.len() > 20 ==> !room_id_ok(id),
        room_id_ok(id) <==> id.len() > 0 && id.len() <= 20 && forall|i: int|
            0 <= i < id.len() ==> {
                let u = (#[trigger] id[i]) as int;
                u == 0x2d || u == 0x5f || 0x30 <= u && u <= 0x39 || 0x41 <= u && u <= 0x5a || 0x61
                    <= u && u <= 0x7a
            },
{
    assert forall|c: char| #[trigger]
        is_room_id_char(c) <==> ({
            let u = c as int;
            u == 0x2d || u == 0x5f || 0x30 <= u && u <= 0x39 || 0x41 <= u && u <= 0x5a || 0x61 <= u
                && u <= 0x7a
        }) by {}
}

} // verus!
