//! Debug text of a frame: arbitration ID in hex with a `0x` prefix, the two
//! flags, and the data bytes as a bracketed list of hex numbers.

use vstd::prelude::*;
use crate::frame::{CanFrame, FrameModel, spec_arb_id, spec_data, spec_is_extended, spec_is_remote};

verus! {

/// Text of one hexadecimal digit, lower case.
pub open spec fn hex_digit_text(d: int) -> Seq<char> {
    if d == 0 { "0"@ }
    else if d == 1 { "1"@ }
    else if d == 2 { "2"@ }
    else if d == 3 { "3"@ }
    else if d == 4 { "4"@ }
    else if d == 5 { "5"@ }
    else if d == 6 { "6"@ }
    else if d == 7 { "7"@ }
    else if d == 8 { "8"@ }
    else if d == 9 { "9"@ }
    else if d == 10 { "a"@ }
    else if d == 11 { "b"@ }
    else if d == 12 { "c"@ }
    else if d == 13 { "d"@ }
    else if d == 14 { "e"@ }
    else { "f"@ }
}

/// `n` in lower-case hexadecimal, without leading zeros ("0" for zero).
pub open spec fn hex_text(n: nat) -> Seq<char>
    decreases n,
{
    if n < 16 {
        hex_digit_text(n as int)
    } else {
        hex_text(n / 16) + hex_digit_text((n % 16) as int)
    }
}

/// The bytes in hexadecimal, separated by ", ".
pub open spec fn hex_items_text(bytes: Seq<u8>) -> Seq<char>
    decreases bytes.len(),
{
    if bytes.len() == 0 {
        Seq::empty()
    } else if bytes.len() == 1 {
        hex_text(bytes[0] as nat)
    } else {
        hex_items_text(bytes.drop_last()) + ", "@ + hex_text(bytes.last() as nat)
    }
}

/// The bytes as a bracketed list of hexadecimal numbers, e.g. `[1, ab]`.
pub open spec fn hex_list_text(bytes: Seq<u8>) -> Seq<char> {
    "["@ + hex_items_text(bytes) + "]"@
}

pub open spec fn bool_text(b: bool) -> Seq<char> {
    if b { "true"@ } else { "false"@ }
}

/// `CanFrame { id: 0x…, extended: …, remote: …, data: […] }`.
pub open spec fn frame_debug_text(f: FrameModel) -> Seq<char> {
    "CanFrame { id: 0x"@ + hex_text(spec_arb_id(f.id) as nat) + ", extended: "@ + bool_text(
        spec_is_extended(f.id),
    ) + ", remote: "@ + bool_text(spec_is_remote(f.id)) + ", data: "@ + hex_list_text(
        spec_data(f),
    ) + " }"@
}

fn hex_digit_str(d: u32) -> (s: &'static str)
    requires
        d < 16,
    ensures
        s@ == hex_digit_text(d as int),
{
    if d == 0 { "0" }
    else if d == 1 { "1" }
    else if d == 2 { "2" }
    else if d == 3 { "3" }
    else if d == 4 { "4" }
    else if d == 5 { "5" }
    else if d == 6 { "6" }
    else if d == 7 { "7" }
    else if d == 8 { "8" }
    else if d == 9 { "9" }
    else if d == 10 { "a" }
    else if d == 11 { "b" }
    else if d == 12 { "c" }
    else if d == 13 { "d" }
    else if d == 14 { "e" }
    else { "f" }
}

/// Appends `n` in lower-case hexadecimal.
fn append_hex(s: &mut String, n: u32)
    ensures
        final(s)@ == old(s)@ + hex_text(n as nat),
    decreases n,
{
    if n >= 16 {
        append_hex(s, n / 16);
    }
    s.append(hex_digit_str(n % 16));
    proof {
        assert((n / 16) as nat == (n as nat) / 16);
    }
}

fn append_bool(s: &mut String, b: bool)
    ensures
        final(s)@ == old(s)@ + bool_text(b),
{
    if b {
        s.append("true");
    } else {
        s.append("false");
    }
}

/// Appends the bytes as a bracketed list of hexadecimal numbers.
fn append_hex_list(s: &mut String, bytes: &[u8])
    ensures
        final(s)@ == old(s)@ + hex_list_text(bytes@),
{
    let ghost start = s@;
    s.append("[");
    let mut i: usize = 0;
    while i < bytes.len()
        invariant
            i <= bytes@.len(),
            s@ == start + "["@ + hex_items_text(bytes@.subrange(0, i as int)),
        decreases bytes@.len() - i,
    {
        let ghost before = s@;
        if i > 0 {
            s.append(", ");
        }
        append_hex(s, bytes[i] as u32);
        proof {
            let next = bytes@.subrange(0, i + 1);
            assert(next.drop_last() =~= bytes@.subrange(0, i as int));
            assert(next.last() == bytes@[i as int]);
            if i == 0 {
                assert(bytes@.subrange(0, 0) =~= Seq::<u8>::empty());
            }
        }
        i = i + 1;
    }
    s.append("]");
    proof {
        assert(bytes@.subrange(0, bytes@.len() as int) =~= bytes@);
    }
}

impl CanFrame {
    /// Debug text of the frame:
    /// `CanFrame { id: 0x…, extended: …, remote: …, data: […] }`, with the
    /// arbitration ID and the data bytes in lower-case hexadecimal.
    pub fn debug_text(&self) -> (r: String)
        ensures
            r@ == frame_debug_text(self@),
    {
        let mut s = String::new();
        s.append("CanFrame { id: 0x");
        append_hex(&mut s, self.arb_id());
        s.append(", extended: ");
        append_bool(&mut s, self.is_extended());
        s.append(", remote: ");
        append_bool(&mut s, self.is_remote());
        s.append(", data: ");
        append_hex_list(&mut s, self.data());
        s.append(" }");
        s
    }
}

/// Numeric value of a lower-case hexadecimal digit character.
pub open spec fn hex_char_value(c: char) -> int {
    if (c as int) <= 57 {
        c as int - 48
    } else {
        c as int - 87
    }
}

/// The number that a text of lower-case hexadecimal digits denotes.
pub open spec fn hex_text_value(s: Seq<char>) -> int
    decreases s.len(),
{
    if s.len() == 0 {
        0
    } else {
        hex_text_value(s.drop_last()) * 16 + hex_char_value(s.last())
    }
}

/// A hexadecimal digit is one character: `'0' + d` below ten, `'a' + (d - 10)`
/// from ten on.
pub proof fn lemma_hex_digit_chars(d: int)
    requires
        0 <= d < 16,
    ensures
        hex_digit_text(d).len() == 1,
        d < 10 ==> hex_digit_text(d)[0] as int == 48 + d,
        d >= 10 ==> hex_digit_text(d)[0] as int == 87 + d,
{
    reveal_strlit("0");
    reveal_strlit("1");
    reveal_strlit("2");
    reveal_strlit("3");
    reveal_strlit("4");
    reveal_strlit("5");
    reveal_strlit("6");
    reveal_strlit("7");
    reveal_strlit("8");
    reveal_strlit("9");
    reveal_strlit("a");
    reveal_strlit("b");
    reveal_strlit("c");
    reveal_strlit("d");
    reveal_strlit("e");
    reveal_strlit("f");
}

/// The hexadecimal text of `n` is lower-case digits, starts with a non-zero
/// digit unless `n` is zero, and reads back as `n`.
pub proof fn lemma_hex_text_reads_back(n: nat)
    ensures
        hex_text(n).len() >= 1,
        forall|i: int|
            0 <= i < hex_text(n).len() ==> {
                let c = #[trigger] hex_text(n)[i] as int;
                (48 <= c <= 57) || (97 <= c <= 102)
            },
        n > 0 ==> hex_text(n)[0] as int != 48,
        hex_text_value(hex_text(n)) == n,
    decreases n,
{
    if n < 16 {
        lemma_hex_digit_chars(n as int);
        let s = hex_text(n);
        assert(s.drop_last() =~= Seq::<char>::empty());
        assert(hex_text_value(s.drop_last()) == 0);
        assert(hex_char_value(s.last()) == n);
        assert(hex_text_value(s) == hex_text_value(s.drop_last()) * 16 + hex_char_value(s.last()));
    } else {
        lemma_hex_text_reads_back(n / 16);
        lemma_hex_digit_chars((n % 16) as int);
        let hi = hex_text(n / 16);
        let lo = hex_digit_text((n % 16) as int);
        let s = hex_text(n);
        assert(s == hi + lo);
        assert(s.drop_last() =~= hi);
        assert(s.last() == lo[0]);
        assert forall|i: int| 0 <= i < s.len() implies {
            let c = #[trigger] s[i] as int;
            (48 <= c <= 57) || (97 <= c <= 102)
        } by {
            if i < hi.len() {
                assert(s[i] == hi[i]);
            } else {
                assert(s[i] == lo[0]);
            }
        }
        assert(s[0] == hi[0]);
        assert(hex_char_value(lo[0]) == n % 16);
        assert(hex_text_value(s) == hex_text_value(hi) * 16 + hex_char_value(lo[0]));
        assert((n / 16) * 16 + n % 16 == n) by {
            vstd::arithmetic::div_mod::lemma_fundamental_div_mod(n as int, 16);
        }
    }
}

/// The list text separates byte texts by a comma and a space.
pub proof fn lemma_hex_items_spelled(bytes: Seq<u8>)
    ensures
        bytes.len() == 0 ==> hex_items_text(bytes) == Seq::<char>::empty(),
        bytes.len() == 1 ==> hex_items_text(bytes) == hex_text(bytes[0] as nat),
        bytes.len() >= 2 ==> hex_items_text(bytes) == hex_items_text(bytes.drop_last()) + seq![
            ',',
            ' ',
        ] + hex_text(bytes.last() as nat),
{
    reveal_strlit(", ");
}

/// The debug text spelled out character by character around the numbers:
/// `CanFrame { id: 0x<arbitration ID>, extended: <flag>, remote: <flag>,
/// data: [<bytes>] }`.
pub proof fn lemma_debug_text_spelled(f: FrameModel)
    ensures
        frame_debug_text(f) == seq!['C', 'a', 'n', 'F', 'r', 'a', 'm', 'e', ' ', '{', ' ', 'i', 'd', ':', ' ', '0', 'x']
            + hex_text(spec_arb_id(f.id) as nat)
            + seq![',', ' ', 'e', 'x', 't', 'e', 'n', 'd', 'e', 'd', ':', ' ']
            + (if spec_is_extended(f.id) { seq!['t', 'r', 'u', 'e'] } else { seq!['f', 'a', 'l', 's', 'e'] })
            + seq![',', ' ', 'r', 'e', 'm', 'o', 't', 'e', ':', ' ']
            + (if spec_is_remote(f.id) { seq!['t', 'r', 'u', 'e'] } else { seq!['f', 'a', 'l', 's', 'e'] })
            + seq![',', ' ', 'd', 'a', 't', 'a', ':', ' ']
            + (seq!['['] + hex_items_text(spec_data(f)) + seq![']'])
            + seq![' ', '}'],
{
    reveal_strlit("CanFrame { id: 0x");
    reveal_strlit(", extended: ");
    reveal_strlit(", remote: ");
    reveal_strlit(", data: ");
    reveal_strlit("[");
    reveal_strlit("]");
    reveal_strlit(" }");
    reveal_strlit("true");
    reveal_strlit("false");
    assert("CanFrame { id: 0x"@ =~= seq!['C', 'a', 'n', 'F', 'r', 'a', 'm', 'e', ' ', '{', ' ', 'i', 'd', ':', ' ', '0', 'x']);
    assert(", extended: "@ =~= seq![',', ' ', 'e', 'x', 't', 'e', 'n', 'd', 'e', 'd', ':', ' ']);
    assert(", remote: "@ =~= seq![',', ' ', 'r', 'e', 'm', 'o', 't', 'e', ':', ' ']);
    assert(", data: "@ =~= seq![',', ' ', 'd', 'a', 't', 'a', ':', ' ']);
    assert("["@ =~= seq!['[']);
    assert("]"@ =~= seq![']']);
    assert(" }"@ =~= seq![' ', '}']);
    assert("true"@ =~= seq!['t', 'r', 'u', 'e']);
    assert("false"@ =~= seq!['f', 'a', 'l', 's', 'e']);
}

} // verus!
