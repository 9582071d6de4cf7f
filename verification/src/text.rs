//! Text: the byte order of names, and numbers spelled in decimal.

use vstd::prelude::*;
use vstd::string::*;
use vstd::utf8::encode_utf8;

use crate::table::{Order, Ranked};
use crate::value::{Duplicate, Same};

verus! {

/// From byte `at` on, the first difference between the two, or the shorter
/// of them ending, puts `a` first.
pub open spec fn bytes_precede(a: Seq<u8>, b: Seq<u8>, at: int) -> bool
    decreases a.len() - at,
{
    if at >= b.len() {
        false
    } else if at >= a.len() {
        true
    } else if a[at] != b[at] {
        a[at] < b[at]
    } else {
        bytes_precede(a, b, at + 1)
    }
}

proof fn bytes_precede_not_itself(a: Seq<u8>, at: int)
    ensures
        !bytes_precede(a, a, at),
    decreases a.len() - at,
{
    if at < a.len() {
        bytes_precede_not_itself(a, at + 1);
    }
}

proof fn bytes_precede_transitively(a: Seq<u8>, b: Seq<u8>, c: Seq<u8>, at: int)
    requires
        bytes_precede(a, b, at),
        bytes_precede(b, c, at),
    ensures
        bytes_precede(a, c, at),
    decreases a.len() - at,
{
    if at < a.len() && at < c.len() && a[at] == b[at] && b[at] == c[at] {
        bytes_precede_transitively(a, b, c, at + 1);
    }
}

proof fn bytes_precede_one_way(a: Seq<u8>, b: Seq<u8>, at: int)
    requires
        0 <= at <= a.len(),
        at <= b.len(),
        forall|i: int| 0 <= i < at ==> a[i] == b[i],
        a != b,
    ensures
        bytes_precede(a, b, at) || bytes_precede(b, a, at),
    decreases a.len() - at,
{
    if at < a.len() && at < b.len() && a[at] == b[at] {
        bytes_precede_one_way(a, b, at + 1);
    } else if at == a.len() && at == b.len() {
        assert(a =~= b);
    }
}

/// Two texts with the same encoding are the same text.
proof fn encodings_differ(a: Seq<char>, b: Seq<char>)
    ensures
        encode_utf8(a) == encode_utf8(b) ==> a == b,
{
    vstd::utf8::encode_utf8_decode_utf8(a);
    vstd::utf8::encode_utf8_decode_utf8(b);
}

impl Ranked for String {
    /// The order of the UTF-8 bytes.
    open spec fn precedes(a: Seq<char>, b: Seq<char>) -> bool {
        bytes_precede(encode_utf8(a), encode_utf8(b), 0)
    }

    proof fn never_precedes_itself(a: Seq<char>) {
        bytes_precede_not_itself(encode_utf8(a), 0);
    }

    proof fn precedes_transitively(a: Seq<char>, b: Seq<char>, c: Seq<char>) {
        bytes_precede_transitively(encode_utf8(a), encode_utf8(b), encode_utf8(c), 0);
    }

    proof fn precedes_one_way(a: Seq<char>, b: Seq<char>) {
        encodings_differ(a, b);
        bytes_precede_one_way(encode_utf8(a), encode_utf8(b), 0);
    }

    fn order(&self, other: &String) -> (r: Order) {
        let left = self.as_str().as_bytes();
        let right = other.as_str().as_bytes();
        proof {
            encodings_differ(self@, other@);
        }
        let mut at: usize = 0;
        while at < left.len() && at < right.len()
            invariant
                at <= left@.len(),
                at <= right@.len(),
                forall|i: int| 0 <= i < at ==> left@[i] == right@[i],
                bytes_precede(left@, right@, 0) == bytes_precede(left@, right@, at as int),
                bytes_precede(right@, left@, 0) == bytes_precede(right@, left@, at as int),
                left@ == encode_utf8(self@),
                right@ == encode_utf8(other@),
            decreases left@.len() - at,
        {
            if left[at] < right[at] {
                return Order::Less;
            }
            if left[at] > right[at] {
                return Order::Greater;
            }
            at = at + 1;
        }
        if at < right.len() {
            Order::Less
        } else if at < left.len() {
            Order::Greater
        } else {
            assert(left@ =~= right@);
            Order::Equal
        }
    }
}

impl Duplicate for String {
    fn duplicate(&self) -> (r: String) {
        self.clone()
    }
}

impl Same for String {
    open spec fn same(self, other: String) -> bool {
        self@ == other@
    }

    fn is_same(&self, other: &String) -> (r: bool) {
        *self == *other
    }


    proof fn same_chains(self, middle: String, last: String) {
    }
}

/// Three pieces of text, one after the other.
pub(crate) fn joined(head: &str, middle: &str, tail: &str) -> (r: String)
    ensures
        r@ == head@ + middle@ + tail@,
{
    let mut text = head.to_owned();
    text.append(middle);
    text.append(tail);
    text
}

/// The ten digits.
pub open spec fn digit(d: int) -> Seq<char> {
    if d == 0 {
        "0"@
    } else if d == 1 {
        "1"@
    } else if d == 2 {
        "2"@
    } else if d == 3 {
        "3"@
    } else if d == 4 {
        "4"@
    } else if d == 5 {
        "5"@
    } else if d == 6 {
        "6"@
    } else if d == 7 {
        "7"@
    } else if d == 8 {
        "8"@
    } else {
        "9"@
    }
}

/// A number in decimal, without leading zeros.
pub open spec fn decimal(n: nat) -> Seq<char>
    decreases n,
{
    if n < 10 {
        digit(n as int)
    } else {
        decimal(n / 10) + digit((n % 10) as int)
    }
}

/// A number spelled in decimal.
pub fn spell(n: u128) -> (r: String)
    ensures
        r@ == decimal(n as nat),
    decreases n,
{
    let last = match n % 10 {
        0 => "0",
        1 => "1",
        2 => "2",
        3 => "3",
        4 => "4",
        5 => "5",
        6 => "6",
        7 => "7",
        8 => "8",
        _ => "9",
    };
    if n < 10 {
        last.to_owned()
    } else {
        let mut text = spell(n / 10);
        text.append(last);
        text
    }
}

/// A digit is one character, and different digits are different ones.
proof fn digits_differ(a: int, b: int)
    requires
        0 <= a < 10,
        0 <= b < 10,
    ensures
        digit(a).len() == 1,
        digit(a) == digit(b) ==> a == b,
{
    reveal_strlit("0");
    reveal_strlit("1");
    reveal_strlit("2");
    reveal_strlit("3");
    reveal_strlit("4");
    reveal_strlit("5");
    reveal_strlit("6");
    reveal_strlit("7");
    reveal_strlit("8");
    reveal_strlit("9");
    assert(digit(a)[0] == ('0' as int + a) as char);
    assert(digit(b)[0] == ('0' as int + b) as char);
}

/// Different numbers are spelled differently.
pub proof fn spellings_differ(a: nat, b: nat)
    ensures
        decimal(a).len() > 0,
        decimal(a) == decimal(b) ==> a == b,
    decreases a + b,
{
    digits_differ((a % 10) as int, (b % 10) as int);
    digits_differ((b % 10) as int, (a % 10) as int);
    if a >= 10 {
        spellings_differ(a / 10, if b >= 10 {
            b / 10
        } else {
            0
        });
    }
    if b >= 10 {
        spellings_differ(b / 10, if a >= 10 {
            a / 10
        } else {
            0
        });
    }
    if decimal(a) == decimal(b) {
        if a >= 10 && b >= 10 {
            assert(decimal(a).drop_last() =~= decimal(a / 10));
            assert(decimal(b).drop_last() =~= decimal(b / 10));
            assert(decimal(a).last() == digit((a % 10) as int)[0]);
            assert(decimal(b).last() == digit((b % 10) as int)[0]);
            assert(digit((a % 10) as int) =~= digit((b % 10) as int));
        }
    }
}

} // verus!
