//! Session identifiers. An identifier couples a randomly drawn UUID with a
//! serial number that the manager increments on every creation; the serial
//! suffix is what makes identifiers provably unique even if the random part
//! ever collided.

use vstd::prelude::*;
use vstd::string::StringExecFns;

verus! {

/// The character for a single decimal digit.
pub open spec fn digit_char(d: nat) -> char
    recommends
        d < 10,
{
    if d == 0 {
        '0'
    } else if d == 1 {
        '1'
    } else if d == 2 {
        '2'
    } else if d == 3 {
        '3'
    } else if d == 4 {
        '4'
    } else if d == 5 {
        '5'
    } else if d == 6 {
        '6'
    } else if d == 7 {
        '7'
    } else if d == 8 {
        '8'
    } else {
        '9'
    }
}

/// The decimal rendering of a natural number, most significant digit first,
/// without leading zeros (`0` renders as `"0"`).
pub open spec fn dec_digits(n: nat) -> Seq<char>
    decreases n,
{
    if n < 10 {
        seq![digit_char(n)]
    } else {
        dec_digits(n / 10).push(digit_char(n % 10))
    }
}

pub proof fn lemma_dec_digits_len_pos(n: nat)
    ensures
        dec_digits(n).len() >= 1,
    decreases n,
{
    if n >= 10 {
        lemma_dec_digits_len_pos(n / 10);
    }
}

proof fn lemma_digit_char_injective(a: nat, b: nat)
    requires
        a < 10,
        b < 10,
        digit_char(a) == digit_char(b),
    ensures
        a == b,
{
}

/// Distinct numbers render as distinct digit strings.
pub proof fn lemma_dec_digits_injective(a: nat, b: nat)
    requires
        dec_digits(a) == dec_digits(b),
    ensures
        a == b,
    decreases a + b,
{
    if a < 10 && b < 10 {
        assert(dec_digits(a) == seq![digit_char(a)]);
        assert(dec_digits(b) == seq![digit_char(b)]);
        assert(seq![digit_char(a)][0] == digit_char(a));
        assert(seq![digit_char(b)][0] == digit_char(b));
        lemma_digit_char_injective(a, b);
    } else if a < 10 && b >= 10 {
        assert(dec_digits(a) == seq![digit_char(a)]);
        assert(dec_digits(b) == dec_digits(b / 10).push(digit_char(b % 10)));
        lemma_dec_digits_len_pos(b / 10);
        assert(dec_digits(b).len() >= 2);
        assert(false);
    } else if a >= 10 && b < 10 {
        assert(dec_digits(b) == seq![digit_char(b)]);
        assert(dec_digits(a) == dec_digits(a / 10).push(digit_char(a % 10)));
        lemma_dec_digits_len_pos(a / 10);
        assert(dec_digits(a).len() >= 2);
        assert(false);
    } else {
        assert(dec_digits(a) == dec_digits(a / 10).push(digit_char(a % 10)));
        assert(dec_digits(b) == dec_digits(b / 10).push(digit_char(b % 10)));
        let la = dec_digits(a).len();
        assert(dec_digits(a)[la - 1] == digit_char(a % 10));
        assert(dec_digits(b)[la - 1] == digit_char(b % 10));
        lemma_digit_char_injective(a % 10, b % 10);
        assert(dec_digits(a / 10).len() == la - 1);
        assert(dec_digits(b / 10).len() == la - 1);
        assert forall|i: int| 0 <= i < la - 1 implies #[trigger] dec_digits(a / 10)[i]
            == dec_digits(b / 10)[i] by {
            assert(dec_digits(a)[i] == dec_digits(a / 10).push(digit_char(a % 10))[i]);
            assert(dec_digits(b)[i] == dec_digits(b / 10).push(digit_char(b % 10))[i]);
        }
        assert(dec_digits(a / 10) =~= dec_digits(b / 10));
        lemma_dec_digits_injective(a / 10, b / 10);
        assert(a == (a / 10) * 10 + a % 10);
        assert(b == (b / 10) * 10 + b % 10);
    }
}

/// The string form of a single decimal digit.
fn digit_str(d: u64) -> (r: &'static str)
    requires
        d < 10,
    ensures
        r@ == seq![digit_char(d as nat)],
{
    proof {
        reveal_strlit("0");
        reveal_strlit("1");
        reveal_strlit("2");
        reveal_strlit("3");
        reveal_strlit("4");
        reveal_strlit("5");
        reveal_strlit("6");
        reveal_strlit("7");
        reveal_strlit("8");
        reveal_strlit("9");
    }
    let r: &'static str = match d {
        0 => "0",
        1 => "1",
        2 => "2",
        3 => "3",
        4 => "4",
        5 => "5",
        6 => "6",
        7 => "7",
        8 => "8",
        _ => "9",
    };
    proof {
        assert(r@ =~= seq![digit_char(d as nat)]);
    }
    r
}

/// Renders a number in decimal, matching `dec_digits`.
pub fn u64_to_dec(n: u64) -> (r: String)
    ensures
        r@ == dec_digits(n as nat),
    decreases n,
{
    if n < 10 {
        digit_str(n).to_owned()
    } else {
        let mut s = u64_to_dec(n / 10);
        s.append(digit_str(n % 10));
        proof {
            assert(s@ =~= dec_digits(n as nat));
        }
        s
    }
}

/// The shape every identifier has: a 36-character random part, a separator,
/// and the decimal rendering of the serial under which it was issued.
pub open spec fn id_shape(id: Seq<char>, serial: nat) -> bool {
    &&& id.len() == 37 + dec_digits(serial).len()
    &&& id.subrange(37, id.len() as int) == dec_digits(serial)
}

/// Two identifiers of this shape can only be equal when they were issued
/// under the same serial.
pub proof fn lemma_id_shape_injective(id1: Seq<char>, s1: nat, id2: Seq<char>, s2: nat)
    requires
        id_shape(id1, s1),
        id_shape(id2, s2),
        id1 == id2,
    ensures
        s1 == s2,
{
    assert(dec_digits(s1) == dec_digits(s2));
    lemma_dec_digits_injective(s1, s2);
}

/// Relies on `uuid::Uuid::new_v4` and the `Display` rendering of a `Uuid`,
/// which is the lower-case hyphenated form: whatever identifier is drawn, it
/// renders as exactly 36 characters.
#[verifier::external_body]
fn random_uuid_string() -> (r: String)
    ensures
        r@.len() == 36,
{
    uuid::Uuid::new_v4().to_string()
}

/// A fresh identifier for the given serial: UUID, separator, serial.
pub fn make_session_id(serial: u64) -> (r: String)
    ensures
        id_shape(r@, serial as nat),
        r@.len() > 36,
{
    proof {
        reveal_strlit("-");
    }
    let mut id = random_uuid_string();
    id.append("-");
    let tail = u64_to_dec(serial);
    id.append(tail.as_str());
    proof {
        lemma_dec_digits_len_pos(serial as nat);
        assert(id@.subrange(37, id@.len() as int) =~= dec_digits(serial as nat));
    }
    id
}

} // verus!
