//! Decimal numbers: written as text and read back.

use crate::text::chars_of;
use vstd::prelude::*;

verus! {

/// The decimal digit of a number below ten.
pub open spec fn digit(d: nat) -> char {
    (48 + d) as char
}

/// A natural number in decimal, without leading zeros.
pub open spec fn decimal(n: nat) -> Seq<char>
    decreases n,
{
    if n < 10 {
        seq![digit(n)]
    } else {
        decimal(n / 10).push(digit(n % 10))
    }
}

/// An integer in decimal, with a minus sign where it is negative.
pub open spec fn signed(n: int) -> Seq<char> {
    if n < 0 {
        seq!['-'] + decimal((-n) as nat)
    } else {
        decimal(n as nat)
    }
}

/// Being one of the ten decimal digits.
pub open spec fn is_digit(c: char) -> bool {
    48 <= c as u32 <= 57
}

/// Whether `s` is a run of one or more digits.
pub open spec fn is_number(s: Seq<char>) -> bool {
    s.len() > 0 && forall|i: int| 0 <= i < s.len() ==> is_digit(#[trigger] s[i])
}

/// The value of a run of digits.
pub open spec fn value(s: Seq<char>) -> nat
    decreases s.len(),
{
    if s.len() == 0 {
        0
    } else {
        value(s.drop_last()) * 10 + (s.last() as u32 - 48) as nat
    }
}

/// The value of a run of digits, where `s` is one.
pub open spec fn magnitude(s: Seq<char>) -> Option<nat> {
    if is_number(s) {
        Some(value(s))
    } else {
        None
    }
}

/// The integer in `lo..=hi` that `s` spells: digits behind an optional `+`, or
/// an optional `-` where negative numbers are in range.
pub open spec fn spelled(s: Seq<char>, lo: int, hi: int) -> Option<int> {
    let n: Option<int> = if s.len() > 0 && s[0] == '-' && lo < 0 {
        match magnitude(s.skip(1)) {
            Some(v) => Some(-(v as int)),
            None => None,
        }
    } else if s.len() > 0 && s[0] == '+' {
        match magnitude(s.skip(1)) {
            Some(v) => Some(v as int),
            None => None,
        }
    } else {
        match magnitude(s) {
            Some(v) => Some(v as int),
            None => None,
        }
    };
    match n {
        Some(v) => if lo <= v <= hi {
            Some(v)
        } else {
            None
        },
        None => None,
    }
}

/// The `i32` that `s` spells.
pub open spec fn spelled_i32(s: Seq<char>) -> Option<i32> {
    match spelled(s, i32::MIN as int, i32::MAX as int) {
        Some(v) => Some(v as i32),
        None => None,
    }
}

/// The `u8` that `s` spells.
pub open spec fn spelled_u8(s: Seq<char>) -> Option<u8> {
    match spelled(s, 0, 255) {
        Some(v) => Some(v as u8),
        None => None,
    }
}

/// The text of one decimal digit.
fn digit_text(d: u32) -> (r: &'static str)
    requires
        d < 10,
    ensures
        r@ == seq![digit(d as nat)],
{
    proof {
        reveal_strlit("0");
        reveal_strlit("1");
        reveal_strlit("2");
        reveal_strlit("3");
        reveal_strlit("4");
        reveal_strlit("5");
        reveal_strlit("6");
        reveal_strlit("7");
        reveal_strlit("8");
        reveal_strlit("9");
    }
    let r: &'static str = match d {
        0 => "0",
        1 => "1",
        2 => "2",
        3 => "3",
        4 => "4",
        5 => "5",
        6 => "6",
        7 => "7",
        8 => "8",
        _ => "9",
    };
    assert(r@ =~= seq![digit(d as nat)]);
    r
}

/// A natural number in decimal.
pub fn natural(n: u64) -> (r: String)
    ensures
        r@ == decimal(n as nat),
    decreases n,
{
    if n < 10 {
        digit_text(n as u32).to_owned()
    } else {
        let mut r: String = natural(n / 10);
        r.append(digit_text((n % 10) as u32));
        assert(r@ == decimal(n as nat));
        r
    }
}

/// An integer in decimal.
pub fn integer(n: i32) -> (r: String)
    ensures
        r@ == signed(n as int),
{
    if n < 0 {
        let m: u64 = (-(n as i64)) as u64;
        let mut r: String = "-".to_owned();
        r.append(natural(m).as_str());
        proof {
            reveal_strlit("-");
            assert("-"@ == seq!['-']);
        }
        r
    } else {
        natural(n as u64)
    }
}

/// The value of the digits of `cs` from `from` on, up to a bound that no caller
/// looks beyond.
fn read_digits(cs: &Vec<char>, from: usize) -> (r: Option<u64>)
    requires
        from <= cs@.len(),
    ensures
        r is Some == is_number(cs@.skip(from as int)),
        r is Some && value(cs@.skip(from as int)) <= 0xffff_ffff ==> r->0 == value(
            cs@.skip(from as int),
        ),
        r is Some && value(cs@.skip(from as int)) > 0xffff_ffff ==> r->0 > 0xffff_ffff,
{
    let ghost s = cs@.skip(from as int);
    if from == cs.len() {
        return None;
    }
    let mut acc: u64 = 0;
    let mut i: usize = from;
    while i < cs.len()
        invariant
            from <= i <= cs@.len(),
            from < cs@.len(),
            s == cs@.skip(from as int),
            forall|j: int| 0 <= j < i - from ==> is_digit(#[trigger] s[j]),
            acc <= 0xffff_ffff ==> acc == value(s.take(i - from)),
            acc > 0xffff_ffff ==> value(s.take(i - from)) > 0xffff_ffff,
            acc <= 0x1_0000_0000,
        decreases cs@.len() - i,
    {
        let c: u32 = cs[i] as u32;
        assert(s[i - from] == cs@[i as int]);
        if c < 48 || c > 57 {
            assert(!is_digit(s[i - from]));
            return None;
        }
        let ghost k = i - from;
        proof {
            assert(s.take(k + 1).drop_last() == s.take(k));
            assert(s.take(k + 1).last() == s[k]);
        }
        let next: u64 = acc * 10 + (c - 48) as u64;
        if acc > 0xffff_ffff || next > 0xffff_ffff {
            acc = 0x1_0000_0000;
        } else {
            acc = next;
        }
        i += 1;
    }
    assert(s.take(s.len() as int) == s);
    Some(acc)
}

/// The integer that `s` spells, if it fits `i32`.
pub fn parse_i32(s: &str) -> (r: Option<i32>)
    ensures
        r == spelled_i32(s@),
{
    let cs: Vec<char> = chars_of(s);
    assert(cs@.skip(0) == s@);
    if cs.len() > 0 && cs[0] == '-' {
        match read_digits(&cs, 1) {
            Some(v) => if v <= 0x8000_0000 {
                Some((-(v as i64)) as i32)
            } else {
                None
            },
            None => None,
        }
    } else {
        let from: usize = if cs.len() > 0 && cs[0] == '+' {
            1
        } else {
            0
        };
        match read_digits(&cs, from) {
            Some(v) => if v <= 0x7fff_ffff {
                Some(v as i32)
            } else {
                None
            },
            None => None,
        }
    }
}

/// The number that `s` spells, if it fits `u8`.
pub fn parse_u8(s: &str) -> (r: Option<u8>)
    ensures
        r == spelled_u8(s@),
{
    let cs: Vec<char> = chars_of(s);
    assert(cs@.skip(0) == s@);
    let from: usize = if cs.len() > 0 && cs[0] == '+' {
        1
    } else {
        0
    };
    match read_digits(&cs, from) {
        Some(v) => if v <= 255 {
            Some(v as u8)
        } else {
            None
        },
        None => None,
    }
}

/// Every natural number is written with digits, and reads back as itself.
pub proof fn lemma_decimal(n: nat)
    ensures
        is_number(decimal(n)),
        value(decimal(n)) == n,
    decreases n,
{
    if n < 10 {
        assert(decimal(n).drop_last() == Seq::<char>::empty());
        assert(value(Seq::<char>::empty()) == 0);
        assert(decimal(n).last() == digit(n));
    } else {
        lemma_decimal(n / 10);
        assert(decimal(n).drop_last() == decimal(n / 10));
        assert(decimal(n).last() == digit(n % 10));
    }
}

/// An integer that lies in a range reads back from its own text.
pub proof fn law_signed_reads_back(n: int, lo: int, hi: int)
    requires
        lo <= n <= hi,
    ensures
        spelled(signed(n), lo, hi) == Some(n),
{
    let m: nat = if n < 0 {
        (-n) as nat
    } else {
        n as nat
    };
    lemma_decimal(m);
    assert(is_digit(decimal(m)[0]));
    if n < 0 {
        assert(signed(n).skip(1) == decimal(m));
    }
}

// ---- what these operations are for ------------------------------------------
/// A number is written with its digits from the highest to the lowest: ten times
/// a number and a digit more is the number with that digit behind it.
pub proof fn law_digits(n: nat, d: int)
    requires
        0 <= d < 10,
    ensures
        decimal(d as nat) == seq!["0123456789"@[d]],
        n > 0 ==> decimal((10 * n + d) as nat) == decimal(n).push("0123456789"@[d]),
        n > 0 ==> signed(-(n as int)) == seq!['-'] + decimal(n),
        signed(n as int) == decimal(n),
{
    reveal_strlit("0123456789");
    assert(digit(d as nat) == "0123456789"@[d]);
    let m = (10 * n + d) as nat;
    assert(m / 10 == n && m % 10 == d);
    assert((-(-(n as int))) as nat == n);
}

/// So many noughts.
pub open spec fn noughts(n: nat) -> Seq<char> {
    Seq::new(n, |i: int| '0')
}

/// Noughts before a number do not count.
proof fn lemma_noughts(z: nat, s: Seq<char>)
    requires
        is_number(s),
    ensures
        is_number(noughts(z) + s),
        value(noughts(z) + s) == value(s),
    decreases s.len(),
{
    let u = noughts(z) + s;
    assert forall|i: int| 0 <= i < u.len() implies is_digit(#[trigger] u[i]) by {
        if i < z {
            assert(u[i] == '0');
        } else {
            assert(u[i] == s[i - z]);
        }
    }
    assert(u.last() == s.last());
    assert(u.drop_last() == noughts(z) + s.drop_last());
    if s.len() > 1 {
        assert forall|i: int| 0 <= i < s.drop_last().len() implies is_digit(
            #[trigger] s.drop_last()[i],
        ) by {
            assert(s.drop_last()[i] == s[i]);
        }
        lemma_noughts(z, s.drop_last());
    } else {
        assert(s.drop_last() == Seq::<char>::empty());
        assert(u.drop_last() == noughts(z));
        lemma_only_noughts(z);
        assert(value(Seq::<char>::empty()) == 0);
    }
}

proof fn lemma_only_noughts(z: nat)
    ensures
        value(noughts(z)) == 0,
    decreases z,
{
    if z > 0 {
        assert(noughts(z).drop_last() == noughts((z - 1) as nat));
        assert(noughts(z).last() == '0');
        lemma_only_noughts((z - 1) as nat);
    }
}

proof fn lemma_digit_again(c: char)
    requires
        is_digit(c),
    ensures
        digit((c as u32 - 48) as nat) == c,
{
}

/// A run of digits is noughts and then the number that it is worth.
proof fn lemma_digits_are_a_number(s: Seq<char>)
    requires
        is_number(s),
    ensures
        exists|z: nat| s == #[trigger] noughts(z) + decimal(value(s)),
    decreases s.len(),
{
    let p = s.drop_last();
    let c = s.last();
    let d = (c as u32 - 48) as nat;
    assert(is_digit(s[s.len() - 1]));
    lemma_digit_again(c);
    assert(s == p.push(c));
    if p.len() == 0 {
        assert(p == Seq::<char>::empty());
        assert(value(p) == 0);
        assert(s == noughts(0) + decimal(value(s)));
    } else {
        assert forall|i: int| 0 <= i < p.len() implies is_digit(#[trigger] p[i]) by {
            assert(p[i] == s[i]);
        }
        lemma_digits_are_a_number(p);
        let z = choose|z: nat| p == #[trigger] noughts(z) + decimal(value(p));
        let v = value(p);
        assert(value(s) == v * 10 + d);
        if v == 0 {
            assert(decimal(0) == seq!['0']);
            assert(p == noughts(z + 1));
            assert(s == noughts(z + 1) + decimal(value(s)));
        } else {
            assert(value(s) / 10 == v && value(s) % 10 == d);
            assert(decimal(value(s)) == decimal(v).push(c));
            assert(s == noughts(z) + decimal(value(s)));
        }
    }
}

/// A number in range is read whatever noughts stand before it, and with its sign;
/// a plus sign changes nothing, and a minus sign is read where numbers may be
/// negative.
pub proof fn law_numbers_are_read(n: nat, z: nat, lo: int, hi: int)
    requires
        lo <= 0,
    ensures
        n <= hi ==> spelled(noughts(z) + decimal(n), lo, hi) == Some(n as int),
        n <= hi ==> spelled(seq!['+'] + noughts(z) + decimal(n), lo, hi) == Some(n as int),
        lo < 0 && lo <= -(n as int) <= hi ==> spelled(seq!['-'] + noughts(z) + decimal(n), lo, hi)
            == Some(-(n as int)),
{
    lemma_decimal(n);
    lemma_noughts(z, decimal(n));
    let u = noughts(z) + decimal(n);
    assert(is_digit(u[0]));
    assert((seq!['+'] + noughts(z) + decimal(n)).skip(1) == u);
    assert((seq!['-'] + noughts(z) + decimal(n)).skip(1) == u);
}

/// Nothing else is read as a number: what is read lies in range, and the text is
/// the number itself, with a sign and noughts before it at most.
pub proof fn law_only_numbers_are_read(s: Seq<char>, lo: int, hi: int)
    requires
        spelled(s, lo, hi) is Some,
    ensures
        lo <= spelled(s, lo, hi)->0 <= hi,
        exists|z: nat|
            {
                let n = spelled(s, lo, hi)->0;
                let u = #[trigger] noughts(z);
                ||| n >= 0 && s == u + decimal(n as nat)
                ||| n >= 0 && s == seq!['+'] + u + decimal(n as nat)
                ||| n <= 0 && lo < 0 && s == seq!['-'] + u + decimal((-n) as nat)
            },
{
    let n = spelled(s, lo, hi)->0;
    if s.len() > 0 && s[0] == '-' && lo < 0 {
        lemma_digits_are_a_number(s.skip(1));
        let z = choose|z: nat| s.skip(1) == #[trigger] noughts(z) + decimal(value(s.skip(1)));
        assert(s == seq!['-'] + s.skip(1));
        assert(seq!['-'] + (noughts(z) + decimal((-n) as nat)) == seq!['-'] + noughts(z) + decimal((-n) as nat));
    } else if s.len() > 0 && s[0] == '+' {
        lemma_digits_are_a_number(s.skip(1));
        let z = choose|z: nat| s.skip(1) == #[trigger] noughts(z) + decimal(value(s.skip(1)));
        assert(s == seq!['+'] + s.skip(1));
        assert(seq!['+'] + (noughts(z) + decimal(n as nat)) == seq!['+'] + noughts(z) + decimal(n as nat));
    } else {
        lemma_digits_are_a_number(s);
        let z = choose|z: nat| s == #[trigger] noughts(z) + decimal(value(s));
        assert(s == noughts(z) + decimal(n as nat));
    }
}

/// The numbers of `i32` and `u8` are the integers of their ranges.
pub proof fn law_ranges(s: Seq<char>)
    ensures
        spelled_i32(s) is Some <==> spelled(s, -0x8000_0000, 0x7fff_ffff) is Some,
        spelled_i32(s) is Some ==> spelled_i32(s)->0 == spelled(
            s,
            -0x8000_0000,
            0x7fff_ffff,
        )->0,
        spelled_u8(s) is Some <==> spelled(s, 0, 0xff) is Some,
        spelled_u8(s) is Some ==> spelled_u8(s)->0 == spelled(s, 0, 0xff)->0,
{
}

/// The texts of the small numbers that commands are run with.
pub proof fn lemma_small_numbers()
    ensures
        decimal(3) == "3"@,
        decimal(4) == "4"@,
        decimal(5) == "5"@,
        decimal(6) == "6"@,
        decimal(8) == "8"@,
        decimal(10) == "10"@,
        decimal(12) == "12"@,
{
    reveal_strlit("3");
    reveal_strlit("4");
    reveal_strlit("5");
    reveal_strlit("6");
    reveal_strlit("8");
    reveal_strlit("10");
    reveal_strlit("12");
    reveal_with_fuel(decimal, 2);
    assert(decimal(3) == "3"@);
    assert(decimal(4) == "4"@);
    assert(decimal(5) == "5"@);
    assert(decimal(6) == "6"@);
    assert(decimal(8) == "8"@);
    assert(decimal(10) == "10"@);
    assert(decimal(12) == "12"@);
}

} // verus!
