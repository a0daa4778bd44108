//! Decimal rendering of integers, as `format!("{:0w$}", v)` renders them.
use vstd::prelude::*;

verus! {

/// Quotient of `a` by `b`, rounded toward zero (Rust's `/` on integers).
pub open spec fn quot(a: int, b: int) -> int {
    if a >= 0 {
        a / b
    } else {
        -((-a) / b)
    }
}

/// Remainder of `a` by `b` with the sign of `a` (Rust's `%` on integers).
pub open spec fn rem(a: int, b: int) -> int {
    a - b * quot(a, b)
}

pub open spec fn digit_char(d: nat) -> char {
    if d == 0 {
        '0'
    } else if d == 1 {
        '1'
    } else if d == 2 {
        '2'
    } else if d == 3 {
        '3'
    } else if d == 4 {
        '4'
    } else if d == 5 {
        '5'
    } else if d == 6 {
        '6'
    } else if d == 7 {
        '7'
    } else if d == 8 {
        '8'
    } else {
        '9'
    }
}

/// The decimal digits of `n`, most significant first, without leading zeros.
pub open spec fn digits(n: nat) -> Seq<char>
    decreases n,
{
    if n < 10 {
        seq![digit_char(n)]
    } else {
        digits(n / 10) + seq![digit_char(n % 10)]
    }
}

pub open spec fn zeros(k: int) -> Seq<char> {
    Seq::new(if k > 0 { k as nat } else { 0 }, |i: int| '0')
}

/// `v` in decimal, zero-padded to at least `width` characters; a minus sign
/// comes first and counts toward the width.
pub open spec fn padded(v: int, width: nat) -> Seq<char> {
    if v >= 0 {
        zeros(width - digits(v as nat).len()) + digits(v as nat)
    } else {
        seq!['-'] + zeros(width - 1 - digits((-v) as nat).len()) + digits((-v) as nat)
    }
}

/// Relies on `String::push`: appends one character.
#[verifier::external_body]
pub(crate) fn push_char(s: &mut String, c: char)
    ensures
        final(s)@ == old(s)@.push(c),
{
    s.push(c);
}

fn digit(d: u64) -> (c: char)
    requires
        d < 10,
    ensures
        c == digit_char(d as nat),
{
    match d {
        0 => '0',
        1 => '1',
        2 => '2',
        3 => '3',
        4 => '4',
        5 => '5',
        6 => '6',
        7 => '7',
        8 => '8',
        _ => '9',
    }
}

pub(crate) fn push_digits(s: &mut String, n: u64)
    ensures
        final(s)@ == old(s)@ + digits(n as nat),
    decreases n,
{
    if n >= 10 {
        push_digits(s, n / 10);
    }
    push_char(s, digit(n % 10));
}

fn digit_count(n: u64) -> (r: usize)
    ensures
        r == digits(n as nat).len(),
    decreases n,
{
    if n < 10 {
        1
    } else {
        let k = digit_count(n / 10);
        proof {
            lemma_digits_len_bound(n as nat);
        }
        k + 1
    }
}

spec fn ten_pow(k: nat) -> nat
    decreases k,
{
    if k == 0 {
        1
    } else {
        10 * ten_pow((k - 1) as nat)
    }
}

proof fn lemma_digits_len_below(n: nat, k: nat)
    requires
        n < ten_pow(k),
        k >= 1,
    ensures
        digits(n).len() <= k,
    decreases n,
{
    if n >= 10 {
        assert(k >= 2) by {
            if k == 1 {
                reveal_with_fuel(ten_pow, 2);
            }
        }
        assert(n / 10 < ten_pow((k - 1) as nat)) by {
            assert(ten_pow(k) == 10 * ten_pow((k - 1) as nat));
        }
        lemma_digits_len_below(n / 10, (k - 1) as nat);
    }
}

proof fn lemma_digits_len_bound(n: nat)
    requires
        n <= u64::MAX,
    ensures
        digits(n).len() <= 20,
{
    reveal_with_fuel(ten_pow, 21);
    assert(ten_pow(20) == 100_000_000_000_000_000_000);
    lemma_digits_len_below(n, 20);
}

fn push_zeros(s: &mut String, k: usize)
    ensures
        final(s)@ == old(s)@ + zeros(k as int),
{
    let ghost start = s@;
    let mut i: usize = 0;
    while i < k
        invariant
            i <= k,
            s@ == start + zeros(i as int),
        decreases k - i,
    {
        push_char(s, '0');
        i = i + 1;
        assert(s@ =~= start + zeros(i as int));
    }
}

/// Appends `v` in decimal, zero-padded to `width` characters.
pub(crate) fn push_padded(s: &mut String, v: i64, width: usize)
    ensures
        final(s)@ == old(s)@ + padded(v as int, width as nat),
{
    let ghost start = s@;
    if v >= 0 {
        let n = v as u64;
        let len = digit_count(n);
        let pad: usize = if width > len { width - len } else { 0 };
        push_zeros(s, pad);
        push_digits(s, n);
        assert(zeros(pad as int) =~= zeros(width - digits(n as nat).len()));
        assert(s@ =~= start + padded(v as int, width as nat));
    } else {
        let n: u64 = (-(v + 1)) as u64 + 1;
        let len = digit_count(n);
        let pad: usize = if width > len && width - len > 1 { width - len - 1 } else { 0 };
        push_char(s, '-');
        push_zeros(s, pad);
        push_digits(s, n);
        assert(zeros(pad as int) =~= zeros(width - 1 - digits(n as nat).len()));
        assert(s@ =~= start + padded(v as int, width as nat));
    }
}

} // verus!
