//! Decimal rendering and small string-building helpers used to assemble the
//! canonical hash preimages and display strings of the ledger core.

use vstd::prelude::*;

verus! {

/// The ten decimal digit characters, in value order.
pub const DEC_DIGITS: [char; 10] = ['0', '1', '2', '3', '4', '5', '6', '7', '8', '9'];

/// Decimal rendering of `n`, most significant digit first, exactly as the
/// standard formatter writes a `u64`.
pub open spec fn spec_dec_u64(n: nat) -> Seq<char>
    decreases n,
{
    if n < 10 {
        seq![DEC_DIGITS@[n as int]]
    } else {
        spec_dec_u64(n / 10).push(DEC_DIGITS@[(n % 10) as int])
    }
}

/// Powers of ten.
pub open spec fn pow10(k: nat) -> nat
    decreases k,
{
    if k == 0 {
        1
    } else {
        10 * pow10((k - 1) as nat)
    }
}

/// A number below the `k`-th power of ten renders in at most `k` digits.
pub(crate) proof fn lemma_dec_len_bound(n: nat, k: nat)
    requires
        k >= 1,
        n < pow10(k),
    ensures
        spec_dec_u64(n).len() <= k,
    decreases k,
{
    if n < 10 {
    } else {
        assert(pow10(k) == 10 * pow10((k - 1) as nat));
        if k == 1 {
            assert(pow10(1nat) == 10);
        }
        vstd::arithmetic::div_mod::lemma_multiply_divide_lt(
            n as int,
            10,
            pow10((k - 1) as nat) as int,
        );
        lemma_dec_len_bound(n / 10, (k - 1) as nat);
    }
}

/// `n` copies of the zero digit.
pub open spec fn spec_zeros(n: nat) -> Seq<char> {
    Seq::new(n, |i: int| '0')
}

/// Relies on std's `String::push`: appends exactly the one character.
#[verifier::external_body]
pub(crate) fn string_push(s: &mut String, c: char)
    ensures
        final(s)@ == old(s)@.push(c),
{
    s.push(c);
}

/// Writes the decimal digits of `n` into `digits`, most significant first.
pub(crate) fn push_dec_chars(digits: &mut Vec<char>, n: u64)
    ensures
        final(digits)@ == old(digits)@ + spec_dec_u64(n as nat),
    decreases n,
{
    if n >= 10 {
        push_dec_chars(digits, n / 10);
    }
    let d = (n % 10) as usize;
    digits.push(DEC_DIGITS[d]);
    proof {
        assert(final(digits)@ =~= old(digits)@ + spec_dec_u64(n as nat));
    }
}

/// Appends the decimal rendering of `n` to `s`.
pub(crate) fn push_dec_u64(s: &mut String, n: u64)
    ensures
        final(s)@ == old(s)@ + spec_dec_u64(n as nat),
{
    let mut digits: Vec<char> = Vec::new();
    push_dec_chars(&mut digits, n);
    push_chars(s, &digits);
    proof {
        assert(final(s)@ =~= old(s)@ + spec_dec_u64(n as nat));
    }
}

/// Appends every character of `digits` to `s`, in order.
pub(crate) fn push_chars(s: &mut String, digits: &Vec<char>)
    ensures
        final(s)@ == old(s)@ + digits@,
{
    let n = digits.len();
    let mut i: usize = 0;
    while i < n
        invariant
            n == digits@.len(),
            i <= n,
            s@ == old(s)@ + digits@.take(i as int),
        decreases n - i,
    {
        string_push(s, digits[i]);
        i = i + 1;
        proof {
            assert(s@ =~= old(s)@ + digits@.take(i as int));
        }
    }
    proof {
        assert(digits@.take(n as int) =~= digits@);
    }
}

/// The decimal rendering of `n` as an owned string.
pub(crate) fn u64_to_dec(n: u64) -> (r: String)
    ensures
        r@ == spec_dec_u64(n as nat),
{
    let mut s = String::new();
    push_dec_u64(&mut s, n);
    proof {
        assert(s@ =~= spec_dec_u64(n as nat));
    }
    s
}

/// A string of `n` zero digits.
pub(crate) fn zeros(n: usize) -> (r: String)
    ensures
        r@ == spec_zeros(n as nat),
{
    let mut s = String::new();
    let mut i: usize = 0;
    while i < n
        invariant
            i <= n,
            s@.len() == i,
            forall|k: int| 0 <= k < i ==> s@[k] == '0',
        decreases n - i,
    {
        string_push(&mut s, '0');
        i = i + 1;
    }
    proof {
        assert(s@ =~= spec_zeros(n as nat));
    }
    s
}

} // verus!
