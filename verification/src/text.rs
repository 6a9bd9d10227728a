//! Text in messages: ASCII literals and decimal numbers.

use vstd::prelude::*;

verus! {

/// The bytes of an ASCII text.
pub open spec fn ascii(s: Seq<char>) -> Seq<u8> {
    Seq::new(s.len(), |i: int| s[i] as u8)
}

/// The bytes of an ASCII text.
pub fn bytes(s: &'static str) -> (b: &'static [u8])
    requires
        vstd::string::is_ascii(s),
    ensures
        b@ == ascii(s@),
{
    proof {
        vstd::string::is_ascii_spec_bytes(s);
    }
    s.as_bytes()
}

/// Whether two byte strings are equal.
pub fn same(a: &[u8], b: &[u8]) -> (r: bool)
    ensures
        r == (a@ == b@),
{
    if a.len() != b.len() {
        return false;
    }
    let mut i: usize = 0;
    while i < a.len()
        invariant
            i <= a@.len() == b@.len(),
            a@.take(i as int) == b@.take(i as int),
        decreases a@.len() - i,
    {
        if a[i] != b[i] {
            return false;
        }
        i += 1;
        assert(a@.take(i as int) =~= a@.take(i - 1).push(a@[i - 1]));
        assert(b@.take(i as int) =~= b@.take(i - 1).push(b@[i - 1]));
    }
    assert(a@.take(i as int) =~= a@);
    assert(b@.take(i as int) =~= b@);
    true
}

/// The ASCII digit of `d`.
pub open spec fn digit(d: nat) -> u8 {
    (48 + d) as u8
}

/// `n` in decimal, without leading zeros.
pub open spec fn decimal(n: nat) -> Seq<u8>
    decreases n,
{
    if n < 10 {
        seq![digit(n)]
    } else {
        decimal(n / 10).push(digit(n % 10))
    }
}

/// The number that a string of ASCII digits stands for.
pub open spec fn value(s: Seq<u8>) -> int
    decreases s.len(),
{
    if s.len() == 0 {
        0
    } else {
        value(s.drop_last()) * 10 + (s.last() - 48)
    }
}

/// `n` in decimal, zero-padded to at least four digits.
pub open spec fn decimal4(n: nat) -> Seq<u8> {
    let d = decimal(n);
    if d.len() < 4 {
        Seq::new((4 - d.len()) as nat, |i: int| 48u8) + d
    } else {
        d
    }
}

/// **Numbers in messages can be read back.** The decimal form of a number stands
/// for that number, so different numbers have different forms.
pub proof fn law_decimal_reads_back(n: nat)
    ensures
        value(decimal(n)) == n,
    decreases n,
{
    if n < 10 {
        assert(decimal(n).drop_last() =~= Seq::<u8>::empty());
        assert(value(decimal(n).drop_last()) == 0);
    } else {
        law_decimal_reads_back(n / 10);
        assert(decimal(n).drop_last() =~= decimal(n / 10));
    }
}

/// **Padding keeps the number.** The zero-padded form has at least four digits
/// and stands for the same number.
pub proof fn law_decimal4_reads_back(n: nat)
    ensures
        value(decimal4(n)) == n,
        decimal4(n).len() >= 4,
{
    law_decimal_reads_back(n);
    let d = decimal(n);
    if d.len() < 4 {
        lemma_leading_zeros((4 - d.len()) as nat, d);
    }
}

proof fn lemma_leading_zeros(z: nat, d: Seq<u8>)
    ensures
        value(Seq::new(z, |i: int| 48u8) + d) == value(d),
    decreases d.len(), z,
{
    let zeros = Seq::new(z, |i: int| 48u8);
    if d.len() == 0 {
        assert(zeros + d =~= zeros);
        if z > 0 {
            let fewer = Seq::new((z - 1) as nat, |i: int| 48u8);
            lemma_leading_zeros((z - 1) as nat, d);
            assert(fewer + d =~= fewer);
            assert(zeros.drop_last() =~= fewer);
        }
    } else {
        assert((zeros + d).drop_last() =~= zeros + d.drop_last());
        lemma_leading_zeros(z, d.drop_last());
    }
}

/// A 32-bit number has at most ten digits.
pub proof fn lemma_decimal_len(n: nat)
    requires
        n <= u32::MAX,
    ensures
        1 <= decimal(n).len() <= 10,
        4 <= decimal4(n).len() <= 10,
{
    reveal_with_fuel(decimal, 11);
}

/// Ten to the `k`.
pub open spec fn pow10(k: nat) -> nat
    decreases k,
{
    if k == 0 {
        1
    } else {
        10 * pow10((k - 1) as nat)
    }
}

/// The last `w` digits of `n`, with leading zeros.
pub open spec fn last_digits(n: nat, w: nat) -> Seq<u8>
    decreases w,
{
    if w == 0 {
        Seq::empty()
    } else {
        last_digits(n / 10, (w - 1) as nat).push(digit(n % 10))
    }
}

proof fn lemma_decimal_len_monotone(a: nat, b: nat)
    requires
        a <= b,
    ensures
        decimal(a).len() <= decimal(b).len(),
    decreases b,
{
    if a >= 10 {
        lemma_decimal_len_monotone(a / 10, b / 10);
    }
}

/// A number below `10^w`, written with `w` digits, is its decimal form behind
/// zeros.
proof fn lemma_last_digits(n: nat, w: nat)
    requires
        n < pow10(w),
        w > 0,
    ensures
        decimal(n).len() <= w,
        last_digits(n, w) == Seq::new((w - decimal(n).len()) as nat, |i: int| 48u8) + decimal(n),
    decreases w,
{
    if w == 1 {
        assert(pow10(1) == 10) by {
            reveal_with_fuel(pow10, 2);
        }
        assert(last_digits(n / 10, 0) =~= Seq::<u8>::empty());
        assert(last_digits(n, 1) =~= Seq::new(0, |i: int| 48u8) + decimal(n));
    } else {
        lemma_last_digits(n / 10, (w - 1) as nat);
        let zeros = Seq::new((w - decimal(n).len()) as nat, |i: int| 48u8);
        if n < 10 {
            assert(n / 10 == 0);
            assert(decimal(0) =~= seq![48u8]);
            assert(last_digits(n, w) =~= zeros + decimal(n));
        } else {
            assert(last_digits(n, w) =~= zeros + decimal(n));
        }
    }
}

/// A number of at least `10^k` has more than `k` digits.
proof fn lemma_decimal_len_lower(n: nat, k: nat)
    requires
        pow10(k) <= n,
    ensures
        decimal(n).len() > k,
    decreases k,
{
    if k > 0 {
        assert(pow10((k - 1) as nat) >= 1) by {
            lemma_pow10_positive((k - 1) as nat);
        }
        lemma_decimal_len_lower(n / 10, (k - 1) as nat);
    }
}

proof fn lemma_pow10_positive(k: nat)
    ensures
        pow10(k) >= 1,
    decreases k,
{
    if k > 0 {
        lemma_pow10_positive((k - 1) as nat);
    }
}

proof fn lemma_quotients(n: nat, div: nat)
    requires
        div > 0,
    ensures
        n / div / 10 == n / (10 * div),
{
    vstd::arithmetic::div_mod::lemma_div_denominator(n as int, div as int, 10);
    assert(div * 10 == 10 * div);
}

/// Copy `prefix` to the front of `buf`.
fn put_prefix(buf: &mut [u8], prefix: &[u8]) -> (len: usize)
    requires
        prefix@.len() <= old(buf)@.len(),
    ensures
        len == prefix@.len(),
        final(buf)@ == prefix@ + old(buf)@.skip(prefix@.len() as int),
{
    let mut len: usize = 0;
    while len < prefix.len()
        invariant
            len <= prefix@.len() <= old(buf)@.len(),
            buf@ == prefix@.take(len as int) + old(buf)@.skip(len as int),
        decreases prefix@.len() - len,
    {
        buf[len] = prefix[len];
        len += 1;
    }
    assert(prefix@.take(len as int) =~= prefix@);
    len
}

/// Write `prefix` + decimal `n` (no leading zeros) into `buf`. Returns the number
/// of bytes written, which `buf` must fit.
pub fn tag(buf: &mut [u8], prefix: &[u8], n: u32) -> (len: usize)
    requires
        prefix@.len() + decimal(n as nat).len() <= old(buf)@.len(),
    ensures
        len == prefix@.len() + decimal(n as nat).len(),
        final(buf)@ == prefix@ + decimal(n as nat) + old(buf)@.skip(len as int),
{
    let mut len: usize = put_prefix(buf, prefix);
    let mut div: u32 = 1_000_000_000;
    let mut started = false;
    let ghost mut top: nat = 0;
    let ghost mut k: nat = 9;
    proof {
        assert(pow10(9) == 1_000_000_000) by {
            reveal_with_fuel(pow10, 10);
        }
        assert(n as nat / 10_000_000_000nat == 0);
        assert(prefix@ + Seq::<u8>::empty() + old(buf)@.skip(len as int) =~= buf@);
    }
    while div > 0
        invariant
            div > 0 ==> div == pow10(k) && k <= 9 && top == n as nat / (10 * div) as nat,
            div == 0 ==> top == n && started,
            !started ==> top == 0 && len == prefix@.len() && buf@ == prefix@ + Seq::<u8>::empty()
                + old(buf)@.skip(len as int),
            started ==> len == prefix@.len() + decimal(top).len() && buf@ == prefix@ + decimal(top)
                + old(buf)@.skip(len as int),
            started && div > 0 ==> top > 0,
            top <= n,
            buf@.len() == old(buf)@.len(),
            prefix@.len() + decimal(n as nat).len() <= old(buf)@.len(),
        decreases div,
    {
        let d: u32 = (n / div) % 10;
        let ghost q = (n / div) as nat;
        proof {
            lemma_quotients(n as nat, div as nat);
            assert(q == n as nat / div as nat);
            assert(q / 10 == top);
            assert(q <= n) by (nonlinear_arith)
                requires
                    q == n as nat / div as nat,
                    div > 0,
            ;
            lemma_decimal_len_monotone(q, n as nat);
        }
        if d != 0 || started || div == 1 {
            proof {
                if started {
                    assert(decimal(q) == decimal(top).push(digit(d as nat)));
                } else {
                    assert(q == d);
                    assert(decimal(q) =~= Seq::<u8>::empty().push(digit(d as nat)));
                }
            }
            buf[len] = 48 + d as u8;
            len += 1;
            started = true;
            assert(buf@ =~= prefix@ + decimal(q) + old(buf)@.skip(len as int));
        }
        proof {
            top = q;
            if k > 0 {
                k = (k - 1) as nat;
                lemma_pow10_positive(k);
                assert(div == 10 * pow10(k));
            } else {
                assert(q == n) by (nonlinear_arith)
                    requires
                        q == n as nat / div as nat,
                        div == 1,
                ;
            }
        }
        div = div / 10;
    }
    len
}

/// Write `prefix` + `n` in decimal, zero-padded to *at least* 4 digits, into
/// `buf`. Returns the number of bytes written, which `buf` must fit.
pub fn tag4(buf: &mut [u8], prefix: &[u8], n: u32) -> (len: usize)
    requires
        prefix@.len() + decimal4(n as nat).len() <= old(buf)@.len(),
    ensures
        len == prefix@.len() + decimal4(n as nat).len(),
        final(buf)@ == prefix@ + decimal4(n as nat) + old(buf)@.skip(len as int),
{
    let mut len: usize = put_prefix(buf, prefix);
    let mut div: u32 = 1000;
    let ghost mut k: nat = 3;
    proof {
        assert(pow10(3) == 1000) by {
            reveal_with_fuel(pow10, 4);
        }
    }
    while div <= n / 10
        invariant
            div == pow10(k),
            k >= 3,
            div >= 1000,
            k == 3 || div <= n,
        decreases n - div,
    {
        div = div * 10;
        proof {
            k = k + 1;
        }
    }
    let ghost w = k + 1;
    proof {
        lemma_last_digits(n as nat, w);
        if k > 3 {
            lemma_decimal_len_lower(n as nat, k);
        }
        assert(last_digits(n as nat, w) =~= decimal4(n as nat));
        vstd::arithmetic::div_mod::lemma_basic_div(n as int, 10 * div);
        assert(prefix@ + last_digits(0, 0) + old(buf)@.skip(len as int) =~= buf@);
    }
    while div > 0
        invariant
            div > 0 ==> div == pow10(k) && k < w && len == prefix@.len() + w - k - 1 && buf@
                == prefix@ + last_digits(n as nat / (10 * div) as nat, (w - k - 1) as nat) + old(
                buf,
            )@.skip(len as int),
            div == 0 ==> len == prefix@.len() + w && buf@ == prefix@ + last_digits(n as nat, w)
                + old(buf)@.skip(len as int),
            buf@.len() == old(buf)@.len(),
            prefix@.len() + w <= old(buf)@.len(),
        decreases div,
    {
        let ghost q = (n / div) as nat;
        let ghost before = last_digits(n as nat / (10 * div) as nat, (w - k - 1) as nat);
        proof {
            lemma_quotients(n as nat, div as nat);
            assert(q == n as nat / div as nat);
            assert(last_digits(q, (w - k) as nat) == before.push(digit(q % 10)));
        }
        buf[len] = 48 + ((n / div) % 10) as u8;
        len += 1;
        assert(buf@ =~= prefix@ + last_digits(q, (w - k) as nat) + old(buf)@.skip(len as int));
        proof {
            if k > 0 {
                k = (k - 1) as nat;
                lemma_pow10_positive(k);
                assert(div == 10 * pow10(k));
            } else {
                assert(q == n) by (nonlinear_arith)
                    requires
                        q == n as nat / div as nat,
                        div == 1,
                ;
            }
        }
        div = div / 10;
    }
    len
}

/// The digit of `n` in its `10^e` place.
pub open spec fn place(n: nat, e: int) -> int {
    n as int / vstd::arithmetic::power::pow(10, e as nat) % 10
}

proof fn lemma_place(n: nat, e: int)
    requires
        e >= 0,
    ensures
        place(n, 0) == n % 10,
        place(n, e + 1) == place(n / 10, e),
{
    reveal(vstd::arithmetic::power::pow);
    let p = vstd::arithmetic::power::pow(10, e as nat);
    assert(vstd::arithmetic::power::pow(10, 0) == 1);
    assert(vstd::arithmetic::power::pow(10, (e + 1) as nat) == 10 * p);
    vstd::arithmetic::power::lemma_pow_positive(10, e as nat);
    vstd::arithmetic::div_mod::lemma_div_denominator(n as int, 10, p);
}

/// **Each byte of a decimal form is the digit of its place.** There are as many
/// bytes as the number has digits: the first is no zero, unless it is the only
/// one.
pub proof fn law_decimal_digits(n: nat)
    ensures
        decimal(n).len() >= 1,
        forall|i: int|
            0 <= i < decimal(n).len() ==> #[trigger] decimal(n)[i] == 48 + place(
                n,
                decimal(n).len() - 1 - i,
            ),
        n < vstd::arithmetic::power::pow(10, decimal(n).len()),
        decimal(n).len() > 1 ==> decimal(n)[0] != 48,
    decreases n,
{
    let d = decimal(n);
    lemma_place(n, 0);
    if n < 10 {
        vstd::arithmetic::power::lemma_pow1(10);
    } else {
        let f = decimal(n / 10);
        law_decimal_digits(n / 10);
        assert(vstd::arithmetic::power::pow(10, d.len()) == 10 * vstd::arithmetic::power::pow(
            10,
            f.len(),
        )) by {
            reveal(vstd::arithmetic::power::pow);
        }
        assert forall|i: int| 0 <= i < d.len() implies #[trigger] d[i] == 48 + place(
            n,
            d.len() - 1 - i,
        ) by {
            if i < f.len() {
                lemma_place(n, f.len() - 1 - i);
                assert(d[i] == f[i]);
            }
        }
        assert(d[0] == f[0]);
        if f.len() == 1 {
            lemma_place(n / 10, 0);
            vstd::arithmetic::power::lemma_pow1(10);
        }
    }
}

/// **The padded form has the same digits,** with zeros in the places above them
/// up to the fourth.
pub proof fn law_decimal4_digits(n: nat)
    ensures
        decimal4(n).len() == if decimal(n).len() < 4 {
            4
        } else {
            decimal(n).len()
        },
        forall|i: int|
            0 <= i < decimal4(n).len() ==> #[trigger] decimal4(n)[i] == 48 + place(
                n,
                decimal4(n).len() - 1 - i,
            ),
{
    law_decimal_digits(n);
    let d = decimal(n);
    let d4 = decimal4(n);
    let pad = d4.len() - d.len();
    assert forall|i: int| 0 <= i < d4.len() implies #[trigger] d4[i] == 48 + place(
        n,
        d4.len() - 1 - i,
    ) by {
        if i >= pad {
            assert(d4[i] == d[i - pad]);
        } else {
            let e = (d4.len() - 1 - i) as nat;
            vstd::arithmetic::power::lemma_pow_increases(10, d.len(), e);
            vstd::arithmetic::div_mod::lemma_basic_div(
                n as int,
                vstd::arithmetic::power::pow(10, e),
            );
        }
    }
}

/// **The bytes of an ASCII text are its characters' codes.**
pub proof fn law_ascii_keeps_codes(s: Seq<char>)
    ensures
        ascii(s).len() == s.len(),
        forall|i: int|
            0 <= i < s.len() && 0 <= (s[i] as int) < 128 ==> #[trigger] ascii(s)[i] as int
                == s[i] as int,
{
}

} // verus!
