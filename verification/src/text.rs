//! Text and decimal-number utilities: verified string equality, canonical
//! decimal rendering of integers, and strict decimal parsing, together with
//! the value lemmas that make the renderings injective (the cache-key
//! builder depends on that).
use vstd::prelude::*;

verus! {

/// Whether two string slices hold the same characters.
pub fn str_eq(a: &str, b: &str) -> (r: bool)
    ensures
        r <==> a@ == b@,
{
    let an = a.unicode_len();
    let bn = b.unicode_len();
    if an != bn {
        proof {
            assert(a@ != b@);
        }
        return false;
    }
    let mut i: usize = 0;
    while i < an
        invariant
            i <= an,
            an == a@.len(),
            an == b@.len(),
            forall|j: int| 0 <= j < i ==> a@[j] == b@[j],
        decreases an - i,
    {
        if a.get_char(i) != b.get_char(i) {
            proof {
                assert(a@[i as int] != b@[i as int]);
            }
            return false;
        }
        i += 1;
    }
    proof {
        assert(a@ =~= b@);
    }
    true
}

/// The characters of `s`, as a vector.
pub fn str_chars(s: &str) -> (v: Vec<char>)
    ensures
        v@ == s@,
{
    let n = s.unicode_len();
    let mut v: Vec<char> = Vec::new();
    let mut i: usize = 0;
    while i < n
        invariant
            i <= n,
            n == s@.len(),
            v@ =~= s@.subrange(0, i as int),
        decreases n - i,
    {
        v.push(s.get_char(i));
        i += 1;
    }
    proof {
        assert(v@ =~= s@);
    }
    v
}

/// Whether `c` is a decimal digit.
pub open spec fn is_digit(c: char) -> bool {
    48 <= c as int <= 57
}

/// The numeric value of a digit character.
pub open spec fn digit_val(c: char) -> int {
    c as int - 48
}

/// The digit character for a value in 0..=9.
pub open spec fn digit_char(d: int) -> char {
    if d == 0 {
        '0'
    } else if d == 1 {
        '1'
    } else if d == 2 {
        '2'
    } else if d == 3 {
        '3'
    } else if d == 4 {
        '4'
    } else if d == 5 {
        '5'
    } else if d == 6 {
        '6'
    } else if d == 7 {
        '7'
    } else if d == 8 {
        '8'
    } else {
        '9'
    }
}

/// Whether every character of `s` is a decimal digit.
pub open spec fn all_digits(s: Seq<char>) -> bool {
    forall|i: int| 0 <= i < s.len() ==> is_digit(#[trigger] s[i])
}

/// The value of a digit string, most significant digit first.
pub open spec fn dec_val(s: Seq<char>) -> int
    decreases s.len(),
{
    if s.len() == 0 {
        0
    } else {
        dec_val(s.drop_last()) * 10 + digit_val(s.last())
    }
}

/// The canonical decimal rendering of a natural number: no sign and no
/// leading zero (except for the single digit of zero itself).
pub open spec fn spec_dec(n: nat) -> Seq<char>
    decreases n,
{
    if n < 10 {
        seq![digit_char(n as int)]
    } else {
        spec_dec(n / 10).push(digit_char((n % 10) as int))
    }
}

/// The canonical decimal rendering of an integer: a `-` sign before the
/// magnitude when negative.
pub open spec fn spec_dec_int(v: int) -> Seq<char> {
    if v < 0 {
        seq!['-'] + spec_dec((-v) as nat)
    } else {
        spec_dec(v as nat)
    }
}

/// A one-character string slice holding the digit `d`.
fn digit_str(d: u64) -> (r: &'static str)
    requires
        d < 10,
    ensures
        r@ =~= seq![digit_char(d as int)],
{
    proof {
        reveal_strlit("0");
        reveal_strlit("1");
        reveal_strlit("2");
        reveal_strlit("3");
        reveal_strlit("4");
        reveal_strlit("5");
        reveal_strlit("6");
        reveal_strlit("7");
        reveal_strlit("8");
        reveal_strlit("9");
    }
    if d == 0 {
        "0"
    } else if d == 1 {
        "1"
    } else if d == 2 {
        "2"
    } else if d == 3 {
        "3"
    } else if d == 4 {
        "4"
    } else if d == 5 {
        "5"
    } else if d == 6 {
        "6"
    } else if d == 7 {
        "7"
    } else if d == 8 {
        "8"
    } else {
        "9"
    }
}

/// Render `n` in canonical decimal.
pub fn u64_to_string(n: u64) -> (s: String)
    ensures
        s@ =~= spec_dec(n as nat),
    decreases n,
{
    if n < 10 {
        String::from_str(digit_str(n))
    } else {
        let front = u64_to_string(n / 10);
        front.concat(digit_str(n % 10))
    }
}

/// Render `v` in canonical decimal, with a `-` sign when negative.
pub fn i64_to_string(v: i64) -> (s: String)
    ensures
        s@ =~= spec_dec_int(v as int),
{
    if v >= 0 {
        u64_to_string(v as u64)
    } else {
        let mag: u64 = if v == i64::MIN {
            9223372036854775808
        } else {
            (-v) as u64
        };
        proof {
            reveal_strlit("-");
        }
        let front = String::from_str("-");
        front.concat(u64_to_string(mag).as_str())
    }
}

/// Render `v` in canonical decimal, with a `-` sign when negative.
pub fn i32_to_string(v: i32) -> (s: String)
    ensures
        s@ =~= spec_dec_int(v as int),
{
    i64_to_string(v as i64)
}

} // verus!

verus! {

/// Powers of ten.
pub open spec fn pow10(n: nat) -> int
    decreases n,
{
    if n == 0 {
        1
    } else {
        10 * pow10((n - 1) as nat)
    }
}

/// A digit string's value is below ten to its length.
pub proof fn lemma_dec_val_bound(s: Seq<char>)
    requires
        all_digits(s),
    ensures
        0 <= dec_val(s) < pow10(s.len()),
    decreases s.len(),
{
    if s.len() > 0 {
        assert(is_digit(s[s.len() - 1]));
        lemma_dec_val_bound(s.drop_last());
    }
}

/// A digit string that does not start with zero has a value of at least ten
/// to one less than its length.
pub proof fn lemma_dec_val_first(s: Seq<char>)
    requires
        all_digits(s),
        s.len() > 0,
        s[0] != '0',
    ensures
        dec_val(s) >= pow10((s.len() - 1) as nat),
    decreases s.len(),
{
    assert(is_digit(s[s.len() - 1]));
    if s.len() == 1 {
        assert(is_digit(s[0]));
        assert(digit_val(s[0]) >= 1);
    } else {
        assert(s.drop_last()[0] == s[0]);
        assert(all_digits(s.drop_last())) by {
            assert forall|i: int| 0 <= i < s.len() - 1 implies is_digit(#[trigger] s.drop_last()[i]) by {
                assert(is_digit(s[i]));
            }
        }
        lemma_dec_val_first(s.drop_last());
        assert(dec_val(s) == dec_val(s.drop_last()) * 10 + digit_val(s.last()));
        assert(pow10((s.len() - 1) as nat) == 10 * pow10((s.len() - 2) as nat));
        assert(dec_val(s.drop_last()) * 10 >= pow10((s.len() - 2) as nat) * 10);
        assert(digit_val(s.last()) >= 0);
    }
}

/// The digit character of a value reads back as that value.
pub proof fn lemma_digit_char_val(d: int)
    requires
        0 <= d <= 9,
    ensures
        digit_val(digit_char(d)) == d,
        is_digit(digit_char(d)),
{
}

/// Leading zeros do not change a digit string's value.
pub proof fn lemma_dec_val_zeros(s: Seq<char>, k: int)
    requires
        0 <= k <= s.len(),
        forall|i: int| 0 <= i < k ==> s[i] == '0',
    ensures
        dec_val(s) == dec_val(s.subrange(k, s.len() as int)),
    decreases s.len(),
{
    if k > 0 && s.len() > 0 {
        assert(dec_val(Seq::<char>::empty()) == 0);
        assert(dec_val(s) == dec_val(s.drop_last()) * 10 + digit_val(s.last()));
        if k == s.len() {
            assert forall|i: int| 0 <= i < k - 1 implies s.drop_last()[i] == '0' by {
                assert(s[i] == '0');
            }
            assert(s[s.len() - 1] == '0');
            lemma_dec_val_zeros(s.drop_last(), k - 1);
            assert(s.drop_last() =~= s.subrange(0, s.len() - 1));
            assert(s.drop_last().subrange(k - 1, s.len() - 1) =~= Seq::<char>::empty());
            assert(digit_val(s.last()) == 0);
            assert(s.subrange(k, s.len() as int) =~= Seq::<char>::empty());
        } else {
            assert forall|i: int| 0 <= i < k implies s.drop_last()[i] == '0' by {
                assert(s[i] == '0');
            }
            lemma_dec_val_zeros(s.drop_last(), k);
            assert(s.drop_last().subrange(k, s.len() - 1) =~= s.subrange(
                k,
                s.len() as int,
            ).drop_last());
            assert(s.subrange(k, s.len() as int).last() == s.last());
            assert(dec_val(s.subrange(k, s.len() as int)) == dec_val(
                s.subrange(k, s.len() as int).drop_last(),
            ) * 10 + digit_val(s.subrange(k, s.len() as int).last()));
        }
    } else {
        assert(s.subrange(k, s.len() as int) =~= s);
    }
}

/// The canonical rendering is made of digits, is never empty, and starts
/// with a non-zero digit unless it renders zero itself.
pub proof fn lemma_spec_dec_digits(n: nat)
    ensures
        all_digits(spec_dec(n)),
        spec_dec(n).len() >= 1,
        n > 0 ==> spec_dec(n)[0] != '0',
        n == 0 ==> spec_dec(n) =~= seq!['0'],
    decreases n,
{
    if n >= 10 {
        lemma_spec_dec_digits(n / 10);
    }
}

/// Rendering then reading a number gives the number back.
pub proof fn lemma_dec_val_of_spec_dec(n: nat)
    ensures
        dec_val(spec_dec(n)) == n,
    decreases n,
{
    assert(dec_val(Seq::<char>::empty()) == 0);
    assert(spec_dec(n).len() > 0);
    assert(dec_val(spec_dec(n)) == dec_val(spec_dec(n).drop_last()) * 10 + digit_val(
        spec_dec(n).last(),
    ));
    if n < 10 {
        lemma_digit_char_val(n as int);
        assert(spec_dec(n).drop_last() =~= Seq::<char>::empty());
        assert(spec_dec(n).last() == digit_char(n as int));
    } else {
        lemma_dec_val_of_spec_dec(n / 10);
        lemma_digit_char_val((n % 10) as int);
        assert(spec_dec(n).drop_last() =~= spec_dec(n / 10));
        assert(spec_dec(n).last() == digit_char((n % 10) as int));
        assert(n == (n / 10) * 10 + n % 10);
    }
}

/// The canonical rendering of naturals is injective.
pub proof fn lemma_spec_dec_injective(a: nat, b: nat)
    requires
        spec_dec(a) == spec_dec(b),
    ensures
        a == b,
{
    lemma_dec_val_of_spec_dec(a);
    lemma_dec_val_of_spec_dec(b);
}

/// The canonical rendering of integers is injective.
pub proof fn lemma_spec_dec_int_injective(a: int, b: int)
    requires
        spec_dec_int(a) == spec_dec_int(b),
    ensures
        a == b,
{
    lemma_spec_dec_digits(if a < 0 {
        (-a) as nat
    } else {
        a as nat
    });
    lemma_spec_dec_digits(if b < 0 {
        (-b) as nat
    } else {
        b as nat
    });
    if a < 0 && b < 0 {
        assert(spec_dec_int(a)[0] == '-');
        assert(spec_dec((-a) as nat) =~= spec_dec_int(a).subrange(1, spec_dec_int(a).len() as int));
        assert(spec_dec((-b) as nat) =~= spec_dec_int(b).subrange(1, spec_dec_int(b).len() as int));
        lemma_spec_dec_injective((-a) as nat, (-b) as nat);
    } else if a >= 0 && b >= 0 {
        lemma_spec_dec_injective(a as nat, b as nat);
    } else if a < 0 {
        assert(spec_dec_int(a)[0] == '-');
        assert(is_digit(spec_dec_int(b)[0]));
        assert(false);
    } else {
        assert(spec_dec_int(b)[0] == '-');
        assert(is_digit(spec_dec_int(a)[0]));
        assert(false);
    }
}

} // verus!

verus! {

/// Ten to any power is at least one.
pub proof fn lemma_pow10_pos(n: nat)
    ensures
        pow10(n) >= 1,
    decreases n,
{
    if n > 0 {
        lemma_pow10_pos((n - 1) as nat);
    }
}

/// Powers of ten grow with the exponent.
pub proof fn lemma_pow10_increases(a: nat, b: nat)
    requires
        a <= b,
    ensures
        pow10(a) <= pow10(b),
    decreases b,
{
    if a < b {
        lemma_pow10_increases(a, (b - 1) as nat);
        lemma_pow10_pos((b - 1) as nat);
    }
}

/// The concrete powers of ten around the range of 64-bit integers.
pub proof fn lemma_pow10_values()
    ensures
        pow10(19) == 10_000_000_000_000_000_000,
        pow10(20) == 100_000_000_000_000_000_000,
{
    assert(pow10(0) == 1);
    assert(pow10(1) == 10);
    assert(pow10(2) == 100);
    assert(pow10(3) == 1000);
    assert(pow10(4) == 10000);
    assert(pow10(5) == 100000);
    assert(pow10(6) == 1000000);
    assert(pow10(7) == 10000000);
    assert(pow10(8) == 100000000);
    assert(pow10(9) == 1000000000);
    assert(pow10(10) == 10000000000);
    assert(pow10(11) == 100000000000);
    assert(pow10(12) == 1000000000000);
    assert(pow10(13) == 10000000000000);
    assert(pow10(14) == 100000000000000);
    assert(pow10(15) == 1000000000000000);
    assert(pow10(16) == 10000000000000000);
    assert(pow10(17) == 100000000000000000);
    assert(pow10(18) == 1000000000000000000);
    assert(pow10(19) == 10000000000000000000);
    assert(pow10(20) == 100000000000000000000);
}

/// The sign that a leading `-` gives a number.
pub open spec fn spec_sign(s: Seq<char>) -> int {
    if s.len() > 0 && s[0] == '-' {
        -1
    } else {
        1
    }
}

/// The digit part of a number: everything after an optional sign character.
pub open spec fn spec_digits(s: Seq<char>) -> Seq<char> {
    if s.len() > 0 && (s[0] == '-' || s[0] == '+') {
        s.subrange(1, s.len() as int)
    } else {
        s
    }
}

/// What a strict decimal parse of `s` yields: the signed value of its digit
/// part, or nothing when `s` is not an optional sign followed by one or
/// more digits.
pub open spec fn spec_parse_int(s: Seq<char>) -> Option<int> {
    if spec_digits(s).len() > 0 && all_digits(spec_digits(s)) {
        Some(spec_sign(s) * dec_val(spec_digits(s)))
    } else {
        None
    }
}

/// A strict decimal parse into `i64`: out-of-range values are rejected.
pub open spec fn spec_parse_i64(s: Seq<char>) -> Option<i64> {
    match spec_parse_int(s) {
        Some(v) => if i64::MIN <= v <= i64::MAX {
            Some(v as i64)
        } else {
            None
        },
        None => None,
    }
}

/// A strict decimal parse into `i32`: out-of-range values are rejected.
pub open spec fn spec_parse_i32(s: Seq<char>) -> Option<i32> {
    match spec_parse_int(s) {
        Some(v) => if i32::MIN <= v <= i32::MAX {
            Some(v as i32)
        } else {
            None
        },
        None => None,
    }
}

/// What a boolean parse of `s` yields: exactly `true` or `false`.
pub open spec fn spec_parse_bool(s: Seq<char>) -> Option<bool> {
    if s == "true"@ {
        Some(true)
    } else if s == "false"@ {
        Some(false)
    } else {
        None
    }
}

/// Read the digit run `cs[start..]` as a `u64`: nothing when it is empty,
/// holds a non-digit, or exceeds the range of `u64`.
#[verifier::loop_isolation(false)]
fn parse_digits_u64(cs: &Vec<char>, start: usize) -> (r: Option<u64>)
    requires
        start <= cs@.len(),
    ensures
        ({
            let ds = cs@.subrange(start as int, cs@.len() as int);
            match r {
                Some(v) => ds.len() > 0 && all_digits(ds) && v as int == dec_val(ds),
                None => ds.len() == 0 || !all_digits(ds) || dec_val(ds) > u64::MAX,
            }
        }),
{
    let ghost ds = cs@.subrange(start as int, cs@.len() as int);
    let n = cs.len();
    if start >= n {
        return None;
    }
    let mut i: usize = start;
    while i < n
        invariant
            start <= i <= n,
            n == cs@.len(),
            forall|j: int| start <= j < i ==> is_digit(#[trigger] cs@[j]),
        decreases n - i,
    {
        let c: char = cs[i];
        if c < '0' || c > '9' {
            proof {
                assert(ds[i - start] == cs@[i as int]);
                assert(!is_digit(ds[i - start]));
            }
            return None;
        }
        i += 1;
    }
    proof {
        assert forall|j: int| 0 <= j < ds.len() implies is_digit(#[trigger] ds[j]) by {
            assert(ds[j] == cs@[start + j]);
        }
    }
    let mut z: usize = start;
    while z < n && cs[z] == '0'
        invariant
            start <= z <= n,
            n == cs@.len(),
            forall|j: int| start <= j < z ==> cs@[j] == '0',
        decreases n - z,
    {
        z += 1;
    }
    proof {
        assert forall|j: int| 0 <= j < z - start implies ds[j] == '0' by {
            assert(ds[j] == cs@[start + j]);
        }
        lemma_dec_val_zeros(ds, z as int - start as int);
        assert(ds.subrange(z - start, ds.len() as int) =~= cs@.subrange(z as int, n as int));
        lemma_pow10_values();
    }
    let ghost sig_s = cs@.subrange(z as int, n as int);
    let sig = n - z;
    if sig > 20 {
        proof {
            assert(sig_s[0] == cs@[z as int]);
            assert(sig_s[0] != '0');
            assert forall|j: int| 0 <= j < sig_s.len() implies is_digit(#[trigger] sig_s[j]) by {
                assert(sig_s[j] == cs@[z + j]);
                assert(is_digit(ds[z - start + j]));
            }
            lemma_dec_val_first(sig_s);
            lemma_pow10_increases(20, (sig_s.len() - 1) as nat);
        }
        return None;
    }
    proof {
        assert forall|j: int| 0 <= j < sig_s.len() implies is_digit(#[trigger] sig_s[j]) by {
            assert(sig_s[j] == cs@[z + j]);
            assert(is_digit(ds[z - start + j]));
        }
    }
    let limit = if sig >= 20 {
        z + 19
    } else {
        n
    };
    let mut acc: u64 = 0;
    let mut i2: usize = z;
    proof {
        assert(cs@.subrange(z as int, z as int) =~= Seq::<char>::empty());
    }
    while i2 < limit
        invariant
            z <= i2 <= limit <= n,
            n == cs@.len(),
            limit - z <= 19,
            forall|j: int| z <= j < n ==> is_digit(#[trigger] cs@[j]),
            acc as int == dec_val(cs@.subrange(z as int, i2 as int)),
            (acc as int) < pow10((i2 - z) as nat),
        decreases limit - i2,
    {
        let c: char = cs[i2];
        let d: u64 = (c as u32 as u64) - 48;
        proof {
            assert(is_digit(cs@[i2 as int]));
            lemma_pow10_values();
            lemma_pow10_increases((i2 - z + 1) as nat, 19);
            assert(pow10((i2 - z + 1) as nat) == 10 * pow10((i2 - z) as nat));
            assert(acc as int * 10 + d < pow10((i2 - z + 1) as nat));
        }
        acc = acc * 10 + d;
        proof {
            assert(cs@.subrange(z as int, i2 as int + 1).drop_last() =~= cs@.subrange(
                z as int,
                i2 as int,
            ));
            assert(cs@.subrange(z as int, i2 as int + 1).last() == cs@[i2 as int]);
            assert(digit_val(cs@[i2 as int]) == d);
        }
        i2 += 1;
    }
    if i2 < n {
        let c: char = cs[i2];
        let d: u64 = (c as u32 as u64) - 48;
        proof {
            assert(is_digit(cs@[i2 as int]));
            assert(digit_val(cs@[i2 as int]) == d);
            assert(cs@.subrange(z as int, i2 as int + 1).drop_last() =~= cs@.subrange(
                z as int,
                i2 as int,
            ));
            assert(cs@.subrange(z as int, i2 as int + 1).last() == cs@[i2 as int]);
            assert(i2 + 1 == n);
            assert(cs@.subrange(z as int, i2 as int + 1) =~= sig_s);
        }
        match acc.checked_mul(10) {
            Some(a10) => {
                match a10.checked_add(d) {
                    Some(v) => {
                        acc = v;
                    },
                    None => {
                        proof {
                            assert(dec_val(sig_s) == acc as int * 10 + d);
                        }
                        return None;
                    },
                }
            },
            None => {
                proof {
                    assert(dec_val(sig_s) == acc as int * 10 + d);
                    assert(dec_val(sig_s) > u64::MAX);
                }
                return None;
            },
        }
        proof {
            assert(acc as int == dec_val(sig_s));
        }
    } else {
        proof {
            assert(cs@.subrange(z as int, i2 as int) =~= sig_s);
        }
    }
    proof {
        assert(dec_val(ds) == dec_val(sig_s));
    }
    Some(acc)
}

/// Parse `s` as a decimal `i64`, strictly: an optional sign, then digits.
pub fn parse_i64(s: &str) -> (r: Option<i64>)
    ensures
        r == spec_parse_i64(s@),
{
    let cs = str_chars(s);
    parse_i64_chars(&cs)
}

/// Parse characters as a decimal `i64`, strictly.
pub fn parse_i64_chars(cs: &Vec<char>) -> (r: Option<i64>)
    ensures
        r == spec_parse_i64(cs@),
{
    let n = cs.len();
    let mut neg = false;
    let mut start: usize = 0;
    if n > 0 && (cs[0] == '-' || cs[0] == '+') {
        neg = cs[0] == '-';
        start = 1;
    }
    proof {
        assert(cs@.subrange(start as int, n as int) =~= spec_digits(cs@));
    }
    match parse_digits_u64(cs, start) {
        None => {
            proof {
                if spec_parse_int(cs@) is Some {
                    let ds = spec_digits(cs@);
                    assert(dec_val(ds) > u64::MAX);
                    lemma_dec_val_bound(ds);
                }
            }
            None
        },
        Some(mag) => {
            if neg {
                if mag <= 9223372036854775808u64 {
                    let v: i64 = if mag == 9223372036854775808u64 {
                        i64::MIN
                    } else {
                        -(mag as i64)
                    };
                    Some(v)
                } else {
                    None
                }
            } else {
                if mag <= 9223372036854775807u64 {
                    Some(mag as i64)
                } else {
                    None
                }
            }
        },
    }
}

/// Parse `s` as a decimal `i32`, strictly: an optional sign, then digits.
pub fn parse_i32(s: &str) -> (r: Option<i32>)
    ensures
        r == spec_parse_i32(s@),
{
    match parse_i64(s) {
        Some(v) => {
            if -2147483648i64 <= v && v <= 2147483647i64 {
                Some(v as i32)
            } else {
                None
            }
        },
        None => None,
    }
}

/// Parse characters as a decimal `i32`, strictly.
pub fn parse_i32_chars(cs: &Vec<char>) -> (r: Option<i32>)
    ensures
        r == spec_parse_i32(cs@),
{
    match parse_i64_chars(cs) {
        Some(v) => {
            if -2147483648i64 <= v && v <= 2147483647i64 {
                Some(v as i32)
            } else {
                None
            }
        },
        None => None,
    }
}

/// Parse `s` as a boolean: exactly `true` or `false`.
pub fn parse_bool(s: &str) -> (r: Option<bool>)
    ensures
        r == spec_parse_bool(s@),
{
    if str_eq(s, "true") {
        Some(true)
    } else if str_eq(s, "false") {
        Some(false)
    } else {
        None
    }
}

} // verus!

verus! {

/// ASCII whitespace, as trimmed from filter-value segments.
pub open spec fn is_ws(c: char) -> bool {
    c == ' ' || c == '\t' || c == '\n' || c == '\r'
}

/// Length of the whitespace run at the start of `s`.
pub open spec fn ws_prefix_len(s: Seq<char>) -> nat
    decreases s.len(),
{
    if s.len() > 0 && is_ws(s[0]) {
        1 + ws_prefix_len(s.drop_first())
    } else {
        0
    }
}

/// Length of the whitespace run at the end of `s`.
pub open spec fn ws_suffix_len(s: Seq<char>) -> nat
    decreases s.len(),
{
    if s.len() > 0 && is_ws(s.last()) {
        1 + ws_suffix_len(s.drop_last())
    } else {
        0
    }
}

/// `s` with leading and trailing whitespace removed.
pub open spec fn spec_trim(s: Seq<char>) -> Seq<char> {
    let t = s.skip(ws_prefix_len(s) as int);
    t.take(t.len() - ws_suffix_len(t))
}

/// The whitespace prefix is exactly the run up to the first non-whitespace
/// character.
proof fn lemma_ws_prefix_unique(s: Seq<char>, j: int)
    requires
        0 <= j <= s.len(),
        forall|k: int| 0 <= k < j ==> is_ws(#[trigger] s[k]),
        j < s.len() ==> !is_ws(s[j]),
    ensures
        ws_prefix_len(s) == j,
    decreases s.len(),
{
    if j == 0 {
    } else {
        assert(is_ws(s[0]));
        assert forall|k: int| 0 <= k < j - 1 implies is_ws(#[trigger] s.drop_first()[k]) by {
            assert(s.drop_first()[k] == s[k + 1]);
        }
        if j - 1 < s.len() - 1 {
            assert(s.drop_first()[j - 1] == s[j]);
        }
        lemma_ws_prefix_unique(s.drop_first(), j - 1);
    }
}

/// The whitespace suffix is exactly the run back from the last
/// non-whitespace character.
proof fn lemma_ws_suffix_unique(s: Seq<char>, j: int)
    requires
        0 <= j <= s.len(),
        forall|k: int| s.len() - j <= k < s.len() ==> is_ws(#[trigger] s[k]),
        j < s.len() ==> !is_ws(s[s.len() - j - 1]),
    ensures
        ws_suffix_len(s) == j,
    decreases s.len(),
{
    if j == 0 {
    } else {
        assert(is_ws(s.last()));
        assert forall|k: int| s.len() - 1 - (j - 1) <= k < s.len() - 1 implies is_ws(
            #[trigger] s.drop_last()[k],
        ) by {
            assert(s.drop_last()[k] == s[k]);
        }
        if j - 1 < s.len() - 1 {
            assert(s.drop_last()[s.len() - 1 - (j - 1) - 1] == s[s.len() - j - 1]);
        }
        lemma_ws_suffix_unique(s.drop_last(), j - 1);
    }
}

/// `cs` with leading and trailing whitespace removed.
#[verifier::loop_isolation(false)]
pub fn trim_chars(cs: &Vec<char>) -> (r: Vec<char>)
    ensures
        r@ == spec_trim(cs@),
{
    let n = cs.len();
    let mut a: usize = 0;
    while a < n && (cs[a] == ' ' || cs[a] == '\t' || cs[a] == '\n' || cs[a] == '\r')
        invariant
            a <= n,
            forall|k: int| 0 <= k < a ==> is_ws(#[trigger] cs@[k]),
        decreases n - a,
    {
        a += 1;
    }
    proof {
        lemma_ws_prefix_unique(cs@, a as int);
    }
    let mut b: usize = n;
    while b > a && (cs[b - 1] == ' ' || cs[b - 1] == '\t' || cs[b - 1] == '\n' || cs[b - 1] == '\r')
        invariant
            a <= b <= n,
            forall|k: int| b <= k < n ==> is_ws(#[trigger] cs@[k]),
        decreases b,
    {
        b -= 1;
    }
    let ghost t = cs@.skip(a as int);
    proof {
        assert forall|k: int| t.len() - (n - b) <= k < t.len() implies is_ws(#[trigger] t[k]) by {
            assert(t[k] == cs@[a + k]);
        }
        if b > a {
            assert(t[t.len() - (n - b) - 1] == cs@[b - 1]);
        }
        lemma_ws_suffix_unique(t, n as int - b as int);
    }
    let mut r: Vec<char> = Vec::new();
    let mut i: usize = a;
    while i < b
        invariant
            a <= i <= b,
            r@ =~= cs@.subrange(a as int, i as int),
        decreases b - i,
    {
        r.push(cs[i]);
        i += 1;
    }
    proof {
        assert(r@ =~= t.take(t.len() - ws_suffix_len(t)));
    }
    r
}

/// Index of the first comma in `s`, or the length of `s` when it has none.
pub open spec fn comma_index(s: Seq<char>) -> nat
    decreases s.len(),
{
    if s.len() == 0 {
        0
    } else if s[0] == ',' {
        0
    } else {
        1 + comma_index(s.drop_first())
    }
}

/// The first comma is exactly at the first position holding a comma.
proof fn lemma_comma_index_unique(s: Seq<char>, j: int)
    requires
        0 <= j <= s.len(),
        forall|k: int| 0 <= k < j ==> s[k] != ',',
        j < s.len() ==> s[j] == ',',
    ensures
        comma_index(s) == j,
    decreases s.len(),
{
    if j == 0 {
    } else {
        assert(s[0] != ',');
        assert forall|k: int| 0 <= k < j - 1 implies s.drop_first()[k] != ',' by {
            assert(s.drop_first()[k] == s[k + 1]);
        }
        if j - 1 < s.len() - 1 {
            assert(s.drop_first()[j - 1] == s[j]);
        }
        lemma_comma_index_unique(s.drop_first(), j - 1);
    }
}

/// `s` split at commas: the segments between commas, in order.  A string
/// with no comma is one segment; every comma separates two segments.
pub open spec fn spec_split(s: Seq<char>) -> Seq<Seq<char>>
    decreases s.len(),
{
    let i = comma_index(s);
    if i >= s.len() {
        seq![s]
    } else {
        seq![s.take(i as int)] + spec_split(s.skip(i as int + 1))
    }
}

/// Split the characters from `from` on at commas.
#[verifier::loop_isolation(false)]
fn split_commas_from(cs: &Vec<char>, from: usize) -> (r: Vec<Vec<char>>)
    requires
        from <= cs@.len(),
    ensures
        r@.len() == spec_split(cs@.skip(from as int)).len(),
        forall|i: int|
            0 <= i < r@.len() ==> #[trigger] r@[i]@ == spec_split(cs@.skip(from as int))[i],
    decreases cs@.len() - from,
{
    let ghost suffix = cs@.skip(from as int);
    let n = cs.len();
    let mut j: usize = from;
    while j < n && cs[j] != ','
        invariant
            from <= j <= n,
            forall|k: int| from <= k < j ==> cs@[k] != ',',
        decreases n - j,
    {
        j += 1;
    }
    proof {
        assert forall|k: int| 0 <= k < j - from implies suffix[k] != ',' by {
            assert(suffix[k] == cs@[from + k]);
        }
        if j < n {
            assert(suffix[j - from] == cs@[j as int]);
        }
        lemma_comma_index_unique(suffix, j as int - from as int);
    }
    let mut seg: Vec<char> = Vec::new();
    let mut i: usize = from;
    while i < j
        invariant
            from <= i <= j,
            seg@ =~= cs@.subrange(from as int, i as int),
        decreases j - i,
    {
        seg.push(cs[i]);
        i += 1;
    }
    proof {
        assert(seg@ =~= suffix.take(j as int - from as int));
    }
    if j >= n {
        let mut r: Vec<Vec<char>> = Vec::new();
        proof {
            assert(seg@ =~= suffix);
        }
        r.push(seg);
        r
    } else {
        let mut rest = split_commas_from(cs, j + 1);
        let ghost rest_suffix = cs@.skip(j as int + 1);
        let ghost rest0 = rest@;
        let ghost seg0 = seg@;
        let rest_n = rest.len();
        proof {
            assert(rest0.len() == rest_n as int);
        }
        let mut r: Vec<Vec<char>> = Vec::new();
        r.push(seg);
        let mut k: usize = 0;
        while rest.len() > 0
            invariant
                k + rest@.len() == rest0.len(),
                rest@ =~= rest0.skip(k as int),
                r@.len() == k + 1,
                r@[0]@ == seg0,
                forall|m: int| 1 <= m < r@.len() ==> #[trigger] r@[m]@ == rest0[m - 1]@,
            decreases rest@.len(),
        {
            let piece = rest.remove(0);
            proof {
                assert(piece@ == rest0[k as int]@);
            }
            r.push(piece);
            k += 1;
            proof {
                assert(rest@ =~= rest0.skip(k as int));
            }
        }
        proof {
            assert(suffix.skip(j as int - from as int + 1) =~= rest_suffix);
            assert(spec_split(suffix) == seq![suffix.take(j as int - from as int)] + spec_split(
                rest_suffix,
            ));
        }
        r
    }
}

/// Split `s` at commas into its character segments.
pub fn split_commas(s: &str) -> (r: Vec<Vec<char>>)
    ensures
        r@.len() == spec_split(s@).len(),
        forall|i: int| 0 <= i < r@.len() ==> #[trigger] r@[i]@ == spec_split(s@)[i],
{
    let cs = str_chars(s);
    let r = split_commas_from(&cs, 0);
    proof {
        assert(cs@.skip(0) =~= s@);
    }
    r
}

} // verus!
