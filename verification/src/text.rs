use vstd::prelude::*;
use vstd::string::StrSliceExecFns;

verus! {

/// The whitespace characters that the game strips from free-text answers:
/// the Unicode white-space characters, the set `str::trim` strips.
pub open spec fn is_space_char(c: char) -> bool {
    ||| '\u{09}' <= c && c <= '\u{0d}'
    ||| c == ' '
    ||| c == '\u{85}'
    ||| c == '\u{a0}'
    ||| c == '\u{1680}'
    ||| '\u{2000}' <= c && c <= '\u{200a}'
    ||| c == '\u{2028}'
    ||| c == '\u{2029}'
    ||| c == '\u{202f}'
    ||| c == '\u{205f}'
    ||| c == '\u{3000}'
}

/// Whether `c` is an ASCII decimal digit.
pub open spec fn is_digit_char(c: char) -> bool {
    '0' <= c && c <= '9'
}

/// Lowercasing of one character, restricted to the characters whose Unicode
/// lowercase is a single ASCII character: the ASCII capitals and the Kelvin
/// sign.  Every other character is kept as it is; since the words the
/// grading rules look for are all ASCII, a character left unchanged here
/// could not have contributed to a match anyway.
pub open spec fn lower_char_spec(c: char) -> char {
    if 'A' <= c && c <= 'Z' {
        (((c as u32) + 32) as char)
    } else if c == '\u{212a}' {
        'k'
    } else {
        c
    }
}

/// ASCII lowercasing of a text, character by character.
pub open spec fn lower_spec(s: Seq<char>) -> Seq<char> {
    Seq::new(s.len(), |i: int| lower_char_spec(s[i]))
}

/// How many whitespace characters `s` starts with.
pub open spec fn ltrim_amount(s: Seq<char>) -> int
    decreases s.len(),
{
    if s.len() > 0 && is_space_char(s[0]) {
        1 + ltrim_amount(s.drop_first())
    } else {
        0
    }
}

/// How many whitespace characters `s` ends with.
pub open spec fn rtrim_amount(s: Seq<char>) -> int
    decreases s.len(),
{
    if s.len() > 0 && is_space_char(s.last()) {
        1 + rtrim_amount(s.drop_last())
    } else {
        0
    }
}

/// `s` without its leading and trailing whitespace.
pub open spec fn trim_spec(s: Seq<char>) -> Seq<char> {
    if ltrim_amount(s) <= s.len() - rtrim_amount(s) {
        s.subrange(ltrim_amount(s), s.len() - rtrim_amount(s))
    } else {
        Seq::empty()
    }
}

proof fn lemma_ltrim_amount(s: Seq<char>, a: int)
    requires
        0 <= a <= s.len(),
        forall|j: int| 0 <= j < a ==> is_space_char(s[j]),
        a == s.len() || !is_space_char(s[a]),
    ensures
        ltrim_amount(s) == a,
    decreases a,
{
    if a > 0 {
        lemma_ltrim_amount(s.drop_first(), a - 1);
    }
}

proof fn lemma_rtrim_amount(s: Seq<char>, k: int)
    requires
        0 <= k <= s.len(),
        forall|j: int| s.len() - k <= j < s.len() ==> is_space_char(s[j]),
        k == s.len() || !is_space_char(s[s.len() - k - 1]),
    ensures
        rtrim_amount(s) == k,
    decreases k,
{
    if k > 0 {
        lemma_rtrim_amount(s.drop_last(), k - 1);
    }
}

/// Whether `needle` occurs in `hay` starting at position `k`.
pub open spec fn match_at(hay: Seq<char>, needle: Seq<char>, k: int) -> bool {
    &&& 0 <= k
    &&& k + needle.len() <= hay.len()
    &&& forall|j: int| 0 <= j < needle.len() ==> hay[k + j] == needle[j]
}

/// Whether `needle` occurs anywhere in `hay`.
pub open spec fn contains_spec(hay: Seq<char>, needle: Seq<char>) -> bool {
    exists|k: int| match_at(hay, needle, k)
}

/// The position of the first '.' in `s`, or the length of `s` if it has none.
pub open spec fn first_dot_idx(s: Seq<char>) -> int
    decreases s.len(),
{
    if s.len() == 0 {
        0
    } else if s[0] == '.' {
        0
    } else {
        1 + first_dot_idx(s.drop_first())
    }
}

/// Whether every character of `s` is an ASCII decimal digit.
pub open spec fn all_digits(s: Seq<char>) -> bool {
    forall|j: int| 0 <= j < s.len() ==> is_digit_char(s[j])
}

/// The position of the first exponent marker 'e' or 'E' in `s`, or the
/// length of `s` if it has none.
pub open spec fn first_exp_idx(s: Seq<char>) -> int
    decreases s.len(),
{
    if s.len() == 0 {
        0
    } else if s[0] == 'e' || s[0] == 'E' {
        0
    } else {
        1 + first_exp_idx(s.drop_first())
    }
}

/// The numeric value of one decimal digit.
pub open spec fn digit_val(c: char) -> int {
    c as u32 - '0' as u32
}

/// The value of `s` read as an unsigned decimal numeral.
pub open spec fn digits_val(s: Seq<char>) -> int
    decreases s.len(),
{
    if s.len() == 0 {
        0
    } else {
        10 * digits_val(s.drop_last()) + digit_val(s.last())
    }
}

/// Ten to the `k`.
pub open spec fn pow10(k: nat) -> int
    decreases k,
{
    if k == 0 {
        1
    } else {
        10 * pow10((k - 1) as nat)
    }
}

/// Whether the digit string `s` spells a power of ten: a single '1' with
/// exactly `z` zeros after it, and only zeros before it.
pub open spec fn power_shape(s: Seq<char>, z: int) -> bool {
    &&& 0 <= z < s.len()
    &&& s[s.len() - 1 - z] == '1'
    &&& forall|j: int| 0 <= j < s.len() && j != s.len() - 1 - z ==> s[j] == '0'
}

/// `s` without one optional leading '+'.
pub open spec fn strip_plus(s: Seq<char>) -> Seq<char> {
    if s.len() > 0 && s[0] == '+' {
        s.drop_first()
    } else {
        s
    }
}

/// `s` without one optional leading '+' or '-'.
pub open spec fn strip_sign(s: Seq<char>) -> Seq<char> {
    if s.len() > 0 && (s[0] == '+' || s[0] == '-') {
        s.drop_first()
    } else {
        s
    }
}

/// Whether an exponent part (what follows the marker) is well formed: an
/// optional sign, then at least one digit.
pub open spec fn exp_ok(ex: Seq<char>) -> bool {
    strip_sign(ex).len() > 0 && all_digits(strip_sign(ex))
}

/// The signed value of an exponent part.
pub open spec fn exp_value(ex: Seq<char>) -> int {
    if ex.len() > 0 && ex[0] == '-' {
        -digits_val(strip_sign(ex))
    } else {
        digits_val(strip_sign(ex))
    }
}

/// The digits of a mantissa with its one optional '.' removed.
pub open spec fn mantissa_digits(mant: Seq<char>) -> Seq<char> {
    let d = first_dot_idx(mant);
    if d == mant.len() {
        mant
    } else {
        mant.take(d) + mant.skip(d + 1)
    }
}

/// How many digits of a mantissa stand after its '.'.
pub open spec fn frac_len(mant: Seq<char>) -> int {
    let d = first_dot_idx(mant);
    if d == mant.len() {
        0
    } else {
        mant.len() - d - 1
    }
}

/// Whether a mantissa is well formed: digits with at most one '.' among
/// them, and at least one digit.
pub open spec fn mantissa_ok(mant: Seq<char>) -> bool {
    all_digits(mantissa_digits(mant)) && mantissa_digits(mant).len() > 0
}

/// Whether `m * 10^(e - f)` equals one: the exact decimal value of a
/// numeral with integer mantissa value `m`, `f` fraction digits, and
/// decimal exponent `e`.
pub open spec fn scaled_to_one(m: int, f: int, e: int) -> bool {
    if e - f >= 0 {
        m * pow10((e - f) as nat) == 1
    } else {
        m == pow10((f - e) as nat)
    }
}

/// Whether the submitted text, once trimmed, is a decimal numeral — an
/// optional leading '+', digits with at most one '.' among them, and an
/// optional exponent part — whose exact decimal value is one.
///
/// This is exact decimal equality: a numeral whose value merely lies within
/// binary-float rounding distance of one without being one (such as a long
/// decimal a shade under one) is not accepted, and neither are the special
/// spellings of non-numeric float values.
pub open spec fn is_one_text(s: Seq<char>) -> bool {
    let t = strip_plus(trim_spec(s));
    let ei = first_exp_idx(t);
    let mant = t.take(ei);
    let e = if ei == t.len() {
        0int
    } else {
        exp_value(t.skip(ei + 1))
    };
    &&& mantissa_ok(mant)
    &&& (ei == t.len() || exp_ok(t.skip(ei + 1)))
    &&& scaled_to_one(digits_val(mantissa_digits(mant)), frac_len(mant), e)
}

proof fn lemma_first_dot_idx(s: Seq<char>, d: int)
    requires
        0 <= d <= s.len(),
        forall|j: int| 0 <= j < d ==> s[j] != '.',
        d == s.len() || s[d] == '.',
    ensures
        first_dot_idx(s) == d,
    decreases d,
{
    if d > 0 {
        lemma_first_dot_idx(s.drop_first(), d - 1);
    }
}

proof fn lemma_first_exp_idx(s: Seq<char>, d: int)
    requires
        0 <= d <= s.len(),
        forall|j: int| 0 <= j < d ==> s[j] != 'e' && s[j] != 'E',
        d == s.len() || s[d] == 'e' || s[d] == 'E',
    ensures
        first_exp_idx(s) == d,
    decreases d,
{
    if d > 0 {
        lemma_first_exp_idx(s.drop_first(), d - 1);
    }
}

proof fn lemma_digits_val_bounds(s: Seq<char>)
    requires
        all_digits(s),
    ensures
        0 <= digits_val(s) < pow10(s.len()),
    decreases s.len(),
{
    if s.len() > 0 {
        lemma_all_digits_drop_last(s);
        lemma_digits_val_bounds(s.drop_last());
        assert(is_digit_char(s[s.len() - 1]));
        assert(pow10(s.len() as nat) == 10 * pow10((s.len() - 1) as nat));
    }
}

proof fn lemma_digits_val_lower(s: Seq<char>)
    requires
        all_digits(s),
        s.len() > 0,
        s[0] != '0',
    ensures
        digits_val(s) >= pow10((s.len() - 1) as nat),
    decreases s.len(),
{
    assert(is_digit_char(s[s.len() - 1]));
    if s.len() == 1 {
        assert(s.last() == s[0]);
        assert(is_digit_char(s[0]));
        assert(digit_val(s.last()) >= 1);
        assert(s.drop_last().len() == 0);
        assert(digits_val(s.drop_last()) == 0);
        assert(pow10(0) == 1);
    } else {
        lemma_all_digits_drop_last(s);
        assert(s.drop_last()[0] == s[0]);
        lemma_digits_val_lower(s.drop_last());
        assert(pow10((s.len() - 1) as nat) == 10 * pow10((s.len() - 2) as nat));
    }
}

proof fn lemma_leading_zeros_val(s: Seq<char>, k: int)
    requires
        0 <= k <= s.len(),
        forall|j: int| 0 <= j < k ==> s[j] == '0',
    ensures
        digits_val(s) == digits_val(s.skip(k)),
    decreases s.len(),
{
    if s.len() == k {
        lemma_zeros_val(s);
        assert(s.skip(k) =~= Seq::<char>::empty());
    } else {
        lemma_leading_zeros_val(s.drop_last(), k);
        assert(s.skip(k).drop_last() =~= s.drop_last().skip(k));
        assert(s.skip(k).last() == s.last());
    }
}

proof fn lemma_pow10_pos(k: nat)
    ensures
        pow10(k) >= 1,
    decreases k,
{
    if k > 0 {
        lemma_pow10_pos((k - 1) as nat);
    }
}

proof fn lemma_pow10_increases(a: nat, b: nat)
    requires
        a < b,
    ensures
        pow10(a) < pow10(b),
    decreases b,
{
    lemma_pow10_pos(a);
    if a + 1 < b {
        lemma_pow10_increases(a, (b - 1) as nat);
    }
}

proof fn lemma_pow10_le(a: nat, b: nat)
    requires
        a <= b,
    ensures
        pow10(a) <= pow10(b),
{
    if a < b {
        lemma_pow10_increases(a, b);
    }
}

proof fn lemma_shape_val(s: Seq<char>, z: int)
    requires
        power_shape(s, z),
    ensures
        digits_val(s) == pow10(z as nat),
    decreases s.len(),
{
    if z >= 1 {
        assert(power_shape(s.drop_last(), z - 1));
        lemma_shape_val(s.drop_last(), z - 1);
    } else {
        assert(forall|j: int| 0 <= j < s.drop_last().len() ==> s.drop_last()[j] == '0');
        lemma_zeros_val(s.drop_last());
    }
}

proof fn lemma_zeros_val(s: Seq<char>)
    requires
        forall|j: int| 0 <= j < s.len() ==> s[j] == '0',
    ensures
        digits_val(s) == 0,
    decreases s.len(),
{
    if s.len() > 0 {
        lemma_zeros_val(s.drop_last());
    }
}

proof fn lemma_all_digits_drop_last(s: Seq<char>)
    requires
        all_digits(s),
        s.len() > 0,
    ensures
        all_digits(s.drop_last()),
{
    assert forall|j: int| 0 <= j < s.drop_last().len() implies is_digit_char(
        s.drop_last()[j],
    ) by {
        assert(s.drop_last()[j] == s[j]);
    }
}

proof fn lemma_val_shape(s: Seq<char>, z: int)
    requires
        all_digits(s),
        0 <= z,
        digits_val(s) == pow10(z as nat),
    ensures
        power_shape(s, z),
    decreases s.len(),
{
    lemma_pow10_pos(z as nat);
    if z >= s.len() {
        lemma_digits_val_bounds(s);
        if z > s.len() {
            lemma_pow10_increases(s.len(), z as nat);
        }
        assert(false);
    }
    lemma_all_digits_drop_last(s);
    lemma_digits_val_bounds(s.drop_last());
    assert(is_digit_char(s[s.len() - 1]));
    assert(0 <= digit_val(s.last()) <= 9);
    if z == 0 {
        // value one: the last digit is '1' and the rest are zeros
        assert(digits_val(s.drop_last()) == 0 && digit_val(s.last()) == 1);
        lemma_val_all_zeros(s.drop_last());
        assert(s.last() == '1');
        assert forall|j: int| 0 <= j < s.len() && j != s.len() - 1 implies s[j] == '0' by {
            assert(s[j] == s.drop_last()[j]);
        }
    } else {
        // a multiple of ten: the last digit is '0'
        assert(pow10(z as nat) == 10 * pow10((z - 1) as nat));
        assert(digit_val(s.last()) == 10 * (pow10((z - 1) as nat) - digits_val(s.drop_last())));
        assert(digit_val(s.last()) == 0 && digits_val(s.drop_last()) == pow10((z - 1) as nat));
        assert(s.last() == '0');
        lemma_val_shape(s.drop_last(), z - 1);
        assert(s[s.len() - 1 - z] == s.drop_last()[s.drop_last().len() - 1 - (z - 1)]);
        assert forall|j: int| 0 <= j < s.len() && j != s.len() - 1 - z implies s[j] == '0' by {
            if j < s.len() - 1 {
                assert(s[j] == s.drop_last()[j]);
            }
        }
    }
}

proof fn lemma_val_all_zeros(s: Seq<char>)
    requires
        all_digits(s),
        digits_val(s) == 0,
    ensures
        forall|j: int| 0 <= j < s.len() ==> s[j] == '0',
    decreases s.len(),
{
    if s.len() > 0 {
        lemma_all_digits_drop_last(s);
        lemma_digits_val_bounds(s.drop_last());
        assert(is_digit_char(s[s.len() - 1]));
        assert(digits_val(s.drop_last()) == 0 && digit_val(s.last()) == 0);
        assert(s.last() == '0');
        lemma_val_all_zeros(s.drop_last());
        assert forall|j: int| 0 <= j < s.len() implies s[j] == '0' by {
            if j < s.len() - 1 {
                assert(s[j] == s.drop_last()[j]);
            }
        }
    }
}

proof fn lemma_pow10_20()
    ensures
        pow10(20) == 100000000000000000000,
        pow10(21) == 1000000000000000000000,
{
    reveal_with_fuel(pow10, 22);
}

/// Nothing that is not a power-of-ten numeral scales to one.
proof fn lemma_not_power_not_one(s: Seq<char>, f: int, e: int)
    requires
        all_digits(s),
        forall|z: int| !power_shape(s, z),
    ensures
        !scaled_to_one(digits_val(s), f, e),
{
    let m = digits_val(s);
    lemma_digits_val_bounds(s);
    if e - f >= 0 {
        if m * pow10((e - f) as nat) == 1 {
            lemma_pow10_pos((e - f) as nat);
            if e == f {
                assert((e - f) as nat == 0);
                assert(pow10(0) == 1);
                assert(m == 1);
                lemma_val_shape(s, 0);
            } else {
                assert(pow10((e - f) as nat) >= 10) by {
                    assert(pow10((e - f) as nat) == 10 * pow10((e - f - 1) as nat));
                    lemma_pow10_pos((e - f - 1) as nat);
                }
                let p = pow10((e - f) as nat);
                assert(false) by (nonlinear_arith)
                    requires
                        m >= 0,
                        p >= 10,
                        m * p == 1,
                ;
            }
        }
    } else {
        if m == pow10((f - e) as nat) {
            lemma_val_shape(s, f - e);
        }
    }
}

/// A power-of-ten numeral scales to one exactly when the exponent puts its
/// '1' at the units place.
proof fn lemma_power_scaling(s: Seq<char>, z: int, f: int, e: int)
    requires
        all_digits(s),
        power_shape(s, z),
    ensures
        scaled_to_one(digits_val(s), f, e) == (e == f - z),
{
    let m = digits_val(s);
    lemma_shape_val(s, z);
    lemma_pow10_pos(z as nat);
    if e - f >= 0 {
        if e == f && z == 0 {
            // m == 1 and the scale is one
        } else if m * pow10((e - f) as nat) == 1 {
            if e == f {
                // m == pow10(z) >= 10 when z >= 1
                lemma_pow10_increases(0, z as nat);
            } else {
                assert(pow10((e - f) as nat) >= 10) by {
                    lemma_pow10_increases(0, (e - f) as nat);
                }
                assert(m * pow10((e - f) as nat) >= 10) by (nonlinear_arith)
                    requires
                        m >= 1,
                        pow10((e - f) as nat) >= 10,
                ;
            }
        }
    } else {
        if z != f - e {
            if z < f - e {
                lemma_pow10_increases(z as nat, (f - e) as nat);
            } else {
                lemma_pow10_increases((f - e) as nat, z as nat);
            }
        }
    }
}

/// The characters of `s`, in order.
pub fn chars_of(s: &str) -> (r: Vec<char>)
    ensures
        r@ == s@,
{
    let n = s.unicode_len();
    let mut r: Vec<char> = Vec::new();
    let mut i: usize = 0;
    while i < n
        invariant
            n == s@.len(),
            i <= n,
            r@ == s@.take(i as int),
        decreases n - i,
    {
        r.push(s.get_char(i));
        proof {
            assert(s@.take(i + 1 as int) =~= s@.take(i as int).push(s@[i as int]));
        }
        i = i + 1;
    }
    proof {
        assert(s@.take(n as int) =~= s@);
    }
    r
}

/// Whether `c` is one of the whitespace characters the game strips.
pub fn is_space(c: char) -> (r: bool)
    ensures
        r == is_space_char(c),
{
    ('\u{09}' <= c && c <= '\u{0d}') || c == ' ' || c == '\u{85}' || c == '\u{a0}'
        || c == '\u{1680}' || ('\u{2000}' <= c && c <= '\u{200a}') || c == '\u{2028}'
        || c == '\u{2029}' || c == '\u{202f}' || c == '\u{205f}' || c == '\u{3000}'
}

/// ASCII lowercasing of a text, character by character.
pub fn lower_chars(s: &Vec<char>) -> (r: Vec<char>)
    ensures
        r@ == lower_spec(s@),
{
    let mut r: Vec<char> = Vec::new();
    let mut i: usize = 0;
    while i < s.len()
        invariant
            i <= s@.len(),
            r@.len() == i,
            forall|j: int| 0 <= j < i ==> r@[j] == lower_char_spec(s@[j]),
        decreases s@.len() - i,
    {
        let c = s[i];
        let lc: char = if 'A' <= c && c <= 'Z' {
            ((c as u8) + 32) as char
        } else if c == '\u{212a}' {
            'k'
        } else {
            c
        };
        r.push(lc);
        i = i + 1;
    }
    proof {
        assert(r@ =~= lower_spec(s@));
    }
    r
}

/// `s` without its leading and trailing whitespace.
pub fn trim_chars(s: &Vec<char>) -> (r: Vec<char>)
    ensures
        r@ == trim_spec(s@),
{
    let n = s.len();
    let mut a: usize = 0;
    while a < n && is_space(s[a])
        invariant
            n == s@.len(),
            a <= n,
            forall|j: int| 0 <= j < a ==> is_space_char(s@[j]),
        decreases n - a,
    {
        a = a + 1;
    }
    proof {
        lemma_ltrim_amount(s@, a as int);
    }
    if a == n {
        // all whitespace: the trimmed text is empty
        proof {
            if n > 0 {
                lemma_rtrim_amount(s@, n as int);
            }
        }
        let r: Vec<char> = Vec::new();
        proof {
            assert(r@ =~= trim_spec(s@));
        }
        return r;
    }
    let mut b: usize = n;
    while b > a && is_space(s[b - 1])
        invariant
            n == s@.len(),
            a <= b <= n,
            !is_space_char(s@[a as int]),
            forall|j: int| b <= j < n ==> is_space_char(s@[j]),
        decreases b,
    {
        b = b - 1;
    }
    proof {
        // the scan stopped either at `a`, whose character is not whitespace,
        // or at a non-whitespace character just left of `b`
        lemma_rtrim_amount(s@, n - b as int);
    }
    let mut r: Vec<char> = Vec::new();
    let mut i: usize = a;
    while i < b
        invariant
            a <= i <= b <= n,
            n == s@.len(),
            r@ == s@.subrange(a as int, i as int),
        decreases b - i,
    {
        r.push(s[i]);
        proof {
            assert(s@.subrange(a as int, i + 1 as int)
                =~= s@.subrange(a as int, i as int).push(s@[i as int]));
        }
        i = i + 1;
    }
    proof {
        assert(r@ =~= trim_spec(s@));
    }
    r
}

/// Whether the two texts are equal.
pub fn eq_chars(a: &Vec<char>, b: &Vec<char>) -> (r: bool)
    ensures
        r == (a@ == b@),
{
    if a.len() != b.len() {
        return false;
    }
    let mut i: usize = 0;
    while i < a.len()
        invariant
            a@.len() == b@.len(),
            i <= a@.len(),
            forall|j: int| 0 <= j < i ==> a@[j] == b@[j],
        decreases a@.len() - i,
    {
        if a[i] != b[i] {
            return false;
        }
        i = i + 1;
    }
    proof {
        assert(a@ =~= b@);
    }
    true
}

/// Whether `needle` occurs in `hay` starting exactly at position `k`.
fn matches_at(hay: &Vec<char>, needle: &Vec<char>, k: usize) -> (r: bool)
    requires
        k + needle@.len() <= hay@.len(),
    ensures
        r == match_at(hay@, needle@, k as int),
{
    let hn = hay.len();
    proof {
        assert(hn == hay@.len());
    }
    let mut j: usize = 0;
    while j < needle.len()
        invariant
            hn == hay@.len(),
            k + needle@.len() <= hn,
            j <= needle@.len(),
            forall|j2: int| 0 <= j2 < j ==> hay@[k + j2] == needle@[j2],
        decreases needle@.len() - j,
    {
        if hay[k + j] != needle[j] {
            return false;
        }
        j = j + 1;
    }
    true
}

/// Whether `needle` occurs anywhere in `hay`.
pub fn contains_chars(hay: &Vec<char>, needle: &Vec<char>) -> (r: bool)
    ensures
        r == contains_spec(hay@, needle@),
{
    if needle.len() > hay.len() {
        return false;
    }
    if needle.len() == 0 {
        proof {
            assert(match_at(hay@, needle@, 0));
        }
        return true;
    }
    let hn = hay.len();
    let nn = needle.len();
    let last = hn - nn;
    let mut k: usize = 0;
    while k <= last
        invariant
            hn == hay@.len(),
            nn == needle@.len(),
            0 < nn <= hn,
            last == hn - nn,
            k <= last + 1,
            forall|k2: int| 0 <= k2 < k ==> !match_at(hay@, needle@, k2),
        decreases last + 1 - k,
    {
        if matches_at(hay, needle, k) {
            return true;
        }
        k = k + 1;
    }
    false
}

/// Parses what follows an exponent marker at `ei`: an optional sign, then
/// at least one digit.  Returns whether the part is well formed, the sign,
/// whether the magnitude has at least twenty-one significant digits (and so
/// reaches ten to the twentieth), and otherwise the exact magnitude.
#[verifier::loop_isolation(false)]
fn parse_exponent(t: &Vec<char>, ei: usize) -> (r: (bool, bool, bool, u128))
    requires
        ei < t@.len(),
    ensures
        r.0 == exp_ok(t@.skip(ei + 1)),
        r.0 && !r.2 ==> (r.3 as int) < pow10(20) && exp_value(t@.skip(ei + 1)) == if r.1 {
            -(r.3 as int)
        } else {
            r.3 as int
        },
        r.0 && r.2 && r.1 ==> exp_value(t@.skip(ei + 1)) <= -pow10(20),
        r.0 && r.2 && !r.1 ==> exp_value(t@.skip(ei + 1)) >= pow10(20),
{
    let n = t.len();
    let ghost ex: Seq<char> = t@.skip(ei + 1);
    let mut neg = false;
    let mut es = ei + 1;
    if es < n && (t[es] == '+' || t[es] == '-') {
        neg = t[es] == '-';
        es = es + 1;
    }
    let ghost body: Seq<char> = strip_sign(ex);
    proof {
        assert(body =~= t@.skip(es as int));
        lemma_pow10_20();
    }
    if es == n {
        return (false, false, false, 0);
    }
    let mut j = es;
    while j < n
        invariant
            es <= j <= n,
            forall|k: int| es <= k < j ==> is_digit_char(t@[k]),
        decreases n - j,
    {
        let c = t[j];
        if !('0' <= c && c <= '9') {
            proof {
                assert(body[j - es] == t@[j as int]);
            }
            return (false, false, false, 0);
        }
        j = j + 1;
    }
    proof {
        assert(forall|k: int| 0 <= k < body.len() ==> body[k] == t@[es + k]);
        assert(all_digits(body));
    }
    // skip the magnitude's leading zeros
    let mut zs = es;
    while zs < n && t[zs] == '0'
        invariant
            es <= zs <= n,
            forall|k: int| es <= k < zs ==> t@[k] == '0',
        decreases n - zs,
    {
        zs = zs + 1;
    }
    let ghost sig: Seq<char> = body.skip(zs - es as int);
    proof {
        assert(sig =~= t@.skip(zs as int));
        lemma_leading_zeros_val(body, zs - es as int);
    }
    if n - zs > 20 {
        proof {
            lemma_digits_val_lower(sig);
            lemma_pow10_le(20, (sig.len() - 1) as nat);
        }
        return (true, neg, true, 0);
    }
    let mut mag: u128 = 0;
    let mut k2 = zs;
    while k2 < n
        invariant
            zs <= k2 <= n,
            n - zs <= 20,
            mag == digits_val(t@.subrange(zs as int, k2 as int)),
            mag < pow10((k2 - zs) as nat),
        decreases n - k2,
    {
        let c = t[k2];
        let d: u128 = (c as u32 - 48) as u128;
        proof {
            lemma_pow10_20();
            lemma_pow10_le((k2 - zs) as nat, 20);
            assert(t@.subrange(zs as int, k2 + 1 as int).drop_last() =~= t@.subrange(
                zs as int,
                k2 as int,
            ));
            assert(pow10((k2 + 1 - zs) as nat) == 10 * pow10((k2 - zs) as nat));
        }
        mag = mag * 10 + d;
        k2 = k2 + 1;
    }
    proof {
        assert(sig =~= t@.subrange(zs as int, n as int));
        assert(mag == digits_val(body));
        lemma_pow10_le((n - zs) as nat, 20);
    }
    (true, neg, false, mag)
}

/// Collects the digits of the mantissa `t[start..ei]`, dropping its one
/// optional '.', and counts its fraction digits.  Nothing is returned when
/// any other character occurs.
#[verifier::loop_isolation(false)]
fn collect_mantissa(t: &Vec<char>, start: usize, ei: usize) -> (r: Option<(Vec<char>, usize)>)
    requires
        start <= ei <= t@.len(),
    ensures
        match r {
            Some(p) => {
                let mant = t@.subrange(start as int, ei as int);
                &&& p.0@ == mantissa_digits(mant)
                &&& all_digits(p.0@)
                &&& p.0@.len() <= ei - start
                &&& p.1 <= ei - start
                &&& p.1 as int == frac_len(mant)
            },
            None => !mantissa_ok(t@.subrange(start as int, ei as int)),
        },
{
    let ghost mant: Seq<char> = t@.subrange(start as int, ei as int);
    // find the first dot
    let mut dabs: usize = start;
    while dabs < ei && t[dabs] != '.'
        invariant
            start <= dabs <= ei,
            forall|j: int| start <= j < dabs ==> t@[j] != '.',
        decreases ei - dabs,
    {
        dabs = dabs + 1;
    }
    proof {
        lemma_first_dot_idx(mant, dabs - start as int);
    }
    let ghost dr: int = dabs - start as int;
    let ghost md: Seq<char> = mantissa_digits(mant);
    proof {
        if dr == mant.len() {
            assert(md =~= mant);
        }
        assert(forall|j: int| 0 <= j < dr ==> md[j] == t@[start + j]);
        assert(forall|j: int| dr <= j < md.len() ==> md[j] == t@[start + j + 1]);
    }
    let fr: usize = if dabs < ei {
        ei - dabs - 1
    } else {
        0
    };
    let mut dg: Vec<char> = Vec::new();
    let mut j2: usize = start;
    while j2 < ei
        invariant
            start <= j2 <= ei,
            j2 <= dabs || dg@.len() == j2 - start - 1,
            j2 > dabs || dg@.len() == j2 - start,
            forall|k: int| 0 <= k < dg@.len() ==> dg@[k] == md[k] && is_digit_char(md[k]),
        decreases ei - j2,
    {
        let c = t[j2];
        if j2 == dabs {
            // the one '.' of the mantissa holds no digit
        } else if '0' <= c && c <= '9' {
            dg.push(c);
        } else {
            proof {
                let k = if j2 < dabs {
                    j2 - start as int
                } else {
                    j2 - start - 1 as int
                };
                assert(md[k] == t@[j2 as int]);
                assert(!is_digit_char(md[k]));
                assert(!all_digits(md));
            }
            return None;
        }
        j2 = j2 + 1;
    }
    proof {
        assert(dg@ =~= md);
    }
    Some((dg, fr))
}

/// Finds the single '1' of a digit string that spells a power of ten, as
/// the count of zeros after it; a string of any other shape spells none.
#[verifier::loop_isolation(false)]
fn find_power_shape(dg: &Vec<char>) -> (r: Option<usize>)
    requires
        all_digits(dg@),
    ensures
        match r {
            Some(z) => z < dg@.len() && power_shape(dg@, z as int),
            None => forall|zz: int| !power_shape(dg@, zz),
        },
{
    let mut one_at: usize = 0;
    let mut seen_one = false;
    let mut k3: usize = 0;
    while k3 < dg.len()
        invariant
            k3 <= dg@.len(),
            seen_one ==> one_at < k3 && dg@[one_at as int] == '1',
            forall|k: int| 0 <= k < k3 && (!seen_one || k != one_at) ==> dg@[k] == '0',
        decreases dg@.len() - k3,
    {
        let c = dg[k3];
        if c == '1' && !seen_one {
            seen_one = true;
            one_at = k3;
        } else if c != '0' {
            proof {
                assert forall|zz: int| !power_shape(dg@, zz) by {
                    if power_shape(dg@, zz) {
                        assert(dg@[k3 as int] == '0' || k3 as int == dg@.len() - 1 - zz);
                        if seen_one {
                            assert(dg@[one_at as int] == '0' || one_at as int == dg@.len() - 1
                                - zz);
                        }
                    }
                }
            }
            return None;
        }
        k3 = k3 + 1;
    }
    if !seen_one {
        proof {
            assert forall|zz: int| !power_shape(dg@, zz) by {
                if power_shape(dg@, zz) {
                    assert(dg@[dg@.len() - 1 - zz] == '0');
                }
            }
        }
        return None;
    }
    let z = dg.len() - 1 - one_at;
    proof {
        assert(power_shape(dg@, z as int));
    }
    Some(z)
}

/// Whether the submitted text, once trimmed, is a decimal numeral (an
/// optional leading '+', digits with at most one '.', an optional exponent
/// part) whose exact decimal value is one.
#[verifier::loop_isolation(false)]
#[verifier::rlimit(50)]
pub fn parses_to_one(s: &str) -> (r: bool)
    ensures
        r == is_one_text(s@),
{
    let cs = chars_of(s);
    let t = trim_chars(&cs);
    let n = t.len();
    let start: usize = if n > 0 && t[0] == '+' {
        1
    } else {
        0
    };
    let ghost u: Seq<char> = strip_plus(t@);
    proof {
        assert(u =~= t@.skip(start as int));
    }
    // find the exponent marker
    let mut ei: usize = start;
    while ei < n && t[ei] != 'e' && t[ei] != 'E'
        invariant
            start <= ei <= n,
            forall|j: int| start <= j < ei ==> t@[j] != 'e' && t@[j] != 'E',
        decreases n - ei,
    {
        ei = ei + 1;
    }
    proof {
        lemma_first_exp_idx(u, ei - start as int);
    }
    let ghost eir: int = ei - start as int;
    let ghost mant: Seq<char> = u.take(eir);
    proof {
        assert(mant =~= t@.subrange(start as int, ei as int));
    }
    let ghost e_spec: int = if eir == u.len() {
        0int
    } else {
        exp_value(u.skip(eir + 1))
    };
    // the exponent part, if any
    let mut e_neg = false;
    let mut e_huge = false;
    let mut e_mag: u128 = 0;
    if ei < n {
        let (ok, neg, huge, mag) = parse_exponent(&t, ei);
        proof {
            assert(u.skip(eir + 1) =~= t@.skip(ei + 1));
        }
        if !ok {
            return false;
        }
        e_neg = neg;
        e_huge = huge;
        e_mag = mag;
    }
    // the mantissa's digits and fraction length
    let (dg, fr) = match collect_mantissa(&t, start, ei) {
        Some(p) => p,
        None => {
            return false;
        },
    };
    let ghost f: int = frac_len(mant);
    if dg.len() == 0 {
        // no digit at all: not a numeral
        return false;
    }
    // a value of one demands the digits spell a power of ten: a single '1'
    // among zeros
    let z = match find_power_shape(&dg) {
        Some(z) => z,
        None => {
            proof {
                lemma_not_power_not_one(dg@, f, e_spec);
            }
            return false;
        },
    };
    proof {
        lemma_shape_val(dg@, z as int);
        lemma_pow10_pos(z as nat);
        lemma_pow10_20();
        assert(n as int <= u64::MAX as int);
        assert(dg@.len() <= n);
        assert(f <= n);
        assert(n < pow10(20));
    }
    if e_huge {
        // the exponent's magnitude exceeds every digit position
        proof {
            if e_neg {
                lemma_digits_val_bounds(dg@);
                lemma_pow10_increases(dg@.len() as nat, (f - e_spec) as nat);
            } else {
                let m = digits_val(dg@);
                let p = pow10((e_spec - f) as nat);
                assert(p >= 10) by {
                    assert(pow10((e_spec - f) as nat) == 10 * pow10((e_spec - f - 1) as nat));
                    lemma_pow10_pos((e_spec - f - 1) as nat);
                }
                assert(m >= 1);
                assert(m * p != 1) by (nonlinear_arith)
                    requires
                        m >= 1,
                        p >= 10,
                ;
            }
        }
        return false;
    }
    // the exponent must put the '1' exactly at the units place
    let fz: i128 = (fr as i128) - (z as i128);
    let ev: i128 = if e_neg {
        -(e_mag as i128)
    } else {
        e_mag as i128
    };
    proof {
        assert(e_spec == ev as int);
        lemma_power_scaling(dg@, z as int, f, e_spec);
    }
    ev == fz
}

/// The decimal digit character for `d`.
pub open spec fn digit_char(d: int) -> char {
    if d == 0 {
        '0'
    } else if d == 1 {
        '1'
    } else if d == 2 {
        '2'
    } else if d == 3 {
        '3'
    } else if d == 4 {
        '4'
    } else if d == 5 {
        '5'
    } else if d == 6 {
        '6'
    } else if d == 7 {
        '7'
    } else if d == 8 {
        '8'
    } else {
        '9'
    }
}

/// The decimal digits of `n`, most significant first.
pub open spec fn dec_spec(n: int) -> Seq<char>
    recommends
        n >= 0,
    decreases n,
{
    if n < 10 {
        seq![digit_char(n)]
    } else {
        dec_spec(n / 10).push(digit_char(n % 10))
    }
}

/// The decimal rendering of `n`.
pub fn usize_string(n: usize) -> (r: String)
    ensures
        r@ == dec_spec(n as int),
    decreases n,
{
    let d = n % 10;
    let ds: &str = if d == 0 {
        "0"
    } else if d == 1 {
        "1"
    } else if d == 2 {
        "2"
    } else if d == 3 {
        "3"
    } else if d == 4 {
        "4"
    } else if d == 5 {
        "5"
    } else if d == 6 {
        "6"
    } else if d == 7 {
        "7"
    } else if d == 8 {
        "8"
    } else {
        "9"
    };
    proof {
        reveal_strlit("0");
        reveal_strlit("1");
        reveal_strlit("2");
        reveal_strlit("3");
        reveal_strlit("4");
        reveal_strlit("5");
        reveal_strlit("6");
        reveal_strlit("7");
        reveal_strlit("8");
        reveal_strlit("9");
        assert(ds@ =~= seq![digit_char(d as int)]);
    }
    if n < 10 {
        ds.to_owned()
    } else {
        let mut r = usize_string(n / 10);
        r.append(ds);
        proof {
            assert(r@ =~= dec_spec(n as int));
        }
        r
    }
}

} // verus!
