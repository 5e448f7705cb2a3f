//! Small verified text utilities: turning a string slice into its character
//! vector, and formatting a `u64` as its decimal digit string.

use vstd::prelude::*;
use vstd::string::*;

verus! {

/// Converts the given borrowed string slice to a new character vector.
pub fn to_chars(text: &str) -> (chars: Vec<char>)
    ensures
        chars@ == text@,
{
    let n = text.unicode_len();
    let mut chars: Vec<char> = Vec::new();
    let mut i: usize = 0;
    while i < n
        invariant
            n == text@.len(),
            i <= n,
            chars@ == text@.take(i as int),
        decreases n - i,
    {
        let c = text.get_char(i);
        chars.push(c);
        i = i + 1;
        assert(chars@ =~= text@.take(i as int));
    }
    assert(chars@ =~= text@);
    chars
}

/// The character for one decimal digit value.
pub open spec fn digit_char(d: u64) -> char {
    if d == 0 {
        '0'
    } else if d == 1 {
        '1'
    } else if d == 2 {
        '2'
    } else if d == 3 {
        '3'
    } else if d == 4 {
        '4'
    } else if d == 5 {
        '5'
    } else if d == 6 {
        '6'
    } else if d == 7 {
        '7'
    } else if d == 8 {
        '8'
    } else {
        '9'
    }
}

/// The decimal digit string of `n`, most significant digit first, with no
/// leading zeros (and `"0"` for zero itself).
pub open spec fn u64_dec(n: u64) -> Seq<char>
    decreases n,
{
    if n < 10 {
        seq![digit_char(n)]
    } else {
        u64_dec(n / 10).push(digit_char(n % 10))
    }
}

fn digit_char_exec(d: u64) -> (c: char)
    requires
        d < 10,
    ensures
        c == digit_char(d),
{
    if d == 0 {
        '0'
    } else if d == 1 {
        '1'
    } else if d == 2 {
        '2'
    } else if d == 3 {
        '3'
    } else if d == 4 {
        '4'
    } else if d == 5 {
        '5'
    } else if d == 6 {
        '6'
    } else if d == 7 {
        '7'
    } else if d == 8 {
        '8'
    } else {
        '9'
    }
}

/// Relies on `String::push`: appends one character at the end of the string.
#[verifier::external_body]
fn push_char(s: &mut String, c: char)
    ensures
        final(s)@ == old(s)@.push(c),
{
    s.push(c)
}

/// Formats `n` in decimal, most significant digit first.
pub fn u64_to_string(n: u64) -> (s: String)
    ensures
        s@ == u64_dec(n),
{
    let mut digits: Vec<char> = Vec::new();
    let mut m: u64 = n;
    proof {
        assert(u64_dec(n) =~= u64_dec(n) + digits@.reverse());
    }
    loop
        invariant_except_break
            digits@.len() == 0 ==> m == n,
            m == 0 ==> digits@.len() == 0,
            m > 0 ==> u64_dec(n) == u64_dec(m) + digits@.reverse(),
        ensures
            u64_dec(n) == digits@.reverse(),
        decreases m,
    {
        let ghost old_m = m;
        let ghost old_digits = digits@;
        let d = m % 10;
        digits.push(digit_char_exec(d));
        m = m / 10;
        proof {
            assert(digits@.reverse() =~= seq![digit_char(d)] + old_digits.reverse());
            if old_m >= 10 {
                assert(u64_dec(old_m) == u64_dec(old_m / 10).push(digit_char(old_m % 10)));
                assert(u64_dec(m) + digits@.reverse() =~= (u64_dec(m).push(
                    digit_char(d),
                )) + old_digits.reverse());
            } else {
                assert(u64_dec(old_m) =~= seq![digit_char(old_m)]);
                if old_m == 0 {
                    assert(n == 0);
                    assert(old_digits.reverse() =~= Seq::<char>::empty());
                }
                assert(u64_dec(n) =~= digits@.reverse());
            }
        }
        if m == 0 {
            break;
        }
    }
    let mut s = String::new();
    let mut j = digits.len();
    while j > 0
        invariant
            j <= digits@.len(),
            u64_dec(n) == digits@.reverse(),
            s@ == digits@.subrange(j as int, digits@.len() as int).reverse(),
        decreases j,
    {
        j = j - 1;
        let c = digits[j];
        push_char(&mut s, c);
        assert(s@ =~= digits@.subrange(j as int, digits@.len() as int).reverse());
    }
    assert(digits@.subrange(0, digits@.len() as int) =~= digits@);
    s
}

/// Whether `needle` occurs contiguously in `haystack`.
pub open spec fn contains_seq(haystack: Seq<char>, needle: Seq<char>) -> bool {
    exists|i: int|
        0 <= i <= haystack.len() - needle.len() && #[trigger] haystack.subrange(
            i,
            i + needle.len(),
        ) == needle
}

/// Whether `haystack` holds `needle` as a contiguous substring.
pub fn contains_substr(haystack: &str, needle: &str) -> (r: bool)
    ensures
        r == contains_seq(haystack@, needle@),
{
    let h = to_chars(haystack);
    let n = to_chars(needle);
    if n.len() > h.len() {
        return false;
    }
    let limit = h.len() - n.len();
    let mut i: usize = 0;
    while i <= limit
        invariant
            h@ == haystack@,
            n@ == needle@,
            n@.len() <= h@.len(),
            h@.len() <= usize::MAX,
            limit == h@.len() - n@.len(),
            i <= limit + 1,
            forall|x: int|
                0 <= x < i ==> #[trigger] h@.subrange(x, x + n@.len() as int) != n@,
        decreases limit - i + 1,
    {
        let mut j: usize = 0;
        let mut ok = true;
        while ok && j < n.len()
            invariant
                h@ == haystack@,
                n@ == needle@,
                n@.len() <= h@.len(),
                h@.len() <= usize::MAX,
                limit == h@.len() - n@.len(),
                i <= limit,
                j <= n@.len(),
                ok ==> forall|y: int| 0 <= y < j ==> h@[i + y] == n@[y],
                !ok ==> h@.subrange(i as int, i + n@.len() as int) != n@,
                !ok ==> n@.len() > 0,
            decreases n@.len() - j + (if ok {
                1int
            } else {
                0int
            }),
        {
            if h[i + j] != n[j] {
                proof {
                    assert(h@.subrange(i as int, i + n@.len() as int)[j as int] == h@[i + j]);
                }
                ok = false;
            } else {
                j = j + 1;
            }
        }
        if ok {
            proof {
                assert(h@.subrange(i as int, i + n@.len() as int) =~= n@);
            }
            return true;
        }
        i = i + 1;
    }
    false
}

} // verus!
