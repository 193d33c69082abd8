//! Low-level text machinery: character vectors, string equality, decimal
//! digits, and substring search, all specified over `Seq<char>`.

use vstd::prelude::*;

verus! {

/// The characters of `s`, as a vector.
pub fn chars_of(s: &str) -> (r: Vec<char>)
    ensures
        r@ == s@,
{
    let n = s.unicode_len();
    let mut r: Vec<char> = Vec::new();
    let mut i: usize = 0;
    while i < n
        invariant
            n == s@.len(),
            i <= n,
            r@ =~= s@.subrange(0, i as int),
        decreases n - i,
    {
        r.push(s.get_char(i));
        i = i + 1;
    }
    proof {
        assert(r@ =~= s@);
    }
    r
}

/// Relies on std's `FromIterator` impl for `String`: collecting characters
/// yields the string made of exactly those characters, in order.
#[verifier::external_body]
pub fn string_of(v: &Vec<char>) -> (r: String)
    ensures
        r@ == v@,
{
    v.iter().collect()
}

/// Character-wise string equality.
pub fn str_eq(a: &str, b: &str) -> (r: bool)
    ensures
        r == (a@ == b@),
{
    let na = a.unicode_len();
    let nb = b.unicode_len();
    if na != nb {
        proof {
            assert(a@ != b@) by {
                assert(a@.len() != b@.len());
            }
        }
        return false;
    }
    let mut i: usize = 0;
    while i < na
        invariant
            na == a@.len(),
            na == b@.len(),
            i <= na,
            forall|j: int| 0 <= j < i ==> a@[j] == b@[j],
        decreases na - i,
    {
        if a.get_char(i) != b.get_char(i) {
            return false;
        }
        i = i + 1;
    }
    proof {
        assert(a@ =~= b@);
    }
    true
}

/// Whether `c` is one of the four whitespace characters the codec skips.
pub open spec fn is_ws(c: char) -> bool {
    c == ' ' || c == '\t' || c == '\n' || c == '\r'
}

/// Whether `c` is a decimal digit.
pub open spec fn is_digit(c: char) -> bool {
    48 <= c as u32 && c as u32 <= 57
}

/// The numeric value of a decimal digit character.
pub open spec fn digit_val(c: char) -> nat {
    (c as u32 - 48) as nat
}

/// The digit character for a value below ten.
pub open spec fn digit_char(d: nat) -> char {
    if d == 0 {
        '0'
    } else if d == 1 {
        '1'
    } else if d == 2 {
        '2'
    } else if d == 3 {
        '3'
    } else if d == 4 {
        '4'
    } else if d == 5 {
        '5'
    } else if d == 6 {
        '6'
    } else if d == 7 {
        '7'
    } else if d == 8 {
        '8'
    } else {
        '9'
    }
}

/// The value of a sequence of decimal digit characters, most significant
/// first.
pub open spec fn num_of(s: Seq<char>) -> nat
    decreases s.len(),
{
    if s.len() == 0 {
        0
    } else {
        num_of(s.drop_last()) * 10 + digit_val(s.last())
    }
}

/// The decimal representation of `n`, without leading zeros (except for the
/// number zero itself).
pub open spec fn dec_digits(n: nat) -> Seq<char>
    decreases n,
{
    if n < 10 {
        seq![digit_char(n)]
    } else {
        dec_digits(n / 10) + seq![digit_char(n % 10)]
    }
}

fn digit_char_exec(d: u64) -> (c: char)
    requires
        d < 10,
    ensures
        c == digit_char(d as nat),
{
    if d == 0 {
        '0'
    } else if d == 1 {
        '1'
    } else if d == 2 {
        '2'
    } else if d == 3 {
        '3'
    } else if d == 4 {
        '4'
    } else if d == 5 {
        '5'
    } else if d == 6 {
        '6'
    } else if d == 7 {
        '7'
    } else if d == 8 {
        '8'
    } else {
        '9'
    }
}

/// The decimal digits of `n`, as characters.
pub fn u64_digits(n: u64) -> (r: Vec<char>)
    ensures
        r@ == dec_digits(n as nat),
    decreases n,
{
    if n < 10 {
        let mut r: Vec<char> = Vec::new();
        r.push(digit_char_exec(n));
        proof {
            assert(r@ =~= dec_digits(n as nat));
        }
        r
    } else {
        let mut r = u64_digits(n / 10);
        r.push(digit_char_exec(n % 10));
        proof {
            assert(r@ =~= dec_digits(n as nat));
        }
        r
    }
}

/// Whether `key` occurs in `s` starting at index `i`.
pub open spec fn occurs_at(s: Seq<char>, key: Seq<char>, i: int) -> bool {
    0 <= i && i + key.len() <= s.len() && s.subrange(i, i + key.len() as int) == key
}

/// The first index at or after `i` where `key` occurs in `s`.
pub open spec fn find_from(s: Seq<char>, key: Seq<char>, i: nat) -> Option<nat>
    decreases s.len() - i,
{
    if key.len() == 0 {
        if i <= s.len() {
            Some(i)
        } else {
            None
        }
    } else if i + key.len() > s.len() {
        None
    } else if occurs_at(s, key, i as int) {
        Some(i)
    } else {
        find_from(s, key, (i + 1) as nat)
    }
}

/// Whether `key` occurs anywhere in `s`.
pub open spec fn contains_seq(s: Seq<char>, key: Seq<char>) -> bool {
    find_from(s, key, 0) is Some
}

pub fn match_at(s: &Vec<char>, key: &Vec<char>, i: usize) -> (r: bool)
    requires
        i + key@.len() <= s@.len(),
    ensures
        r == occurs_at(s@, key@, i as int),
{
    let n = s.len();
    let mut j: usize = 0;
    while j < key.len()
        invariant
            n == s@.len(),
            i + key@.len() <= s@.len(),
            j <= key@.len(),
            forall|k: int| 0 <= k < j ==> s@[i + k] == key@[k],
        decreases key@.len() - j,
    {
        if s[i + j] != key[j] {
            proof {
                assert(s@.subrange(i as int, i + key@.len() as int)[j as int] != key@[j as int]);
            }
            return false;
        }
        j = j + 1;
    }
    proof {
        assert(s@.subrange(i as int, i + key@.len() as int) =~= key@);
    }
    true
}

/// The first index at or after `from` where `key` occurs in `s`.
pub fn find_key(s: &Vec<char>, key: &Vec<char>, from: usize) -> (r: Option<usize>)
    ensures
        match r {
            Some(i) => find_from(s@, key@, from as nat) == Some(i as nat),
            None => find_from(s@, key@, from as nat) is None,
        },
    decreases s@.len() - from,
{
    if from > s.len() || key.len() > s.len() - from {
        return None;
    }
    if key.len() == 0 {
        proof {
            assert(s@.subrange(from as int, from as int) =~= key@);
        }
        return Some(from);
    }
    if match_at(s, key, from) {
        Some(from)
    } else {
        find_key(s, key, from + 1)
    }
}

/// If a key is found at `j`, the occurrence lies within the text.
pub proof fn lemma_find_from_in_bounds(s: Seq<char>, key: Seq<char>, i: nat)
    ensures
        match find_from(s, key, i) {
            Some(j) => i <= j && j + key.len() <= s.len(),
            None => true,
        },
    decreases s.len() - i,
{
    if key.len() == 0 {
    } else if i + key.len() > s.len() {
    } else if occurs_at(s, key, i as int) {
    } else {
        lemma_find_from_in_bounds(s, key, (i + 1) as nat);
    }
}

/// The characters `s[a..b)`, as a vector.
pub fn sub_chars(s: &Vec<char>, a: usize, b: usize) -> (r: Vec<char>)
    requires
        a <= b <= s@.len(),
    ensures
        r@ == s@.subrange(a as int, b as int),
{
    let mut r: Vec<char> = Vec::new();
    let mut i: usize = a;
    while i < b
        invariant
            a <= i <= b <= s@.len(),
            r@ =~= s@.subrange(a as int, i as int),
        decreases b - i,
    {
        r.push(s[i]);
        i = i + 1;
    }
    proof {
        assert(r@ =~= s@.subrange(a as int, b as int));
    }
    r
}

/// The first index at or after `i` that holds a non-whitespace character, or
/// the length of `s`.
pub open spec fn skip_ws_spec(s: Seq<char>, i: nat) -> nat
    decreases s.len() - i,
{
    if i >= s.len() {
        s.len()
    } else if is_ws(s[i as int]) {
        skip_ws_spec(s, (i + 1) as nat)
    } else {
        i
    }
}

fn is_ws_exec(c: char) -> (r: bool)
    ensures
        r == is_ws(c),
{
    c == ' ' || c == '\t' || c == '\n' || c == '\r'
}

/// Skips whitespace from index `i`.
pub fn skip_ws(s: &Vec<char>, i: usize) -> (r: usize)
    requires
        i <= s@.len(),
    ensures
        r == skip_ws_spec(s@, i as nat),
        i <= r <= s@.len(),
    decreases s@.len() - i,
{
    if i >= s.len() {
        s.len()
    } else if is_ws_exec(s[i]) {
        skip_ws(s, i + 1)
    } else {
        i
    }
}

/// The end of the run of digit characters that starts at `i`.
pub open spec fn digits_end_spec(s: Seq<char>, i: nat) -> nat
    decreases s.len() - i,
{
    if i >= s.len() {
        i
    } else if is_digit(s[i as int]) {
        digits_end_spec(s, (i + 1) as nat)
    } else {
        i
    }
}

fn is_digit_exec(c: char) -> (r: bool)
    ensures
        r == is_digit(c),
{
    let v = c as u32;
    48 <= v && v <= 57
}

/// Finds the end of the digit run starting at `i`.
pub fn digits_end(s: &Vec<char>, i: usize) -> (r: usize)
    requires
        i <= s@.len(),
    ensures
        r == digits_end_spec(s@, i as nat),
        i <= r <= s@.len(),
    decreases s@.len() - i,
{
    if i >= s.len() {
        i
    } else if is_digit_exec(s[i]) {
        digits_end(s, i + 1)
    } else {
        i
    }
}

/// The value of the digit run `s[i..end)`, provided it fits in a `u64`.
pub fn parse_u64(s: &Vec<char>, i: usize, end: usize) -> (r: Option<u64>)
    requires
        i <= end <= s@.len(),
        forall|j: int| i <= j < end ==> is_digit(s@[j]),
    ensures
        match r {
            Some(v) => v == num_of(s@.subrange(i as int, end as int)),
            None => num_of(s@.subrange(i as int, end as int)) > u64::MAX,
        },
{
    let mut acc: u64 = 0;
    let mut j: usize = i;
    proof {
        assert(s@.subrange(i as int, i as int) =~= Seq::<char>::empty());
    }
    while j < end
        invariant
            i <= j <= end <= s@.len(),
            forall|k: int| i <= k < end ==> is_digit(s@[k]),
            acc == num_of(s@.subrange(i as int, j as int)),
        decreases end - j,
    {
        let c = s[j];
        let d: u64 = (c as u32 - 48) as u64;
        proof {
            assert(is_digit(s@[j as int]));
            assert(d == digit_val(s@[j as int]));
        }
        if acc > (u64::MAX - d) / 10 {
            proof {
                lemma_num_of_monotone(s@, i as nat, (j + 1) as nat, end as nat);
                assert(s@.subrange(i as int, j + 1).drop_last() =~= s@.subrange(
                    i as int,
                    j as int,
                ));
                assert(s@.subrange(i as int, j + 1).last() == s@[j as int]);
                assert(num_of(s@.subrange(i as int, j + 1)) == acc * 10 + d);
            }
            return None;
        }
        proof {
            assert(s@.subrange(i as int, j + 1).drop_last() =~= s@.subrange(i as int, j as int));
            assert(s@.subrange(i as int, j + 1).last() == s@[j as int]);
        }
        acc = acc * 10 + d;
        j = j + 1;
    }
    Some(acc)
}

/// A longer digit run never has a smaller value: the value of `s[i..m)` is at
/// most the value of `s[i..end)` when `m <= end`.
proof fn lemma_num_of_monotone(s: Seq<char>, i: nat, m: nat, end: nat)
    requires
        i <= m <= end <= s.len(),
    ensures
        num_of(s.subrange(i as int, m as int)) <= num_of(s.subrange(i as int, end as int)),
    decreases end - m,
{
    if m < end {
        lemma_num_of_monotone(s, i, (m + 1) as nat, end);
        assert(s.subrange(i as int, m + 1 as int).drop_last() =~= s.subrange(i as int, m as int));
        assert(num_of(s.subrange(i as int, m + 1 as int)) == num_of(s.subrange(i as int, m as int)) * 10
            + digit_val(s.subrange(i as int, m + 1 as int).last()));
    }
}

} // verus!
