//! Verified text helpers: decimal rendering of numbers, substring search,
//! whitespace trimming and decimal parsing of user input.

use vstd::prelude::*;

verus! {

/// The decimal digit character for `d` (`d` below ten).
pub open spec fn digit_char(d: nat) -> char {
    if d == 0 {
        '0'
    } else if d == 1 {
        '1'
    } else if d == 2 {
        '2'
    } else if d == 3 {
        '3'
    } else if d == 4 {
        '4'
    } else if d == 5 {
        '5'
    } else if d == 6 {
        '6'
    } else if d == 7 {
        '7'
    } else if d == 8 {
        '8'
    } else {
        '9'
    }
}

/// The usual decimal rendering of `n`, most significant digit first,
/// without sign or leading zeros (a single `'0'` for zero).
pub open spec fn dec_str(n: nat) -> Seq<char>
    decreases n,
{
    if n < 10 {
        seq![digit_char(n)]
    } else {
        dec_str(n / 10) + seq![digit_char(n % 10)]
    }
}

/// Appends the single decimal digit character for `d` to `s`.
fn push_digit(s: &mut String, d: usize)
    requires
        d < 10,
    ensures
        final(s)@ == old(s)@ + seq![digit_char(d as nat)],
{
    proof {
        reveal_strlit("0");
        reveal_strlit("1");
        reveal_strlit("2");
        reveal_strlit("3");
        reveal_strlit("4");
        reveal_strlit("5");
        reveal_strlit("6");
        reveal_strlit("7");
        reveal_strlit("8");
        reveal_strlit("9");
    }
    if d == 0 {
        s.append("0");
    } else if d == 1 {
        s.append("1");
    } else if d == 2 {
        s.append("2");
    } else if d == 3 {
        s.append("3");
    } else if d == 4 {
        s.append("4");
    } else if d == 5 {
        s.append("5");
    } else if d == 6 {
        s.append("6");
    } else if d == 7 {
        s.append("7");
    } else if d == 8 {
        s.append("8");
    } else {
        s.append("9");
    }
    proof {
        assert(final(s)@ =~= old(s)@ + seq![digit_char(d as nat)]);
    }
}

/// Appends the decimal rendering of `n` to `s`.
fn append_decimal(s: &mut String, n: usize)
    ensures
        final(s)@ == old(s)@ + dec_str(n as nat),
    decreases n,
{
    if n < 10 {
        push_digit(s, n);
    } else {
        append_decimal(s, n / 10);
        push_digit(s, n % 10);
        proof {
            assert(final(s)@ =~= old(s)@ + dec_str(n as nat));
        }
    }
}

/// The decimal rendering of `n` as a fresh string.
pub fn usize_to_string(n: usize) -> (s: String)
    ensures
        s@ == dec_str(n as nat),
{
    let mut s = String::new();
    append_decimal(&mut s, n);
    proof {
        assert(s@ =~= dec_str(n as nat));
    }
    s
}

/// `pat` occurs in `s` starting at position `i`.
pub open spec fn occurs_at(s: Seq<char>, pat: Seq<char>, i: int) -> bool {
    0 <= i && i + pat.len() <= s.len() && s.subrange(i, i + pat.len() as int) == pat
}

/// `pat` occurs somewhere in `s`.
pub open spec fn contains_seq(s: Seq<char>, pat: Seq<char>) -> bool {
    exists|i: int| occurs_at(s, pat, i)
}

/// Substring search: whether `pat` occurs in `s`, by characters.
pub fn contains_sub(s: &str, pat: &str) -> (r: bool)
    ensures
        r == contains_seq(s@, pat@),
{
    let n = s.unicode_len();
    let m = pat.unicode_len();
    if m > n {
        return false;
    }
    if m == 0 {
        proof {
            assert(s@.subrange(0, 0) =~= pat@);
            assert(occurs_at(s@, pat@, 0));
        }
        return true;
    }
    let mut i: usize = 0;
    while i <= n - m
        invariant
            1 <= m <= n,
            n == s@.len(),
            m == pat@.len(),
            i <= n - m + 1,
            forall|k: int| 0 <= k < i ==> !occurs_at(s@, pat@, k),
        decreases n - m + 1 - i,
    {
        let mut j: usize = 0;
        let mut ok = true;
        while j < m && ok
            invariant
                m <= n,
                n == s@.len(),
                m == pat@.len(),
                i <= n - m,
                j <= m,
                ok ==> forall|t: int| 0 <= t < j ==> s@[i + t] == pat@[t],
                !ok ==> !occurs_at(s@, pat@, i as int),
            decreases m - j + (if ok { 1int } else { 0int }),
        {
            if s.get_char(i + j) != pat.get_char(j) {
                proof {
                    if occurs_at(s@, pat@, i as int) {
                        assert(s@.subrange(i as int, i + pat@.len() as int)[j as int] == s@[i + j]);
                    }
                }
                ok = false;
            } else {
                j += 1;
            }
        }
        if ok {
            proof {
                assert(s@.subrange(i as int, i + pat@.len() as int) =~= pat@);
                assert(occurs_at(s@, pat@, i as int));
            }
            return true;
        }
        i += 1;
    }
    proof {
        assert forall|k: int| !occurs_at(s@, pat@, k) by {
            if occurs_at(s@, pat@, k) {
                assert(0 <= k && k + m <= n);
            }
        };
    }
    false
}

/// Whether `s` starts with `pat`, by characters.
pub fn has_prefix(s: &str, pat: &str) -> (r: bool)
    ensures
        r == occurs_at(s@, pat@, 0),
{
    let n = s.unicode_len();
    let m = pat.unicode_len();
    if m > n {
        return false;
    }
    let mut j: usize = 0;
    while j < m
        invariant
            m <= n,
            n == s@.len(),
            m == pat@.len(),
            j <= m,
            forall|t: int| 0 <= t < j ==> s@[t] == pat@[t],
        decreases m - j,
    {
        if s.get_char(j) != pat.get_char(j) {
            proof {
                if occurs_at(s@, pat@, 0) {
                    assert(s@.subrange(0, pat@.len() as int)[j as int] == s@[j as int]);
                }
            }
            return false;
        }
        j += 1;
    }
    proof {
        assert(s@.subrange(0, pat@.len() as int) =~= pat@);
    }
    true
}

/// The characters with Unicode's White_Space property: exactly those that
/// `str::trim` removes at either end of a string.
pub open spec fn is_space_char(c: char) -> bool {
    ||| c == ' '
    ||| c == '\t'
    ||| c == '\n'
    ||| c == '\u{0B}'
    ||| c == '\u{0C}'
    ||| c == '\r'
    ||| c == '\u{85}'
    ||| c == '\u{A0}'
    ||| c == '\u{1680}'
    ||| c == '\u{2000}'
    ||| c == '\u{2001}'
    ||| c == '\u{2002}'
    ||| c == '\u{2003}'
    ||| c == '\u{2004}'
    ||| c == '\u{2005}'
    ||| c == '\u{2006}'
    ||| c == '\u{2007}'
    ||| c == '\u{2008}'
    ||| c == '\u{2009}'
    ||| c == '\u{200A}'
    ||| c == '\u{2028}'
    ||| c == '\u{2029}'
    ||| c == '\u{202F}'
    ||| c == '\u{205F}'
    ||| c == '\u{3000}'
}

/// Whether `c` has the White_Space property.
pub fn is_space(c: char) -> (r: bool)
    ensures
        r == is_space_char(c),
{
    c == ' ' || c == '\t' || c == '\n' || c == '\u{0B}' || c == '\u{0C}' || c == '\r'
        || c == '\u{85}' || c == '\u{A0}' || c == '\u{1680}' || c == '\u{2000}' || c == '\u{2001}'
        || c == '\u{2002}' || c == '\u{2003}' || c == '\u{2004}' || c == '\u{2005}'
        || c == '\u{2006}' || c == '\u{2007}' || c == '\u{2008}' || c == '\u{2009}'
        || c == '\u{200A}' || c == '\u{2028}' || c == '\u{2029}' || c == '\u{202F}'
        || c == '\u{205F}' || c == '\u{3000}'
}

/// `s` without its leading whitespace.
pub open spec fn trim_front(s: Seq<char>) -> Seq<char>
    decreases s.len(),
{
    if s.len() > 0 && is_space_char(s[0]) {
        trim_front(s.drop_first())
    } else {
        s
    }
}

/// `s` without its trailing whitespace.
pub open spec fn trim_back(s: Seq<char>) -> Seq<char>
    decreases s.len(),
{
    if s.len() > 0 && is_space_char(s.last()) {
        trim_back(s.drop_last())
    } else {
        s
    }
}

/// `s` without leading and trailing whitespace: what `str::trim` keeps.
pub open spec fn spec_trim(s: Seq<char>) -> Seq<char> {
    trim_back(trim_front(s))
}

proof fn lemma_trim_front_at(s: Seq<char>, a: int)
    requires
        0 <= a <= s.len(),
        forall|k: int| 0 <= k < a ==> is_space_char(s[k]),
        a < s.len() ==> !is_space_char(s[a]),
    ensures
        trim_front(s) == s.subrange(a, s.len() as int),
    decreases a,
{
    if a == 0 {
        assert(s.subrange(0, s.len() as int) =~= s);
    } else {
        let t = s.drop_first();
        assert(forall|k: int| 0 <= k < a - 1 ==> is_space_char(#[trigger] t[k]));
        lemma_trim_front_at(t, a - 1);
        assert(t.subrange(a - 1, t.len() as int) =~= s.subrange(a, s.len() as int));
    }
}

proof fn lemma_trim_back_at(s: Seq<char>, b: int)
    requires
        0 <= b <= s.len(),
        forall|k: int| b <= k < s.len() ==> is_space_char(s[k]),
        b > 0 ==> !is_space_char(s[b - 1]),
    ensures
        trim_back(s) == s.subrange(0, b),
    decreases s.len(),
{
    if b == s.len() {
        if s.len() > 0 && is_space_char(s.last()) {
            assert(false);
        }
        assert(s.subrange(0, b) =~= s);
    } else {
        assert(is_space_char(s.last()));
        let t = s.drop_last();
        lemma_trim_back_at(t, b);
        assert(t.subrange(0, b) =~= s.subrange(0, b));
    }
}

/// Where the trimmed middle of `s` lies: `spec_trim(s) == s.subrange(a, b)`
/// for the bounds this lemma takes.
proof fn lemma_trim_bounds(s: Seq<char>, a: int, b: int)
    requires
        0 <= a <= b <= s.len(),
        forall|k: int| 0 <= k < a ==> is_space_char(s[k]),
        forall|k: int| b <= k < s.len() ==> is_space_char(s[k]),
        a < s.len() ==> !is_space_char(s[a]),
        b > a ==> !is_space_char(s[b - 1]),
        a == s.len() ==> b == a,
    ensures
        spec_trim(s) == s.subrange(a, b),
{
    lemma_trim_front_at(s, a);
    let t = s.subrange(a, s.len() as int);
    assert(forall|k: int| b - a <= k < t.len() ==> is_space_char(#[trigger] t[k]));
    lemma_trim_back_at(t, b - a);
    assert(t.subrange(0, b - a) =~= s.subrange(a, b));
}

/// The decimal digit characters.
pub open spec fn is_digit_char(c: char) -> bool {
    ||| c == '0'
    ||| c == '1'
    ||| c == '2'
    ||| c == '3'
    ||| c == '4'
    ||| c == '5'
    ||| c == '6'
    ||| c == '7'
    ||| c == '8'
    ||| c == '9'
}

/// The value of a decimal digit character (zero for any other character).
pub open spec fn digit_val(c: char) -> nat {
    if c == '1' {
        1
    } else if c == '2' {
        2
    } else if c == '3' {
        3
    } else if c == '4' {
        4
    } else if c == '5' {
        5
    } else if c == '6' {
        6
    } else if c == '7' {
        7
    } else if c == '8' {
        8
    } else if c == '9' {
        9
    } else {
        0
    }
}

/// A non-empty run of decimal digit characters.
pub open spec fn all_digits(s: Seq<char>) -> bool {
    s.len() > 0 && forall|i: int| 0 <= i < s.len() ==> is_digit_char(s[i])
}

/// The number the digit characters of `s` denote, most significant first.
pub open spec fn digits_val(s: Seq<char>) -> nat
    decreases s.len(),
{
    if s.len() == 0 {
        0
    } else {
        digits_val(s.drop_last()) * 10 + digit_val(s.last())
    }
}

/// `s` without one leading `'+'` sign, if present: what `str::parse` for an
/// unsigned type reads the digits from.
pub open spec fn unsigned_body(s: Seq<char>) -> Seq<char> {
    if s.len() > 0 && s[0] == '+' {
        s.drop_first()
    } else {
        s
    }
}

/// The number `str::parse::<usize>` would read from `s`, were no width
/// bound in the way: the digits' value after an optional `'+'`, or nothing
/// where `s` is not a sign and digits throughout.
pub open spec fn parsed_number(s: Seq<char>) -> Option<nat> {
    if all_digits(unsigned_body(s)) {
        Some(digits_val(unsigned_body(s)))
    } else {
        None
    }
}

/// The value of `c` as a decimal digit, or nothing for any other character.
fn digit_of(c: char) -> (r: Option<usize>)
    ensures
        match r {
            Some(d) => is_digit_char(c) && d == digit_val(c) && d < 10,
            None => !is_digit_char(c),
        },
{
    if c == '0' {
        Some(0)
    } else if c == '1' {
        Some(1)
    } else if c == '2' {
        Some(2)
    } else if c == '3' {
        Some(3)
    } else if c == '4' {
        Some(4)
    } else if c == '5' {
        Some(5)
    } else if c == '6' {
        Some(6)
    } else if c == '7' {
        Some(7)
    } else if c == '8' {
        Some(8)
    } else if c == '9' {
        Some(9)
    } else {
        None
    }
}

/// A prefix of a digit run never denotes more than the whole run.
proof fn lemma_digits_val_prefix(s: Seq<char>, i: int)
    requires
        0 <= i <= s.len(),
    ensures
        digits_val(s.take(i)) <= digits_val(s),
    decreases s.len(),
{
    if i == s.len() {
        assert(s.take(i) =~= s);
    } else if s.len() > 0 {
        let t = s.drop_last();
        lemma_digits_val_prefix(t, i);
        assert(t.take(i) =~= s.take(i));
        assert(digits_val(t) <= digits_val(t) * 10 + digit_val(s.last()));
    }
}

/// Reads a number the way the interactive loop does: `str::trim`, then
/// `str::parse::<usize>`. Returns nothing exactly where the parse fails,
/// be it for stray characters or for a value above `usize::MAX`.
pub fn parse_trimmed_number(line: &str) -> (r: Option<usize>)
    ensures
        match r {
            Some(v) => parsed_number(spec_trim(line@)) == Some(v as nat),
            None => (match parsed_number(spec_trim(line@)) {
                Some(v) => v > usize::MAX,
                None => true,
            }),
        },
{
    let n = line.unicode_len();
    let mut a: usize = 0;
    while a < n && is_space(line.get_char(a))
        invariant
            a <= n,
            n == line@.len(),
            forall|k: int| 0 <= k < a ==> is_space_char(line@[k]),
        decreases n - a,
    {
        a += 1;
    }
    let mut b: usize = n;
    while b > a && is_space(line.get_char(b - 1))
        invariant
            a <= b <= n,
            n == line@.len(),
            forall|k: int| b <= k < n ==> is_space_char(line@[k]),
        decreases b,
    {
        b -= 1;
    }
    proof {
        lemma_trim_bounds(line@, a as int, b as int);
    }
    let ghost t = line@.subrange(a as int, b as int);
    let mut p = a;
    if p < b && line.get_char(p) == '+' {
        p += 1;
        proof {
            assert(t.drop_first() =~= line@.subrange(p as int, b as int));
        }
    }
    let ghost body = line@.subrange(p as int, b as int);
    proof {
        assert(unsigned_body(t) =~= body);
    }
    if p == b {
        return None;
    }
    let mut acc: usize = 0;
    let mut k = p;
    while k < b
        invariant
            p <= k <= b <= n,
            n == line@.len(),
            body == line@.subrange(p as int, b as int),
            body == unsigned_body(spec_trim(line@)),
            body.len() == b - p,
            forall|j: int| 0 <= j < k - p ==> is_digit_char(body[j]),
            acc == digits_val(body.take(k - p)),
        decreases b - k,
    {
        let c = line.get_char(k);
        proof {
            assert(body[k - p] == line@[k as int]);
        }
        match digit_of(c) {
            None => {
                return None;
            },
            Some(d) => {
                proof {
                    assert(body.take(k - p + 1).drop_last() =~= body.take(k - p));
                    assert(body.take(k - p + 1).last() == body[k - p]);
                }
                if acc > (usize::MAX - d) / 10 {
                    proof {
                        let q = (usize::MAX - d) / 10;
                        assert(q * 10 + (usize::MAX - d) % 10 == usize::MAX - d);
                        assert(acc * 10 >= (q + 1) * 10);
                        assert(digits_val(body.take(k - p + 1)) == acc * 10 + digit_val(
                            body[k - p],
                        ));
                        lemma_digits_val_prefix(body, k - p + 1);
                    }
                    return None;
                }
                proof {
                    let q = (usize::MAX - d) / 10;
                    assert(q * 10 + (usize::MAX - d) % 10 == usize::MAX - d);
                }
                acc = acc * 10 + d;
                k += 1;
            },
        }
    }
    proof {
        assert(body.take(b - p) =~= body);
    }
    Some(acc)
}

} // verus!
