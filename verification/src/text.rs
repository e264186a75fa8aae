//! Verified text helpers: equality, prefix test, whitespace trimming, line
//! splitting, and decimal integer reading and writing.

use vstd::prelude::*;

verus! {

/// Compares two string slices character by character.
pub fn str_eq(a: &str, b: &str) -> (r: bool)
    ensures
        r == (a@ == b@),
{
    let na = a.unicode_len();
    let nb = b.unicode_len();
    if na != nb {
        return false;
    }
    let mut i: usize = 0;
    while i < na
        invariant
            na == a@.len(),
            na == b@.len(),
            i <= na,
            forall|j: int| 0 <= j < i ==> a@[j] == b@[j],
        decreases na - i,
    {
        if a.get_char(i) != b.get_char(i) {
            return false;
        }
        i += 1;
    }
    proof {
        assert(a@ =~= b@);
    }
    true
}

/// Whether `p` is a prefix of `s`.
pub open spec fn spec_starts_with(s: Seq<char>, p: Seq<char>) -> bool {
    s.len() >= p.len() && s.subrange(0, p.len() as int) == p
}

/// Tests whether `s` starts with `p`, character by character.
pub fn starts_with(s: &str, p: &str) -> (r: bool)
    ensures
        r == spec_starts_with(s@, p@),
{
    let ns = s.unicode_len();
    let np = p.unicode_len();
    if np > ns {
        assert(!spec_starts_with(s@, p@));
        return false;
    }
    let mut i: usize = 0;
    while i < np
        invariant
            ns == s@.len(),
            np == p@.len(),
            np <= ns,
            i <= np,
            forall|j: int| 0 <= j < i ==> s@[j] == p@[j],
        decreases np - i,
    {
        if s.get_char(i) != p.get_char(i) {
            assert(s@.subrange(0, np as int)[i as int] != p@[i as int]);
            return false;
        }
        i += 1;
    }
    proof {
        assert(s@.subrange(0, np as int) =~= p@);
    }
    true
}

/// The characters that `trim` removes: the Unicode white-space set.
pub open spec fn is_space_char(c: char) -> bool {
    let u = c as u32;
    u == 0x20 || (0x09 <= u && u <= 0x0D) || u == 0x85 || u == 0xA0 || u == 0x1680 || (0x2000 <= u
        && u <= 0x200A) || u == 0x2028 || u == 0x2029 || u == 0x202F || u == 0x205F || u == 0x3000
}

/// Tests whether `c` is a white-space character.
pub fn is_space(c: char) -> (r: bool)
    ensures
        r == is_space_char(c),
{
    let u = c as u32;
    u == 0x20 || (0x09 <= u && u <= 0x0D) || u == 0x85 || u == 0xA0 || u == 0x1680 || (0x2000 <= u
        && u <= 0x200A) || u == 0x2028 || u == 0x2029 || u == 0x202F || u == 0x205F || u == 0x3000
}

/// `s` without its leading white space.
pub open spec fn trim_front(s: Seq<char>) -> Seq<char>
    decreases s.len(),
{
    if s.len() > 0 && is_space_char(s[0]) {
        trim_front(s.drop_first())
    } else {
        s
    }
}

/// `s` without its trailing white space.
pub open spec fn trim_back(s: Seq<char>) -> Seq<char>
    decreases s.len(),
{
    if s.len() > 0 && is_space_char(s.last()) {
        trim_back(s.drop_last())
    } else {
        s
    }
}

/// `s` without leading and trailing white space.
pub open spec fn spec_trim(s: Seq<char>) -> Seq<char> {
    trim_back(trim_front(s))
}

proof fn lemma_trim_front_range(s: Seq<char>, k: int)
    requires
        0 <= k <= s.len(),
        forall|j: int| 0 <= j < k ==> is_space_char(s[j]),
        k == s.len() || !is_space_char(s[k]),
    ensures
        trim_front(s) == s.subrange(k, s.len() as int),
    decreases k,
{
    if k == 0 {
        assert(s.subrange(0, s.len() as int) =~= s);
    } else {
        let t = s.drop_first();
        lemma_trim_front_range(t, k - 1);
        assert(t.subrange(k - 1, t.len() as int) =~= s.subrange(k, s.len() as int));
    }
}

proof fn lemma_trim_back_range(s: Seq<char>, k: int)
    requires
        0 <= k <= s.len(),
        forall|j: int| k <= j < s.len() ==> is_space_char(s[j]),
        k == 0 || !is_space_char(s[k - 1]),
    ensures
        trim_back(s) == s.subrange(0, k),
    decreases s.len() - k,
{
    if s.len() == k {
        assert(s.subrange(0, k) =~= s);
    } else {
        let t = s.drop_last();
        lemma_trim_back_range(t, k);
        assert(t.subrange(0, k) =~= s.subrange(0, k));
    }
}

/// `s` with leading and trailing white space removed.
pub fn trim_of<'a>(s: &'a str) -> (r: &'a str)
    ensures
        r@ == spec_trim(s@),
{
    let n = s.unicode_len();
    let mut start: usize = 0;
    while start < n
        invariant
            n == s@.len(),
            start <= n,
            forall|j: int| 0 <= j < start ==> is_space_char(s@[j]),
        ensures
            start <= n,
            forall|j: int| 0 <= j < start ==> is_space_char(s@[j]),
            start == n || !is_space_char(s@[start as int]),
        decreases n - start,
    {
        if is_space(s.get_char(start)) {
            start += 1;
        } else {
            break ;
        }
    }
    let mut end: usize = n;
    while end > start
        invariant
            n == s@.len(),
            start <= end <= n,
            forall|j: int| end <= j < n ==> is_space_char(s@[j]),
        ensures
            start <= end <= n,
            forall|j: int| end <= j < n ==> is_space_char(s@[j]),
            end == start || !is_space_char(s@[end - 1]),
        decreases end,
    {
        if is_space(s.get_char(end - 1)) {
            end -= 1;
        } else {
            break ;
        }
    }
    let r = s.substring_char(start, end);
    proof {
        lemma_trim_front_range(s@, start as int);
        let t = s@.subrange(start as int, n as int);
        assert(forall|j: int|
            end - start <= j < t.len() ==> is_space_char(#[trigger] t[j]) && t[j] == s@[
                j + start
            ]);
        lemma_trim_back_range(t, end - start);
        assert(t.subrange(0, end - start) =~= s@.subrange(start as int, end as int));
    }
    r
}

/// Whether `c` is an ASCII decimal digit.
pub open spec fn is_digit_char(c: char) -> bool {
    0x30 <= c as u32 && c as u32 <= 0x39
}

/// The value of a decimal digit.
pub open spec fn digit_value(c: char) -> int {
    c as u32 - 0x30
}

/// Whether every character of `s` is a decimal digit.
pub open spec fn all_digits(s: Seq<char>) -> bool {
    forall|i: int| 0 <= i < s.len() ==> is_digit_char(s[i])
}

/// The number that a digit string denotes.
pub open spec fn digits_value(s: Seq<char>) -> int
    decreases s.len(),
{
    if s.len() == 0 {
        0
    } else {
        digits_value(s.drop_last()) * 10 + digit_value(s.last())
    }
}

/// The sign and the digit part of an integer literal: one leading `+` or `-`
/// is taken off, everything else is left for the digits.
pub open spec fn spec_sign_split(s: Seq<char>) -> (bool, Seq<char>) {
    if s.len() > 0 && (s[0] == '-' || s[0] == '+') {
        (s[0] == '-', s.drop_first())
    } else {
        (false, s)
    }
}

/// The `i32` that `s` denotes: an optional sign, then one or more decimal
/// digits, nothing else, with the value in range; `None` otherwise.
pub open spec fn spec_parse_i32(s: Seq<char>) -> Option<i32> {
    let parts = spec_sign_split(s);
    let digits = parts.1;
    if digits.len() == 0 || !all_digits(digits) {
        None
    } else {
        let v = if parts.0 {
            -digits_value(digits)
        } else {
            digits_value(digits)
        };
        if i32::MIN <= v <= i32::MAX {
            Some(v as i32)
        } else {
            None
        }
    }
}

proof fn lemma_digits_value_nonneg(s: Seq<char>)
    requires
        all_digits(s),
    ensures
        digits_value(s) >= 0,
    decreases s.len(),
{
    if s.len() > 0 {
        lemma_digits_value_nonneg(s.drop_last());
    }
}

proof fn lemma_digits_value_prefix_bound(s: Seq<char>, k: int)
    requires
        all_digits(s),
        0 <= k <= s.len(),
    ensures
        digits_value(s) >= digits_value(s.subrange(0, k)),
    decreases s.len(),
{
    if k == s.len() {
        assert(s.subrange(0, k) =~= s);
    } else {
        let t = s.drop_last();
        lemma_digits_value_nonneg(t);
        lemma_digits_value_prefix_bound(t, k);
        assert(t.subrange(0, k) =~= s.subrange(0, k));
    }
}

/// Reads an `i32` from `s`, exactly as `spec_parse_i32` describes: an
/// optional sign, one or more decimal digits, value in range.
pub fn parse_i32(s: &str) -> (r: Option<i32>)
    ensures
        r == spec_parse_i32(s@),
{
    let n = s.unicode_len();
    if n == 0 {
        return None;
    }
    let first = s.get_char(0);
    let neg = first == '-';
    let start: usize = if first == '-' || first == '+' {
        1
    } else {
        0
    };
    if start == n {
        return None;
    }
    let ghost digits = spec_sign_split(s@).1;
    proof {
        assert(digits =~= s@.subrange(start as int, n as int));
    }
    let mut acc: i32 = 0;
    let mut i: usize = start;
    while i < n
        invariant
            n == s@.len(),
            start <= i <= n,
            start < n,
            neg == spec_sign_split(s@).0,
            digits == spec_sign_split(s@).1,
            digits == s@.subrange(start as int, n as int),
            all_digits(s@.subrange(start as int, i as int)),
            acc as int == -digits_value(s@.subrange(start as int, i as int)),
            acc <= 0,
        decreases n - i,
    {
        let ghost prefix = s@.subrange(start as int, i as int);
        let ghost extended = s@.subrange(start as int, i + 1);
        proof {
            assert(extended.drop_last() =~= prefix);
        }
        let c = s.get_char(i);
        let u = c as u32;
        if !(0x30 <= u && u <= 0x39) {
            proof {
                assert(digits[i - start] == s@[i as int]);
                assert(!is_digit_char(digits[i - start]));
                assert(!all_digits(digits));
            }
            return None;
        }
        let d = (u - 0x30) as i32;
        proof {
            assert(all_digits(extended));
        }
        let acc10 = match acc.checked_mul(10) {
            Some(x) => x,
            None => {
                proof {
                    assert(digits_value(extended) == digits_value(prefix) * 10 + digit_value(
                        s@[i as int],
                    ));
                    lemma_overflow_means_out_of_range(s@, start as int, i as int);
                }
                return None;
            },
        };
        acc = match acc10.checked_sub(d) {
            Some(y) => y,
            None => {
                proof {
                    assert(digits_value(extended) == digits_value(prefix) * 10 + digit_value(
                        s@[i as int],
                    ));
                    lemma_overflow_means_out_of_range(s@, start as int, i as int);
                }
                return None;
            },
        };
        i += 1;
    }
    proof {
        assert(s@.subrange(start as int, n as int) =~= digits);
    }
    if neg {
        Some(acc)
    } else {
        match (0i32).checked_sub(acc) {
            Some(v) => Some(v),
            None => None,
        }
    }
}

/// A line as the line splitter yields it: a terminating line feed is dropped,
/// and a carriage return just before it as well.
pub open spec fn strip_cr(l: Seq<char>) -> Seq<char> {
    if l.len() > 0 && l.last() == '\r' {
        l.drop_last()
    } else {
        l
    }
}

/// The lines of `s` after `cur` has already been read as the open line:
/// lines end at a line feed, an optional carriage return before it is
/// dropped, and a last line without a terminator is yielded as it stands.
pub open spec fn spec_lines_from(s: Seq<char>, cur: Seq<char>) -> Seq<Seq<char>>
    decreases s.len(),
{
    if s.len() == 0 {
        if cur.len() == 0 {
            Seq::empty()
        } else {
            seq![cur]
        }
    } else if s[0] == '\n' {
        seq![strip_cr(cur)] + spec_lines_from(s.drop_first(), Seq::empty())
    } else {
        spec_lines_from(s.drop_first(), cur.push(s[0]))
    }
}

/// The lines of `s`.
pub open spec fn spec_lines(s: Seq<char>) -> Seq<Seq<char>> {
    spec_lines_from(s, Seq::empty())
}

/// Splits `s` into lines: terminators are `\n` and `\r\n`, the final one is
/// optional, and an unterminated last line keeps a trailing `\r`.
pub fn split_lines(s: &str) -> (r: Vec<String>)
    ensures
        r.deep_view() == spec_lines(s@),
{
    let n = s.unicode_len();
    let mut out: Vec<String> = Vec::new();
    let mut line_start: usize = 0;
    let mut i: usize = 0;
    proof {
        assert(out.deep_view() =~= Seq::<Seq<char>>::empty());
        assert(s@.subrange(0, n as int) =~= s@);
        assert(s@.subrange(0, 0) =~= Seq::<char>::empty());
        assert(Seq::<Seq<char>>::empty() + spec_lines_from(s@, Seq::<char>::empty())
            =~= spec_lines_from(s@, Seq::<char>::empty()));
    }
    while i < n
        invariant
            n == s@.len(),
            line_start <= i <= n,
            spec_lines(s@) == out.deep_view() + spec_lines_from(
                s@.subrange(i as int, n as int),
                s@.subrange(line_start as int, i as int),
            ),
        decreases n - i,
    {
        let ghost rest = s@.subrange(i as int, n as int);
        let ghost cur = s@.subrange(line_start as int, i as int);
        proof {
            assert(rest[0] == s@[i as int]);
            assert(rest.drop_first() =~= s@.subrange(i + 1, n as int));
        }
        let c = s.get_char(i);
        if c == '\n' {
            let mut end = i;
            if end > line_start && s.get_char(end - 1) == '\r' {
                end -= 1;
            }
            let piece = String::from_str(s.substring_char(line_start, end));
            let ghost dv0 = out.deep_view();
            let ghost tail = spec_lines_from(s@.subrange(i + 1, n as int), Seq::empty());
            proof {
                assert(strip_cr(cur) =~= s@.subrange(line_start as int, end as int));
            }
            out.push(piece);
            proof {
                assert(out.deep_view() =~= dv0 + seq![piece@]);
                assert(dv0 + (seq![strip_cr(cur)] + tail) =~= (dv0 + seq![piece@]) + tail);
                assert(s@.subrange(i + 1, i + 1) =~= Seq::<char>::empty());
            }
            line_start = i + 1;
        } else {
            proof {
                assert(cur.push(s@[i as int]) =~= s@.subrange(line_start as int, i + 1));
            }
        }
        i += 1;
    }
    proof {
        assert(s@.subrange(n as int, n as int) =~= Seq::<char>::empty());
    }
    if line_start < n {
        let piece = String::from_str(s.substring_char(line_start, n));
        let ghost dv0 = out.deep_view();
        let ghost cur = s@.subrange(line_start as int, n as int);
        out.push(piece);
        proof {
            assert(out.deep_view() =~= dv0 + seq![piece@]);
            assert(dv0 + seq![cur] =~= out.deep_view());
        }
    } else {
        proof {
            assert(out.deep_view() + Seq::<Seq<char>>::empty() =~= out.deep_view());
        }
    }
    out
}

/// The first position at or after `i` where `c` stands in `s`, if any.
pub open spec fn spec_find_from(s: Seq<char>, c: char, i: int) -> Option<int>
    decreases s.len() - i,
{
    if i < 0 || i >= s.len() {
        None
    } else if s[i] == c {
        Some(i)
    } else {
        spec_find_from(s, c, i + 1)
    }
}

/// Finds the first occurrence of `c` in `s` at or after position `from`.
pub fn find_char_from(s: &str, c: char, from: usize) -> (r: Option<usize>)
    ensures
        match r {
            Some(k) => from <= k < s@.len() && spec_find_from(s@, c, from as int) == Some(k as int),
            None => spec_find_from(s@, c, from as int) is None,
        },
{
    let n = s.unicode_len();
    if from >= n {
        return None;
    }
    let mut i = from;
    while i < n
        invariant
            from <= i <= n,
            n == s@.len(),
            spec_find_from(s@, c, from as int) == spec_find_from(s@, c, i as int),
        decreases n - i,
    {
        if s.get_char(i) == c {
            return Some(i);
        }
        i += 1;
    }
    None
}

/// The digit character of a value below ten.
pub open spec fn digit_char(d: int) -> char {
    if d == 0 {
        '0'
    } else if d == 1 {
        '1'
    } else if d == 2 {
        '2'
    } else if d == 3 {
        '3'
    } else if d == 4 {
        '4'
    } else if d == 5 {
        '5'
    } else if d == 6 {
        '6'
    } else if d == 7 {
        '7'
    } else if d == 8 {
        '8'
    } else {
        '9'
    }
}

/// The decimal digits of a non-negative number, most significant first.
pub open spec fn spec_decimal_digits(n: int) -> Seq<char>
    decreases n,
{
    if n < 10 {
        seq![digit_char(n)]
    } else {
        spec_decimal_digits(n / 10) + seq![digit_char(n % 10)]
    }
}

/// The decimal text of an integer: a minus sign for a negative value, then
/// its magnitude's digits.
pub open spec fn spec_i32_text(v: int) -> Seq<char> {
    if v < 0 {
        seq!['-'] + spec_decimal_digits(-v)
    } else {
        spec_decimal_digits(v)
    }
}

fn push_digit(out: &mut String, d: u64)
    requires
        d < 10,
    ensures
        final (out)@ == old(out)@ + seq![digit_char(d as int)],
{
    proof {
        reveal_strlit("0");
        reveal_strlit("1");
        reveal_strlit("2");
        reveal_strlit("3");
        reveal_strlit("4");
        reveal_strlit("5");
        reveal_strlit("6");
        reveal_strlit("7");
        reveal_strlit("8");
        reveal_strlit("9");
    }
    match d {
        0 => out.append("0"),
        1 => out.append("1"),
        2 => out.append("2"),
        3 => out.append("3"),
        4 => out.append("4"),
        5 => out.append("5"),
        6 => out.append("6"),
        7 => out.append("7"),
        8 => out.append("8"),
        _ => out.append("9"),
    }
    proof {
        assert(out@ =~= old(out)@ + seq![digit_char(d as int)]);
    }
}

fn decimal_digits_into(n: u64, out: &mut String)
    ensures
        final (out)@ == old(out)@ + spec_decimal_digits(n as int),
    decreases n,
{
    if n < 10 {
        push_digit(out, n);
    } else {
        decimal_digits_into(n / 10, out);
        push_digit(out, n % 10);
        proof {
            assert(out@ =~= old(out)@ + spec_decimal_digits(n as int));
        }
    }
}

/// Renders `v` in decimal, exactly as `spec_i32_text` describes.
pub fn i32_text(v: i32) -> (r: String)
    ensures
        r@ == spec_i32_text(v as int),
{
    let mut out = String::new();
    if v < 0 {
        proof {
            reveal_strlit("-");
        }
        out.append("-");
        let wide: i64 = v as i64;
        let mag: u64 = (-wide) as u64;
        decimal_digits_into(mag, &mut out);
        proof {
            assert(Seq::<char>::empty() + "-"@ + spec_decimal_digits(mag as int) =~= seq!['-']
                + spec_decimal_digits(-(v as int)));
        }
    } else {
        decimal_digits_into(v as u64, &mut out);
        proof {
            assert(Seq::<char>::empty() + spec_decimal_digits(v as int) =~= spec_decimal_digits(
                v as int,
            ));
        }
    }
    out
}

proof fn lemma_overflow_means_out_of_range(s: Seq<char>, start: int, i: int)
    requires
        0 <= start <= i < s.len(),
        spec_sign_split(s).1 == s.subrange(start, s.len() as int),
        all_digits(s.subrange(start, i + 1)),
        digits_value(s.subrange(start, i + 1)) > i32::MAX as int + 1,
    ensures
        spec_parse_i32(s) is None,
{
    let digits = spec_sign_split(s).1;
    let extended = s.subrange(start, i + 1);
    assert(extended =~= digits.subrange(0, i + 1 - start));
    if all_digits(digits) {
        lemma_digits_value_prefix_bound(digits, i + 1 - start);
    }
}

} // verus!
