//! Small text tools that the parsers share: the characters of a string,
//! decimal numerals, and splitting at a separator.

use vstd::prelude::*;

verus! {

/// The texts held in a vector of strings.
pub open spec fn texts(v: Seq<String>) -> Seq<Seq<char>> {
    v.map_values(|s: String| s@)
}

/// Whether `c` is one of the ten ASCII digits.
pub open spec fn is_digit(c: char) -> bool {
    '0' <= c && c <= '9'
}

/// The number that a digit stands for.
pub open spec fn digit_value(c: char) -> int {
    c as int - '0' as int
}

/// Whether every character of `s` is a digit.
pub open spec fn all_digits(s: Seq<char>) -> bool {
    forall|i: int| 0 <= i < s.len() ==> is_digit(#[trigger] s[i])
}

/// The value of `s` read as a decimal numeral, most significant digit first.
pub open spec fn decimal_value(s: Seq<char>) -> int
    decreases s.len(),
{
    if s.len() == 0 {
        0
    } else {
        10 * decimal_value(s.drop_last()) + digit_value(s.last())
    }
}

/// What a numeral of at most `max_digits` digits and of value at most
/// `max_value` stands for; `None` for any other text.
pub open spec fn bounded_decimal(s: Seq<char>, max_digits: int, max_value: int) -> Option<u32> {
    if 1 <= s.len() <= max_digits && all_digits(s) && decimal_value(s) <= max_value {
        Some(decimal_value(s) as u32)
    } else {
        None
    }
}

/// Whether `c` is a hexadecimal digit, in either case.
pub open spec fn is_hex_digit(c: char) -> bool {
    ('0' <= c && c <= '9') || ('a' <= c && c <= 'f') || ('A' <= c && c <= 'F')
}

/// The number that a hexadecimal digit stands for.
pub open spec fn hex_digit_value(c: char) -> int {
    if '0' <= c && c <= '9' {
        c as int - '0' as int
    } else if 'a' <= c && c <= 'f' {
        c as int - 'a' as int + 10
    } else {
        c as int - 'A' as int + 10
    }
}

/// Whether every character of `s` is a hexadecimal digit.
pub open spec fn all_hex_digits(s: Seq<char>) -> bool {
    forall|i: int| 0 <= i < s.len() ==> is_hex_digit(#[trigger] s[i])
}

/// The value of `s` read as a hexadecimal numeral, most significant digit
/// first.
pub open spec fn hex_value(s: Seq<char>) -> int
    decreases s.len(),
{
    if s.len() == 0 {
        0
    } else {
        16 * hex_value(s.drop_last()) + hex_digit_value(s.last())
    }
}

/// What a hexadecimal numeral of at most `max_digits` digits and of value
/// at most `max_value` stands for; `None` for any other text.
pub open spec fn bounded_hex(s: Seq<char>, max_digits: int, max_value: int) -> Option<u32> {
    if 1 <= s.len() <= max_digits && all_hex_digits(s) && hex_value(s) <= max_value {
        Some(hex_value(s) as u32)
    } else {
        None
    }
}

/// The position of the first `sep` in `s`, or the length of `s` if there is none.
pub open spec fn first_index_of(s: Seq<char>, sep: char) -> int
    decreases s.len(),
{
    if s.len() == 0 {
        0
    } else if s[0] == sep {
        0
    } else {
        1 + first_index_of(s.drop_first(), sep)
    }
}

/// The pieces of `s` between occurrences of `sep`. A text without `sep` is
/// one piece; `n` separators give `n + 1` pieces, some of them possibly empty.
pub open spec fn fields(s: Seq<char>, sep: char) -> Seq<Seq<char>>
    decreases s.len(),
{
    let k = first_index_of(s, sep);
    if 0 <= k < s.len() {
        seq![s.take(k)] + fields(s.skip(k + 1), sep)
    } else {
        seq![s]
    }
}

/// How often `c` occurs in `s`.
pub open spec fn count_of(s: Seq<char>, c: char) -> nat
    decreases s.len(),
{
    if s.len() == 0 {
        0
    } else {
        count_of(s.drop_last(), c) + if s.last() == c {
            1nat
        } else {
            0nat
        }
    }
}

/// Whether no line of `s` has more than `max` characters, a line being a
/// piece between line feeds.
pub open spec fn lines_within(s: Seq<char>, max: int) -> bool {
    forall|i: int| 0 <= i < fields(s, '\n').len() ==> (#[trigger] fields(s, '\n')[i]).len() <= max
}

/// The views of the pieces held in a vector of character vectors.
pub open spec fn pieces_view(v: Seq<Vec<char>>) -> Seq<Seq<char>> {
    v.map_values(|p: Vec<char>| p@)
}

/// A numeral never has a negative value.
pub proof fn lemma_decimal_value_nonnegative(s: Seq<char>)
    requires
        all_digits(s),
    ensures
        0 <= decimal_value(s),
    decreases s.len(),
{
    if s.len() > 0 {
        lemma_decimal_value_nonnegative(s.drop_last());
    }
}

/// Reading more digits never lowers the value.
pub proof fn lemma_decimal_value_prefix(s: Seq<char>, k: int)
    requires
        all_digits(s),
        0 <= k <= s.len(),
    ensures
        0 <= decimal_value(s.take(k)) <= decimal_value(s),
    decreases s.len() - k,
{
    if k == s.len() {
        assert(s.take(k) =~= s);
        lemma_decimal_value_nonnegative(s);
    } else {
        lemma_decimal_value_prefix(s, k + 1);
        let t = s.take(k + 1);
        assert(t.drop_last() =~= s.take(k));
        assert(t.last() == s[k]);
        assert(is_digit(s[k]));
        assert(all_digits(s.take(k)));
        lemma_decimal_value_nonnegative(s.take(k));
    }
}

/// A hexadecimal numeral never has a negative value.
pub proof fn lemma_hex_value_nonnegative(s: Seq<char>)
    requires
        all_hex_digits(s),
    ensures
        0 <= hex_value(s),
    decreases s.len(),
{
    if s.len() > 0 {
        lemma_hex_value_nonnegative(s.drop_last());
    }
}

/// Reading more hexadecimal digits never lowers the value.
pub proof fn lemma_hex_value_prefix(s: Seq<char>, k: int)
    requires
        all_hex_digits(s),
        0 <= k <= s.len(),
    ensures
        0 <= hex_value(s.take(k)) <= hex_value(s),
    decreases s.len() - k,
{
    if k == s.len() {
        assert(s.take(k) =~= s);
        lemma_hex_value_nonnegative(s);
    } else {
        lemma_hex_value_prefix(s, k + 1);
        let t = s.take(k + 1);
        assert(t.drop_last() =~= s.take(k));
        assert(t.last() == s[k]);
        assert(is_hex_digit(s[k]));
        assert(all_hex_digits(s.take(k)));
        lemma_hex_value_nonnegative(s.take(k));
    }
}

/// The first separator is where the scan from the left meets it.
pub proof fn lemma_first_index_of(s: Seq<char>, sep: char, k: int)
    requires
        0 <= k <= s.len(),
        forall|i: int| 0 <= i < k ==> s[i] != sep,
        k < s.len() ==> s[k] == sep,
    ensures
        first_index_of(s, sep) == k,
    decreases s.len(),
{
    if s.len() == 0 {
    } else if k == 0 {
    } else {
        let t = s.drop_first();
        assert forall|i: int| 0 <= i < k - 1 implies t[i] != sep by {
            assert(t[i] == s[i + 1]);
        }
        lemma_first_index_of(t, sep, k - 1);
    }
}

/// The characters of `s`, in order.
pub fn chars_of(s: &str) -> (v: Vec<char>)
    ensures
        v@ == s@,
{
    let mut v: Vec<char> = Vec::new();
    for c in it: s.chars()
        invariant
            it.seq() == s@,
            v@ == s@.take(it.index() as int),
    {
        v.push(c);
    }
    v
}

/// Whether two strings hold the same text.
pub fn same_text(a: &str, b: &str) -> (r: bool)
    ensures
        r == (a@ == b@),
{
    let x = chars_of(a);
    let y = chars_of(b);
    let n: usize = x.len();
    if n != y.len() {
        return false;
    }
    let mut i: usize = 0;
    while i < n
        invariant
            n == x.len(),
            n == y.len(),
            x@ == a@,
            y@ == b@,
            0 <= i <= n,
            forall|j: int| 0 <= j < i ==> x@[j] == y@[j],
        decreases n - i,
    {
        if x[i] != y[i] {
            return false;
        }
        i = i + 1;
    }
    assert(x@ =~= y@);
    true
}

/// Reads `s` as a decimal numeral of at most `max_digits` digits and value at
/// most `max_value`.
pub fn parse_decimal(s: &Vec<char>, max_digits: usize, max_value: u32) -> (r: Option<u32>)
    ensures
        r == bounded_decimal(s@, max_digits as int, max_value as int),
{
    let n: usize = s.len();
    if n == 0 || n > max_digits {
        return None;
    }
    let mut acc: u32 = 0;
    let mut i: usize = 0;
    while i < n
        invariant
            n == s.len(),
            0 <= i <= n,
            all_digits(s@.take(i as int)),
            acc == decimal_value(s@.take(i as int)),
            acc <= max_value,
        decreases n - i,
    {
        let c: char = s[i];
        if !(c >= '0' && c <= '9') {
            assert(!is_digit(s@[i as int]));
            return None;
        }
        let d: u32 = (c as u32) - ('0' as u32);
        proof {
            let t = s@.take(i + 1);
            assert(t.drop_last() =~= s@.take(i as int));
            assert(t.last() == c);
            assert(all_digits(t)) by {
                assert forall|j: int| 0 <= j < t.len() implies is_digit(#[trigger] t[j]) by {
                    if j < i {
                        assert(t[j] == s@.take(i as int)[j]);
                    }
                }
            }
            assert(decimal_value(t) == 10 * acc + d);
        }
        let next: u64 = 10 * (acc as u64) + (d as u64);
        if next > max_value as u64 {
            proof {
                if all_digits(s@) {
                    lemma_decimal_value_prefix(s@, i + 1);
                }
            }
            return None;
        }
        acc = next as u32;
        i = i + 1;
    }
    assert(s@.take(n as int) =~= s@);
    Some(acc)
}

/// Reads `s` as a hexadecimal numeral of at most `max_digits` digits and
/// value at most `max_value`.
pub fn parse_hex(s: &Vec<char>, max_digits: usize, max_value: u32) -> (r: Option<u32>)
    ensures
        r == bounded_hex(s@, max_digits as int, max_value as int),
{
    let n: usize = s.len();
    if n == 0 || n > max_digits {
        return None;
    }
    let mut acc: u32 = 0;
    let mut i: usize = 0;
    while i < n
        invariant
            n == s.len(),
            0 <= i <= n,
            all_hex_digits(s@.take(i as int)),
            acc == hex_value(s@.take(i as int)),
            acc <= max_value,
        decreases n - i,
    {
        let c: char = s[i];
        let d: u32 = if c >= '0' && c <= '9' {
            (c as u32) - ('0' as u32)
        } else if c >= 'a' && c <= 'f' {
            (c as u32) - ('a' as u32) + 10
        } else if c >= 'A' && c <= 'F' {
            (c as u32) - ('A' as u32) + 10
        } else {
            assert(!is_hex_digit(s@[i as int]));
            return None;
        };
        proof {
            let t = s@.take(i + 1);
            assert(t.drop_last() =~= s@.take(i as int));
            assert(t.last() == c);
            assert(all_hex_digits(t)) by {
                assert forall|j: int| 0 <= j < t.len() implies is_hex_digit(#[trigger] t[j]) by {
                    if j < i {
                        assert(t[j] == s@.take(i as int)[j]);
                    }
                }
            }
            assert(hex_value(t) == 16 * acc + d);
        }
        let next: u64 = 16 * (acc as u64) + (d as u64);
        if next > max_value as u64 {
            proof {
                if all_hex_digits(s@) {
                    lemma_hex_value_prefix(s@, i + 1);
                }
            }
            return None;
        }
        acc = next as u32;
        i = i + 1;
    }
    assert(s@.take(n as int) =~= s@);
    Some(acc)
}

/// Copies the characters of `s` from position `from` up to position `to`.
pub fn slice_of(s: &Vec<char>, from: usize, to: usize) -> (r: Vec<char>)
    requires
        from <= to <= s.len(),
    ensures
        r@ == s@.subrange(from as int, to as int),
{
    let mut r: Vec<char> = Vec::new();
    let mut i: usize = from;
    while i < to
        invariant
            from <= i <= to,
            to <= s.len(),
            r@ == s@.subrange(from as int, i as int),
        decreases to - i,
    {
        r.push(s[i]);
        assert(r@ =~= s@.subrange(from as int, i + 1));
        i = i + 1;
    }
    r
}

/// Cuts `s` at every `sep`.
pub fn split(s: &Vec<char>, sep: char) -> (r: Vec<Vec<char>>)
    ensures
        pieces_view(r@) == fields(s@, sep),
{
    let n: usize = s.len();
    let mut parts: Vec<Vec<char>> = Vec::new();
    let mut cur: Vec<char> = Vec::new();
    let mut i: usize = 0;
    let ghost mut start: int = 0;
    proof {
        assert(s@.skip(0) =~= s@);
        assert(pieces_view(parts@) + fields(s@, sep) =~= fields(s@, sep));
    }
    while i < n
        invariant
            n == s.len(),
            0 <= start <= i <= n,
            cur@ == s@.subrange(start, i as int),
            forall|j: int| start <= j < i ==> s@[j] != sep,
            fields(s@, sep) == pieces_view(parts@) + fields(s@.skip(start), sep),
        decreases n - i,
    {
        let c: char = s[i];
        if c == sep {
            proof {
                let rest = s@.skip(start);
                let k = i - start;
                lemma_first_index_of(rest, sep, k);
                assert(rest.take(k) =~= cur@);
                assert(rest.skip(k + 1) =~= s@.skip(i + 1));
                assert(pieces_view(parts@.push(cur)) =~= pieces_view(parts@) + seq![cur@]);
                assert(fields(s@, sep) =~= pieces_view(parts@.push(cur)) + fields(
                    s@.skip(i + 1),
                    sep,
                ));
                start = i + 1;
            }
            parts.push(cur);
            cur = Vec::new();
            assert(cur@ =~= s@.subrange(start, i + 1));
        } else {
            cur.push(c);
            assert(cur@ =~= s@.subrange(start, i + 1));
        }
        i = i + 1;
    }
    proof {
        let rest = s@.skip(start);
        lemma_first_index_of(rest, sep, n - start);
        assert(rest =~= cur@);
        assert(pieces_view(parts@.push(cur)) =~= pieces_view(parts@) + seq![cur@]);
    }
    parts.push(cur);
    parts
}

/// Counts how often `c` occurs in `s`.
pub fn count_char(s: &Vec<char>, c: char) -> (n: usize)
    ensures
        n == count_of(s@, c),
{
    let len: usize = s.len();
    let mut n: usize = 0;
    let mut i: usize = 0;
    while i < len
        invariant
            len == s.len(),
            0 <= i <= len,
            n == count_of(s@.take(i as int), c),
            n <= i,
        decreases len - i,
    {
        proof {
            assert(s@.take(i + 1).drop_last() =~= s@.take(i as int));
        }
        if s[i] == c {
            n = n + 1;
        }
        i = i + 1;
    }
    assert(s@.take(len as int) =~= s@);
    n
}

/// Tests whether `c` occurs in `s`.
pub fn has_char(s: &Vec<char>, c: char) -> (b: bool)
    ensures
        b == s@.contains(c),
{
    let len: usize = s.len();
    let mut i: usize = 0;
    while i < len
        invariant
            len == s.len(),
            0 <= i <= len,
            forall|j: int| 0 <= j < i ==> s@[j] != c,
        decreases len - i,
    {
        if s[i] == c {
            return true;
        }
        i = i + 1;
    }
    false
}

/// Tests whether no line of `s` has more than `max` characters.
pub fn has_short_lines(s: &Vec<char>, max: usize) -> (b: bool)
    ensures
        b == lines_within(s@, max as int),
{
    let lines = split(s, '\n');
    let n: usize = lines.len();
    let mut i: usize = 0;
    while i < n
        invariant
            n == lines.len(),
            0 <= i <= n,
            pieces_view(lines@) == fields(s@, '\n'),
            forall|j: int| 0 <= j < i ==> (#[trigger] fields(s@, '\n')[j]).len() <= max,
        decreases n - i,
    {
        assert(lines@[i as int]@ == pieces_view(lines@)[i as int]);
        if lines[i].len() > max {
            return false;
        }
        i = i + 1;
    }
    true
}

} // verus!
