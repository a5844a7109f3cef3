//! Text helpers: characters of a string, whitespace trimming, splitting on a
//! separator, and decimal numbers, with the meaning that `str::trim`,
//! `str::split` and `str::parse::<usize>` give them.

use vstd::prelude::*;

verus! {

/// The characters of a string.
pub fn chars_of(s: &str) -> (out: Vec<char>)
    ensures
        out@ == s@,
{
    let mut out: Vec<char> = Vec::new();
    for c in it: s.chars()
        invariant
            out@ == it.seq().take(it.index() as int),
    {
        out.push(c);
    }
    out
}

/// `c` has the Unicode `White_Space` property, which is what
/// `char::is_whitespace` tests.
pub open spec fn is_white_space(c: char) -> bool {
    let u = c as u32;
    ||| 0x09 <= u <= 0x0d
    ||| u == 0x20
    ||| u == 0x85
    ||| u == 0xa0
    ||| u == 0x1680
    ||| 0x2000 <= u <= 0x200a
    ||| u == 0x2028
    ||| u == 0x2029
    ||| u == 0x202f
    ||| u == 0x205f
    ||| u == 0x3000
}

/// Whether `c` has the Unicode `White_Space` property.
pub fn white_space(c: char) -> (b: bool)
    ensures
        b == is_white_space(c),
{
    let u = c as u32;
    (0x09 <= u && u <= 0x0d) || u == 0x20 || u == 0x85 || u == 0xa0 || u == 0x1680 || (0x2000
        <= u && u <= 0x200a) || u == 0x2028 || u == 0x2029 || u == 0x202f || u == 0x205f || u
        == 0x3000
}

/// `s` without its leading white space.
pub open spec fn trim_start(s: Seq<char>) -> Seq<char>
    decreases s.len(),
{
    if s.len() > 0 && is_white_space(s[0]) {
        trim_start(s.drop_first())
    } else {
        s
    }
}

/// `s` without its trailing white space.
pub open spec fn trim_end(s: Seq<char>) -> Seq<char>
    decreases s.len(),
{
    if s.len() > 0 && is_white_space(s.last()) {
        trim_end(s.drop_last())
    } else {
        s
    }
}

/// `s` without leading and trailing white space, as `str::trim` gives it.
pub open spec fn trim(s: Seq<char>) -> Seq<char> {
    trim_end(trim_start(s))
}

/// The pieces of `s` between occurrences of `sep`, as `str::split` gives
/// them: one more piece than there are separators, empty ones included.
pub open spec fn split_on(s: Seq<char>, sep: char) -> Seq<Seq<char>>
    decreases s.len(),
{
    if s.len() == 0 {
        seq![Seq::empty()]
    } else {
        let before = split_on(s.drop_last(), sep);
        if s.last() == sep {
            before.push(Seq::empty())
        } else {
            before.update(before.len() - 1, before.last().push(s.last()))
        }
    }
}

/// Splitting always gives at least one piece.
pub proof fn lemma_split_on_nonempty(s: Seq<char>, sep: char)
    ensures
        split_on(s, sep).len() >= 1,
    decreases s.len(),
{
    if s.len() > 0 {
        lemma_split_on_nonempty(s.drop_last(), sep);
    }
}

/// `c` is one of the ASCII digits.
pub open spec fn is_digit(c: char) -> bool {
    '0' <= c <= '9'
}

/// The value of the ASCII digit `c`.
pub open spec fn digit_value(c: char) -> int {
    (c as u32) - ('0' as u32)
}

/// The value of a string of decimal digits.
pub open spec fn decimal_value(d: Seq<char>) -> int
    decreases d.len(),
{
    if d.len() == 0 {
        0
    } else {
        decimal_value(d.drop_last()) * 10 + digit_value(d.last())
    }
}

/// Every character of `d` is an ASCII digit.
pub open spec fn all_digits(d: Seq<char>) -> bool {
    forall|i: int| 0 <= i < d.len() ==> is_digit(#[trigger] d[i])
}

/// The digits that `str::parse::<usize>` reads: all of `s`, after one
/// leading `+` if there is one.
pub open spec fn unsigned_digits(s: Seq<char>) -> Seq<char> {
    if s.len() > 0 && s[0] == '+' {
        s.drop_first()
    } else {
        s
    }
}

/// The number `str::parse::<usize>` reads from `s`: present when, after an
/// optional leading `+`, `s` is a non-empty string of ASCII digits whose
/// value fits in `usize`.
pub open spec fn parse_usize(s: Seq<char>) -> Option<usize> {
    let d = unsigned_digits(s);
    if d.len() > 0 && all_digits(d) && decimal_value(d) <= usize::MAX {
        Some(decimal_value(d) as usize)
    } else {
        None
    }
}

/// The decimal value of a digit string is not negative and does not
/// decrease as digits are added.
pub proof fn lemma_decimal_prefix(d: Seq<char>, i: int)
    requires
        all_digits(d),
        0 <= i <= d.len(),
    ensures
        0 <= decimal_value(d.take(i)) <= decimal_value(d),
    decreases d.len() - i,
{
    if i < d.len() {
        lemma_decimal_prefix(d, i + 1);
        assert(d.take(i + 1).drop_last() =~= d.take(i));
        assert(is_digit(d[i]));
        assert(d.take(i + 1).last() == d[i]);
    } else {
        assert(d.take(i) =~= d);
        lemma_decimal_nonneg(d);
    }
}

/// The decimal value of a digit string is not negative.
pub proof fn lemma_decimal_nonneg(d: Seq<char>)
    requires
        all_digits(d),
    ensures
        decimal_value(d) >= 0,
    decreases d.len(),
{
    if d.len() > 0 {
        assert(is_digit(d.last()));
        assert(all_digits(d.drop_last()));
        lemma_decimal_nonneg(d.drop_last());
    }
}

/// The characters of `s` from `lo` to `hi`.
pub fn sub_chars(s: &Vec<char>, lo: usize, hi: usize) -> (out: Vec<char>)
    requires
        lo <= hi <= s@.len(),
    ensures
        out@ == s@.subrange(lo as int, hi as int),
{
    let mut out: Vec<char> = Vec::new();
    let mut i = lo;
    while i < hi
        invariant
            lo <= i <= hi <= s@.len(),
            out@ == s@.subrange(lo as int, i as int),
        decreases hi - i,
    {
        out.push(s[i]);
        i = i + 1;
        assert(out@ =~= s@.subrange(lo as int, i as int));
    }
    out
}

/// `s` without leading and trailing white space.
pub fn trimmed(s: &Vec<char>) -> (out: Vec<char>)
    ensures
        out@ == trim(s@),
{
    let len = s.len();
    let mut lo: usize = 0;
    assert(s@.subrange(0, len as int) =~= s@);
    while lo < len && white_space(s[lo])
        invariant
            0 <= lo <= len == s@.len(),
            trim_start(s@) == trim_start(s@.subrange(lo as int, len as int)),
        decreases len - lo,
    {
        assert(s@.subrange(lo as int, len as int).drop_first() =~= s@.subrange(
            lo + 1,
            len as int,
        ));
        lo = lo + 1;
    }
    let mut hi: usize = len;
    let ghost start = s@.subrange(lo as int, len as int);
    assert(trim_start(start) == start);
    while hi > lo && white_space(s[hi - 1])
        invariant
            lo <= hi <= len == s@.len(),
            start == s@.subrange(lo as int, len as int),
            trim_end(start) == trim_end(s@.subrange(lo as int, hi as int)),
        decreases hi - lo,
    {
        assert(s@.subrange(lo as int, hi as int).drop_last() =~= s@.subrange(
            lo as int,
            hi - 1,
        ));
        hi = hi - 1;
    }
    sub_chars(s, lo, hi)
}

/// The pieces of `s` between occurrences of `sep`.
pub fn split_chars(s: &Vec<char>, sep: char) -> (out: Vec<Vec<char>>)
    ensures
        out@.len() == split_on(s@, sep).len(),
        forall|i: int| 0 <= i < out@.len() ==> #[trigger] out@[i]@ == split_on(s@, sep)[i],
{
    let mut done: Vec<Vec<char>> = Vec::new();
    let mut current: Vec<char> = Vec::new();
    let mut i: usize = 0;
    while i < s.len()
        invariant
            0 <= i <= s@.len(),
            done@.len() + 1 == split_on(s@.take(i as int), sep).len(),
            forall|k: int|
                0 <= k < done@.len() ==> #[trigger] done@[k]@ == split_on(s@.take(i as int), sep)[k],
            current@ == split_on(s@.take(i as int), sep).last(),
        decreases s@.len() - i,
    {
        proof {
            lemma_split_on_nonempty(s@.take(i as int), sep);
            assert(s@.take(i + 1).drop_last() =~= s@.take(i as int));
            assert(s@.take(i + 1).last() == s@[i as int]);
        }
        let c = s[i];
        if c == sep {
            let piece = current;
            done.push(piece);
            current = Vec::new();
        } else {
            current.push(c);
        }
        i = i + 1;
    }
    assert(s@.take(s@.len() as int) =~= s@);
    done.push(current);
    done
}

/// Parses a decimal `usize` the way `str::parse::<usize>` does.
pub fn parse_usize_chars(s: &Vec<char>) -> (r: Option<usize>)
    ensures
        r == parse_usize(s@),
{
    let mut start: usize = 0;
    if s.len() > 0 && s[0] == '+' {
        start = 1;
    }
    let ghost d = unsigned_digits(s@);
    assert(d =~= s@.subrange(start as int, s@.len() as int));
    if start == s.len() {
        return None;
    }
    let mut value: usize = 0;
    let mut i = start;
    while i < s.len()
        invariant
            start <= i <= s@.len(),
            start < s@.len(),
            d == s@.subrange(start as int, s@.len() as int),
            d == unsigned_digits(s@),
            all_digits(d.take(i - start)),
            value == decimal_value(d.take(i - start)),
        decreases s@.len() - i,
    {
        let c = s[i];
        if !('0' <= c && c <= '9') {
            assert(!all_digits(d)) by {
                assert(d[i - start] == c);
            }
            return None;
        }
        proof {
            assert(d.take(i - start + 1).drop_last() =~= d.take(i - start));
            assert(d.take(i - start + 1).last() == c);
            assert forall|k: int| 0 <= k < d.take(i - start + 1).len() implies is_digit(
                #[trigger] d.take(i - start + 1)[k],
            ) by {
                if k < i - start {
                    assert(d.take(i - start + 1)[k] == d.take(i - start)[k]);
                }
            }
        }
        let digit = (c as u32 - '0' as u32) as usize;
        assert(decimal_value(d.take(i - start + 1)) == value * 10 + digit);
        match value.checked_mul(10) {
            Some(v) => match v.checked_add(digit) {
                Some(w) => {
                    value = w;
                },
                None => {
                    proof {
                        lemma_overflow_is_final(s@, d, start as int, i as int);
                    }
                    return None;
                },
            },
            None => {
                proof {
                    lemma_overflow_is_final(s@, d, start as int, i as int);
                }
                return None;
            },
        }
        i = i + 1;
    }
    assert(d.take(s@.len() - start) =~= d);
    Some(value)
}

/// Once the value of a prefix of the digits exceeds the range of `usize`,
/// so does the value of all of them, or a later character is not a digit.
proof fn lemma_overflow_is_final(s: Seq<char>, d: Seq<char>, start: int, i: int)
    requires
        0 <= start <= i < s.len(),
        d == s.subrange(start, s.len() as int),
        all_digits(d.take(i - start + 1)),
        decimal_value(d.take(i - start + 1)) > usize::MAX,
    ensures
        !(all_digits(d) && decimal_value(d) <= usize::MAX),
{
    if all_digits(d) {
        lemma_decimal_prefix(d, i - start + 1);
    }
}

/// The decimal digit with value `v`.
pub open spec fn digit_char(v: int) -> char {
    ((v + '0' as u32) as u32) as char
}

/// The decimal representation of `n`, without leading zeros.
pub open spec fn decimal_text(n: nat) -> Seq<char>
    decreases n,
{
    if n < 10 {
        seq![digit_char(n as int)]
    } else {
        decimal_text(n / 10).push(digit_char((n % 10) as int))
    }
}

/// The one-character string of decimal digit `v`.
fn digit_str(v: usize) -> (s: &'static str)
    requires
        v < 10,
    ensures
        s@ == seq![digit_char(v as int)],
{
    proof {
        reveal_strlit("0");
        reveal_strlit("1");
        reveal_strlit("2");
        reveal_strlit("3");
        reveal_strlit("4");
        reveal_strlit("5");
        reveal_strlit("6");
        reveal_strlit("7");
        reveal_strlit("8");
        reveal_strlit("9");
    }
    if v == 0 {
        "0"
    } else if v == 1 {
        "1"
    } else if v == 2 {
        "2"
    } else if v == 3 {
        "3"
    } else if v == 4 {
        "4"
    } else if v == 5 {
        "5"
    } else if v == 6 {
        "6"
    } else if v == 7 {
        "7"
    } else if v == 8 {
        "8"
    } else {
        "9"
    }
}

/// Appends the decimal representation of `n` to `out`.
pub fn push_decimal(out: &mut String, n: usize)
    ensures
        final(out)@ == old(out)@ + decimal_text(n as nat),
    decreases n,
{
    if n >= 10 {
        push_decimal(out, n / 10);
    }
    out.append(digit_str(n % 10));
    assert(old(out)@ + decimal_text(n as nat) =~= if n >= 10 {
        old(out)@ + decimal_text((n / 10) as nat) + seq![digit_char((n % 10) as int)]
    } else {
        old(out)@ + seq![digit_char((n % 10) as int)]
    });
}

/// `true` or `false`, as `bool` prints.
pub open spec fn bool_text(b: bool) -> Seq<char> {
    if b {
        seq!['t', 'r', 'u', 'e']
    } else {
        seq!['f', 'a', 'l', 's', 'e']
    }
}

/// Appends `true` or `false` to `out`.
pub fn push_bool(out: &mut String, b: bool)
    ensures
        final(out)@ == old(out)@ + bool_text(b),
{
    if b {
        out.append("true");
    } else {
        out.append("false");
    }
    proof {
        reveal_strlit("true");
        reveal_strlit("false");
    }
}

/// The decimal representation of a number is a non-empty string of digits
/// whose value is the number.
pub proof fn lemma_decimal_text(n: nat)
    ensures
        decimal_text(n).len() > 0,
        all_digits(decimal_text(n)),
        decimal_value(decimal_text(n)) == n,
    decreases n,
{
    if n < 10 {
        let t = decimal_text(n);
        assert(t.drop_last() =~= Seq::<char>::empty());
        assert(is_digit(t[0]));
        assert(digit_value(t.last()) == n);
        assert(decimal_value(t.drop_last()) == 0);
    } else {
        lemma_decimal_text(n / 10);
        let t = decimal_text(n);
        let d = digit_char((n % 10) as int);
        assert(t.drop_last() =~= decimal_text(n / 10));
        assert(t.last() == d);
        assert(is_digit(d));
        assert(digit_value(d) == n % 10);
        vstd::arithmetic::div_mod::lemma_fundamental_div_mod(n as int, 10);
        assert(decimal_value(t) == decimal_value(decimal_text(n / 10)) * 10 + digit_value(d));
        assert forall|i: int| 0 <= i < t.len() implies is_digit(#[trigger] t[i]) by {
            if i < t.len() - 1 {
                assert(t[i] == decimal_text(n / 10)[i]);
            }
        }
    }
}

/// `str::parse::<usize>` reads back the decimal representation of any
/// `usize`.
pub proof fn lemma_parse_decimal_text(n: usize)
    ensures
        parse_usize(decimal_text(n as nat)) == Some(n),
{
    lemma_decimal_text(n as nat);
    let t = decimal_text(n as nat);
    assert(is_digit(t[0]));
    assert(unsigned_digits(t) == t);
}

/// A string of digits has no white space to trim.
pub proof fn lemma_trim_digits(d: Seq<char>)
    requires
        d.len() > 0,
        all_digits(d),
    ensures
        trim(d) == d,
{
    assert(is_digit(d[0]));
    assert(is_digit(d.last()));
    assert(trim_start(d) == d);
    assert(trim_end(d) == d);
}

/// Splitting `s + y`, where `y` holds no separator, gives the pieces of `s`
/// with `y` appended to the last one.
pub proof fn lemma_split_append(s: Seq<char>, y: Seq<char>, sep: char)
    requires
        !y.contains(sep),
    ensures
        split_on(s + y, sep) == split_on(s, sep).update(
            split_on(s, sep).len() - 1,
            split_on(s, sep).last() + y,
        ),
    decreases y.len(),
{
    lemma_split_on_nonempty(s, sep);
    let pieces = split_on(s, sep);
    if y.len() == 0 {
        assert(s + y =~= s);
        assert(pieces.last() + y =~= pieces.last());
        assert(pieces.update(pieces.len() - 1, pieces.last()) =~= pieces);
    } else {
        let y0 = y.drop_last();
        assert(!y0.contains(sep)) by {
            if y0.contains(sep) {
                let i = choose|i: int| 0 <= i < y0.len() && y0[i] == sep;
                assert(y[i] == sep);
            }
        }
        lemma_split_append(s, y0, sep);
        assert((s + y).drop_last() =~= s + y0);
        assert((s + y).last() == y.last());
        assert(y.last() != sep) by {
            assert(y[y.len() - 1] == y.last());
        }
        let before = split_on(s + y0, sep);
        assert(before.last() == pieces.last() + y0);
        assert((pieces.last() + y0).push(y.last()) =~= pieces.last() + y);
        assert(before.update(before.len() - 1, before.last().push(y.last())) =~= pieces.update(
            pieces.len() - 1,
            pieces.last() + y,
        ));
    }
}

/// A string without the separator is one piece.
pub proof fn lemma_split_single(x: Seq<char>, sep: char)
    requires
        !x.contains(sep),
    ensures
        split_on(x, sep) == seq![x],
{
    lemma_split_append(Seq::empty(), x, sep);
    assert(Seq::<char>::empty() + x =~= x);
    assert(Seq::<char>::empty() + x =~= x);
    assert(seq![Seq::<char>::empty()].update(0, Seq::<char>::empty() + x) =~= seq![x]);
}

/// Two strings without the separator, joined by it, split back into the
/// two.
pub proof fn lemma_split_pair(x: Seq<char>, y: Seq<char>, sep: char)
    requires
        !x.contains(sep),
        !y.contains(sep),
    ensures
        split_on(x + seq![sep] + y, sep) == seq![x, y],
{
    lemma_split_single(x, sep);
    let xs = x + seq![sep];
    assert(xs.drop_last() =~= x);
    assert(xs.last() == sep);
    assert(split_on(xs, sep) =~= seq![x, Seq::<char>::empty()]);
    lemma_split_append(xs, y, sep);
    assert(seq![x, Seq::<char>::empty()].update(1, Seq::<char>::empty() + y) =~= seq![x, y]);
}

/// A string of digits holds no character that is not a digit.
pub proof fn lemma_digits_lack(d: Seq<char>, c: char)
    requires
        all_digits(d),
        !is_digit(c),
    ensures
        !d.contains(c),
{
    if d.contains(c) {
        let i = choose|i: int| 0 <= i < d.len() && d[i] == c;
        assert(is_digit(d[i]));
    }
}

} // verus!
