//! Text handling for configuration values: trimming, splitting and unsigned
//! decimal numbers, on sequences of characters.

use vstd::prelude::*;

verus! {

/// Whether `c` has the Unicode property `White_Space`.
pub open spec fn white_space(c: char) -> bool {
    ||| '\u{9}' <= c <= '\u{d}'
    ||| c == ' '
    ||| c == '\u{85}'
    ||| c == '\u{a0}'
    ||| c == '\u{1680}'
    ||| '\u{2000}' <= c <= '\u{200a}'
    ||| c == '\u{2028}'
    ||| c == '\u{2029}'
    ||| c == '\u{202f}'
    ||| c == '\u{205f}'
    ||| c == '\u{3000}'
}

/// `char::is_whitespace` tells whether the character has the Unicode property
/// `White_Space`, which is written out in [`white_space`].
pub assume_specification[ char::is_whitespace ](c: char) -> (yes: bool)
    ensures
        yes == white_space(c),
;

/// `s` without its leading white space.
pub open spec fn trim_start(s: Seq<char>) -> Seq<char>
    decreases s.len(),
{
    if s.len() > 0 && white_space(s[0]) {
        trim_start(s.drop_first())
    } else {
        s
    }
}

/// `s` without its trailing white space.
pub open spec fn trim_end(s: Seq<char>) -> Seq<char>
    decreases s.len(),
{
    if s.len() > 0 && white_space(s.last()) {
        trim_end(s.drop_last())
    } else {
        s
    }
}

/// `s` without the white space at its two ends.
pub open spec fn trimmed(s: Seq<char>) -> Seq<char> {
    trim_end(trim_start(s))
}

pub open spec fn is_digit(c: char) -> bool {
    '0' <= c <= '9'
}

pub open spec fn digit_value(c: char) -> nat {
    (c as int - '0' as int) as nat
}

pub open spec fn all_digits(s: Seq<char>) -> bool {
    forall|i: int| 0 <= i < s.len() ==> is_digit(#[trigger] s[i])
}

/// The number that the decimal digits of `s` stand for, most significant first.
pub open spec fn decimal_value(s: Seq<char>) -> nat
    decreases s.len(),
{
    if s.len() == 0 {
        0
    } else {
        decimal_value(s.drop_last()) * 10 + digit_value(s.last())
    }
}

/// `s` without one leading plus sign, if it has one.
pub open spec fn without_plus(s: Seq<char>) -> Seq<char> {
    if s.len() > 0 && s[0] == '+' {
        s.drop_first()
    } else {
        s
    }
}

/// The `usize` that `s` spells: an optional plus sign, then one decimal digit or
/// more, of a value that fits.
pub open spec fn unsigned(s: Seq<char>) -> Option<usize> {
    let digits = without_plus(s);
    if digits.len() > 0 && all_digits(digits) && decimal_value(digits) <= usize::MAX {
        Some(decimal_value(digits) as usize)
    } else {
        None
    }
}

/// The pieces of `s` between the occurrences of `sep`. There is one piece more
/// than there are separators.
pub open spec fn split_on(s: Seq<char>, sep: char) -> Seq<Seq<char>>
    decreases s.len(),
{
    if s.len() == 0 {
        seq![Seq::empty()]
    } else {
        let before = split_on(s.drop_last(), sep);
        if s.last() == sep {
            before.push(Seq::empty())
        } else {
            before.drop_last().push(before.last().push(s.last()))
        }
    }
}

/// A split has one piece more than there are separators, so at least one.
pub proof fn split_count(s: Seq<char>, sep: char)
    ensures
        split_on(s, sep).len() == s.filter(|c: char| c == sep).len() + 1,
    decreases s.len(),
{
    reveal(Seq::filter);
    if s.len() > 0 {
        split_count(s.drop_last(), sep);
    }
}

/// What one more character does to the pieces.
pub(crate) proof fn split_step(s: Seq<char>, i: int, sep: char)
    requires
        0 <= i < s.len(),
    ensures
        split_on(s.take(i + 1), sep) == (if s[i] == sep {
            split_on(s.take(i), sep).push(Seq::empty())
        } else {
            split_on(s.take(i), sep).drop_last().push(split_on(s.take(i), sep).last().push(s[i]))
        }),
{
    assert(s.take(i + 1).drop_last() =~= s.take(i));
}

/// The pieces that are closed at position `i` stay as they are.
pub(crate) proof fn split_prefix(s: Seq<char>, i: int, sep: char)
    requires
        0 <= i <= s.len(),
    ensures
        split_on(s.take(i), sep).len() <= split_on(s, sep).len(),
        forall|k: int|
            0 <= k < split_on(s.take(i), sep).len() - 1 ==> #[trigger] split_on(s, sep)[k]
                == split_on(s.take(i), sep)[k],
        i == s.len() || s[i] == sep ==> split_on(s, sep)[split_on(s.take(i), sep).len() - 1]
            == split_on(s.take(i), sep).last(),
    decreases s.len() - i,
{
    split_count(s.take(i), sep);
    if i < s.len() {
        split_prefix(s, i + 1, sep);
        split_step(s, i, sep);
    } else {
        assert(s.take(i) =~= s);
    }
}

/// The characters of `s`.
pub(crate) fn chars_of(s: &str) -> (chars: Vec<char>)
    ensures
        chars@ == s@,
{
    let mut chars: Vec<char> = Vec::new();
    for c in iter: s.chars()
        invariant
            chars@ == s@.take(iter.index()),
            iter.seq() == s@,
    {
        chars.push(c);
    }
    chars
}

/// The bounds of the trimmed part of `chars[lo..hi]`.
pub(crate) fn trim_range(chars: &Vec<char>, lo: usize, hi: usize) -> (bounds: (usize, usize))
    requires
        lo <= hi <= chars.len(),
    ensures
        lo <= bounds.0 <= bounds.1 <= hi,
        chars@.subrange(bounds.0 as int, bounds.1 as int) == trimmed(
            chars@.subrange(lo as int, hi as int),
        ),
{
    let mut start: usize = lo;
    while start < hi && chars[start].is_whitespace()
        invariant
            lo <= start <= hi <= chars.len(),
            trim_start(chars@.subrange(start as int, hi as int)) == trim_start(
                chars@.subrange(lo as int, hi as int),
            ),
        decreases hi - start,
    {
        assert(chars@.subrange(start as int, hi as int).drop_first() =~= chars@.subrange(
            start + 1,
            hi as int,
        ));
        start = start + 1;
    }
    let mut end: usize = hi;
    while start < end && chars[end - 1].is_whitespace()
        invariant
            lo <= start <= end <= hi <= chars.len(),
            trim_end(chars@.subrange(start as int, end as int)) == trim_end(
                chars@.subrange(start as int, hi as int),
            ),
        decreases end - start,
    {
        assert(chars@.subrange(start as int, end as int).drop_last() =~= chars@.subrange(
            start as int,
            end - 1,
        ));
        end = end - 1;
    }
    (start, end)
}

/// A number only grows with the digits behind it.
proof fn decimal_value_grows(s: Seq<char>, i: int)
    requires
        0 <= i <= s.len(),
    ensures
        decimal_value(s.take(i)) <= decimal_value(s),
    decreases s.len() - i,
{
    if i < s.len() {
        decimal_value_grows(s, i + 1);
        assert(s.take(i + 1).drop_last() =~= s.take(i));
    } else {
        assert(s.take(i) =~= s);
    }
}

/// Reads `chars[lo..hi]` as an unsigned decimal number.
pub(crate) fn parse_unsigned(chars: &Vec<char>, lo: usize, hi: usize) -> (value: Option<usize>)
    requires
        lo <= hi <= chars.len(),
    ensures
        value == unsigned(chars@.subrange(lo as int, hi as int)),
{
    let ghost text = chars@.subrange(lo as int, hi as int);
    let first: usize = if lo < hi && chars[lo] == '+' {
        lo + 1
    } else {
        lo
    };
    let ghost digits = without_plus(text);
    assert(digits =~= chars@.subrange(first as int, hi as int));
    if first == hi {
        return None;
    }
    let mut value: usize = 0;
    let mut i: usize = first;
    while i < hi
        invariant
            first <= i <= hi <= chars.len(),
            digits == chars@.subrange(first as int, hi as int),
            digits == without_plus(chars@.subrange(lo as int, hi as int)),
            forall|j: int| 0 <= j < i - first ==> is_digit(#[trigger] digits[j]),
            value == decimal_value(digits.take(i - first)),
        decreases hi - i,
    {
        let c = chars[i];
        assert(c == digits[i - first]);
        if c < '0' || '9' < c {
            return None;
        }
        let digit: usize = (c as u32 - '0' as u32) as usize;
        proof {
            assert(digits.take(i - first + 1).drop_last() =~= digits.take(i - first));
            decimal_value_grows(digits, i - first + 1);
        }
        match value.checked_mul(10) {
            None => {
                return None;
            },
            Some(tens) => match tens.checked_add(digit) {
                None => {
                    return None;
                },
                Some(sum) => {
                    value = sum;
                },
            },
        }
        i = i + 1;
    }
    assert(digits.take(hi - first) =~= digits);
    Some(value)
}

pub open spec fn all_white(s: Seq<char>) -> bool {
    forall|i: int| 0 <= i < s.len() ==> white_space(#[trigger] s[i])
}

/// Whether `s` neither begins nor ends with white space.
pub open spec fn is_trim(s: Seq<char>) -> bool {
    s.len() > 0 ==> !white_space(s[0]) && !white_space(s.last())
}

proof fn trim_start_drops(pad: Seq<char>, s: Seq<char>)
    requires
        all_white(pad),
    ensures
        trim_start(pad + s) == trim_start(s),
    decreases pad.len(),
{
    if pad.len() > 0 {
        assert((pad + s).drop_first() =~= pad.drop_first() + s);
        assert((pad + s)[0] == pad[0]);
        trim_start_drops(pad.drop_first(), s);
    } else {
        assert(pad + s =~= s);
    }
}

proof fn trim_end_drops(s: Seq<char>, pad: Seq<char>)
    requires
        all_white(pad),
    ensures
        trim_end(s + pad) == trim_end(s),
    decreases pad.len(),
{
    if pad.len() > 0 {
        assert((s + pad).drop_last() =~= s + pad.drop_last());
        assert((s + pad).last() == pad.last());
        trim_end_drops(s, pad.drop_last());
    } else {
        assert(s + pad =~= s);
    }
}

/// Trimming takes away the white space at both ends and nothing else.
pub proof fn trim_of_padded(before: Seq<char>, s: Seq<char>, after: Seq<char>)
    requires
        all_white(before),
        all_white(after),
        is_trim(s),
    ensures
        trimmed(before + s + after) == s,
{
    assert(before + s + after =~= before + (s + after));
    trim_start_drops(before, s + after);
    if s.len() > 0 {
        assert((s + after)[0] == s[0]);
        trim_end_drops(s, after);
    } else {
        assert(s + after =~= after + s);
        trim_start_drops(after, s);
    }
}

/// Every text is its trimmed part with white space around it.
pub proof fn trim_leaves_padding(s: Seq<char>) -> (padding: (Seq<char>, Seq<char>))
    ensures
        all_white(padding.0),
        all_white(padding.1),
        is_trim(trimmed(s)),
        s == padding.0 + trimmed(s) + padding.1,
    decreases s.len(),
{
    if s.len() > 0 && white_space(s[0]) {
        let (before, after) = trim_leaves_padding(s.drop_first());
        assert(trimmed(s) == trimmed(s.drop_first()));
        assert(s =~= seq![s[0]] + s.drop_first());
        let longer = seq![s[0]] + before;
        assert(s =~= longer + trimmed(s) + after);
        (longer, after)
    } else if s.len() > 0 && white_space(s.last()) {
        let shorter = s.drop_last();
        assert(shorter.len() > 0 && shorter[0] == s[0]);
        assert(trim_start(s) == s && trim_start(shorter) == shorter);
        assert(trimmed(s) == trimmed(shorter));
        let (before, after) = trim_leaves_padding(shorter);
        let longer = after.push(s.last());
        assert(s =~= shorter.push(s.last()));
        assert(s =~= before + trimmed(s) + longer);
        (before, longer)
    } else {
        assert(s =~= Seq::empty() + s + Seq::empty());
        (Seq::empty(), Seq::empty())
    }
}

/// The decimal digit that stands for `n`.
pub open spec fn digit_char(n: nat) -> char {
    ('0' as int + n) as char
}

/// The decimal digits of `n`, without leading zeros.
pub open spec fn decimal(n: nat) -> Seq<char>
    decreases n,
{
    if n < 10 {
        seq![digit_char(n)]
    } else {
        decimal(n / 10).push(digit_char(n % 10))
    }
}

/// Reading the digits of a number gives back the number.
pub proof fn decimal_reads_back(n: nat)
    ensures
        decimal(n).len() > 0,
        all_digits(decimal(n)),
        decimal_value(decimal(n)) == n,
    decreases n,
{
    if n < 10 {
        assert(decimal(n).drop_last() =~= Seq::<char>::empty());
        assert(decimal_value(Seq::<char>::empty()) == 0);
    } else {
        decimal_reads_back(n / 10);
        assert(decimal(n).drop_last() =~= decimal(n / 10));
    }
}

/// The digits of a number that fits in a `usize` spell that number.
pub proof fn decimal_is_unsigned(n: usize)
    ensures
        unsigned(decimal(n as nat)) == Some(n),
        unsigned(seq!['+'] + decimal(n as nat)) == Some(n),
{
    decimal_reads_back(n as nat);
    assert(is_digit(decimal(n as nat)[0]));
    assert((seq!['+'] + decimal(n as nat)).drop_first() =~= decimal(n as nat));
}

/// The texts of `list` with `sep` between them.
pub open spec fn join_with(list: Seq<Seq<char>>, sep: char) -> Seq<char>
    decreases list.len(),
{
    if list.len() == 0 {
        Seq::empty()
    } else if list.len() == 1 {
        list[0]
    } else {
        join_with(list.drop_last(), sep).push(sep) + list.last()
    }
}

/// A piece without separators continues the last piece.
proof fn split_of_longer(s: Seq<char>, tail: Seq<char>, sep: char)
    requires
        !tail.contains(sep),
    ensures
        split_on(s + tail, sep) == split_on(s, sep).drop_last().push(
            split_on(s, sep).last() + tail,
        ),
    decreases tail.len(),
{
    split_count(s, sep);
    if tail.len() == 0 {
        assert(s + tail =~= s);
        assert(split_on(s, sep).last() + tail =~= split_on(s, sep).last());
        assert(split_on(s, sep).drop_last().push(split_on(s, sep).last()) =~= split_on(s, sep));
    } else {
        let less = tail.drop_last();
        assert forall|i: int| 0 <= i < less.len() implies less[i] != sep by {
            assert(tail.contains(tail[i]));
        }
        assert(tail.contains(tail.last()));
        split_of_longer(s, less, sep);
        assert((s + tail).drop_last() =~= s + less);
        assert((s + tail).last() == tail.last());
        let p = split_on(s, sep);
        assert(p.drop_last().push(p.last() + less).drop_last() =~= p.drop_last());
        assert((p.last() + less).push(tail.last()) =~= p.last() + tail);
    }
}

/// Splitting a joined list gives back the list.
pub proof fn split_of_joined(list: Seq<Seq<char>>, sep: char)
    requires
        list.len() > 0,
        forall|i: int| 0 <= i < list.len() ==> !(#[trigger] list[i]).contains(sep),
    ensures
        split_on(join_with(list, sep), sep) == list,
    decreases list.len(),
{
    let s = if list.len() == 1 {
        Seq::empty()
    } else {
        join_with(list.drop_last(), sep).push(sep)
    };
    if list.len() == 1 {
        assert(s + list[0] =~= list[0]);
    } else {
        assert forall|i: int| 0 <= i < list.drop_last().len() implies !(
            #[trigger] list.drop_last()[i]).contains(sep) by {
            assert(list.drop_last()[i] == list[i]);
        }
        split_of_joined(list.drop_last(), sep);
        assert(s.drop_last() =~= join_with(list.drop_last(), sep));
    }
    split_of_longer(s, list.last(), sep);
    assert(split_on(s, sep).drop_last() =~= list.drop_last());
    assert(split_on(s, sep).last() + list.last() =~= list.last());
    assert(list.drop_last().push(list.last()) =~= list);
}

/// Joining the pieces of a text gives back the text, and no piece holds the
/// separator.
pub proof fn join_of_split(s: Seq<char>, sep: char)
    ensures
        join_with(split_on(s, sep), sep) == s,
        forall|i: int|
            0 <= i < split_on(s, sep).len() ==> !(#[trigger] split_on(s, sep)[i]).contains(sep),
    decreases s.len(),
{
    if s.len() > 0 {
        let before = split_on(s.drop_last(), sep);
        split_count(s.drop_last(), sep);
        join_of_split(s.drop_last(), sep);
        let after = split_on(s, sep);
        assert(after.drop_last() =~= if s.last() == sep {
            before
        } else {
            before.drop_last()
        });
        assert(s =~= s.drop_last().push(s.last()));
        assert forall|i: int| 0 <= i < after.len() implies !(#[trigger] after[i]).contains(sep) by {
            if i < before.len() {
                assert(!before[i].contains(sep));
            }
            if s.last() != sep && i == before.len() - 1 {
                assert forall|k: int| 0 <= k < after[i].len() implies after[i][k] != sep by {
                    if k < before[i].len() {
                        assert(before[i].contains(before[i][k]));
                    }
                }
            }
        }
        assert(join_with(after, sep) =~= s);
    }
}

/// A number of zeros.
pub open spec fn zeros(count: nat) -> Seq<char> {
    Seq::new(count, |i: int| '0')
}

proof fn leading_zeros_add_nothing(count: nat, s: Seq<char>)
    ensures
        decimal_value(zeros(count) + s) == decimal_value(s),
    decreases s.len() + count,
{
    if s.len() > 0 {
        assert((zeros(count) + s).drop_last() =~= zeros(count) + s.drop_last());
        assert((zeros(count) + s).last() == s.last());
        leading_zeros_add_nothing(count, s.drop_last());
    } else if count > 0 {
        let less = (count - 1) as nat;
        assert(zeros(count) + s =~= zeros(count));
        assert(zeros(count).drop_last() =~= zeros(less));
        assert(zeros(less) + s =~= zeros(less));
        leading_zeros_add_nothing(less, s);
    } else {
        assert(zeros(count) + s =~= s);
    }
}

/// Every run of digits is the digits of its value behind some zeros.
proof fn digits_of_value(s: Seq<char>) -> (count: nat)
    requires
        s.len() > 0,
        all_digits(s),
    ensures
        s == zeros(count) + decimal(decimal_value(s)),
    decreases s.len(),
{
    let c = s.last();
    let less = s.drop_last();
    assert(is_digit(s[s.len() - 1]));
    assert(digit_char(digit_value(c)) == c);
    assert(s =~= less.push(c));
    assert forall|i: int| 0 <= i < less.len() implies is_digit(#[trigger] less[i]) by {
        assert(is_digit(s[i]));
    }
    if less.len() == 0 {
        assert(decimal_value(less) == 0);
        assert(s =~= zeros(0) + decimal(decimal_value(s)));
        0
    } else {
        let count = digits_of_value(less);
        let value = decimal_value(less);
        if value == 0 {
            assert(decimal(0) =~= seq!['0']);
            assert(less =~= zeros(count + 1));
            assert(s =~= zeros(count + 1) + decimal(decimal_value(s)));
            count + 1
        } else {
            assert(decimal_value(s) / 10 == value);
            assert(decimal_value(s) % 10 == digit_value(c));
            assert(s =~= zeros(count) + decimal(decimal_value(s)));
            count
        }
    }
}

/// Whether `s` is the digits of `n`, behind any number of zeros and at most one
/// plus sign.
pub open spec fn writes(s: Seq<char>, n: nat) -> bool {
    exists|count: nat|
        #![trigger zeros(count)]
        s == zeros(count) + decimal(n) || s == seq!['+'] + (zeros(count) + decimal(n))
}

/// A text is read as a number exactly where it writes that number.
pub proof fn unsigned_reads_what_is_written(s: Seq<char>, n: usize)
    ensures
        unsigned(s) == Some(n) <==> writes(s, n as nat),
{
    if unsigned(s) == Some(n) {
        let digits = without_plus(s);
        let count = digits_of_value(digits);
        assert(digits == zeros(count) + decimal(n as nat));
        if s[0] == '+' {
            assert(s =~= seq!['+'] + digits);
        }
    }
    if writes(s, n as nat) {
        let count = choose|count: nat|
            #![trigger zeros(count)]
            s == zeros(count) + decimal(n as nat) || s == seq!['+'] + (zeros(count) + decimal(
                n as nat,
            ));
        let digits = zeros(count) + decimal(n as nat);
        decimal_reads_back(n as nat);
        leading_zeros_add_nothing(count, decimal(n as nat));
        assert forall|i: int| 0 <= i < digits.len() implies is_digit(#[trigger] digits[i]) by {
            if i >= count {
                assert(digits[i] == decimal(n as nat)[i - count]);
            }
        }
        if s == digits {
            assert(is_digit(digits[0]));
        } else {
            assert(s.drop_first() =~= digits);
        }
    }
}

/// The digits of a number are the characters from `0` to `9`, the first of them
/// not a zero unless it is the only one, and one more digit is ten times the number
/// and the digit.
pub proof fn decimal_digits(n: nat, digit: nat)
    requires
        digit < 10,
    ensures
        forall|i: int| 0 <= i < decimal(n).len() ==> '0' <= #[trigger] decimal(n)[i] <= '9',
        n > 0 ==> decimal(n)[0] != '0',
        n < 10 ==> decimal(n).len() == 1 && decimal(n)[0] as int == 48 + n,
        n > 0 ==> decimal(n * 10 + digit) == decimal(n) + decimal(digit),
    decreases n,
{
    decimal_reads_back(n);
    assert forall|i: int| 0 <= i < decimal(n).len() implies '0' <= #[trigger] decimal(n)[i] <= '9' by {
        assert(is_digit(decimal(n)[i]));
    }
    if n >= 10 {
        decimal_digits(n / 10, digit);
    }
    if n > 0 {
        assert((n * 10 + digit) / 10 == n);
        assert((n * 10 + digit) % 10 == digit);
        assert(decimal(n * 10 + digit) =~= decimal(n) + decimal(digit));
    }
}

} // verus!
