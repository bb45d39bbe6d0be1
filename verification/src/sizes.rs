//! The sizes to benchmark, and how a size is written.

use vstd::prelude::*;
use vstd::string::StrSliceExecFns;

use crate::env::EnvVar;
use crate::page_size::PageSize;
use crate::text::{
    all_white, chars_of, decimal, decimal_is_unsigned, is_digit, is_trim, join_with,
    parse_unsigned, join_of_split, split_count, split_of_joined, split_on, split_prefix, split_step, trimmed,
    trim_leaves_padding, trim_of_padded, trim_range, unsigned, unsigned_reads_what_is_written,
    without_plus, writes, zeros,
};
use crate::units::{GB, HUGE_PAGE_SIZE, KB, MB};

verus! {

/// Whether `s` ends in the letters `a` and `b`.
pub open spec fn ends_in(s: Seq<char>, a: char, b: char) -> bool {
    s.len() >= 2 && s[s.len() - 2] == a && s[s.len() - 1] == b
}

/// The number in front of a two-letter suffix, times what the suffix stands for.
pub open spec fn suffixed(s: Seq<char>, unit: nat) -> Option<nat> {
    match unsigned(trimmed(s.take(s.len() - 2))) {
        Some(n) => Some(n as nat * unit),
        None => None,
    }
}

/// The number of bytes that `s` spells: a raw count, or a number with the suffix
/// `KB`, `MB` or `GB`. White space is allowed at both ends and before the suffix.
/// `None` where `s` spells no size.
pub open spec fn size_value(s: Seq<char>) -> Option<nat> {
    let t = trimmed(s);
    if ends_in(t, 'G', 'B') {
        suffixed(t, GB as nat)
    } else if ends_in(t, 'M', 'B') {
        suffixed(t, MB as nat)
    } else if ends_in(t, 'K', 'B') {
        suffixed(t, KB as nat)
    } else {
        match unsigned(t) {
            Some(n) => Some(n as nat),
            None => None,
        }
    }
}

/// Why a text gives no size.
#[derive(Debug, Clone, Copy, PartialEq, Eq, Structural)]
pub enum SizeError {
    /// The text is not of the form `<n>[KB|MB|GB]`.
    Invalid,
    /// The text spells a size that does not fit in a `usize`.
    TooLarge,
}

/// The size that `s` spells, or why there is none.
pub open spec fn checked_size(s: Seq<char>) -> Result<usize, SizeError> {
    match size_value(s) {
        None => Err(SizeError::Invalid),
        Some(n) => if n <= usize::MAX {
            Ok(n as usize)
        } else {
            Err(SizeError::TooLarge)
        },
    }
}

fn scale(value: Option<usize>, unit: usize) -> (size: Result<usize, SizeError>)
    ensures
        size == (match value {
            None => Err::<usize, SizeError>(SizeError::Invalid),
            Some(n) => if n * unit <= usize::MAX {
                Ok((n * unit) as usize)
            } else {
                Err(SizeError::TooLarge)
            },
        }),
{
    match value {
        None => Err(SizeError::Invalid),
        Some(n) => match n.checked_mul(unit) {
            None => Err(SizeError::TooLarge),
            Some(size) => Ok(size),
        },
    }
}

/// Reads `chars[lo..hi]` as a size.
fn size_of_range(chars: &Vec<char>, lo: usize, hi: usize) -> (size: Result<usize, SizeError>)
    requires
        lo <= hi <= chars.len(),
    ensures
        size == checked_size(chars@.subrange(lo as int, hi as int)),
{
    let (start, end) = trim_range(chars, lo, hi);
    let ghost t = chars@.subrange(start as int, end as int);
    if end - start >= 2 && chars[end - 1] == 'B' {
        let unit: usize = match chars[end - 2] {
            'G' => GB,
            'M' => MB,
            'K' => KB,
            _ => 0,
        };
        if unit != 0 {
            assert(t.take(t.len() - 2) =~= chars@.subrange(start as int, end - 2));
            let (from, to) = trim_range(chars, start, end - 2);
            return scale(parse_unsigned(chars, from, to), unit);
        }
    }
    scale(parse_unsigned(chars, start, end), 1)
}

/// Parses a human-readable size: raw bytes or a value with a `KB`, `MB` or `GB`
/// suffix. Unlike [`parse_size`] it takes any text, and tells a size that does
/// not fit in a `usize` from a text that is no size.
pub fn try_parse_size(s: &str) -> (size: Result<usize, SizeError>)
    ensures
        size == checked_size(s@),
        match size {
            Ok(n) => size_value(s@) == Some(n as nat),
            Err(SizeError::Invalid) => size_value(s@) is None,
            Err(SizeError::TooLarge) => size_value(s@) matches Some(n) && n > usize::MAX,
        },
{
    let chars = chars_of(s);
    assert(chars@.subrange(0, chars@.len() as int) =~= s@);
    size_of_range(&chars, 0, chars.len())
}

/// Parses a human-readable size: raw bytes or a value with a `KB`, `MB` or `GB`
/// suffix. The size must fit in a `usize`.
pub fn parse_size(s: &str) -> (size: Option<usize>)
    requires
        checked_size(s@) != Err::<usize, SizeError>(SizeError::TooLarge),
    ensures
        match size {
            Some(n) => size_value(s@) == Some(n as nat),
            None => size_value(s@) is None,
        },
{
    match try_parse_size(s) {
        Ok(n) => Some(n),
        Err(_) => None,
    }
}

/// An entry of a list of sizes that gives no size.
#[derive(Debug, PartialEq, Eq)]
pub struct SizeListError {
    /// The entry, as it stands in the list.
    pub entry: String,
    /// What is wrong with it.
    pub cause: SizeError,
}

/// The entries of a comma-separated list.
pub open spec fn entries(list: Seq<char>) -> Seq<Seq<char>> {
    split_on(list, ',')
}

/// Whether `sizes` are the sizes that the texts in `list` spell, one for one.
pub open spec fn spells(list: Seq<Seq<char>>, sizes: Seq<usize>) -> bool {
    &&& sizes.len() == list.len()
    &&& forall|i: int|
        0 <= i < list.len() ==> checked_size(#[trigger] list[i]) == Ok::<usize, SizeError>(sizes[i])
}

/// Whether the entry at `i` is the first one in `list` that gives no size.
pub open spec fn first_wrong(list: Seq<Seq<char>>, i: int) -> bool {
    &&& 0 <= i < list.len()
    &&& checked_size(list[i]) is Err
    &&& forall|j: int| 0 <= j < i ==> checked_size(#[trigger] list[j]) is Ok
}

/// Reads a comma-separated list of sizes. The first entry that gives no size is
/// the error.
pub fn parse_sizes(list: &str) -> (sizes: Result<Vec<usize>, SizeListError>)
    ensures
        sizes matches Ok(found) ==> found@.len() == entries(list@).len() && forall|i: int|
            0 <= i < found@.len() ==> size_value(entries(list@)[i]) == Some(
                #[trigger] found@[i] as nat,
            ),
        match sizes {
            Ok(found) => spells(entries(list@), found@),
            Err(error) => exists|i: int|
                {
                    &&& #[trigger] first_wrong(entries(list@), i)
                    &&& error.entry@ == entries(list@)[i]
                    &&& checked_size(entries(list@)[i]) == Err::<usize, SizeError>(error.cause)
                },
        },
{
    let chars = chars_of(list);
    let mut sizes: Vec<usize> = Vec::new();
    let mut start: usize = 0;
    let mut i: usize = 0;
    proof {
        assert(chars@.take(0) =~= Seq::<char>::empty());
        assert(chars@.subrange(0, 0) =~= Seq::<char>::empty());
    }
    loop
        invariant
            start <= i <= chars.len(),
            chars@ == list@,
            entries(chars@.take(i as int)).len() == sizes.len() + 1,
            entries(chars@.take(i as int)).last() == chars@.subrange(start as int, i as int),
            spells(entries(chars@.take(i as int)).drop_last(), sizes@),
        decreases chars.len() - i,
    {
        let ghost before = entries(chars@.take(i as int));
        proof {
            split_prefix(chars@, i as int, ',');
            assert(chars@.take(chars@.len() as int) =~= chars@);
            if i < chars@.len() {
                split_step(chars@, i as int, ',');
            }
        }
        if i == chars.len() || chars[i] == ',' {
            match size_of_range(&chars, start, i) {
                Ok(size) => {
                    sizes.push(size);
                    proof {
                        assert forall|j: int| 0 <= j < before.len() implies checked_size(
                            #[trigger] before[j],
                        ) == Ok::<usize, SizeError>(sizes@[j]) by {
                            if j < before.len() - 1 {
                                assert(before.drop_last()[j] == before[j]);
                            }
                        }
                        assert(before.push(Seq::empty()).drop_last() =~= before);
                    }
                },
                Err(cause) => {
                    proof {
                        assert forall|j: int| 0 <= j < before.len() - 1 implies checked_size(
                            #[trigger] entries(list@)[j],
                        ) is Ok by {
                            assert(before.drop_last()[j] == entries(list@)[j]);
                        }
                        assert(first_wrong(entries(list@), before.len() - 1));
                    }
                    let entry = list.substring_char(start, i).to_owned();
                    return Err(SizeListError { entry, cause });
                },
            }
            if i == chars.len() {
                proof {
                    spelled_sizes_are_the_values(entries(list@), sizes@);
                }
                return Ok(sizes);
            }
            start = i + 1;
        } else {
            assert(before.drop_last().push(before.last().push(chars@[i as int])).drop_last()
                =~= before.drop_last());
        }
        i = i + 1;
    }
}

/// The sizes of the full sweep, as far as a `usize` can hold them: on a 64-bit
/// machine all nine, from 4 KiB to 30 GiB.
pub open spec fn default_sizes() -> Seq<usize> {
    let small = seq![
        (4 * KB) as usize,
        (64 * KB) as usize,
        MB,
        (16 * MB) as usize,
        (256 * MB) as usize,
        GB,
    ];
    if usize::BITS == 64 {
        small + seq![(4 * GB) as usize, (16 * GB) as usize, (30 * GB) as usize]
    } else {
        small
    }
}

fn full_sweep() -> (sizes: Vec<usize>)
    ensures
        sizes@ == default_sizes(),
{
    let mut sizes: Vec<usize> = vec![4 * KB, 64 * KB, MB, 16 * MB, 256 * MB, GB];
    if let (Some(four), Some(sixteen), Some(thirty)) = (
        GB.checked_mul(4),
        GB.checked_mul(16),
        GB.checked_mul(30),
    ) {
        sizes.push(four);
        sizes.push(sixteen);
        sizes.push(thirty);
    }
    sizes
}

/// The sizes to benchmark, as the variable `BENCH_SIZE` asks for them: the sizes
/// of a comma-separated list such as `256MB,1GB,4GB`, or the full sweep unless the
/// variable holds text.
pub fn bench_sizes(var: &EnvVar) -> (sizes: Result<Vec<usize>, SizeListError>)
    ensures
        (*var, sizes) matches (EnvVar::Text(list), Ok(found)) ==> found@.len() == entries(
            list@,
        ).len() && forall|i: int|
            0 <= i < found@.len() ==> size_value(entries(list@)[i]) == Some(
                #[trigger] found@[i] as nat,
            ),
        match (*var, sizes) {
            (EnvVar::Text(list), Ok(found)) => spells(entries(list@), found@),
            (EnvVar::Text(list), Err(error)) => exists|i: int|
                {
                    &&& #[trigger] first_wrong(entries(list@), i)
                    &&& error.entry@ == entries(list@)[i]
                    &&& checked_size(entries(list@)[i]) == Err::<usize, SizeError>(error.cause)
                },
            (_, Ok(found)) => found@ == default_sizes(),
            (_, Err(_)) => false,
        },
{
    match var {
        EnvVar::Text(list) => parse_sizes(list.as_str()),
        EnvVar::Unset => Ok(full_sweep()),
        EnvVar::NotUnicode => Ok(full_sweep()),
    }
}

/// What a suffix multiplies the number before it by. No suffix stands for bytes.
pub open spec fn suffix_bytes(suffix: Seq<char>) -> Option<nat> {
    if suffix == Seq::<char>::empty() {
        Some(1)
    } else if suffix == seq!['K', 'B'] {
        Some(KB as nat)
    } else if suffix == seq!['M', 'B'] {
        Some(MB as nat)
    } else if suffix == seq!['G', 'B'] {
        Some(GB as nat)
    } else {
        None
    }
}

/// The parts of a text that spells a size.
pub ghost struct SizeText {
    pub before: Seq<char>,
    pub number: Seq<char>,
    pub gap: Seq<char>,
    pub suffix: Seq<char>,
    pub after: Seq<char>,
}

impl SizeText {
    pub open spec fn text(self) -> Seq<char> {
        self.before + self.number + self.gap + self.suffix + self.after
    }

    /// White space, a number, white space, a suffix, white space.
    pub open spec fn valid(self) -> bool {
        &&& all_white(self.before)
        &&& unsigned(self.number) is Some
        &&& all_white(self.gap)
        &&& suffix_bytes(self.suffix) is Some
        &&& all_white(self.after)
    }

    /// The number of bytes.
    pub open spec fn bytes(self) -> nat {
        unsigned(self.number)->0 as nat * suffix_bytes(self.suffix)->0
    }
}

proof fn number_ends(number: Seq<char>)
    requires
        unsigned(number) is Some,
    ensures
        number.len() > 0,
        is_trim(number),
        is_digit(number.last()),
        forall|i: int|
            0 <= i < number.len() ==> is_digit(#[trigger] number[i]) || number[i]
                == '+',
{
    let digits = without_plus(number);
    assert(digits.last() == number.last());
    assert forall|i: int| 0 <= i < number.len() implies is_digit(
        #[trigger] number[i],
    ) || number[i] == '+' by {
        if number[0] == '+' {
            if i > 0 {
                assert(digits[i - 1] == number[i]);
            }
        } else {
            assert(digits[i] == number[i]);
        }
    }
}

proof fn suffix_letters(suffix: Seq<char>)
    requires
        suffix.len() > 0,
        suffix_bytes(suffix) is Some,
    ensures
        suffix.len() == 2,
        suffix[1] == 'B',
        match suffix[0] {
            'K' => suffix_bytes(suffix) == Some(KB as nat),
            'M' => suffix_bytes(suffix) == Some(MB as nat),
            'G' => suffix_bytes(suffix) == Some(GB as nat),
            _ => false,
        },
{
    assert(seq!['K', 'B'][0] == 'K');
    assert(seq!['M', 'B'][0] == 'M');
    assert(seq!['G', 'B'][0] == 'G');
}

/// A number and a suffix, with white space around each, spell the number times
/// what the suffix stands for.
pub proof fn size_text_is_read(parts: SizeText)
    requires
        parts.valid(),
    ensures
        size_value(parts.text()) == Some(parts.bytes()),
{
    number_ends(parts.number);
    if parts.suffix.len() == 0 {
        let after = parts.gap + parts.after;
        assert(parts.text() =~= parts.before + parts.number + after);
        trim_of_padded(parts.before, parts.number, after);
        assert(parts.suffix =~= Seq::empty());
        let n = unsigned(parts.number)->0 as nat;
        let unit = suffix_bytes(parts.suffix)->0;
        assert(n * unit == n) by (nonlinear_arith)
            requires
                unit == 1,
        ;
    } else {
        suffix_letters(parts.suffix);
        let t = parts.number + parts.gap + parts.suffix;
        assert(parts.text() =~= parts.before + t + parts.after);
        assert(t[0] == parts.number[0]);
        assert(t.last() == 'B');
        assert(t[t.len() - 2] == parts.suffix[0]);
        trim_of_padded(parts.before, t, parts.after);
        assert(t.take(t.len() - 2) =~= Seq::empty() + parts.number + parts.gap);
        trim_of_padded(Seq::empty(), parts.number, parts.gap);
    }
}

/// Whether `bytes` is `n` of what the suffix stands for: bytes without one, else
/// units of 1024, 1024 * 1024 or 1024 * 1024 * 1024 bytes.
pub open spec fn is_scaled(n: nat, suffix: Seq<char>, bytes: nat) -> bool {
    ||| suffix == Seq::<char>::empty() && bytes == n
    ||| suffix == seq!['K', 'B'] && bytes == n * 1024
    ||| suffix == seq!['M', 'B'] && bytes == n * 1048576
    ||| suffix == seq!['G', 'B'] && bytes == n * 1073741824
}

/// The suffixes are those of [`is_scaled`], and no others.
pub proof fn scaled_by_suffix(n: nat, suffix: Seq<char>)
    ensures
        suffix_bytes(suffix) matches Some(unit) ==> is_scaled(n, suffix, n * unit),
        suffix_bytes(suffix) is Some <==> exists|bytes: nat| is_scaled(n, suffix, bytes),
        forall|a: nat, b: nat| is_scaled(n, suffix, a) && is_scaled(n, suffix, b) ==> a == b,
{
    assert(KB == 1024 && MB == 1048576 && GB == 1073741824);
    assert(n * 1 == n);
    assert(seq!['K', 'B'][0] == 'K');
    assert(seq!['M', 'B'][0] == 'M');
    assert(seq!['G', 'B'][0] == 'G');
    assert(Seq::<char>::empty().len() == 0);
    assert(seq!['K', 'B'].len() == 2 && seq!['M', 'B'].len() == 2 && seq!['G', 'B'].len() == 2);
    match suffix_bytes(suffix) {
        Some(unit) => {
            assert(is_scaled(n, suffix, n * unit));
        },
        None => {},
    }
}

/// Every text that spells a size is a number and a suffix with white space around
/// each.
pub proof fn size_text_has_form(s: Seq<char>) -> (parts: SizeText)
    requires
        size_value(s) is Some,
    ensures
        parts.valid(),
        parts.text() == s,
        size_value(s) == Some(parts.bytes()),
        exists|n: usize| #[trigger] writes(parts.number, n as nat) && is_scaled(
            n as nat,
            parts.suffix,
            size_value(s)->0,
        ),
{
    let parts = size_text_parts(s);
    let n = unsigned(parts.number)->0;
    unsigned_reads_what_is_written(parts.number, n);
    scaled_by_suffix(n as nat, parts.suffix);
    parts
}

proof fn size_text_parts(s: Seq<char>) -> (parts: SizeText)
    requires
        size_value(s) is Some,
    ensures
        parts.valid(),
        parts.text() == s,
        size_value(s) == Some(parts.bytes()),
{
    let t = trimmed(s);
    let (before, after) = trim_leaves_padding(s);
    if ends_in(t, 'G', 'B') || ends_in(t, 'M', 'B') || ends_in(t, 'K', 'B') {
        let stem = t.take(t.len() - 2);
        let suffix = seq![t[t.len() - 2], 'B'];
        assert(t =~= stem + suffix);
        let (left, gap) = trim_leaves_padding(stem);
        let number = trimmed(stem);
        let parts = SizeText { before: before + left, number, gap, suffix, after };
        assert(parts.text() == before + (left + number + gap + suffix) + after) by {
            assert(parts.text() =~= before + (left + number + gap + suffix) + after);
        }
        assert(unsigned(number) is Some);
        size_text_is_read(parts);
        parts
    } else {
        let parts = SizeText { before, number: t, gap: Seq::empty(), suffix: Seq::empty(), after };
        assert(parts.text() == before + t + after) by {
            assert(parts.text() =~= before + t + after);
        }
        size_text_is_read(parts);
        parts
    }
}

/// The digits of a number, alone or before a suffix, spell a size.
pub proof fn plain_size_is_read(n: usize, suffix: Seq<char>)
    requires
        suffix_bytes(suffix) is Some,
    ensures
        size_value(decimal(n as nat) + suffix) == Some(
            n as nat * suffix_bytes(suffix)->0,
        ),
{
    let number = decimal(n as nat);
    decimal_is_unsigned(n);
    let parts = SizeText {
        before: Seq::empty(),
        number,
        gap: Seq::empty(),
        suffix,
        after: Seq::empty(),
    };
    assert(parts.text() =~= number + suffix);
    size_text_is_read(parts);
}

/// A text that spells a size holds no comma.
pub proof fn size_holds_no_comma(s: Seq<char>)
    requires
        size_value(s) is Some,
    ensures
        !s.contains(','),
{
    let parts = size_text_has_form(s);
    number_ends(parts.number);
    if s.contains(',') {
        let i = choose|i: int| 0 <= i < s.len() && s[i] == ',';
        let a = parts.before.len() as int;
        let b = a + parts.number.len();
        let c = b + parts.gap.len();
        let d = c + parts.suffix.len();
        if i < a {
            assert(parts.before[i] == ',');
        } else if i < b {
            assert(parts.number[i - a] == ',');
        } else if i < c {
            assert(parts.gap[i - b] == ',');
        } else if i < d {
            assert(parts.suffix[i - c] == ',');
        } else {
            assert(parts.after[i - d] == ',');
        }
    }
}

/// A comma-separated list of texts that spell sizes gives those sizes, in order.
pub proof fn joined_sizes_are_read(texts: Seq<Seq<char>>, sizes: Seq<usize>)
    requires
        texts.len() > 0,
        spells(texts, sizes),
    ensures
        spells(entries(join_with(texts, ',')), sizes),
{
    assert forall|i: int| 0 <= i < texts.len() implies !(#[trigger] texts[i]).contains(',') by {
        size_holds_no_comma(texts[i]);
    }
    split_of_joined(texts, ',');
}

/// Every list is either read or refused for one entry, never both.
pub proof fn list_is_read_or_refused(list: Seq<Seq<char>>)
    ensures
        (exists|sizes: Seq<usize>| #[trigger] spells(list, sizes)) <==> !exists|i: int|
            #[trigger] first_wrong(list, i),
        forall|i: int, j: int| first_wrong(list, i) && first_wrong(list, j) ==> i == j,
{
    if forall|i: int| 0 <= i < list.len() ==> checked_size(#[trigger] list[i]) is Ok {
        let sizes = Seq::new(list.len(), |i: int| checked_size(list[i])->Ok_0);
        assert(spells(list, sizes));
    } else {
        let k = choose|k: int| 0 <= k < list.len() && checked_size(#[trigger] list[k]) is Err;
        first_wrong_exists(list, k);
    }
}

proof fn first_wrong_exists(list: Seq<Seq<char>>, k: int)
    requires
        0 <= k < list.len(),
        checked_size(list[k]) is Err,
    ensures
        exists|i: int| #[trigger] first_wrong(list, i),
    decreases k,
{
    if exists|j: int| 0 <= j < k && checked_size(#[trigger] list[j]) is Err {
        let j = choose|j: int| 0 <= j < k && checked_size(#[trigger] list[j]) is Err;
        first_wrong_exists(list, j);
    } else {
        assert(first_wrong(list, k));
    }
}

/// In the full sweep the sizes that huge pages can make up are those from 16 MiB
/// on.
pub proof fn default_sizes_with_huge_pages(i: int)
    requires
        0 <= i < default_sizes().len(),
    ensures
        PageSize::Huge.fits(default_sizes()[i] as int) <==> default_sizes()[i]
            >= 16 * MB,
{
    assert(MB == 1048576 && GB == 1073741824 && HUGE_PAGE_SIZE == 2097152);
    let all = default_sizes();
    assert(all[0] == 4096 && all[1] == 65536 && all[2] == MB && all[3] == 16 * MB);
    assert(all[4] == 256 * MB && all[5] == GB);
    if all.len() > 6 {
        assert(all[6] == 4 * GB && all[7] == 16 * GB && all[8] == 30 * GB);
    }
    assert(all.len() == 6 || all.len() == 9);
    assert(i == 0 || i == 1 || i == 2 || i == 3 || i == 4 || i == 5 || i == 6 || i == 7 || i == 8);
}

/// A text is read as the size that it spells, and as no other. It is refused as
/// invalid exactly where it spells none, and as too large exactly where a `usize`
/// cannot hold it.
pub proof fn checked_size_is_the_value(s: Seq<char>, n: usize)
    ensures
        checked_size(s) == Ok::<usize, SizeError>(n) <==> size_value(s) == Some(n as nat),
        checked_size(s) == Err::<usize, SizeError>(SizeError::Invalid) <==> size_value(s) is None,
        checked_size(s) == Err::<usize, SizeError>(SizeError::TooLarge) <==> (size_value(
            s,
        ) matches Some(v) && v > usize::MAX),
{
}

/// The digits of a number before a suffix are read as that many units, where a
/// `usize` holds them, and are too large where it does not. Zeros, a plus sign or
/// white space change nothing.
pub proof fn written_sizes_are_read(parts: SizeText, n: usize, bytes: nat)
    requires
        all_white(parts.before),
        all_white(parts.gap),
        all_white(parts.after),
        writes(parts.number, n as nat),
        is_scaled(n as nat, parts.suffix, bytes),
    ensures
        bytes <= usize::MAX ==> checked_size(parts.text()) == Ok::<usize, SizeError>(bytes as usize),
        bytes > usize::MAX ==> checked_size(parts.text()) == Err::<usize, SizeError>(
            SizeError::TooLarge,
        ),
{
    unsigned_reads_what_is_written(parts.number, n);
    scaled_by_suffix(n as nat, parts.suffix);
    size_text_is_read(parts);
    assert(parts.bytes() == bytes) by {
        assert(is_scaled(n as nat, parts.suffix, n as nat * suffix_bytes(parts.suffix)->0));
    }
}

/// The digits of a number, alone or before a suffix, are read as that many units.
pub proof fn plain_sizes_are_read(n: usize)
    ensures
        checked_size(decimal(n as nat)) == Ok::<usize, SizeError>(n),
        n * 1024 <= usize::MAX ==> checked_size(decimal(n as nat) + seq!['K', 'B']) == Ok::<
            usize,
            SizeError,
        >((n * 1024) as usize),
        n * 1048576 <= usize::MAX ==> checked_size(decimal(n as nat) + seq!['M', 'B']) == Ok::<
            usize,
            SizeError,
        >((n * 1048576) as usize),
        n * 1073741824 <= usize::MAX ==> checked_size(decimal(n as nat) + seq!['G', 'B']) == Ok::<
            usize,
            SizeError,
        >((n * 1073741824) as usize),
        n * 1024 > usize::MAX ==> checked_size(decimal(n as nat) + seq!['K', 'B']) == Err::<
            usize,
            SizeError,
        >(SizeError::TooLarge),
        n * 1048576 > usize::MAX ==> checked_size(decimal(n as nat) + seq!['M', 'B']) == Err::<
            usize,
            SizeError,
        >(SizeError::TooLarge),
        n * 1073741824 > usize::MAX ==> checked_size(decimal(n as nat) + seq!['G', 'B']) == Err::<
            usize,
            SizeError,
        >(SizeError::TooLarge),
{
    assert(KB == 1024 && MB == 1048576 && GB == 1073741824);
    let number = decimal(n as nat);
    assert(seq!['K', 'B'][0] == 'K');
    assert(seq!['M', 'B'][0] == 'M');
    assert(seq!['G', 'B'][0] == 'G');
    assert(number + Seq::empty() =~= number);
    assert(n as nat * 1 == n);
    plain_size_is_read(n, Seq::empty());
    plain_size_is_read(n, seq!['K', 'B']);
    plain_size_is_read(n, seq!['M', 'B']);
    plain_size_is_read(n, seq!['G', 'B']);
}

/// A text that is read as a size writes a number of units that come to that size.
pub proof fn read_sizes_are_written(s: Seq<char>, size: usize)
    requires
        checked_size(s) == Ok::<usize, SizeError>(size),
    ensures
        exists|parts: SizeText, n: usize|
            {
                &&& s == #[trigger] parts.text()
                &&& all_white(parts.before) && all_white(parts.gap) && all_white(parts.after)
                &&& #[trigger] writes(parts.number, n as nat)
                &&& is_scaled(n as nat, parts.suffix, size as nat)
            },
{
    let parts = size_text_has_form(s);
    let n = choose|n: usize| #[trigger]
        writes(parts.number, n as nat) && is_scaled(n as nat, parts.suffix, size_value(s)->0);
    assert(s == parts.text() && writes(parts.number, n as nat));
}

/// The entries of a list are its pieces between commas: joined by commas they are
/// the list again, none of them holds a comma, and any texts without commas are the
/// entries of the list that joins them.
pub proof fn entries_are_the_pieces(list: Seq<char>, texts: Seq<Seq<char>>)
    ensures
        entries(list).len() > 0,
        join_with(entries(list), ',') == list,
        forall|i: int| 0 <= i < entries(list).len() ==> !(#[trigger] entries(list)[i]).contains(','),
        texts.len() > 0 && (forall|i: int|
            0 <= i < texts.len() ==> !(#[trigger] texts[i]).contains(',')) ==> entries(
            join_with(texts, ','),
        ) == texts,
{
    split_count(list, ',');
    join_of_split(list, ',');
    if texts.len() > 0 && forall|i: int|
        0 <= i < texts.len() ==> !(#[trigger] texts[i]).contains(',') {
        split_of_joined(texts, ',');
    }
}

/// Sizes are what a list spells exactly where there is one for each entry and each
/// is the number of bytes that its entry spells.
pub proof fn spelled_sizes_are_the_values(list: Seq<Seq<char>>, sizes: Seq<usize>)
    ensures
        spells(list, sizes) <==> sizes.len() == list.len() && forall|i: int|
            0 <= i < list.len() ==> size_value(#[trigger] list[i]) == Some(sizes[i] as nat),
{
    if spells(list, sizes) {
        assert forall|i: int| 0 <= i < list.len() implies size_value(#[trigger] list[i]) == Some(
            sizes[i] as nat,
        ) by {
            checked_size_is_the_value(list[i], sizes[i]);
        }
    }
    if sizes.len() == list.len() && forall|i: int|
        0 <= i < list.len() ==> size_value(#[trigger] list[i]) == Some(sizes[i] as nat) {
        assert forall|i: int| 0 <= i < list.len() implies checked_size(#[trigger] list[i]) == Ok::<
            usize,
            SizeError,
        >(sizes[i]) by {
            checked_size_is_the_value(list[i], sizes[i]);
        }
    }
}

/// Whether `s` spells a size that a `usize` holds.
pub open spec fn holds_a_size(s: Seq<char>) -> bool {
    size_value(s) matches Some(n) && n <= usize::MAX
}

/// The entry that a list is refused for is the first that spells no size or one
/// that a `usize` cannot hold.
pub proof fn refused_entry_is_the_first(list: Seq<Seq<char>>, i: int)
    ensures
        first_wrong(list, i) <==> 0 <= i < list.len() && !holds_a_size(list[i]) && forall|j: int|
            0 <= j < i ==> holds_a_size(#[trigger] list[j]),
{
    if first_wrong(list, i) {
        assert forall|j: int| 0 <= j < i implies holds_a_size(#[trigger] list[j]) by {
            assert(checked_size(list[j]) is Ok);
        }
    }
    if 0 <= i < list.len() && !holds_a_size(list[i]) && forall|j: int|
        0 <= j < i ==> holds_a_size(#[trigger] list[j]) {
        assert forall|j: int| 0 <= j < i implies checked_size(#[trigger] list[j]) is Ok by {
            assert(holds_a_size(list[j]));
        }
    }
}

/// Numbers with suffixes, joined by commas, are read as those numbers of units, in
/// order and as nothing else, and no entry is refused.
pub proof fn joined_numbers_are_read(
    numbers: Seq<usize>,
    suffixes: Seq<Seq<char>>,
    products: Seq<usize>,
    found: Seq<usize>,
)
    requires
        numbers.len() > 0,
        suffixes.len() == numbers.len(),
        products.len() == numbers.len(),
        forall|i: int|
            0 <= i < numbers.len() ==> is_scaled(
                #[trigger] numbers[i] as nat,
                suffixes[i],
                products[i] as nat,
            ),
    ensures
        ({
            let texts = Seq::new(
                numbers.len(),
                |i: int| decimal(numbers[i] as nat) + suffixes[i],
            );
            let read = entries(join_with(texts, ','));
            &&& spells(read, found) <==> found == products
            &&& forall|i: int| !first_wrong(read, i)
        }),
{
    let texts = Seq::new(numbers.len(), |i: int| decimal(numbers[i] as nat) + suffixes[i]);
    assert forall|i: int| 0 <= i < texts.len() implies checked_size(#[trigger] texts[i]) == Ok::<
        usize,
        SizeError,
    >(products[i]) by {
        let n = numbers[i];
        assert(is_scaled(n as nat, suffixes[i], products[i] as nat));
        let parts = SizeText {
            before: Seq::empty(),
            number: decimal(n as nat),
            gap: Seq::empty(),
            suffix: suffixes[i],
            after: Seq::empty(),
        };
        assert(zeros(0) + decimal(n as nat) =~= decimal(n as nat));
        written_sizes_are_read(parts, n, products[i] as nat);
        assert(parts.text() =~= texts[i]);
    }
    joined_sizes_are_read(texts, products);
    let read = entries(join_with(texts, ','));
    list_is_read_or_refused(read);
    if spells(read, found) {
        assert forall|i: int| 0 <= i < products.len() implies found[i] == products[i] by {
            assert(checked_size(read[i]) == Ok::<usize, SizeError>(found[i]));
            assert(checked_size(read[i]) == Ok::<usize, SizeError>(products[i]));
        }
        assert(found =~= products);
    }
}

/// The sizes of the full sweep ascend, so none occurs twice.
pub proof fn default_sizes_ascend(i: int, j: int)
    requires
        0 <= i < j < default_sizes().len(),
    ensures
        default_sizes()[i] < default_sizes()[j],
        default_sizes()[0] == 4096,
        usize::BITS == 64 ==> default_sizes().len() == 9 && default_sizes().last() == 32212254720,
{
    assert(MB == 1048576 && GB == 1073741824);
    let all = default_sizes();
    assert(all[0] == 4096 && all[1] == 65536 && all[2] == MB && all[3] == 16 * MB);
    assert(all[4] == 256 * MB && all[5] == GB);
    if all.len() > 6 {
        assert(all[6] == 4 * GB && all[7] == 16 * GB && all[8] == 30 * GB);
    }
    assert(all.len() == 6 || all.len() == 9);
    assert(i == 0 || i == 1 || i == 2 || i == 3 || i == 4 || i == 5 || i == 6 || i == 7);
    assert(j == 1 || j == 2 || j == 3 || j == 4 || j == 5 || j == 6 || j == 7 || j == 8);
}

} // verus!
