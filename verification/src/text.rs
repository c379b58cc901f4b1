//! Text handling for the session description parser: trimming, splitting,
//! searching, and reading decimal numbers.
//!
//! Texts are handled as sequences of characters. Positions count
//! characters, not bytes.

use vstd::prelude::*;
use vstd::string::StrSliceExecFns;
use crate::error::DecimalError;

verus! {

/// The characters of a text.
pub fn chars_of(s: &str) -> (chars: Vec<char>)
    ensures
        chars@ == s@,
{
    let mut chars: Vec<char> = Vec::new();
    for c in it: s.chars()
        invariant
            chars@ == s@.take(it.index() as int),
            it.seq() == s@,
    {
        chars.push(c);
        assert(s@.take(it.index() + 1) =~= s@.take(it.index() as int).push(c));
    }
    assert(s@.take(s@.len() as int) =~= s@);
    chars
}

/// Whether two texts hold the same characters.
pub fn same_text(a: &str, b: &str) -> (same: bool)
    ensures
        same == (a@ == b@),
{
    let x: Vec<char> = chars_of(a);
    let y: Vec<char> = chars_of(b);
    if x.len() != y.len() {
        return false;
    }
    let mut i: usize = 0;
    while i < x.len()
        invariant
            i <= x@.len(),
            x@.len() == y@.len(),
            x@ == a@,
            y@ == b@,
            forall|j: int| 0 <= j < i ==> x@[j] == y@[j],
        decreases x@.len() - i,
    {
        if x[i] != y[i] {
            return false;
        }
        i = i + 1;
    }
    assert(x@ =~= y@);
    true
}

/// White space as Unicode defines it.
pub open spec fn is_whitespace(c: char) -> bool {
    let n = c as u32;
    ||| 0x09 <= n <= 0x0d
    ||| n == 0x20
    ||| n == 0x85
    ||| n == 0xa0
    ||| n == 0x1680
    ||| 0x2000 <= n <= 0x200a
    ||| n == 0x2028
    ||| n == 0x2029
    ||| n == 0x202f
    ||| n == 0x205f
    ||| n == 0x3000
}

pub fn whitespace(c: char) -> (w: bool)
    ensures
        w == is_whitespace(c),
{
    let n: u32 = c as u32;
    (0x09 <= n && n <= 0x0d) || n == 0x20 || n == 0x85 || n == 0xa0 || n == 0x1680 || (0x2000 <= n
        && n <= 0x200a) || n == 0x2028 || n == 0x2029 || n == 0x202f || n == 0x205f || n == 0x3000
}

/// The text without the white space at its start.
pub open spec fn trim_start(s: Seq<char>) -> Seq<char>
    decreases s.len(),
{
    if s.len() > 0 && is_whitespace(s.first()) {
        trim_start(s.drop_first())
    } else {
        s
    }
}

/// The text without the white space at its end.
pub open spec fn trim_end(s: Seq<char>) -> Seq<char>
    decreases s.len(),
{
    if s.len() > 0 && is_whitespace(s.last()) {
        trim_end(s.drop_last())
    } else {
        s
    }
}

/// The text without the white space at its start and at its end.
pub open spec fn trim(s: Seq<char>) -> Seq<char> {
    trim_end(trim_start(s))
}

proof fn lemma_trim_start_skip(s: Seq<char>, i: int)
    requires
        0 <= i <= s.len(),
        forall|j: int| 0 <= j < i ==> is_whitespace(s[j]),
    ensures
        trim_start(s) == trim_start(s.skip(i)),
    decreases i,
{
    if i == 0 {
        assert(s.skip(0) =~= s);
    } else {
        lemma_trim_start_skip(s.drop_first(), i - 1);
        assert(s.drop_first().skip(i - 1) =~= s.skip(i));
    }
}

proof fn lemma_trim_end_take(s: Seq<char>, i: int)
    requires
        0 <= i <= s.len(),
        forall|j: int| i <= j < s.len() ==> is_whitespace(s[j]),
    ensures
        trim_end(s) == trim_end(s.take(i)),
    decreases s.len() - i,
{
    if i == s.len() {
        assert(s.take(i) =~= s);
    } else {
        lemma_trim_end_take(s.drop_last(), i);
        assert(s.drop_last().take(i) =~= s.take(i));
    }
}

/// Where the trimmed text starts and ends.
pub fn trim_bounds(chars: &[char]) -> (bounds: (usize, usize))
    ensures
        bounds.0 <= bounds.1 <= chars@.len(),
        chars@.subrange(bounds.0 as int, bounds.1 as int) == trim(chars@),
{
    let len: usize = chars.len();
    let mut start: usize = 0;
    while start < len && whitespace(chars[start])
        invariant
            start <= len,
            len == chars@.len(),
            forall|j: int| 0 <= j < start ==> is_whitespace(chars@[j]),
        decreases len - start,
    {
        start = start + 1;
    }
    let mut end: usize = len;
    while end > start && whitespace(chars[end - 1])
        invariant
            start <= end <= len,
            len == chars@.len(),
            forall|j: int| end <= j < len ==> is_whitespace(chars@[j]),
        decreases end,
    {
        end = end - 1;
    }
    proof {
        let s = chars@;
        let t = s.skip(start as int);
        lemma_trim_start_skip(s, start as int);
        assert(trim_start(s) == t);
        lemma_trim_end_take(t, end - start);
        assert(t.take(end - start) =~= s.subrange(start as int, end as int));
        let u = s.subrange(start as int, end as int);
        if u.len() > 0 {
            assert(u.last() == s[end - 1]);
        }
        assert(trim_end(u) == u);
    }
    (start, end)
}

/// Whether `i` is the first position of `c` in the text.
pub open spec fn first_at(s: Seq<char>, c: char, i: int) -> bool {
    &&& 0 <= i < s.len()
    &&& s[i] == c
    &&& forall|j: int| 0 <= j < i ==> s[j] != c
}

/// The first position of `c` in the text, if it occurs.
pub open spec fn index_of(s: Seq<char>, c: char) -> Option<int> {
    if exists|i: int| first_at(s, c, i) {
        Some(choose|i: int| first_at(s, c, i))
    } else {
        None
    }
}

pub proof fn lemma_index_of_found(s: Seq<char>, c: char, i: int)
    requires
        first_at(s, c, i),
    ensures
        index_of(s, c) == Some(i),
{
    let k = choose|k: int| first_at(s, c, k);
    assert(first_at(s, c, k));
    if k < i {
        assert(s[k] != c);
    }
    if i < k {
        assert(s[i] != c);
    }
}

pub proof fn lemma_index_of_absent(s: Seq<char>, c: char)
    requires
        forall|j: int| 0 <= j < s.len() ==> s[j] != c,
    ensures
        index_of(s, c) is None,
{
}

pub proof fn lemma_index_of_range(s: Seq<char>, c: char)
    ensures
        index_of(s, c) matches Some(i) ==> first_at(s, c, i),
{
}

/// Looks for `c` at the positions from `from` up to `to`.
pub fn find(chars: &[char], c: char, from: usize, to: usize) -> (found: Option<usize>)
    requires
        from <= to <= chars@.len(),
    ensures
        match found {
            Some(i) => from <= i < to && index_of(chars@.subrange(from as int, to as int), c)
                == Some(i - from),
            None => index_of(chars@.subrange(from as int, to as int), c) is None,
        },
{
    let ghost part = chars@.subrange(from as int, to as int);
    let mut i: usize = from;
    while i < to
        invariant
            from <= i <= to <= chars@.len(),
            part == chars@.subrange(from as int, to as int),
            forall|j: int| 0 <= j < i - from ==> part[j] != c,
        decreases to - i,
    {
        if chars[i] == c {
            proof {
                assert(part[i - from] == c);
                lemma_index_of_found(part, c, i - from);
            }
            return Some(i);
        }
        i = i + 1;
    }
    proof {
        lemma_index_of_absent(part, c);
    }
    None
}

/// The pieces of the text between the occurrences of `sep`. A text
/// without `sep` is one piece; a text that ends in `sep` has an empty last
/// piece.
pub open spec fn split(s: Seq<char>, sep: char) -> Seq<Seq<char>>
    decreases s.len(),
{
    match index_of(s, sep) {
        Some(i) => if 0 <= i < s.len() {
            seq![s.take(i)] + split(s.skip(i + 1), sep)
        } else {
            seq![s]
        },
        None => seq![s],
    }
}

/// The pieces of the text between the positions in `bounds`.
pub open spec fn pieces(s: Seq<char>, bounds: Seq<(usize, usize)>) -> Seq<Seq<char>> {
    Seq::new(bounds.len(), |k: int| s.subrange(bounds[k].0 as int, bounds[k].1 as int))
}

/// Where the pieces of `split` start and end.
pub fn split_bounds(chars: &[char], sep: char) -> (bounds: Vec<(usize, usize)>)
    ensures
        forall|k: int|
            0 <= k < bounds@.len() ==> (#[trigger] bounds@[k]).0 <= bounds@[k].1 <= chars@.len(),
        pieces(chars@, bounds@) == split(chars@, sep),
        bounds@.len() >= 1,
{
    let len: usize = chars.len();
    let mut bounds: Vec<(usize, usize)> = Vec::new();
    let mut start: usize = 0;
    let mut done: bool = false;
    proof {
        assert(chars@.skip(0) =~= chars@);
        assert(pieces(chars@, bounds@) + split(chars@, sep) =~= split(chars@, sep));
    }
    while !done
        invariant
            start <= len,
            len == chars@.len(),
            forall|k: int|
                0 <= k < bounds@.len() ==> (#[trigger] bounds@[k]).0 <= bounds@[k].1 <= len,
            !done ==> split(chars@, sep) == pieces(chars@, bounds@) + split(
                chars@.skip(start as int),
                sep,
            ),
            done ==> split(chars@, sep) == pieces(chars@, bounds@) && bounds@.len() >= 1,
        decreases (if done { 0int } else { 1int }), len - start,
    {
        let ghost before = pieces(chars@, bounds@);
        let ghost rest = chars@.skip(start as int);
        match find(chars, sep, start, len) {
            Some(i) => {
                bounds.push((start, i));
                proof {
                    assert(rest =~= chars@.subrange(start as int, len as int));
                    lemma_index_of_range(rest, sep);
                    assert(rest.take(i - start) =~= chars@.subrange(start as int, i as int));
                    assert(rest.skip(i - start + 1) =~= chars@.skip(i + 1));
                    assert(pieces(chars@, bounds@) =~= before + seq![
                        chars@.subrange(start as int, i as int),
                    ]);
                    assert(split(chars@, sep) =~= pieces(chars@, bounds@) + split(
                        chars@.skip(i + 1),
                        sep,
                    ));
                }
                start = i + 1;
            },
            None => {
                bounds.push((start, len));
                proof {
                    assert(rest =~= chars@.subrange(start as int, len as int));
                    assert(pieces(chars@, bounds@) =~= before + seq![rest]);
                }
                done = true;
            },
        }
    }
    bounds
}

/// The first two pieces of `split`, where there are two.
pub open spec fn first_two(s: Seq<char>, sep: char) -> Option<(Seq<char>, Seq<char>)> {
    let parts = split(s, sep);
    if parts.len() >= 2 {
        Some((parts[0], parts[1]))
    } else {
        None
    }
}

/// Where the first two pieces of `split` start and end, for the text from
/// `from` up to `to`.
pub fn first_two_bounds(chars: &[char], sep: char, from: usize, to: usize) -> (bounds: Option<
    ((usize, usize), (usize, usize)),
>)
    requires
        from <= to <= chars@.len(),
    ensures
        match bounds {
            Some((a, b)) => {
                &&& from <= a.0 <= a.1 <= b.0 <= b.1 <= to
                &&& first_two(chars@.subrange(from as int, to as int), sep) == Some(
                    (
                        chars@.subrange(a.0 as int, a.1 as int),
                        chars@.subrange(b.0 as int, b.1 as int),
                    ),
                )
            },
            None => first_two(chars@.subrange(from as int, to as int), sep) is None,
        },
{
    let ghost s = chars@.subrange(from as int, to as int);
    proof {
        reveal_with_fuel(split, 2);
        lemma_index_of_range(s, sep);
    }
    match find(chars, sep, from, to) {
        None => None,
        Some(i) => {
            let ghost rest = s.skip(i - from + 1);
            proof {
                lemma_index_of_range(rest, sep);
                assert(rest =~= chars@.subrange(i + 1, to as int));
                assert(s.take(i - from) =~= chars@.subrange(from as int, i as int));
            }
            match find(chars, sep, i + 1, to) {
                Some(j) => {
                    proof {
                        assert(rest.take(j - i - 1) =~= chars@.subrange(i + 1, j as int));
                    }
                    Some(((from, i), (i + 1, j)))
                },
                None => Some(((from, i), (i + 1, to))),
            }
        },
    }
}

/// Whether `needle` stands in `hay` at position `i`.
pub open spec fn occurs_at(hay: Seq<char>, needle: Seq<char>, i: int) -> bool {
    &&& 0 <= i
    &&& i + needle.len() <= hay.len()
    &&& hay.subrange(i, i + needle.len()) == needle
}

/// Whether `needle` stands somewhere in `hay`.
pub open spec fn contains(hay: Seq<char>, needle: Seq<char>) -> bool {
    exists|i: int| occurs_at(hay, needle, i)
}

fn matches_at(hay: &[char], needle: &[char], i: usize) -> (m: bool)
    requires
        i + needle@.len() <= hay@.len(),
    ensures
        m == occurs_at(hay@, needle@, i as int),
{
    let n: usize = needle.len();
    let size: usize = hay.len();
    let mut j: usize = 0;
    while j < n
        invariant
            j <= n,
            n == needle@.len(),
            size == hay@.len(),
            i + n <= size,
            forall|k: int| 0 <= k < j ==> hay@[i + k] == needle@[k],
        decreases n - j,
    {
        if hay[i + j] != needle[j] {
            proof {
                assert(hay@.subrange(i as int, i + n)[j as int] == hay@[i + j]);
            }
            return false;
        }
        j = j + 1;
    }
    assert(hay@.subrange(i as int, i + n) =~= needle@);
    true
}

/// Looks for `needle` in `hay`.
pub fn contains_text(hay: &[char], needle: &[char]) -> (found: bool)
    ensures
        found == contains(hay@, needle@),
{
    if needle.len() > hay.len() {
        return false;
    }
    let last: usize = hay.len() - needle.len();
    let mut i: usize = 0;
    loop
        invariant
            i <= last,
            last == hay@.len() - needle@.len(),
            forall|k: int| 0 <= k < i ==> !occurs_at(hay@, needle@, k),
        decreases last - i,
    {
        if matches_at(hay, needle, i) {
            return true;
        }
        if i == last {
            return false;
        }
        i = i + 1;
    }
}

/// The value of a decimal digit.
pub open spec fn digit(c: char) -> Option<nat> {
    if '0' <= c <= '9' {
        Some((c as u32 - 0x30) as nat)
    } else {
        None
    }
}

/// Whether the text holds decimal digits and nothing else.
pub open spec fn all_digits(s: Seq<char>) -> bool {
    forall|i: int| 0 <= i < s.len() ==> (#[trigger] digit(s[i])) is Some
}

/// The number that a text of decimal digits writes, most significant
/// digit first. The empty text writes zero.
pub open spec fn digits_value(s: Seq<char>) -> nat
    decreases s.len(),
{
    if s.len() == 0 {
        0
    } else {
        digits_value(s.drop_last()) * 10 + match digit(s.last()) {
            Some(d) => d,
            None => 0,
        }
    }
}

/// The text without a plus sign at its start.
pub open spec fn unsigned_part(s: Seq<char>) -> Seq<char> {
    if s.len() > 0 && s[0] == '+' {
        s.drop_first()
    } else {
        s
    }
}

/// Reads a number of at most `max` from a text of decimal digits. The
/// empty text reads as zero.
pub open spec fn digits_only(s: Seq<char>, max: nat) -> Result<nat, DecimalError> {
    if !all_digits(s) {
        Err(DecimalError::InvalidDigit)
    } else if digits_value(s) > max {
        Err(DecimalError::Overflow)
    } else {
        Ok(digits_value(s))
    }
}

/// Reads a decimal number of at most `max`: digits, with or without a plus
/// sign before them.
pub open spec fn decimal(s: Seq<char>, max: nat) -> Result<nat, DecimalError> {
    let digits = unsigned_part(s);
    if s.len() == 0 {
        Err(DecimalError::Empty)
    } else if digits.len() == 0 {
        Err(DecimalError::InvalidDigit)
    } else {
        digits_only(digits, max)
    }
}

/// A number read from a text, as plain values.
pub open spec fn number_read(r: Result<u64, DecimalError>) -> Result<nat, DecimalError> {
    match r {
        Ok(v) => Ok(v as nat),
        Err(e) => Err(e),
    }
}

fn digit_of(c: char) -> (d: Option<u64>)
    ensures
        match d {
            Some(v) => digit(c) == Some(v as nat) && v <= 9,
            None => digit(c) is None,
        },
{
    if '0' <= c && c <= '9' {
        Some((c as u32 - 0x30) as u64)
    } else {
        None
    }
}

/// Reads the number that the digits from `from` up to `to` write.
pub fn parse_digits(chars: &[char], from: usize, to: usize, max: u64) -> (r: Result<
    u64,
    DecimalError,
>)
    requires
        from <= to <= chars@.len(),
    ensures
        number_read(r) == digits_only(chars@.subrange(from as int, to as int), max as nat),
{
    let ghost digits = chars@.subrange(from as int, to as int);
    let mut value: u64 = 0;
    let mut overflow: bool = false;
    let mut i: usize = from;
    while i < to
        invariant
            from <= i <= to <= chars@.len(),
            digits == chars@.subrange(from as int, to as int),
            forall|j: int| 0 <= j < i - from ==> (#[trigger] digit(digits[j])) is Some,
            !overflow ==> value == digits_value(digits.take(i - from)) && value <= max,
            overflow ==> digits_value(digits.take(i - from)) > max,
        decreases to - i,
    {
        let ghost prefix = digits.take(i - from);
        let ghost longer = digits.take(i - from + 1);
        assert(longer.drop_last() =~= prefix);
        assert(longer.last() == chars@[i as int]);
        match digit_of(chars[i]) {
            None => {
                assert(digits[i - from] == chars@[i as int]);
                assert(digit(digits[i - from]) is None);
                return Err(DecimalError::InvalidDigit);
            },
            Some(d) => {
                if !overflow {
                    if d <= max && value <= (max - d) / 10 {
                        value = value * 10 + d;
                    } else {
                        overflow = true;
                    }
                }
            },
        }
        i = i + 1;
    }
    proof {
        assert(digits.take(to - from) =~= digits);
        assert(all_digits(digits));
    }
    if overflow {
        Err(DecimalError::Overflow)
    } else {
        Ok(value)
    }
}

/// Reads the decimal number that the characters from `from` up to `to`
/// write.
pub fn parse_decimal(chars: &[char], from: usize, to: usize, max: u64) -> (r: Result<
    u64,
    DecimalError,
>)
    requires
        from <= to <= chars@.len(),
    ensures
        number_read(r) == decimal(chars@.subrange(from as int, to as int), max as nat),
{
    let ghost s = chars@.subrange(from as int, to as int);
    if from == to {
        return Err(DecimalError::Empty);
    }
    let first: usize = if chars[from] == '+' {
        from + 1
    } else {
        from
    };
    assert(s[0] == chars@[from as int]);
    assert(unsigned_part(s) =~= chars@.subrange(first as int, to as int));
    if first == to {
        return Err(DecimalError::InvalidDigit);
    }
    parse_digits(chars, first, to, max)
}

/// Reads a decimal number of at most `max` from a text.
pub fn parse_number(s: &str, max: u64) -> (r: Result<u64, DecimalError>)
    ensures
        number_read(r) == decimal(s@, max as nat),
{
    let chars: Vec<char> = chars_of(s);
    assert(chars@.subrange(0, chars@.len() as int) =~= chars@);
    parse_decimal(chars.as_slice(), 0, chars.len(), max)
}

/// What `str::to_lowercase` returns for a text.
pub uninterp spec fn lowercase(s: Seq<char>) -> Seq<char>;

/// The text in lower case, by `str::to_lowercase`.
///
/// Trusted: the result is what the standard library computes from the
/// characters of the text, by the Unicode rules for lower case.
#[verifier::external_body]
pub(crate) fn to_lowercase(s: &str) -> (lowered: String)
    ensures
        lowered@ == lowercase(s@),
{
    s.to_lowercase()
}

} // verus!
