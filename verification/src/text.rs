//! Character-sequence helpers shared by the parsers: conversions between
//! `String`, `&str` and `Vec<char>`, lossy UTF-8 decoding, lowercasing,
//! whitespace trimming and decimal/hexadecimal number parsing.
use vstd::prelude::*;

verus! {

/// What `String::from_utf8_lossy` yields for the given bytes.
pub uninterp spec fn spec_utf8_lossy(bytes: Seq<u8>) -> Seq<char>;

/// What `str::to_lowercase` yields for the given characters.
pub uninterp spec fn spec_to_lowercase(chars: Seq<char>) -> Seq<char>;

/// Bytes that are all below 0x80.
pub open spec fn is_ascii_bytes(bytes: Seq<u8>) -> bool {
    forall|i: int| 0 <= i < bytes.len() ==> #[trigger] bytes[i] < 0x80
}

/// The characters whose code points are the given ASCII bytes.
pub open spec fn ascii_chars(bytes: Seq<u8>) -> Seq<char> {
    bytes.map_values(|b: u8| b as char)
}

/// Lowercase of one ASCII character.
pub open spec fn ascii_lower(c: char) -> char {
    if 'A' <= c && c <= 'Z' {
        ((c as u32) + 32) as char
    } else {
        c
    }
}

/// ASCII letters lowercased.
pub open spec fn spec_lower(s: Seq<char>) -> Seq<char> {
    s.map_values(|c: char| ascii_lower(c))
}

/// Whether `s` ends with `suffix`.
pub open spec fn spec_ends_with(s: Seq<char>, suffix: Seq<char>) -> bool {
    suffix.len() <= s.len() && s.subrange(s.len() - suffix.len(), s.len() as int) == suffix
}

/// Lowercase of one ASCII character.
pub fn lower_char(c: char) -> (res: char)
    ensures
        res == ascii_lower(c),
{
    if 'A' <= c && c <= 'Z' {
        ((c as u8) + 32) as char
    } else {
        c
    }
}

/// Whether two strings are equal ignoring ASCII case.
pub fn eq_ignore_ascii_case(a: &[char], b: &[char]) -> (res: bool)
    ensures
        res == (spec_lower(a@) == spec_lower(b@)),
{
    if a.len() != b.len() {
        assert(spec_lower(a@).len() != spec_lower(b@).len());
        return false;
    }
    let mut i: usize = 0;
    while i < a.len()
        invariant
            i <= a@.len() == b@.len(),
            forall|k: int| 0 <= k < i ==> ascii_lower(#[trigger] a@[k]) == ascii_lower(b@[k]),
        decreases a@.len() - i,
    {
        if lower_char(a[i]) != lower_char(b[i]) {
            assert(spec_lower(a@)[i as int] != spec_lower(b@)[i as int]);
            return false;
        }
        i = i + 1;
    }
    assert(spec_lower(a@) =~= spec_lower(b@));
    true
}

/// Whether `s` ends with `suffix`, ignoring ASCII case.
pub fn ends_with_ignore_ascii_case(s: &[char], suffix: &[char]) -> (res: bool)
    ensures
        res == spec_ends_with(spec_lower(s@), spec_lower(suffix@)),
{
    if suffix.len() > s.len() {
        return false;
    }
    let offset = s.len() - suffix.len();
    let mut i: usize = 0;
    while i < suffix.len()
        invariant
            offset + suffix@.len() == s@.len(),
            s@.len() <= usize::MAX,
            i <= suffix@.len(),
            forall|k: int| 0 <= k < i ==> ascii_lower(#[trigger] suffix@[k]) == ascii_lower(s@[offset + k]),
        decreases suffix@.len() - i,
    {
        if lower_char(s[offset + i]) != lower_char(suffix[i]) {
            assert(spec_lower(s@).subrange(offset as int, s@.len() as int)[i as int] != spec_lower(suffix@)[i as int]);
            return false;
        }
        i = i + 1;
    }
    assert(spec_lower(s@).subrange(offset as int, s@.len() as int) =~= spec_lower(suffix@));
    true
}

/// Characters that are all ASCII.
pub open spec fn is_ascii_seq(chars: Seq<char>) -> bool {
    forall|i: int| 0 <= i < chars.len() ==> (#[trigger] chars[i] as u32) < 0x80
}

/// What `String::from_utf16_lossy` yields for the given code units.
pub uninterp spec fn spec_utf16_lossy(units: Seq<u16>) -> Seq<char>;

/// Decodes UTF-16 code units, replacing unpaired surrogates with U+FFFD, by
/// calling `String::from_utf16_lossy`. The contract names the result and
/// states the documented fact that units below 0x80, which are whole
/// characters, decode to the same code points.
#[verifier::external_body]
pub fn utf16_lossy(units: &[u16]) -> (res: String)
    ensures
        res@ == spec_utf16_lossy(units@),
        (forall|i: int| 0 <= i < units@.len() ==> #[trigger] units@[i] < 0x80) ==> res@
            == units@.map_values(|u: u16| u as char),
{
    String::from_utf16_lossy(units)
}

/// Decodes bytes as UTF-8, replacing invalid sequences with U+FFFD, by calling
/// `String::from_utf8_lossy`. The contract names the result and states the
/// documented fact that ASCII input decodes to the same code points.
#[verifier::external_body]
pub fn utf8_lossy(bytes: &[u8]) -> (res: String)
    ensures
        res@ == spec_utf8_lossy(bytes@),
        is_ascii_bytes(bytes@) ==> res@ == ascii_chars(bytes@),
{
    String::from_utf8_lossy(bytes).into_owned()
}

/// Lowercases by calling `str::to_lowercase`. The contract names the result
/// and states the documented fact that ASCII characters lowercase one for one
/// as `to_ascii_lowercase` does.
#[verifier::external_body]
pub fn to_lowercase(s: &str) -> (res: String)
    ensures
        res@ == spec_to_lowercase(s@),
        is_ascii_seq(s@) ==> res@ == s@.map_values(|c: char| ascii_lower(c)),
{
    s.to_lowercase()
}

/// The characters of a string slice, collected by `str::chars`.
#[verifier::external_body]
pub fn chars_of(s: &str) -> (res: Vec<char>)
    ensures
        res@ == s@,
{
    s.chars().collect()
}

/// A string holding the given characters, collected by `String::from_iter`.
#[verifier::external_body]
pub fn string_from_chars(chars: &[char]) -> (res: String)
    ensures
        res@ == chars@,
{
    chars.iter().collect()
}

/// Whether two character vectors are equal.
pub fn chars_equal(a: &[char], b: &[char]) -> (res: bool)
    ensures
        res == (a@ == b@),
{
    if a.len() != b.len() {
        return false;
    }
    let mut i: usize = 0;
    while i < a.len()
        invariant
            a.len() == b.len(),
            i <= a.len(),
            forall|j: int| 0 <= j < i ==> a@[j] == b@[j],
        decreases a.len() - i,
    {
        if a[i] != b[i] {
            return false;
        }
        i = i + 1;
    }
    assert(a@ =~= b@);
    true
}

/// Whether a character vector spells the given string slice.
pub fn chars_equal_str(a: &[char], s: &str) -> (res: bool)
    ensures
        res == (a@ == s@),
{
    let b = chars_of(s);
    chars_equal(a, b.as_slice())
}

/// Whether two strings are equal.
pub fn strings_equal(a: &str, b: &str) -> (res: bool)
    ensures
        res == (a@ == b@),
{
    let x = chars_of(a);
    let y = chars_of(b);
    chars_equal(x.as_slice(), y.as_slice())
}

/// Unicode white space, as `char::is_whitespace` defines it.
pub open spec fn spec_is_whitespace(c: char) -> bool {
    let u = c as u32;
    (0x09 <= u <= 0x0d) || u == 0x20 || u == 0x85 || u == 0xa0 || u == 0x1680 || (0x2000 <= u
        <= 0x200a) || u == 0x2028 || u == 0x2029 || u == 0x202f || u == 0x205f || u == 0x3000
}

/// Whether a character is Unicode white space.
pub fn is_whitespace(c: char) -> (res: bool)
    ensures
        res == spec_is_whitespace(c),
{
    let u = c as u32;
    (0x09 <= u && u <= 0x0d) || u == 0x20 || u == 0x85 || u == 0xa0 || u == 0x1680 || (0x2000 <= u
        && u <= 0x200a) || u == 0x2028 || u == 0x2029 || u == 0x202f || u == 0x205f || u == 0x3000
}

/// The characters without leading white space.
pub open spec fn spec_trim_front(s: Seq<char>) -> Seq<char>
    decreases s.len(),
{
    if s.len() > 0 && spec_is_whitespace(s[0]) {
        spec_trim_front(s.drop_first())
    } else {
        s
    }
}

/// The characters without trailing white space.
pub open spec fn spec_trim_back(s: Seq<char>) -> Seq<char>
    decreases s.len(),
{
    if s.len() > 0 && spec_is_whitespace(s.last()) {
        spec_trim_back(s.drop_last())
    } else {
        s
    }
}

/// The characters without leading and trailing white space (`str::trim`).
pub open spec fn spec_trim(s: Seq<char>) -> Seq<char> {
    spec_trim_back(spec_trim_front(s))
}

/// Copy of `s[from..to]`.
pub fn copy_chars(s: &[char], from: usize, to: usize) -> (res: Vec<char>)
    requires
        from <= to <= s@.len(),
    ensures
        res@ == s@.subrange(from as int, to as int),
{
    vstd::slice::slice_to_vec(&s[from..to])
}

/// Remove leading and trailing white space.
pub fn trim_chars(s: &[char]) -> (res: Vec<char>)
    ensures
        res@ == spec_trim(s@),
{
    let mut from: usize = 0;
    assert(s@.subrange(0, s@.len() as int) =~= s@);
    while from < s.len() && is_whitespace(s[from])
        invariant
            from <= s@.len(),
            spec_trim_front(s@) == spec_trim_front(s@.subrange(from as int, s@.len() as int)),
        decreases s@.len() - from,
    {
        assert(s@.subrange(from + 1, s@.len() as int) =~= s@.subrange(from as int, s@.len() as int).drop_first());
        from = from + 1;
    }
    let ghost front = s@.subrange(from as int, s@.len() as int);
    assert(spec_trim_front(s@) == front);
    let mut to: usize = s.len();
    while to > from && is_whitespace(s[to - 1])
        invariant
            from <= to <= s@.len(),
            front == s@.subrange(from as int, s@.len() as int),
            spec_trim_back(front) == spec_trim_back(s@.subrange(from as int, to as int)),
        decreases to - from,
    {
        assert(s@.subrange(from as int, to - 1) =~= s@.subrange(from as int, to as int).drop_last());
        to = to - 1;
    }
    copy_chars(s, from, to)
}

/// The pieces of `s` between occurrences of `sep` (`str::split` with a
/// character pattern): always at least one piece.
pub open spec fn spec_split(s: Seq<char>, sep: char) -> Seq<Seq<char>>
    decreases s.len(),
{
    if s.len() == 0 {
        seq![Seq::empty()]
    } else {
        let prev = spec_split(s.drop_last(), sep);
        if s.last() == sep {
            prev.push(Seq::empty())
        } else {
            prev.update(prev.len() - 1, prev.last().push(s.last()))
        }
    }
}

pub proof fn lemma_split_nonempty(s: Seq<char>, sep: char)
    ensures
        spec_split(s, sep).len() >= 1,
    decreases s.len(),
{
    if s.len() > 0 {
        lemma_split_nonempty(s.drop_last(), sep);
    }
}

/// Views of a vector of character vectors.
pub open spec fn nested_view(v: Seq<Vec<char>>) -> Seq<Seq<char>> {
    v.map_values(|x: Vec<char>| x@)
}

/// Split at every occurrence of `sep`.
pub fn split_chars(s: &[char], sep: char) -> (res: Vec<Vec<char>>)
    ensures
        nested_view(res@) == spec_split(s@, sep),
{
    let mut pieces: Vec<Vec<char>> = Vec::new();
    let mut start: usize = 0;
    let mut i: usize = 0;
    proof {
        assert(s@.subrange(0, 0) =~= Seq::<char>::empty());
        assert(nested_view(pieces@) =~= Seq::<Seq<char>>::empty());
        assert(spec_split(Seq::<char>::empty(), sep) =~= seq![Seq::<char>::empty()]);
        assert(nested_view(pieces@).push(s@.subrange(0, 0)) =~= seq![Seq::<char>::empty()]);
    }
    while i < s.len()
        invariant
            start <= i <= s@.len(),
            spec_split(s@.subrange(0, i as int), sep) =~= nested_view(pieces@).push(s@.subrange(start as int, i as int)),
        decreases s@.len() - i,
    {
        proof {
            assert(s@.subrange(0, i + 1).drop_last() =~= s@.subrange(0, i as int));
            lemma_split_nonempty(s@.subrange(0, i as int), sep);
        }
        if s[i] == sep {
            let piece = copy_chars(s, start, i);
            let ghost prev = pieces@;
            pieces.push(piece);
            assert(nested_view(pieces@) =~= nested_view(prev).push(piece@));
            start = i + 1;
            assert(s@.subrange(start as int, i + 1) =~= Seq::<char>::empty());
        } else {
            assert(s@.subrange(start as int, i + 1) =~= s@.subrange(start as int, i as int).push(s@[i as int]));
        }
        i = i + 1;
    }
    assert(s@.subrange(0, s@.len() as int) =~= s@);
    let last = copy_chars(s, start, s.len());
    let ghost prev = pieces@;
    pieces.push(last);
    assert(nested_view(pieces@) =~= nested_view(prev).push(last@));
    pieces
}

/// A line without the '\r' of a "\r\n" ending.
pub open spec fn spec_strip_cr(line: Seq<char>) -> Seq<char> {
    if line.len() > 0 && line.last() == '\r' {
        line.drop_last()
    } else {
        line
    }
}

/// The lines of a text (`str::lines`): pieces between '\n' characters, a
/// '\r' before a '\n' removed, and no empty last line after a final '\n'.
pub open spec fn spec_lines(s: Seq<char>) -> Seq<Seq<char>> {
    let pieces = spec_split(s, '\n');
    let ended = Seq::new((pieces.len() - 1) as nat, |i: int| spec_strip_cr(pieces[i]));
    if pieces.last().len() == 0 {
        ended
    } else {
        ended.push(pieces.last())
    }
}

/// Split a text into lines.
pub fn lines_of(s: &[char]) -> (res: Vec<Vec<char>>)
    ensures
        nested_view(res@) == spec_lines(s@),
{
    let pieces = split_chars(s, '\n');
    proof {
        lemma_split_nonempty(s@, '\n');
    }
    let count = pieces.len();
    let mut lines: Vec<Vec<char>> = Vec::new();
    let mut i: usize = 0;
    while i + 1 < count
        invariant
            count == pieces@.len(),
            count >= 1,
            i + 1 <= count,
            nested_view(pieces@) == spec_split(s@, '\n'),
            nested_view(lines@) =~= Seq::new(i as nat, |j: int| spec_strip_cr(spec_split(s@, '\n')[j])),
        decreases count - i,
    {
        let piece = &pieces[i];
        let n = piece.len();
        let line = if n > 0 && piece[n - 1] == '\r' {
            copy_chars(piece.as_slice(), 0, n - 1)
        } else {
            copy_chars(piece.as_slice(), 0, n)
        };
        proof {
            assert(nested_view(pieces@)[i as int] == piece@);
            assert(piece@.subrange(0, n as int) =~= piece@);
            assert(n > 0 ==> piece@.subrange(0, n - 1) =~= piece@.drop_last());
        }
        let ghost prev = lines@;
        lines.push(line);
        assert(nested_view(lines@) =~= nested_view(prev).push(line@));
        i = i + 1;
    }
    let last = &pieces[count - 1];
    assert(nested_view(pieces@)[count - 1] == last@);
    if last.len() > 0 {
        let copy = copy_chars(last.as_slice(), 0, last.len());
        assert(last@.subrange(0, last@.len() as int) =~= last@);
        let ghost prev = lines@;
        lines.push(copy);
        assert(nested_view(lines@) =~= nested_view(prev).push(copy@));
    }
    lines
}

/// Value of a digit in the given radix (10 or 16).
pub open spec fn spec_digit(c: char, radix: int) -> Option<int> {
    let u = c as u32;
    if 0x30 <= u <= 0x39 {
        Some(u - 0x30)
    } else if radix == 16 && 0x61 <= u <= 0x66 {
        Some(u - 0x61 + 10)
    } else if radix == 16 && 0x41 <= u <= 0x46 {
        Some(u - 0x41 + 10)
    } else {
        None
    }
}

/// Value of a string of digits, or `None` when some character is not a
/// digit.
pub open spec fn spec_digits_value(s: Seq<char>, radix: int) -> Option<int>
    decreases s.len(),
{
    if s.len() == 0 {
        Some(0)
    } else {
        match (spec_digits_value(s.drop_last(), radix), spec_digit(s.last(), radix)) {
            (Some(v), Some(d)) => Some(v * radix + d),
            _ => None,
        }
    }
}

/// An unsigned number as `from_str_radix` reads it: an optional '+', then
/// at least one digit; `None` when a character is not a digit or the value
/// exceeds `max`.
pub open spec fn spec_parse_unsigned(s: Seq<char>, radix: int, max: int) -> Option<int> {
    let digits = if s.len() > 0 && s[0] == '+' {
        s.drop_first()
    } else {
        s
    };
    if digits.len() == 0 {
        None
    } else {
        match spec_digits_value(digits, radix) {
            Some(v) => if v <= max {
                Some(v)
            } else {
                None
            },
            None => None,
        }
    }
}

proof fn lemma_digits_value_nonneg(s: Seq<char>, radix: int)
    requires
        radix == 10 || radix == 16,
    ensures
        spec_digits_value(s, radix) matches Some(v) ==> v >= 0,
    decreases s.len(),
{
    if s.len() > 0 {
        lemma_digits_value_nonneg(s.drop_last(), radix);
    }
}

/// Once a prefix of digits exceeds a bound, the whole value does too (or
/// the string holds a non-digit).
proof fn lemma_digits_value_grows(s: Seq<char>, k: int, radix: int)
    requires
        radix == 10 || radix == 16,
        0 <= k <= s.len(),
        spec_digits_value(s.subrange(0, k), radix) is Some,
    ensures
        spec_digits_value(s, radix) matches Some(v) ==> v >= spec_digits_value(s.subrange(0, k), radix).unwrap(),
    decreases s.len() - k,
{
    if k < s.len() {
        let t = s.subrange(0, k + 1);
        assert(t.drop_last() =~= s.subrange(0, k));
        lemma_digits_value_nonneg(s.subrange(0, k), radix);
        if spec_digits_value(t, radix) is Some {
            lemma_digits_value_grows(s, k + 1, radix);
        } else {
            lemma_digits_none_grows(s, k + 1, radix);
        }
    } else {
        assert(s.subrange(0, k) =~= s);
    }
}

proof fn lemma_digits_none_grows(s: Seq<char>, k: int, radix: int)
    requires
        0 <= k <= s.len(),
        spec_digits_value(s.subrange(0, k), radix) is None,
    ensures
        spec_digits_value(s, radix) is None,
    decreases s.len() - k,
{
    if k < s.len() {
        assert(s.subrange(0, k + 1).drop_last() =~= s.subrange(0, k));
        lemma_digits_none_grows(s, k + 1, radix);
    } else {
        assert(s.subrange(0, k) =~= s);
    }
}

/// Parse an unsigned number in radix 10 or 16 that must not exceed `max`.
#[verifier::loop_isolation(false)]
pub fn parse_unsigned(s: &[char], radix: u32, max: u64) -> (res: Option<u64>)
    requires
        radix == 10 || radix == 16,
    ensures
        match res {
            Some(v) => spec_parse_unsigned(s@, radix as int, max as int) == Some(v as int),
            None => spec_parse_unsigned(s@, radix as int, max as int) is None,
        },
{
    let n = s.len();
    let start: usize = if n > 0 && s[0] == '+' {
        1
    } else {
        0
    };
    let ghost digits = s@.subrange(start as int, n as int);
    assert(digits =~= if s@.len() > 0 && s@[0] == '+' {
        s@.drop_first()
    } else {
        s@
    });
    if start == n {
        return None;
    }
    let mut value: u128 = 0;
    let mut i: usize = start;
    while i < n
        invariant
            n == s@.len(),
            start <= i <= n,
            digits == s@.subrange(start as int, n as int),
            spec_digits_value(s@.subrange(start as int, i as int), radix as int) == Some(value as int),
            value <= max,
            radix == 10 || radix == 16,
        decreases n - i,
    {
        let c = s[i];
        let u = c as u32;
        let d: u32 = if 0x30 <= u && u <= 0x39 {
            u - 0x30
        } else if radix == 16 && 0x61 <= u && u <= 0x66 {
            u - 0x61 + 10
        } else if radix == 16 && 0x41 <= u && u <= 0x46 {
            u - 0x41 + 10
        } else {
            proof {
                let p = s@.subrange(start as int, i + 1);
                assert(p.drop_last() =~= s@.subrange(start as int, i as int));
                assert(p.last() == c);
                assert(spec_digit(c, radix as int) is None);
                assert(spec_digits_value(p, radix as int) is None);
                assert(digits.subrange(0, i + 1 - start) =~= p);
                lemma_digits_none_grows(digits, i + 1 - start, radix as int);
            }
            return None;
        };
        proof {
            let p = s@.subrange(start as int, i + 1);
            assert(p.drop_last() =~= s@.subrange(start as int, i as int));
            assert(p.last() == c);
            assert(value * (radix as u128) <= 0xffff_ffff_ffff_ffffu128 * 16) by (nonlinear_arith)
                requires
                    value <= 0xffff_ffff_ffff_ffffu128,
                    radix <= 16,
            ;
        }
        value = value * (radix as u128) + (d as u128);
        i = i + 1;
        if value > max as u128 {
            proof {
                assert(digits.subrange(0, i - start) =~= s@.subrange(start as int, i as int));
                lemma_digits_value_grows(digits, i - start, radix as int);
            }
            return None;
        }
    }
    assert(s@.subrange(start as int, n as int) =~= digits);
    Some(value as u64)
}

/// A decimal `i32` as `str::parse::<i32>` reads it: an optional sign, then
/// at least one digit, within range.
pub open spec fn spec_parse_i32(s: Seq<char>) -> Option<int> {
    if s.len() > 0 && s[0] == '-' {
        let rest = s.drop_first();
        if rest.len() > 0 && rest[0] == '+' {
            None
        } else {
            match spec_parse_unsigned(rest, 10, 0x8000_0000) {
                Some(v) => Some(-v),
                None => None,
            }
        }
    } else {
        spec_parse_unsigned(s, 10, 0x7fff_ffff)
    }
}

/// Parse a decimal `i32`.
pub fn parse_i32(s: &[char]) -> (res: Option<i32>)
    ensures
        match res {
            Some(v) => spec_parse_i32(s@) == Some(v as int),
            None => spec_parse_i32(s@) is None,
        },
{
    if s.len() > 0 && s[0] == '-' {
        let rest = copy_chars(s, 1, s.len());
        assert(rest@ =~= s@.drop_first());
        if rest.len() > 0 && rest[0] == '+' {
            return None;
        }
        match parse_unsigned(rest.as_slice(), 10, 0x8000_0000) {
            Some(v) => {
                proof {
                    lemma_parse_unsigned_bound(rest@, 10, 0x8000_0000);
                }
                Some((0 - (v as i64)) as i32)
            },
            None => None,
        }
    } else {
        match parse_unsigned(s, 10, 0x7fff_ffff) {
            Some(v) => {
                proof {
                    lemma_parse_unsigned_bound(s@, 10, 0x7fff_ffff);
                }
                Some(v as i32)
            },
            None => None,
        }
    }
}

/// A parsed number is at most the bound and not negative.
proof fn lemma_parse_unsigned_bound(s: Seq<char>, radix: int, max: int)
    requires
        radix == 10 || radix == 16,
    ensures
        spec_parse_unsigned(s, radix, max) matches Some(v) ==> 0 <= v <= max,
{
    let digits = if s.len() > 0 && s[0] == '+' {
        s.drop_first()
    } else {
        s
    };
    lemma_digits_value_nonneg(digits, radix);
}

/// The UTF-16 code units of a character: itself below 0x10000, else a
/// surrogate pair.
pub open spec fn spec_utf16_char(c: char) -> Seq<u16> {
    let v = c as u32;
    if v < 0x1_0000 {
        seq![v as u16]
    } else {
        seq![(0xD800 + (v - 0x1_0000) / 0x400) as u16, (0xDC00 + (v - 0x1_0000) % 0x400) as u16]
    }
}

/// The UTF-16 encoding of the first `count` characters (`str::encode_utf16`).
pub open spec fn spec_utf16_encode(chars: Seq<char>, count: int) -> Seq<u16>
    decreases count,
{
    if count <= 0 || chars.len() == 0 {
        Seq::empty()
    } else {
        spec_utf16_encode(chars, count - 1) + spec_utf16_char(chars[count - 1])
    }
}

/// Encode characters as UTF-16 code units.
pub fn encode_utf16(chars: &[char]) -> (res: Vec<u16>)
    ensures
        res@ == spec_utf16_encode(chars@, chars@.len() as int),
{
    let mut units: Vec<u16> = Vec::new();
    let mut i: usize = 0;
    while i < chars.len()
        invariant
            i <= chars@.len(),
            units@ == spec_utf16_encode(chars@, i as int),
        decreases chars@.len() - i,
    {
        let v = chars[i] as u32;
        let ghost before = units@;
        if v < 0x1_0000 {
            units.push(v as u16);
        } else {
            units.push((0xD800 + (v - 0x1_0000) / 0x400) as u16);
            units.push((0xDC00 + (v - 0x1_0000) % 0x400) as u16);
        }
        assert(units@ =~= before + spec_utf16_char(chars@[i as int]));
        i = i + 1;
    }
    units
}

} // verus!
