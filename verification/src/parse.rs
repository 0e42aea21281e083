//! Value parsers for the two command-line light descriptors: the main-light
//! token (`off`, a bare integer, or `moonlight:V` / `normal:V`) and the
//! ambient-light token (`off` or `H,S,V`). The grammars are stated as spec
//! functions over character sequences and the executable parsers are proved
//! to decide them exactly.

use vstd::prelude::*;
use vstd::string::StrSliceExecFns;

verus! {

/// Light mode of the main light; the device encodes `Normal` as 1 and
/// `Moonlight` as 5 (see [`mode_code`]).
#[derive(Clone, Copy, PartialEq, Eq, Structural, Debug)]
pub enum Mode {
    Normal,
    Moonlight,
}

/// The device's integer code for a mode.
pub fn mode_code(m: Mode) -> (r: u8)
    ensures
        r == spec_mode_code(m),
{
    match m {
        Mode::Normal => 1,
        Mode::Moonlight => 5,
    }
}

pub open spec fn spec_mode_code(m: Mode) -> u8 {
    match m {
        Mode::Normal => 1u8,
        Mode::Moonlight => 5u8,
    }
}

/// Failures of the main-light token parser.
#[derive(Clone, Copy, PartialEq, Eq, Structural, Debug)]
pub enum MainParseError {
    /// The token is neither `off`, nor a bare integer in [0,200], nor of the
    /// shape `kind:value`.
    InvalidFormat,
    /// The `value` half of a `kind:value` token is not a decimal integer that
    /// fits the value's numeric type.
    InvalidNumber,
    /// The value exceeds 100, or the `kind` half is an unknown kind.
    InvalidValue,
}

/// Failures of the ambient-light token parser.
#[derive(Clone, Copy, PartialEq, Eq, Structural, Debug)]
pub enum HsvParseError {
    /// The token is neither `off` nor made of exactly three comma-separated
    /// fields.
    InvalidFormat,
    /// A field is not a decimal integer that fits its numeric type.
    InvalidNumber,
    /// The hue exceeds 359.
    InvalidHue,
    /// The saturation exceeds 100.
    InvalidSaturation,
    /// The value exceeds 100.
    InvalidValue,
}

pub open spec fn is_digit_char(c: char) -> bool {
    48 <= c as u32 && c as u32 <= 57
}

pub open spec fn digit_val(c: char) -> int {
    c as u32 - 48
}

pub open spec fn all_digits(s: Seq<char>) -> bool {
    forall|k: int| 0 <= k < s.len() ==> is_digit_char(#[trigger] s[k])
}

/// Value of a sequence of decimal digits, most significant first.
pub open spec fn digits_val(s: Seq<char>) -> int
    decreases s.len(),
{
    if s.len() == 0 {
        0
    } else {
        digits_val(s.drop_last()) * 10 + digit_val(s.last())
    }
}

/// The digits of a decimal numeral, with an optional single leading `+`
/// stripped (the same shape that `u8`/`u16` parsing accepts).
pub open spec fn numeral_body(s: Seq<char>) -> Seq<char> {
    if s.len() > 0 && s[0] == '+' {
        s.drop_first()
    } else {
        s
    }
}

pub open spec fn is_numeral(s: Seq<char>) -> bool {
    numeral_body(s).len() > 0 && all_digits(numeral_body(s))
}

pub open spec fn numeral_val(s: Seq<char>) -> int {
    digits_val(numeral_body(s))
}

/// `s` is a numeral whose value is at most `max`.
pub open spec fn is_numeral_at_most(s: Seq<char>, max: int) -> bool {
    is_numeral(s) && numeral_val(s) <= max
}

/// Index of the first occurrence of `c` in `s` at or after `from`, or
/// `s.len()` if there is none.
pub open spec fn find_from(s: Seq<char>, c: char, from: nat) -> nat
    decreases s.len() - from,
{
    if from >= s.len() {
        s.len()
    } else if s[from as int] == c {
        from
    } else {
        find_from(s, c, (from + 1) as nat)
    }
}

proof fn lemma_digits_val_nonneg(s: Seq<char>)
    requires
        all_digits(s),
    ensures
        digits_val(s) >= 0,
    decreases s.len(),
{
    if s.len() > 0 {
        assert(all_digits(s.drop_last()));
        lemma_digits_val_nonneg(s.drop_last());
    }
}

/// If every position in `[from, i)` misses `c` and `i` either hits `c` or is
/// the end, then `i` is the first occurrence at or after `from`.
proof fn lemma_find_from_at(s: Seq<char>, c: char, from: nat, i: nat)
    requires
        from <= i <= s.len(),
        forall|j: int| from <= j < i ==> s[j] != c,
        i < s.len() ==> s[i as int] == c,
    ensures
        find_from(s, c, from) == i,
    decreases i - from,
{
    if from < i {
        lemma_find_from_at(s, c, (from + 1) as nat, i);
    }
}

/// Every character of a numeral is a digit or a leading `+`.
proof fn lemma_numeral_chars(s: Seq<char>)
    requires
        is_numeral(s),
    ensures
        forall|k: int| 0 <= k < s.len() ==> (#[trigger] s[k] == '+' || is_digit_char(s[k])),
{
    assert forall|k: int| 0 <= k < s.len() implies (#[trigger] s[k] == '+' || is_digit_char(
        s[k],
    )) by {
        if s[0] == '+' {
            if k > 0 {
                assert(numeral_body(s)[k - 1] == s[k]);
                assert(is_digit_char(numeral_body(s)[k - 1]));
            }
        } else {
            assert(numeral_body(s)[k] == s[k]);
        }
    }
}

/// Whether `s` and `t` hold the same characters.
pub fn str_eq(s: &str, t: &str) -> (r: bool)
    ensures
        r == (s@ == t@),
{
    let n = s.unicode_len();
    let m = t.unicode_len();
    if n != m {
        return false;
    }
    let mut i: usize = 0;
    while i < n
        invariant
            0 <= i <= n,
            n == s@.len(),
            n == t@.len(),
            forall|j: int| 0 <= j < i ==> s@[j] == t@[j],
        decreases n - i,
    {
        if s.get_char(i) != t.get_char(i) {
            return false;
        }
        i += 1;
    }
    proof {
        assert(s@ =~= t@);
    }
    true
}

/// Index of the first occurrence of `c` in `s` at or after `from`, or the
/// character length of `s` if there is none.
pub fn find_char_from(s: &str, c: char, from: usize) -> (r: usize)
    requires
        from <= s@.len(),
    ensures
        r == find_from(s@, c, from as nat),
        from <= r <= s@.len(),
        r < s@.len() ==> s@[r as int] == c,
        forall|j: int| from <= j < r ==> s@[j] != c,
{
    let len = s.unicode_len();
    let mut i = from;
    while i < len
        invariant
            from <= i <= len,
            len == s@.len(),
            forall|j: int| from <= j < i ==> s@[j] != c,
        decreases len - i,
    {
        if s.get_char(i) == c {
            proof {
                lemma_find_from_at(s@, c, from as nat, i as nat);
            }
            return i;
        }
        i += 1;
    }
    proof {
        lemma_find_from_at(s@, c, from as nat, len as nat);
    }
    len
}

/// Parses `s` as an unsigned decimal numeral (optionally `+`-signed) whose
/// value is at most `max`; returns `None` exactly when `s` is not such a
/// numeral or its value exceeds `max`.
pub fn parse_decimal(s: &str, max: u32) -> (r: Option<u32>)
    requires
        max <= 0xFFFF,
    ensures
        match r {
            Some(v) => is_numeral_at_most(s@, max as int) && v == numeral_val(s@),
            None => !is_numeral_at_most(s@, max as int),
        },
{
    let len = s.unicode_len();
    let start: usize = if len > 0 && s.get_char(0) == '+' {
        1
    } else {
        0
    };
    assert(numeral_body(s@) =~= s@.subrange(start as int, len as int));
    if start >= len {
        return None;
    }
    let mut acc: u32 = 0;
    let mut over: bool = false;
    let mut j = start;
    while j < len
        invariant
            start <= j <= len,
            len == s@.len(),
            max <= 0xFFFF,
            numeral_body(s@) == s@.subrange(start as int, len as int),
            forall|k: int| start <= k < j ==> is_digit_char(#[trigger] s@[k]),
            !over ==> acc <= max && acc == digits_val(s@.subrange(start as int, j as int)),
            over ==> digits_val(s@.subrange(start as int, j as int)) > max,
        decreases len - j,
    {
        let c = s.get_char(j);
        let u = c as u32;
        if u < 48 || u > 57 {
            proof {
                assert(numeral_body(s@) =~= s@.subrange(start as int, len as int));
                assert(s@.subrange(start as int, len as int)[j - start] == s@[j as int]);
            }
            return None;
        }
        let d = u - 48;
        proof {
            assert(s@.subrange(start as int, j + 1).drop_last() =~= s@.subrange(
                start as int,
                j as int,
            ));
            assert(s@.subrange(start as int, j + 1).last() == s@[j as int]);
        }
        if !over {
            let next = acc * 10 + d;
            if next > max {
                over = true;
            } else {
                acc = next;
            }
        } else {
            proof {
                let prefix = s@.subrange(start as int, j as int);
                assert(digits_val(s@.subrange(start as int, j + 1)) == digits_val(prefix) * 10
                    + digit_val(s@[j as int]));
            }
        }
        j += 1;
    }
    proof {
        assert(numeral_body(s@) =~= s@.subrange(start as int, len as int));
    }
    if over {
        None
    } else {
        Some(acc)
    }
}

/// Grammar of the main-light token, tried in order: the literal `off`; a bare
/// integer, where [0,100] selects moonlight mode and [101,200] selects normal
/// mode at brightness reduced by 100; or `kind:value` with `kind` one of
/// `moonlight` / `normal` and `value` a brightness in [0,100].
pub open spec fn spec_parse_main(s: Seq<char>) -> Result<(Mode, u8), MainParseError> {
    if s == "off"@ {
        Ok((Mode::Normal, 0u8))
    } else if is_numeral_at_most(s, 255) {
        let v = numeral_val(s);
        if v <= 100 {
            Ok((Mode::Moonlight, v as u8))
        } else if v <= 200 {
            Ok((Mode::Normal, (v - 100) as u8))
        } else {
            Err(MainParseError::InvalidFormat)
        }
    } else {
        let i = find_from(s, ':', 0);
        if i == s.len() {
            Err(MainParseError::InvalidFormat)
        } else if find_from(s, ':', (i + 1) as nat) != s.len() {
            Err(MainParseError::InvalidFormat)
        } else {
            let left = s.subrange(0, i as int);
            let right = s.subrange(i + 1 as int, s.len() as int);
            if !is_numeral_at_most(right, 255) {
                Err(MainParseError::InvalidNumber)
            } else if numeral_val(right) > 100 {
                Err(MainParseError::InvalidValue)
            } else if left == "moonlight"@ {
                Ok((Mode::Moonlight, numeral_val(right) as u8))
            } else if left == "normal"@ {
                Ok((Mode::Normal, numeral_val(right) as u8))
            } else {
                Err(MainParseError::InvalidValue)
            }
        }
    }
}

/// Parses a main-light token; decides [`spec_parse_main`] exactly.
pub fn parse_main(input: &str) -> (r: Result<(Mode, u8), MainParseError>)
    ensures
        r == spec_parse_main(input@),
{
    if str_eq(input, "off") {
        return Ok((Mode::Normal, 0));
    }
    match parse_decimal(input, 255) {
        Some(v) => {
            if v <= 100 {
                return Ok((Mode::Moonlight, v as u8));
            } else if v <= 200 {
                return Ok((Mode::Normal, (v - 100) as u8));
            } else {
                return Err(MainParseError::InvalidFormat);
            }
        },
        None => {},
    }
    let len = input.unicode_len();
    let i = find_char_from(input, ':', 0);
    if i == len {
        return Err(MainParseError::InvalidFormat);
    }
    let i2 = find_char_from(input, ':', i + 1);
    if i2 != len {
        return Err(MainParseError::InvalidFormat);
    }
    let left = input.substring_char(0, i);
    let right = input.substring_char(i + 1, len);
    let v = match parse_decimal(right, 255) {
        None => {
            return Err(MainParseError::InvalidNumber);
        },
        Some(v) => v,
    };
    if v > 100 {
        return Err(MainParseError::InvalidValue);
    }
    if str_eq(left, "moonlight") {
        Ok((Mode::Moonlight, v as u8))
    } else if str_eq(left, "normal") {
        Ok((Mode::Normal, v as u8))
    } else {
        Err(MainParseError::InvalidValue)
    }
}

/// Grammar of the ambient-light token: the literal `off`, or exactly three
/// comma-separated fields `H,S,V` with `H` in [0,359] and `S`, `V` in [0,100].
pub open spec fn spec_parse_hsv(s: Seq<char>) -> Result<(u16, u8, u8), HsvParseError> {
    if s == "off"@ {
        Ok((0u16, 0u8, 0u8))
    } else {
        let i = find_from(s, ',', 0);
        let j = find_from(s, ',', (i + 1) as nat);
        if i == s.len() || j == s.len() || find_from(s, ',', (j + 1) as nat) != s.len() {
            Err(HsvParseError::InvalidFormat)
        } else {
            let f0 = s.subrange(0, i as int);
            let f1 = s.subrange(i + 1 as int, j as int);
            let f2 = s.subrange(j + 1 as int, s.len() as int);
            if !is_numeral_at_most(f0, 0xFFFF) {
                Err(HsvParseError::InvalidNumber)
            } else if !is_numeral_at_most(f1, 255) {
                Err(HsvParseError::InvalidNumber)
            } else if !is_numeral_at_most(f2, 255) {
                Err(HsvParseError::InvalidNumber)
            } else if numeral_val(f0) > 359 {
                Err(HsvParseError::InvalidHue)
            } else if numeral_val(f1) > 100 {
                Err(HsvParseError::InvalidSaturation)
            } else if numeral_val(f2) > 100 {
                Err(HsvParseError::InvalidValue)
            } else {
                Ok((numeral_val(f0) as u16, numeral_val(f1) as u8, numeral_val(f2) as u8))
            }
        }
    }
}

/// A bare decimal numeral denoting a value in [0,100] parses as moonlight
/// mode at that brightness.
pub proof fn lemma_main_bare_low(s: Seq<char>, x: u8)
    requires
        is_numeral(s),
        numeral_val(s) == x,
        x <= 100,
    ensures
        spec_parse_main(s) == Ok::<(Mode, u8), MainParseError>((Mode::Moonlight, x)),
{
    lemma_numeral_chars(s);
    proof_s_not_off(s);
}

/// A bare decimal numeral denoting a value in [101,200] parses as normal
/// mode at that brightness reduced by 100.
pub proof fn lemma_main_bare_high(s: Seq<char>, x: u8)
    requires
        is_numeral(s),
        numeral_val(s) == x,
        101 <= x <= 200,
    ensures
        spec_parse_main(s) == Ok::<(Mode, u8), MainParseError>((Mode::Normal, (x - 100) as u8)),
{
    lemma_numeral_chars(s);
    proof_s_not_off(s);
}

/// A numeral's first character is `+` or a digit, so a numeral is never the
/// literal `off`.
proof fn proof_s_not_off(s: Seq<char>)
    requires
        is_numeral(s),
    ensures
        s != "off"@,
{
    lemma_numeral_chars(s);
    reveal_strlit("off");
    assert(numeral_body(s).len() > 0);
    if s == "off"@ {
        assert(s[0] == 'o');
        assert(s[0] == '+' || is_digit_char(s[0]));
        assert('o' as u32 == 111);
        assert('+' as u32 == 43);
        assert(false);
    }
}

/// In a token `left ++ ":" ++ right` where neither half holds a colon, the
/// split of the grammar's third branch recovers exactly `left` and `right`.
proof fn lemma_single_colon_split(left: Seq<char>, right: Seq<char>, s: Seq<char>)
    requires
        s == left + seq![':'] + right,
        forall|k: int| 0 <= k < left.len() ==> #[trigger] left[k] != ':',
        forall|k: int| 0 <= k < right.len() ==> #[trigger] right[k] != ':',
    ensures
        find_from(s, ':', 0) == left.len(),
        find_from(s, ':', (left.len() + 1) as nat) == s.len(),
        s.subrange(0, left.len() as int) == left,
        s.subrange(left.len() + 1 as int, s.len() as int) == right,
{
    assert(s.len() == left.len() + 1 + right.len());
    assert(s[left.len() as int] == ':');
    assert forall|j: int| 0 <= j < left.len() implies s[j] != ':' by {
        assert(s[j] == left[j]);
    }
    lemma_find_from_at(s, ':', 0, left.len());
    assert forall|j: int| left.len() + 1 <= j < s.len() implies s[j] != ':' by {
        assert(s[j] == right[j - left.len() - 1]);
    }
    lemma_find_from_at(s, ':', (left.len() + 1) as nat, s.len());
    assert(s.subrange(0, left.len() as int) =~= left);
    assert(s.subrange(left.len() + 1 as int, s.len() as int) =~= right);
}

/// A token whose body holds a colon is not a bare numeral.
proof fn proof_colon_not_numeral(s: Seq<char>, i: int)
    requires
        0 <= i < s.len(),
        s[i] == ':',
    ensures
        !is_numeral(s),
{
    if is_numeral(s) {
        lemma_numeral_chars(s);
        assert(s[i] == '+' || is_digit_char(s[i]));
        assert(':' as u32 == 58);
        assert('+' as u32 == 43);
        assert(false);
    }
}

/// A token whose body holds a colon is not the literal `off`.
proof fn proof_colon_not_off(s: Seq<char>, i: int)
    requires
        0 <= i < s.len(),
        s[i] == ':',
    ensures
        s != "off"@,
{
    reveal_strlit("off");
    if s == "off"@ {
        assert(s[i] == 'o' || s[i] == 'f');
        assert(false);
    }
}

/// A token `moonlight:V` with `V` a numeral fitting the value's numeric type
/// parses as moonlight mode at brightness `V` when `V` is at most 100, and is
/// rejected as an invalid value when `V` exceeds 100.
pub proof fn lemma_main_moonlight_token(right: Seq<char>, s: Seq<char>)
    requires
        s == "moonlight"@ + seq![':'] + right,
        is_numeral(right),
        numeral_val(right) <= 255,
    ensures
        numeral_val(right) <= 100 ==> spec_parse_main(s) == Ok::<(Mode, u8), MainParseError>(
            (Mode::Moonlight, numeral_val(right) as u8),
        ),
        numeral_val(right) > 100 ==> spec_parse_main(s) == Err::<(Mode, u8), MainParseError>(
            MainParseError::InvalidValue,
        ),
{
    reveal_strlit("moonlight");
    lemma_numeral_chars(right);
    assert forall|k: int| 0 <= k < right.len() implies #[trigger] right[k] != ':' by {
        assert(':' as u32 == 58);
        assert('+' as u32 == 43);
    }
    assert forall|k: int| 0 <= k < "moonlight"@.len() implies #[trigger] "moonlight"@[k]
        != ':' by {}
    lemma_single_colon_split("moonlight"@, right, s);
    proof_colon_not_off(s, "moonlight"@.len() as int);
    proof_colon_not_numeral(s, "moonlight"@.len() as int);
}

/// A token `left:V` whose `left` half is colon-free and neither `moonlight`
/// nor `normal`, with `V` a numeral fitting the value's numeric type, is
/// rejected as an invalid value.
pub proof fn lemma_main_unknown_kind(left: Seq<char>, right: Seq<char>, s: Seq<char>)
    requires
        s == left + seq![':'] + right,
        forall|k: int| 0 <= k < left.len() ==> #[trigger] left[k] != ':',
        is_numeral(right),
        numeral_val(right) <= 255,
        left != "moonlight"@,
        left != "normal"@,
    ensures
        spec_parse_main(s) == Err::<(Mode, u8), MainParseError>(MainParseError::InvalidValue),
{
    lemma_numeral_chars(right);
    assert forall|k: int| 0 <= k < right.len() implies #[trigger] right[k] != ':' by {
        assert(':' as u32 == 58);
        assert('+' as u32 == 43);
    }
    lemma_single_colon_split(left, right, s);
    proof_colon_not_off(s, left.len() as int);
    proof_colon_not_numeral(s, left.len() as int);
    lemma_digits_val_nonneg(numeral_body(right));
}

/// A colon-free token that is neither `off` nor a decimal numeral is
/// rejected as an invalid format.
pub proof fn lemma_main_malformed(s: Seq<char>)
    requires
        s != "off"@,
        !is_numeral(s),
        forall|k: int| 0 <= k < s.len() ==> #[trigger] s[k] != ':',
    ensures
        spec_parse_main(s) == Err::<(Mode, u8), MainParseError>(MainParseError::InvalidFormat),
{
    lemma_find_from_at(s, ':', 0, s.len());
}

/// Parses an ambient-light token; decides [`spec_parse_hsv`] exactly.
pub fn parse_hsv(input: &str) -> (r: Result<(u16, u8, u8), HsvParseError>)
    ensures
        r == spec_parse_hsv(input@),
{
    if str_eq(input, "off") {
        return Ok((0, 0, 0));
    }
    let len = input.unicode_len();
    let i = find_char_from(input, ',', 0);
    if i == len {
        return Err(HsvParseError::InvalidFormat);
    }
    let j = find_char_from(input, ',', i + 1);
    if j == len {
        return Err(HsvParseError::InvalidFormat);
    }
    let k = find_char_from(input, ',', j + 1);
    if k != len {
        return Err(HsvParseError::InvalidFormat);
    }
    let f0 = input.substring_char(0, i);
    let f1 = input.substring_char(i + 1, j);
    let f2 = input.substring_char(j + 1, len);
    let h = match parse_decimal(f0, 0xFFFF) {
        None => {
            return Err(HsvParseError::InvalidNumber);
        },
        Some(v) => v,
    };
    let sat = match parse_decimal(f1, 255) {
        None => {
            return Err(HsvParseError::InvalidNumber);
        },
        Some(v) => v,
    };
    let val = match parse_decimal(f2, 255) {
        None => {
            return Err(HsvParseError::InvalidNumber);
        },
        Some(v) => v,
    };
    if h > 359 {
        return Err(HsvParseError::InvalidHue);
    }
    if sat > 100 {
        return Err(HsvParseError::InvalidSaturation);
    }
    if val > 100 {
        return Err(HsvParseError::InvalidValue);
    }
    Ok((h as u16, sat as u8, val as u8))
}

} // verus!
