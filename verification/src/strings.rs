//! Character-level helpers shared by the parsers and renderers.
use vstd::prelude::*;

verus! {

/// Unicode `White_Space`, the set that `char::is_whitespace` accepts.
pub open spec fn is_space(c: char) -> bool {
    let n = c as u32;
    ||| 0x9 <= n <= 0xd
    ||| n == 0x20
    ||| n == 0x85
    ||| n == 0xa0
    ||| n == 0x1680
    ||| 0x2000 <= n <= 0x200a
    ||| n == 0x2028
    ||| n == 0x2029
    ||| n == 0x202f
    ||| n == 0x205f
    ||| n == 0x3000
}

/// Whether a character is white space, as `char::is_whitespace` decides.
pub fn space(c: char) -> (r: bool)
    ensures
        r == is_space(c),
{
    let n = c as u32;
    (0x9 <= n && n <= 0xd) || n == 0x20 || n == 0x85 || n == 0xa0 || n == 0x1680 || (0x2000 <= n
        && n <= 0x200a) || n == 0x2028 || n == 0x2029 || n == 0x202f || n == 0x205f || n == 0x3000
}

/// Leading white space removed.
pub open spec fn trim_start(s: Seq<char>) -> Seq<char>
    decreases s.len(),
{
    if s.len() > 0 && is_space(s[0]) {
        trim_start(s.drop_first())
    } else {
        s
    }
}

/// Trailing white space removed.
pub open spec fn trim_end(s: Seq<char>) -> Seq<char>
    decreases s.len(),
{
    if s.len() > 0 && is_space(s.last()) {
        trim_end(s.drop_last())
    } else {
        s
    }
}

/// What `str::trim` returns.
pub open spec fn trim(s: Seq<char>) -> Seq<char> {
    trim_end(trim_start(s))
}

/// The characters of `s`.
pub fn chars_of(s: &str) -> (r: Vec<char>)
    ensures
        r@ == s@,
{
    let mut r: Vec<char> = Vec::new();
    for c in it: s.chars()
        invariant
            r@ == it.seq().take(it.index() as int),
    {
        r.push(c);
    }
    r
}

/// `String::push`, which vstd does not specify.
#[verifier::external_body]
pub(crate) fn push_char(s: &mut String, c: char)
    ensures
        final(s)@ == old(s)@.push(c),
{
    s.push(c);
}

/// A text in lower case, as `str::to_lowercase` writes it.
pub uninterp spec fn lowercase(s: Seq<char>) -> Seq<char>;

/// `str::to_lowercase`; the result is named, not described.
#[verifier::external_body]
pub(crate) fn to_lower(s: &str) -> (r: String)
    ensures
        r@ == lowercase(s@),
{
    s.to_lowercase()
}

/// Appends the characters `v[lo..hi]`.
pub fn push_chars(s: &mut String, v: &Vec<char>, lo: usize, hi: usize)
    requires
        lo <= hi <= v.len(),
    ensures
        final(s)@ == old(s)@ + v@.subrange(lo as int, hi as int),
{
    let mut i = lo;
    while i < hi
        invariant
            lo <= i <= hi <= v.len(),
            s@ == old(s)@ + v@.subrange(lo as int, i as int),
        decreases hi - i,
    {
        push_char(s, v[i]);
        assert(v@.subrange(lo as int, i + 1) == v@.subrange(lo as int, i as int).push(v@[i as int]));
        i += 1;
    }
}

/// A vector holding `v[lo..hi]`.
pub fn copy_range(v: &Vec<char>, lo: usize, hi: usize) -> (r: Vec<char>)
    requires
        lo <= hi <= v.len(),
    ensures
        r@ == v@.subrange(lo as int, hi as int),
{
    let mut r: Vec<char> = Vec::new();
    let mut i = lo;
    while i < hi
        invariant
            lo <= i <= hi <= v.len(),
            r@ == v@.subrange(lo as int, i as int),
        decreases hi - i,
    {
        r.push(v[i]);
        assert(v@.subrange(lo as int, i + 1) == v@.subrange(lo as int, i as int).push(v@[i as int]));
        i += 1;
    }
    r
}

/// A string holding `v[lo..hi]`.
pub fn string_of(v: &Vec<char>, lo: usize, hi: usize) -> (r: String)
    requires
        lo <= hi <= v.len(),
    ensures
        r@ == v@.subrange(lo as int, hi as int),
{
    let mut r = String::new();
    push_chars(&mut r, v, lo, hi);
    r
}

proof fn lemma_trim_start_step(v: Seq<char>, a: int, hi: int)
    requires
        0 <= a < hi <= v.len(),
        is_space(v[a]),
    ensures
        trim_start(v.subrange(a, hi)) == trim_start(v.subrange(a + 1, hi)),
{
    assert(v.subrange(a, hi).drop_first() =~= v.subrange(a + 1, hi));
}

proof fn lemma_trim_end_step(v: Seq<char>, a: int, b: int)
    requires
        0 <= a < b <= v.len(),
        is_space(v[b - 1]),
    ensures
        trim_end(v.subrange(a, b)) == trim_end(v.subrange(a, b - 1)),
{
    assert(v.subrange(a, b).drop_last() =~= v.subrange(a, b - 1));
}

/// Where the text of `v` starts once leading white space is skipped.
pub fn skip_spaces(v: &Vec<char>) -> (a: usize)
    ensures
        a <= v.len(),
        v@.skip(a as int) == trim_start(v@),
{
    let mut a: usize = 0;
    assert(v@.subrange(0, v.len() as int) =~= v@);
    while a < v.len() && space(v[a])
        invariant
            a <= v.len(),
            trim_start(v@) == trim_start(v@.subrange(a as int, v.len() as int)),
        decreases v.len() - a,
    {
        proof {
            lemma_trim_start_step(v@, a as int, v.len() as int);
        }
        a += 1;
    }
    assert(v@.skip(a as int) =~= v@.subrange(a as int, v.len() as int));
    a
}

/// The bounds of `trim(v[lo..hi])` inside `v`.
pub fn trim_bounds(v: &Vec<char>, lo: usize, hi: usize) -> (r: (usize, usize))
    requires
        lo <= hi <= v.len(),
    ensures
        lo <= r.0 <= r.1 <= hi,
        v@.subrange(r.0 as int, r.1 as int) == trim(v@.subrange(lo as int, hi as int)),
{
    let mut a = lo;
    while a < hi && space(v[a])
        invariant
            lo <= a <= hi <= v.len(),
            trim_start(v@.subrange(lo as int, hi as int)) == trim_start(v@.subrange(a as int, hi as int)),
        decreases hi - a,
    {
        proof {
            lemma_trim_start_step(v@, a as int, hi as int);
        }
        a += 1;
    }
    assert(trim_start(v@.subrange(a as int, hi as int)) == v@.subrange(a as int, hi as int));
    let mut b = hi;
    while b > a && space(v[b - 1])
        invariant
            lo <= a <= b <= hi <= v.len(),
            trim_end(v@.subrange(a as int, hi as int)) == trim_end(v@.subrange(a as int, b as int)),
        decreases b - a,
    {
        proof {
            lemma_trim_end_step(v@, a as int, b as int);
        }
        b -= 1;
    }
    assert(trim_end(v@.subrange(a as int, b as int)) == v@.subrange(a as int, b as int));
    (a, b)
}

/// What `str::trim` returns, as an owned string.
pub fn trimmed(s: &str) -> (r: String)
    ensures
        r@ == trim(s@),
{
    let v = chars_of(s);
    let (a, b) = trim_bounds(&v, 0, v.len());
    assert(v@.subrange(0, v@.len() as int) =~= v@);
    string_of(&v, a, b)
}

/// The decimal digit for `d < 10`.
pub open spec fn digit(d: int) -> char {
    if d == 0 {
        '0'
    } else if d == 1 {
        '1'
    } else if d == 2 {
        '2'
    } else if d == 3 {
        '3'
    } else if d == 4 {
        '4'
    } else if d == 5 {
        '5'
    } else if d == 6 {
        '6'
    } else if d == 7 {
        '7'
    } else if d == 8 {
        '8'
    } else {
        '9'
    }
}

/// The decimal form of `n`, as `Display` prints an unsigned integer.
pub open spec fn decimal(n: nat) -> Seq<char>
    decreases n,
{
    if n < 10 {
        seq![digit(n as int)]
    } else {
        decimal(n / 10).push(digit((n % 10) as int))
    }
}

fn digit_char(d: u64) -> (r: char)
    requires
        d < 10,
    ensures
        r == digit(d as int),
{
    if d == 0 {
        '0'
    } else if d == 1 {
        '1'
    } else if d == 2 {
        '2'
    } else if d == 3 {
        '3'
    } else if d == 4 {
        '4'
    } else if d == 5 {
        '5'
    } else if d == 6 {
        '6'
    } else if d == 7 {
        '7'
    } else if d == 8 {
        '8'
    } else {
        '9'
    }
}

/// Appends the decimal form of `n`.
pub fn push_decimal(s: &mut String, n: u64)
    ensures
        final(s)@ == old(s)@ + decimal(n as nat),
    decreases n,
{
    if n >= 10 {
        push_decimal(s, n / 10);
    }
    push_char(s, digit_char(n % 10));
    assert(s@ =~= old(s)@ + decimal(n as nat));
}

/// Whether `s[at..]` starts with `p`.
pub open spec fn has_at(s: Seq<char>, at: int, p: Seq<char>) -> bool {
    0 <= at && at + p.len() <= s.len() && s.subrange(at, at + p.len()) == p
}

proof fn lemma_digit(d: int)
    requires
        0 <= d < 10,
    ensures
        is_digit(digit(d)),
        digit(d) as u32 - '0' as u32 == d,
{
}

/// The decimal text of a number is a non-empty run of digits.
pub proof fn lemma_decimal_digits(n: nat)
    ensures
        decimal(n).len() >= 1,
        forall|i: int| 0 <= i < decimal(n).len() ==> is_digit(#[trigger] decimal(n)[i]),
    decreases n,
{
    if n < 10 {
        lemma_digit(n as int);
    } else {
        lemma_decimal_digits(n / 10);
        lemma_digit((n % 10) as int);
        let s = decimal(n / 10);
        assert forall|i: int| 0 <= i < decimal(n).len() implies is_digit(#[trigger] decimal(n)[i]) by {
            if i < s.len() {
                assert(decimal(n)[i] == s[i]);
            }
        }
    }
}

proof fn lemma_digits_value_push(s: Seq<char>, c: char, i: int, acc: int, v: u64)
    requires
        0 <= i <= s.len(),
        0 <= acc <= u64::MAX,
        is_digit(c),
        forall|k: int| 0 <= k < s.len() ==> is_digit(#[trigger] s[k]),
        digits_value(s, i, acc) == Ok::<u64, IntError>(v),
    ensures
        digits_value(s.push(c), i, acc) == (if v * 10 + (c as u32 - '0' as u32) > u64::MAX {
            Err::<u64, IntError>(IntError::PosOverflow)
        } else {
            Ok((v * 10 + (c as u32 - '0' as u32)) as u64)
        }),
    decreases s.len() - i,
{
    let t = s.push(c);
    if i == s.len() {
        assert(v == acc);
        assert(t[i] == c);
        let w = acc * 10 + (c as u32 - '0' as u32);
        if w <= u64::MAX {
            assert(digits_value(t, i + 1, w) == Ok::<u64, IntError>(w as u64));
        }
    } else {
        assert(t[i] == s[i]);
        let w = acc * 10 + (s[i] as u32 - '0' as u32);
        assert(w <= u64::MAX);
        lemma_digits_value_push(s, c, i + 1, w, v);
    }
}

proof fn lemma_digits_value_decimal(n: nat)
    requires
        n <= u64::MAX,
    ensures
        digits_value(decimal(n), 0, 0) == Ok::<u64, IntError>(n as u64),
    decreases n,
{
    if n < 10 {
        lemma_digit(n as int);
        let s = decimal(n);
        assert(s[0] == digit(n as int));
        assert(digits_value(s, 1, n as int) == Ok::<u64, IntError>(n as u64));
    } else {
        lemma_digits_value_decimal(n / 10);
        lemma_decimal_digits(n / 10);
        lemma_digit((n % 10) as int);
        lemma_digits_value_push(decimal(n / 10), digit((n % 10) as int), 0, 0, (n / 10) as u64);
    }
}

/// Reading back the decimal text of a number gives the number.
pub proof fn lemma_parse_decimal(n: u64)
    ensures
        parse_u64(decimal(n as nat)) == Ok::<u64, IntError>(n),
{
    lemma_decimal_digits(n as nat);
    lemma_digits_value_decimal(n as nat);
    let s = decimal(n as nat);
    assert(is_digit(s[0]));
}

/// `v[at..]` starts with `p`.
pub fn starts_at(v: &Vec<char>, at: usize, p: &Vec<char>) -> (r: bool)
    ensures
        r == has_at(v@, at as int, p@),
{
    if at > v.len() || p.len() > v.len() - at {
        return false;
    }
    let mut i: usize = 0;
    while i < p.len()
        invariant
            at + p.len() <= v.len(),
            0 <= i <= p.len(),
            forall|j: int| 0 <= j < i ==> v@[at + j] == p@[j],
        decreases p.len() - i,
    {
        if v[at + i] != p[i] {
            assert(v@.subrange(at as int, at + p.len())[i as int] != p@[i as int]);
            return false;
        }
        i += 1;
    }
    assert(v@.subrange(at as int, at + p.len()) =~= p@);
    true
}

/// Whether two strings hold the same characters.
pub fn same_text(a: &str, b: &str) -> (r: bool)
    ensures
        r == (a@ == b@),
{
    same_chars(&chars_of(a), &chars_of(b))
}

/// Whether two character sequences are equal.
pub fn same_chars(a: &Vec<char>, b: &Vec<char>) -> (r: bool)
    ensures
        r == (a@ == b@),
{
    if a.len() != b.len() {
        return false;
    }
    let r = starts_at(a, 0, b);
    assert(a@.subrange(0, b@.len() as int) =~= a@);
    r
}


/// Why `u64::from_str` refuses a text.
#[derive(Clone, Copy, PartialEq, Eq, Structural)]
pub enum IntError {
    Empty,
    InvalidDigit,
    PosOverflow,
}

/// Whether `c` is an ASCII decimal digit.
pub open spec fn is_digit(c: char) -> bool {
    '0' <= c && c <= '9'
}

/// The value of the digits `s[i..]` after `acc`, scanned left to right as
/// `u64::from_str` does: a non-digit is reported where it stands, and so is the
/// first digit that makes the value exceed `u64::MAX`.
pub open spec fn digits_value(s: Seq<char>, i: int, acc: int) -> Result<u64, IntError>
    decreases s.len() - i,
{
    if i >= s.len() || i < 0 {
        Ok(acc as u64)
    } else if !is_digit(s[i]) {
        Err(IntError::InvalidDigit)
    } else {
        let v = acc * 10 + (s[i] as u32 - '0' as u32);
        if v > u64::MAX {
            Err(IntError::PosOverflow)
        } else {
            digits_value(s, i + 1, v)
        }
    }
}

/// What `u64::from_str` returns: one optional leading `+`, then decimal digits.
pub open spec fn parse_u64(s: Seq<char>) -> Result<u64, IntError> {
    if s.len() == 0 {
        Err(IntError::Empty)
    } else if s.len() == 1 && (s[0] == '+' || s[0] == '-') {
        Err(IntError::InvalidDigit)
    } else if s[0] == '+' {
        digits_value(s, 1, 0)
    } else {
        digits_value(s, 0, 0)
    }
}

/// The `Display` text of the `ParseIntError` for each reason.
pub open spec fn int_error_text(e: IntError) -> Seq<char> {
    match e {
        IntError::Empty => "cannot parse integer from empty string"@,
        IntError::InvalidDigit => "invalid digit found in string"@,
        IntError::PosOverflow => "number too large to fit in target type"@,
    }
}

/// The message of an integer parse error.
pub fn int_error_message(e: IntError) -> (r: String)
    ensures
        r@ == int_error_text(e),
{
    match e {
        IntError::Empty => "cannot parse integer from empty string".to_string(),
        IntError::InvalidDigit => "invalid digit found in string".to_string(),
        IntError::PosOverflow => "number too large to fit in target type".to_string(),
    }
}

/// `u64::from_str` on `v[lo..hi]`.
pub fn parse_u64_range(v: &Vec<char>, lo: usize, hi: usize) -> (r: Result<u64, IntError>)
    requires
        lo <= hi <= v.len(),
    ensures
        r == parse_u64(v@.subrange(lo as int, hi as int)),
{
    let ghost s = v@.subrange(lo as int, hi as int);
    if lo == hi {
        return Err(IntError::Empty);
    }
    if hi - lo == 1 && (v[lo] == '+' || v[lo] == '-') {
        return Err(IntError::InvalidDigit);
    }
    let mut i = if v[lo] == '+' {
        lo + 1
    } else {
        lo
    };
    let ghost start = (i - lo) as int;
    let mut acc: u64 = 0;
    while i < hi
        invariant
            lo <= i <= hi <= v.len(),
            s == v@.subrange(lo as int, hi as int),
            parse_u64(s) == digits_value(s, i - lo, acc as int),
        decreases hi - i,
    {
        let c = v[i];
        assert(s[i - lo] == c);
        if !('0' <= c && c <= '9') {
            return Err(IntError::InvalidDigit);
        }
        let d = (c as u32 - '0' as u32) as u128;
        let next = (acc as u128) * 10 + d;
        if next > u64::MAX as u128 {
            return Err(IntError::PosOverflow);
        }
        acc = next as u64;
        i += 1;
    }
    Ok(acc)
}

/// The first position of `c` in `s` at or after `i`, or `-1`.
pub open spec fn find_char(s: Seq<char>, c: char, i: int) -> int
    decreases s.len() - i,
{
    if i >= s.len() || i < 0 {
        -1
    } else if s[i] == c {
        i
    } else {
        find_char(s, c, i + 1)
    }
}

/// What `find_char` finds: `c` itself, at the first place it occurs from `i` on, or
/// `-1` when it does not occur there.
pub proof fn lemma_find_char(s: Seq<char>, c: char, i: int)
    requires
        0 <= i,
    ensures
        find_char(s, c, i) == -1 || (i <= find_char(s, c, i) < s.len() && s[find_char(s, c, i)] == c),
        find_char(s, c, i) == -1 ==> forall|j: int| i <= j < s.len() ==> s[j] != c,
        find_char(s, c, i) != -1 ==> forall|j: int| i <= j < find_char(s, c, i) ==> s[j] != c,
    decreases s.len() - i,
{
    if i < s.len() && s[i] != c {
        lemma_find_char(s, c, i + 1);
    }
}

/// The first position of `c` in `v[lo..hi]`, counted from `lo`, as `str::split_once` finds it.
pub fn find_in(v: &Vec<char>, c: char, lo: usize, hi: usize) -> (r: Option<usize>)
    requires
        lo <= hi <= v.len(),
    ensures
        match r {
            Some(k) => lo <= k < hi && find_char(v@.subrange(lo as int, hi as int), c, 0) == k - lo,
            None => find_char(v@.subrange(lo as int, hi as int), c, 0) == -1,
        },
{
    let ghost s = v@.subrange(lo as int, hi as int);
    let mut i = lo;
    while i < hi
        invariant
            lo <= i <= hi <= v.len(),
            s == v@.subrange(lo as int, hi as int),
            find_char(s, c, 0) == find_char(s, c, i - lo),
        decreases hi - i,
    {
        if v[i] == c {
            return Some(i);
        }
        i += 1;
    }
    None
}

} // verus!
