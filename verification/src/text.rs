use vstd::prelude::*;

verus! {

/// The character for a decimal digit.
pub open spec fn digit_char(d: nat) -> char {
    if d == 0 { '0' }
    else if d == 1 { '1' }
    else if d == 2 { '2' }
    else if d == 3 { '3' }
    else if d == 4 { '4' }
    else if d == 5 { '5' }
    else if d == 6 { '6' }
    else if d == 7 { '7' }
    else if d == 8 { '8' }
    else { '9' }
}

/// How a number is written in decimal, without sign or leading zeros.
pub open spec fn decimal(n: nat) -> Seq<char>
    decreases n,
{
    if n < 10 {
        seq![digit_char(n)]
    } else {
        decimal(n / 10).push(digit_char(n % 10))
    }
}

/// Appends one character to a string (`String::push`).
#[verifier::external_body]
pub(crate) fn push_char(s: &mut String, c: char)
    ensures
        final(s)@ == old(s)@.push(c),
{
    s.push(c);
}

/// The characters of a string slice, in order.
pub fn chars_of(s: &str) -> (v: Vec<char>)
    ensures
        v@ == s@,
{
    let mut v: Vec<char> = Vec::new();
    for c in it: s.chars()
        invariant
            v@ == it.seq().take(it.index() as int),
    {
        v.push(c);
    }
    v
}

} // verus!

verus! {

/// The character for a decimal digit below ten.
pub fn digit_to_char(d: u32) -> (c: char)
    requires
        d < 10,
    ensures
        c == digit_char(d as nat),
{
    if d == 0 { '0' }
    else if d == 1 { '1' }
    else if d == 2 { '2' }
    else if d == 3 { '3' }
    else if d == 4 { '4' }
    else if d == 5 { '5' }
    else if d == 6 { '6' }
    else if d == 7 { '7' }
    else if d == 8 { '8' }
    else { '9' }
}

/// Writes `n` in decimal on the end of `out`.
pub fn write_decimal(n: u32, out: &mut String)
    ensures
        final(out)@ == old(out)@ + decimal(n as nat),
    decreases n,
{
    if n >= 10 {
        write_decimal(n / 10, out);
    }
    push_char(out, digit_to_char(n % 10));
}

/// `n` written in decimal, as `u32::to_string` writes it.
pub fn decimal_string(n: u32) -> (s: String)
    ensures
        s@ == decimal(n as nat),
{
    let mut s = String::new();
    write_decimal(n, &mut s);
    s
}

} // verus!

verus! {

/// Unicode's White_Space property, which `char::is_whitespace` and `str::trim` go by.
pub open spec fn is_white(c: char) -> bool {
    let u = c as u32;
    ||| 0x09 <= u <= 0x0D
    ||| u == 0x20
    ||| u == 0x85
    ||| u == 0xA0
    ||| u == 0x1680
    ||| 0x2000 <= u <= 0x200A
    ||| u == 0x2028
    ||| u == 0x2029
    ||| u == 0x202F
    ||| u == 0x205F
    ||| u == 0x3000
}

/// Whether a character is white space (`char::is_whitespace`).
pub fn white(c: char) -> (b: bool)
    ensures
        b == is_white(c),
{
    let u = c as u32;
    (0x09 <= u && u <= 0x0D) || u == 0x20 || u == 0x85 || u == 0xA0 || u == 0x1680
        || (0x2000 <= u && u <= 0x200A) || u == 0x2028 || u == 0x2029 || u == 0x202F
        || u == 0x205F || u == 0x3000
}

/// The first index at or after `lo`, and before `hi`, that is not white space (or `hi`).
pub open spec fn skip_white(s: Seq<char>, lo: int, hi: int) -> int
    decreases hi - lo,
{
    if lo < hi && is_white(s[lo]) {
        skip_white(s, lo + 1, hi)
    } else {
        lo
    }
}

/// The end of `s[lo..hi]` once trailing white space is dropped.
pub open spec fn back_white(s: Seq<char>, lo: int, hi: int) -> int
    decreases hi - lo,
{
    if lo < hi && is_white(s[hi - 1]) {
        back_white(s, lo, hi - 1)
    } else {
        hi
    }
}

/// `s` with leading and trailing white space removed (`str::trim`).
pub open spec fn trim(s: Seq<char>) -> Seq<char> {
    let a = skip_white(s, 0, s.len() as int);
    s.subrange(a, back_white(s, a, s.len() as int))
}

pub proof fn lemma_skip_white_bounds(s: Seq<char>, lo: int, hi: int)
    requires
        lo <= hi,
    ensures
        lo <= skip_white(s, lo, hi) <= hi,
    decreases hi - lo,
{
    if lo < hi && is_white(s[lo]) {
        lemma_skip_white_bounds(s, lo + 1, hi);
    }
}

pub proof fn lemma_back_white_bounds(s: Seq<char>, lo: int, hi: int)
    requires
        lo <= hi,
    ensures
        lo <= back_white(s, lo, hi) <= hi,
    decreases hi - lo,
{
    if lo < hi && is_white(s[hi - 1]) {
        lemma_back_white_bounds(s, lo, hi - 1);
    }
}

/// Skipping white space inside a window of a sequence is skipping it in the window itself.
pub proof fn lemma_skip_white_shift(s: Seq<char>, lo: int, i: int, hi: int)
    requires
        0 <= lo <= i <= hi <= s.len(),
    ensures
        skip_white(s, i, hi) - lo == skip_white(s.subrange(lo, hi), i - lo, hi - lo),
    decreases hi - i,
{
    if i < hi && is_white(s[i]) {
        lemma_skip_white_shift(s, lo, i + 1, hi);
    }
}

/// Dropping trailing white space inside a window of a sequence is doing it in the window.
pub proof fn lemma_back_white_shift(s: Seq<char>, lo: int, a: int, j: int)
    requires
        0 <= lo <= a <= j <= s.len(),
    ensures
        back_white(s, a, j) - lo == back_white(s.subrange(lo, j), a - lo, j - lo),
    decreases j - a,
{
    if a < j && is_white(s[j - 1]) {
        lemma_back_white_shift(s, lo, a, j - 1);
        let t = s.subrange(lo, j);
        let t2 = s.subrange(lo, j - 1);
        assert(t2 =~= t.subrange(0, j - 1 - lo));
        lemma_back_white_prefix(t, a - lo, j - 1 - lo, j - lo);
    }
}

/// `back_white` only looks at the window it is given.
pub proof fn lemma_back_white_prefix(t: Seq<char>, a: int, j: int, n: int)
    requires
        0 <= a <= j <= n <= t.len(),
    ensures
        back_white(t, a, j) == back_white(t.subrange(0, j), a, j),
    decreases j - a,
{
    if a < j && is_white(t[j - 1]) {
        lemma_back_white_prefix(t, a, j - 1, n);
        lemma_back_white_prefix(t.subrange(0, j), a, j - 1, j);
        assert(t.subrange(0, j).subrange(0, j - 1) =~= t.subrange(0, j - 1));
    }
}

/// Trimming the window `s[lo..hi]` gives `s[a..b]` for the bounds the scans find.
pub proof fn lemma_trim_window(s: Seq<char>, lo: int, hi: int)
    requires
        0 <= lo <= hi <= s.len(),
    ensures
        ({
            let a = skip_white(s, lo, hi);
            let b = back_white(s, a, hi);
            &&& lo <= a <= b <= hi
            &&& trim(s.subrange(lo, hi)) =~= s.subrange(a, b)
        }),
{
    let t = s.subrange(lo, hi);
    lemma_skip_white_bounds(s, lo, hi);
    let a = skip_white(s, lo, hi);
    lemma_back_white_bounds(s, a, hi);
    lemma_skip_white_shift(s, lo, lo, hi);
    lemma_back_white_shift(s, lo, a, hi);
    assert(s.subrange(lo, hi) =~= t);
}

/// The bounds of `s[lo..hi]` with white space trimmed off both ends.
pub fn trim_bounds(s: &Vec<char>, lo: usize, hi: usize) -> (r: (usize, usize))
    requires
        lo <= hi <= s.len(),
    ensures
        r.0 == skip_white(s@, lo as int, hi as int),
        r.1 == back_white(s@, r.0 as int, hi as int),
        lo <= r.0 <= r.1 <= hi,
        trim(s@.subrange(lo as int, hi as int)) =~= s@.subrange(r.0 as int, r.1 as int),
{
    let mut a = lo;
    while a < hi && white(s[a])
        invariant
            lo <= a <= hi <= s.len(),
            skip_white(s@, a as int, hi as int) == skip_white(s@, lo as int, hi as int),
        decreases hi - a,
    {
        a = a + 1;
    }
    let mut b = hi;
    while b > a && white(s[b - 1])
        invariant
            lo <= a <= b <= hi <= s.len(),
            a == skip_white(s@, lo as int, hi as int),
            back_white(s@, a as int, b as int) == back_white(s@, a as int, hi as int),
        decreases b - a,
    {
        b = b - 1;
    }
    proof {
        lemma_trim_window(s@, lo as int, hi as int);
    }
    (a, b)
}

/// A string holding `s[lo..hi]`.
pub fn string_of(s: &Vec<char>, lo: usize, hi: usize) -> (r: String)
    requires
        lo <= hi <= s.len(),
    ensures
        r@ == s@.subrange(lo as int, hi as int),
{
    let mut r = String::new();
    let mut i = lo;
    while i < hi
        invariant
            lo <= i <= hi <= s.len(),
            r@ == s@.subrange(lo as int, i as int),
        decreases hi - i,
    {
        push_char(&mut r, s[i]);
        assert(s@.subrange(lo as int, i + 1) =~= s@.subrange(lo as int, i as int).push(s@[i as int]));
        i = i + 1;
    }
    r
}

} // verus!

verus! {

/// Whether a character is one of the decimal digits.
pub open spec fn is_decimal_digit(c: char) -> bool {
    '0' <= c <= '9'
}

/// The number a run of decimal digits spells.
pub open spec fn digits_value(d: Seq<char>) -> nat
    decreases d.len(),
{
    if d.len() == 0 {
        0
    } else {
        digits_value(d.drop_last()) * 10 + ((d.last() as u32 - '0' as u32) as nat)
    }
}

/// Whether every character of `d` is a decimal digit.
pub open spec fn all_digits(d: Seq<char>) -> bool {
    forall|i: int| 0 <= i < d.len() ==> is_decimal_digit(#[trigger] d[i])
}

/// What `str::parse::<u32>` makes of `s`: an optional `+`, then one or more decimal
/// digits whose value fits in a `u32`.
pub open spec fn parsed_u32(s: Seq<char>) -> Option<u32> {
    let d = if s.len() > 1 && s[0] == '+' { s.drop_first() } else { s };
    if d.len() > 0 && all_digits(d) && digits_value(d) <= u32::MAX {
        Some(digits_value(d) as u32)
    } else {
        None
    }
}

/// A longer run of digits never spells a smaller number.
pub proof fn lemma_digits_value_grows(d: Seq<char>, i: int, j: int)
    requires
        0 <= i <= j <= d.len(),
        forall|k: int| 0 <= k < d.len() ==> is_decimal_digit(#[trigger] d[k]),
    ensures
        digits_value(d.take(i)) <= digits_value(d.take(j)),
    decreases j - i,
{
    if i < j {
        lemma_digits_value_grows(d, i, j - 1);
        assert(d.take(j).drop_last() =~= d.take(j - 1));
    }
}

/// A number written in decimal is one or more digits that spell it.
proof fn lemma_decimal_digits(n: nat)
    ensures
        decimal(n).len() > 0,
        all_digits(decimal(n)),
        digits_value(decimal(n)) == n,
    decreases n,
{
    let d = n % 10;
    assert(d == 0 || d == 1 || d == 2 || d == 3 || d == 4 || d == 5 || d == 6 || d == 7 || d == 8 || d == 9);
    assert(digit_char(d) as u32 - '0' as u32 == d);
    if n < 10 {
        assert(seq![digit_char(n)].drop_last() =~= Seq::<char>::empty());
        assert(d == n);
        assert(digits_value(decimal(n)) == digits_value(Seq::<char>::empty()) * 10 + d);
    } else {
        lemma_decimal_digits(n / 10);
        let s = decimal(n);
        assert(s.drop_last() =~= decimal(n / 10));
        assert(s.last() == digit_char(d));
        assert(n == (n / 10) * 10 + n % 10) by (nonlinear_arith);
        assert(digits_value(s) == digits_value(decimal(n / 10)) * 10 + d);
        assert forall|i: int| 0 <= i < s.len() implies is_decimal_digit(#[trigger] s[i]) by {
            if i < s.len() - 1 {
                assert(s[i] == decimal(n / 10)[i]);
            }
        }
    }
}

/// What `u32::to_string` writes, `str::trim` leaves alone and `str::parse::<u32>` reads
/// back as the number written.
pub proof fn lemma_decimal_reads_back(n: u32)
    ensures
        trim(decimal(n as nat)) == decimal(n as nat),
        parsed_u32(decimal(n as nat)) == Some(n),
{
    lemma_decimal_digits(n as nat);
    let s = decimal(n as nat);
    assert(is_decimal_digit(s[0]));
    assert(is_decimal_digit(s[s.len() - 1]));
    assert(skip_white(s, 0, s.len() as int) == 0);
    assert(back_white(s, 0, s.len() as int) == s.len());
    assert(s.subrange(0, s.len() as int) =~= s);
}

/// Reads a `u32` the way `str::parse::<u32>` does.
pub fn parse_u32(s: &Vec<char>, lo: usize, hi: usize) -> (r: Option<u32>)
    requires
        lo <= hi <= s.len(),
    ensures
        r == parsed_u32(s@.subrange(lo as int, hi as int)),
{
    let ghost t = s@.subrange(lo as int, hi as int);
    let start = if hi - lo > 1 && s[lo] == '+' { lo + 1 } else { lo };
    let ghost d = if t.len() > 1 && t[0] == '+' { t.drop_first() } else { t };
    assert(d =~= s@.subrange(start as int, hi as int));
    if start == hi {
        return None;
    }
    let mut value: u64 = 0;
    let mut i = start;
    while i < hi
        invariant
            lo <= start <= i <= hi <= s.len(),
            d =~= s@.subrange(start as int, hi as int),
            t == s@.subrange(lo as int, hi as int),
            d == (if t.len() > 1 && t[0] == '+' { t.drop_first() } else { t }),
            forall|k: int| 0 <= k < i - start ==> is_decimal_digit(#[trigger] d[k]),
            value == digits_value(d.take(i - start)),
            value <= u32::MAX,
        decreases hi - i,
    {
        let c = s[i];
        if !('0' <= c && c <= '9') {
            assert(!is_decimal_digit(d[i - start]));
            return None;
        }
        let ghost k = i - start;
        assert(d.take(k + 1).drop_last() =~= d.take(k));
        value = value * 10 + (c as u64 - '0' as u64);
        if value > u32::MAX as u64 {
            proof {
                if all_digits(d) {
                    lemma_digits_value_grows(d, k + 1, d.len() as int);
                    assert(d.take(d.len() as int) =~= d);
                }
            }
            return None;
        }
        i = i + 1;
    }
    assert(d.take(d.len() as int) =~= d);
    Some(value as u32)
}

} // verus!

verus! {

/// The index of the first `'\n'` at or after `i`, or the length when there is none.
pub open spec fn line_end(s: Seq<char>, i: int) -> int
    decreases s.len() - i,
{
    if i >= s.len() || s[i] == '\n' {
        i
    } else {
        line_end(s, i + 1)
    }
}

pub proof fn lemma_line_end_bounds(s: Seq<char>, i: int)
    requires
        0 <= i <= s.len(),
    ensures
        i <= line_end(s, i) <= s.len(),
        line_end(s, i) < s.len() ==> s[line_end(s, i)] == '\n',
        forall|k: int| i <= k < line_end(s, i) ==> s[k] != '\n',
    decreases s.len() - i,
{
    if i < s.len() && s[i] != '\n' {
        lemma_line_end_bounds(s, i + 1);
    }
}

/// Finds the end of the line that starts at `i`.
pub fn find_line_end(s: &Vec<char>, i: usize) -> (e: usize)
    requires
        i <= s.len(),
    ensures
        e == line_end(s@, i as int),
        i <= e <= s.len(),
{
    let mut e = i;
    while e < s.len() && s[e] != '\n'
        invariant
            i <= e <= s.len(),
            line_end(s@, e as int) == line_end(s@, i as int),
        decreases s.len() - e,
    {
        e = e + 1;
    }
    e
}

/// The first line of `s` as `str::lines` gives it: up to the first line feed, less a
/// carriage return just before that line feed; `None` for an empty string.
pub open spec fn first_line_of(s: Seq<char>) -> Option<Seq<char>> {
    if s.len() == 0 {
        None
    } else {
        let e = line_end(s, 0);
        let l = s.subrange(0, e);
        if e < s.len() && l.len() > 0 && l.last() == '\r' {
            Some(l.drop_last())
        } else {
            Some(l)
        }
    }
}

} // verus!

verus! {

/// The characters of an optional string.
pub open spec fn opt_chars(o: Option<String>) -> Option<Seq<char>> {
    match o {
        Some(s) => Some(s@),
        None => None,
    }
}

} // verus!
