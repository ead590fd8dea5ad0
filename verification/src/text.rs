//! Character-level building blocks: decimal formatting, decimal parsing with
//! the grammar of `str::parse` for integers, trimming, splitting and
//! replacing, each specified over `Seq<char>`.

use vstd::prelude::*;

verus! {

/// The character for a decimal digit `d < 10`.
pub open spec fn digit_char(d: nat) -> char {
    if d == 0 { '0' }
    else if d == 1 { '1' }
    else if d == 2 { '2' }
    else if d == 3 { '3' }
    else if d == 4 { '4' }
    else if d == 5 { '5' }
    else if d == 6 { '6' }
    else if d == 7 { '7' }
    else if d == 8 { '8' }
    else { '9' }
}

/// The shortest decimal representation of `n`.
pub open spec fn decimal_digits(n: nat) -> Seq<char>
    decreases n,
{
    if n < 10 {
        seq![digit_char(n)]
    } else {
        decimal_digits(n / 10).push(digit_char(n % 10))
    }
}

/// `s` preceded by as many `'0'` as make it `width` characters long.
pub open spec fn zero_padded(s: Seq<char>, width: nat) -> Seq<char> {
    if s.len() >= width {
        s
    } else {
        Seq::new((width - s.len()) as nat, |i: int| '0') + s
    }
}

/// What `format!("{:0w$}", n)` gives for an integer `n`: the sign (if any)
/// counts towards the width, and the zeros stand between sign and digits.
pub open spec fn format_int(n: int, width: nat) -> Seq<char> {
    if n < 0 {
        seq!['-'] + zero_padded(decimal_digits((-n) as nat), if width == 0 { 0 } else { (width - 1) as nat })
    } else {
        zero_padded(decimal_digits(n as nat), width)
    }
}

/// Appends `c` to `s` (`String::push`).
#[verifier::external_body]
pub(crate) fn push_char(s: &mut String, c: char)
    ensures
        final(s)@ == old(s)@.push(c),
{
    s.push(c);
}

fn digit_to_char(d: u64) -> (c: char)
    requires
        d < 10,
    ensures
        c == digit_char(d as nat),
{
    if d == 0 { '0' }
    else if d == 1 { '1' }
    else if d == 2 { '2' }
    else if d == 3 { '3' }
    else if d == 4 { '4' }
    else if d == 5 { '5' }
    else if d == 6 { '6' }
    else if d == 7 { '7' }
    else if d == 8 { '8' }
    else { '9' }
}

/// The digits of `n`, least significant first.
fn reversed_digits(n: u64) -> (r: Vec<char>)
    ensures
        r@.reverse() == decimal_digits(n as nat),
    decreases n,
{
    if n < 10 {
        let mut r = Vec::new();
        r.push(digit_to_char(n));
        assert(r@.reverse() =~= decimal_digits(n as nat));
        r
    } else {
        let mut tail = Vec::new();
        tail.push(digit_to_char(n % 10));
        let rest = reversed_digits(n / 10);
        let ghost rest_v = rest@;
        let mut k: usize = 0;
        while k < rest.len()
            invariant
                k <= rest.len(),
                rest@ == rest_v,
                tail@ == seq![digit_char((n % 10) as nat)] + rest_v.take(k as int),
            decreases rest.len() - k,
        {
            tail.push(rest[k]);
            assert(rest_v.take(k as int + 1) =~= rest_v.take(k as int).push(rest_v[k as int]));
            assert(tail@ =~= seq![digit_char((n % 10) as nat)] + rest_v.take(k as int + 1));
            k = k + 1;
        }
        assert(rest_v.take(k as int) =~= rest_v);
        assert(tail@.reverse() =~= rest_v.reverse().push(digit_char((n % 10) as nat)));
        tail
    }
}

/// Appends the digits of `n`, zero-padded to `width`, to `out`.
pub fn push_padded_u64(out: &mut String, n: u64, width: usize)
    ensures
        final(out)@ == old(out)@ + zero_padded(decimal_digits(n as nat), width as nat),
{
    let rev = reversed_digits(n);
    let ghost digits = decimal_digits(n as nat);
    let mut pad: usize = 0;
    let ghost start = out@;
    let npad: usize = if rev.len() < width { width - rev.len() } else { 0 };
    while pad < npad
        invariant
            pad <= npad,
            out@ == start + Seq::new(pad as nat, |i: int| '0'),
        decreases npad - pad,
    {
        push_char(out, '0');
        assert(Seq::new((pad + 1) as nat, |i: int| '0') =~= Seq::new(pad as nat, |i: int| '0').push('0'));
        pad = pad + 1;
    }
    let ghost mid = out@;
    let mut k: usize = rev.len();
    while k > 0
        invariant
            k <= rev.len(),
            rev@.reverse() == digits,
            out@ == mid + digits.take((rev.len() - k) as int),
        decreases k,
    {
        k = k - 1;
        push_char(out, rev[k]);
        assert(digits[(rev.len() - k - 1) as int] == rev@[k as int]);
        assert(digits.take((rev.len() - k) as int) =~= digits.take((rev.len() - k - 1) as int).push(rev@[k as int]));
    }
    assert(digits.take(rev.len() as int) =~= digits);
    assert(digits.len() == rev.len());
    assert(out@ =~= old(out)@ + zero_padded(digits, width as nat));
}

/// Appends `format!("{:0w$}", n)` to `out`.
pub fn push_padded_i64(out: &mut String, n: i64, width: usize)
    ensures
        final(out)@ == old(out)@ + format_int(n as int, width as nat),
{
    if n < 0 {
        push_char(out, '-');
        let mag: u64 = if n == i64::MIN { 9_223_372_036_854_775_808u64 } else { (-n) as u64 };
        let w: usize = if width == 0 { 0 } else { width - 1 };
        push_padded_u64(out, mag, w);
        assert(out@ =~= old(out)@ + format_int(n as int, width as nat));
    } else {
        push_padded_u64(out, n as u64, width);
    }
}

/// The characters of `s`, in order.
pub fn chars_of(s: &str) -> (r: Vec<char>)
    ensures
        r@ == s@,
{
    let mut r: Vec<char> = Vec::new();
    for c in it: s.chars()
        invariant
            r@ == it.seq().take(it.index() as int),
            it.seq() == s@,
    {
        r.push(c);
        assert(it.seq().take(it.index() as int + 1) =~= it.seq().take(it.index() as int).push(c));
    }
    assert(s@.take(s@.len() as int) =~= s@);
    r
}

/// A `String` holding exactly `chars`.
pub fn string_of(chars: &[char]) -> (r: String)
    ensures
        r@ == chars@,
{
    let mut r = String::new();
    let mut i: usize = 0;
    while i < chars.len()
        invariant
            i <= chars.len(),
            r@ == chars@.take(i as int),
        decreases chars.len() - i,
    {
        push_char(&mut r, chars[i]);
        assert(chars@.take(i as int + 1) =~= chars@.take(i as int).push(chars@[i as int]));
        i = i + 1;
    }
    assert(chars@.take(i as int) =~= chars@);
    r
}

/// The reason a decimal integer could not be read, as `core::num::IntErrorKind`
/// names it.
#[derive(Clone, Copy, Debug, PartialEq, Eq, Structural)]
pub enum IntErrorKind {
    Empty,
    InvalidDigit,
    PosOverflow,
    NegOverflow,
}

pub open spec fn is_digit(c: char) -> bool {
    '0' <= c && c <= '9'
}

pub open spec fn digit_value(c: char) -> int {
    (c as u32) - ('0' as u32)
}

/// Reads the digits `ds` left to right onto `acc`, as `from_str_radix` does:
/// the first character that is not a digit, or the first step that leaves
/// `[lo, hi]`, decides the error.
pub open spec fn read_digits(ds: Seq<char>, acc: int, negative: bool, lo: int, hi: int) -> Result<int, IntErrorKind>
    decreases ds.len(),
{
    if ds.len() == 0 {
        Ok(acc)
    } else if !is_digit(ds[0]) {
        Err(IntErrorKind::InvalidDigit)
    } else {
        let next = if negative { acc * 10 - digit_value(ds[0]) } else { acc * 10 + digit_value(ds[0]) };
        if next > hi {
            Err(IntErrorKind::PosOverflow)
        } else if next < lo {
            Err(IntErrorKind::NegOverflow)
        } else {
            read_digits(ds.drop_first(), next, negative, lo, hi)
        }
    }
}

/// What `str::parse` gives for an integer type with range `[lo, hi]`; a
/// leading `-` is a sign only for signed types.
pub open spec fn parse_integer(s: Seq<char>, signed: bool, lo: int, hi: int) -> Result<int, IntErrorKind> {
    if s.len() == 0 {
        Err(IntErrorKind::Empty)
    } else if s.len() == 1 && (s[0] == '+' || s[0] == '-') {
        Err(IntErrorKind::InvalidDigit)
    } else if s[0] == '+' {
        read_digits(s.drop_first(), 0, false, lo, hi)
    } else if s[0] == '-' && signed {
        read_digits(s.drop_first(), 0, true, lo, hi)
    } else {
        read_digits(s, 0, false, lo, hi)
    }
}

fn read_digits_exec(ds: &[char], start: usize, negative: bool, lo: i128, hi: i128) -> (r: Result<i128, IntErrorKind>)
    requires
        start <= ds@.len(),
        lo <= 0 <= hi,
        -0x1_0000_0000_0000_0000 <= lo,
        hi <= 0x1_0000_0000_0000_0000,
    ensures
        match r {
            Ok(v) => read_digits(ds@.skip(start as int), 0, negative, lo as int, hi as int) == Ok::<int, IntErrorKind>(v as int),
            Err(e) => read_digits(ds@.skip(start as int), 0, negative, lo as int, hi as int) == Err::<int, IntErrorKind>(e),
        },
{
    let mut acc: i128 = 0;
    let mut i: usize = start;
    while i < ds.len()
        invariant
            start <= i <= ds@.len(),
            lo <= acc <= hi,
            lo <= 0 <= hi,
            -0x1_0000_0000_0000_0000 <= lo,
            hi <= 0x1_0000_0000_0000_0000,
            read_digits(ds@.skip(start as int), 0, negative, lo as int, hi as int)
                == read_digits(ds@.skip(i as int), acc as int, negative, lo as int, hi as int),
        decreases ds.len() - i,
    {
        let c = ds[i];
        assert(ds@.skip(i as int)[0] == c);
        assert(ds@.skip(i as int).drop_first() =~= ds@.skip(i as int + 1));
        if !('0' <= c && c <= '9') {
            return Err(IntErrorKind::InvalidDigit);
        }
        let d: i128 = ((c as u32) - ('0' as u32)) as i128;
        let next: i128 = if negative { acc * 10 - d } else { acc * 10 + d };
        if next > hi {
            return Err(IntErrorKind::PosOverflow);
        }
        if next < lo {
            return Err(IntErrorKind::NegOverflow);
        }
        acc = next;
        i = i + 1;
    }
    assert(ds@.skip(i as int).len() == 0);
    Ok(acc)
}

/// Reads `s` as `str::parse` reads an integer of range `[lo, hi]`.
pub fn parse_integer_exec(s: &[char], signed: bool, lo: i128, hi: i128) -> (r: Result<i128, IntErrorKind>)
    requires
        lo <= 0 <= hi,
        -0x1_0000_0000_0000_0000 <= lo,
        hi <= 0x1_0000_0000_0000_0000,
    ensures
        match r {
            Ok(v) => parse_integer(s@, signed, lo as int, hi as int) == Ok::<int, IntErrorKind>(v as int),
            Err(e) => parse_integer(s@, signed, lo as int, hi as int) == Err::<int, IntErrorKind>(e),
        },
        r matches Ok(v) ==> lo <= v <= hi,
{
    proof { lemma_parse_integer_bounds(s@, signed, lo as int, hi as int); }
    if s.len() == 0 {
        return Err(IntErrorKind::Empty);
    }
    if s.len() == 1 && (s[0] == '+' || s[0] == '-') {
        return Err(IntErrorKind::InvalidDigit);
    }
    assert(s@.drop_first() =~= s@.skip(1));
    assert(s@ =~= s@.skip(0));
    if s[0] == '+' {
        read_digits_exec(s, 1, false, lo, hi)
    } else if s[0] == '-' && signed {
        read_digits_exec(s, 1, true, lo, hi)
    } else {
        read_digits_exec(s, 0, false, lo, hi)
    }
}

impl IntErrorKind {
    /// The text that `core::num::ParseIntError` displays for this kind.
    pub open spec fn spec_text(self) -> Seq<char> {
        match self {
            IntErrorKind::Empty => "cannot parse integer from empty string"@,
            IntErrorKind::InvalidDigit => "invalid digit found in string"@,
            IntErrorKind::PosOverflow => "number too large to fit in target type"@,
            IntErrorKind::NegOverflow => "number too small to fit in target type"@,
        }
    }

    pub fn text(&self) -> (r: &'static str)
        ensures
            r@ == self.spec_text(),
    {
        match self {
            IntErrorKind::Empty => "cannot parse integer from empty string",
            IntErrorKind::InvalidDigit => "invalid digit found in string",
            IntErrorKind::PosOverflow => "number too large to fit in target type",
            IntErrorKind::NegOverflow => "number too small to fit in target type",
        }
    }
}

/// `s` split at every occurrence of `sep`, as `str::split` with a `char`
/// pattern: `n` separators give `n + 1` pieces.
pub open spec fn split_on(s: Seq<char>, sep: char) -> Seq<Seq<char>>
    decreases s.len(),
{
    if s.len() == 0 {
        seq![Seq::<char>::empty()]
    } else if s[0] == sep {
        seq![Seq::<char>::empty()] + split_on(s.drop_first(), sep)
    } else {
        let rest = split_on(s.drop_first(), sep);
        rest.update(0, seq![s[0]] + rest[0])
    }
}

pub proof fn lemma_split_on_nonempty(s: Seq<char>, sep: char)
    ensures
        split_on(s, sep).len() >= 1,
    decreases s.len(),
{
    if s.len() > 0 {
        lemma_split_on_nonempty(s.drop_first(), sep);
    }
}

/// The pieces of `s` between the occurrences of `sep`.
pub fn split_chars(s: &[char], sep: char) -> (r: Vec<Vec<char>>)
    ensures
        r@.len() == split_on(s@, sep).len(),
        forall|i: int| 0 <= i < r@.len() ==> #[trigger] r@[i]@ == split_on(s@, sep)[i],
{
    let mut parts: Vec<Vec<char>> = Vec::new();
    let mut cur: Vec<char> = Vec::new();
    let mut i: usize = 0;
    proof {
        lemma_split_on_nonempty(s@, sep);
        assert(s@.skip(0) =~= s@);
    }
    while i < s.len()
        invariant
            i <= s@.len(),
            ({
                let t = split_on(s@.skip(i as int), sep);
                &&& t.len() >= 1
                &&& split_on(s@, sep) =~= parts@.map_values(|v: Vec<char>| v@) + seq![cur@ + t[0]] + t.drop_first()
            }),
        decreases s.len() - i,
    {
        let c = s[i];
        let ghost t = split_on(s@.skip(i as int), sep);
        let ghost t2 = split_on(s@.skip(i as int + 1), sep);
        proof {
            assert(s@.skip(i as int).drop_first() =~= s@.skip(i as int + 1));
            assert(s@.skip(i as int)[0] == c);
            lemma_split_on_nonempty(s@.skip(i as int + 1), sep);
        }
        if c == sep {
            let ghost old_parts = parts@.map_values(|v: Vec<char>| v@);
            let done = cur;
            parts.push(done);
            cur = Vec::new();
            assert(parts@.map_values(|v: Vec<char>| v@) =~= old_parts.push(done@));
            assert(t =~= seq![Seq::<char>::empty()] + t2);
            assert(split_on(s@, sep) =~= parts@.map_values(|v: Vec<char>| v@) + seq![cur@ + t2[0]] + t2.drop_first());
        } else {
            let ghost old_cur = cur@;
            cur.push(c);
            assert(t =~= t2.update(0, seq![c] + t2[0]));
            assert(t.drop_first() =~= t2.drop_first());
            assert(cur@ + t2[0] =~= old_cur + t[0]);
        }
        i = i + 1;
    }
    proof {
        assert(s@.skip(i as int).len() == 0);
    }
    let ghost before = parts@.map_values(|v: Vec<char>| v@);
    parts.push(cur);
    assert(parts@.map_values(|v: Vec<char>| v@) =~= before.push(cur@));
    assert(forall|k: int| 0 <= k < parts@.len() ==> parts@.map_values(|v: Vec<char>| v@)[k] == #[trigger] parts@[k]@);
    parts
}

/// The characters that have the Unicode `White_Space` property, which is what
/// `char::is_whitespace` and `str::trim` go by.
pub open spec fn is_white_space(c: char) -> bool {
    let u = c as u32;
    (0x09 <= u && u <= 0x0D) || u == 0x20 || u == 0x85 || u == 0xA0 || u == 0x1680
        || (0x2000 <= u && u <= 0x200A) || u == 0x2028 || u == 0x2029 || u == 0x202F
        || u == 0x205F || u == 0x3000
}

pub fn white_space(c: char) -> (r: bool)
    ensures
        r == is_white_space(c),
{
    let u = c as u32;
    (0x09 <= u && u <= 0x0D) || u == 0x20 || u == 0x85 || u == 0xA0 || u == 0x1680
        || (0x2000 <= u && u <= 0x200A) || u == 0x2028 || u == 0x2029 || u == 0x202F
        || u == 0x205F || u == 0x3000
}

/// `s` without its leading white space.
pub open spec fn trim_start(s: Seq<char>) -> Seq<char>
    decreases s.len(),
{
    if s.len() > 0 && is_white_space(s[0]) {
        trim_start(s.drop_first())
    } else {
        s
    }
}

/// `s` without its trailing white space.
pub open spec fn trim_end(s: Seq<char>) -> Seq<char>
    decreases s.len(),
{
    if s.len() > 0 && is_white_space(s.last()) {
        trim_end(s.drop_last())
    } else {
        s
    }
}

/// `str::trim`: `s` without leading and trailing white space.
pub open spec fn trim(s: Seq<char>) -> Seq<char> {
    trim_end(trim_start(s))
}

/// `trim(s)`, as characters.
pub fn trim_chars(s: &[char]) -> (r: Vec<char>)
    ensures
        r@ == trim(s@),
{
    let mut i: usize = 0;
    assert(s@.skip(0) =~= s@);
    while i < s.len() && white_space(s[i])
        invariant
            i <= s@.len(),
            trim_start(s@) == trim_start(s@.skip(i as int)),
        decreases s.len() - i,
    {
        assert(s@.skip(i as int).drop_first() =~= s@.skip(i as int + 1));
        i = i + 1;
    }
    let ghost front = s@.skip(i as int);
    assert(trim_start(s@) == front);
    let mut j: usize = s.len();
    assert(front =~= s@.subrange(i as int, j as int));
    while j > i && white_space(s[j - 1])
        invariant
            i <= j <= s@.len(),
            trim_end(front) == trim_end(s@.subrange(i as int, j as int)),
        decreases j,
    {
        assert(s@.subrange(i as int, j as int).drop_last() =~= s@.subrange(i as int, j as int - 1));
        j = j - 1;
    }
    let mut r: Vec<char> = Vec::new();
    let mut k: usize = i;
    while k < j
        invariant
            i <= k <= j <= s@.len(),
            r@ == s@.subrange(i as int, k as int),
        decreases j - k,
    {
        r.push(s[k]);
        assert(s@.subrange(i as int, k as int + 1) =~= s@.subrange(i as int, k as int).push(s@[k as int]));
        k = k + 1;
    }
    r
}

/// `s` with every occurrence of `pat` replaced by `rep`, scanning left to
/// right without overlap, as `str::replace` does for a non-empty pattern.
pub open spec fn replace_all(s: Seq<char>, pat: Seq<char>, rep: Seq<char>) -> Seq<char>
    decreases s.len(),
{
    if pat.len() == 0 || s.len() < pat.len() {
        s
    } else if s.take(pat.len() as int) == pat {
        rep + replace_all(s.skip(pat.len() as int), pat, rep)
    } else {
        seq![s[0]] + replace_all(s.drop_first(), pat, rep)
    }
}

/// Whether `pat` occurs in `s` at position `at`.
pub fn occurs_at(s: &[char], at: usize, pat: &[char]) -> (r: bool)
    requires
        at + pat@.len() <= s@.len(),
    ensures
        r == (s@.subrange(at as int, at + pat@.len()) == pat@),
{
    let mut k: usize = 0;
    let n = s.len();
    while k < pat.len()
        invariant
            k <= pat@.len(),
            n == s@.len(),
            at + pat@.len() <= s@.len(),
            s@.subrange(at as int, at + k) =~= pat@.take(k as int),
        decreases pat.len() - k,
    {
        if s[at + k] != pat[k] {
            assert(s@.subrange(at as int, at + pat@.len())[k as int] != pat@[k as int]);
            return false;
        }
        assert(s@.subrange(at as int, at + k + 1) =~= s@.subrange(at as int, at + k).push(s@[at + k]));
        assert(pat@.take(k as int + 1) =~= pat@.take(k as int).push(pat@[k as int]));
        k = k + 1;
    }
    assert(pat@.take(k as int) =~= pat@);
    true
}

/// `replace_all(s, pat, rep)`, as characters.
pub fn replace_chars(s: &[char], pat: &[char], rep: &[char]) -> (r: Vec<char>)
    requires
        pat@.len() > 0,
    ensures
        r@ == replace_all(s@, pat@, rep@),
{
    let mut out: Vec<char> = Vec::new();
    let mut i: usize = 0;
    assert(s@.skip(0) =~= s@);
    while i < s.len()
        invariant
            i <= s@.len(),
            pat@.len() > 0,
            replace_all(s@, pat@, rep@) == out@ + replace_all(s@.skip(i as int), pat@, rep@),
        decreases s.len() - i,
    {
        let ghost rest = s@.skip(i as int);
        if pat.len() <= s.len() - i && occurs_at(s, i, pat) {
            assert(rest.take(pat@.len() as int) =~= s@.subrange(i as int, i + pat@.len()));
            assert(rest.skip(pat@.len() as int) =~= s@.skip(i + pat@.len()));
            let ghost before = out@;
            let mut k: usize = 0;
            while k < rep.len()
                invariant
                    k <= rep@.len(),
                    out@ == before + rep@.take(k as int),
                decreases rep.len() - k,
            {
                out.push(rep[k]);
                assert(rep@.take(k as int + 1) =~= rep@.take(k as int).push(rep@[k as int]));
                k = k + 1;
            }
            assert(rep@.take(k as int) =~= rep@);
            assert(replace_all(s@, pat@, rep@) =~= out@ + replace_all(s@.skip(i + pat@.len()), pat@, rep@));
            i = i + pat.len();
        } else {
            proof {
                if pat@.len() <= rest.len() {
                    assert(rest.take(pat@.len() as int) =~= s@.subrange(i as int, i + pat@.len()));
                }
            }
            assert(rest.drop_first() =~= s@.skip(i as int + 1));
            let ghost before = out@;
            out.push(s[i]);
            assert(replace_all(s@, pat@, rep@) =~= out@ + replace_all(s@.skip(i as int + 1), pat@, rep@));
            i = i + 1;
        }
    }
    assert(s@.skip(i as int).len() == 0);
    assert(out@ + Seq::<char>::empty() =~= out@);
    out
}

/// Whether `c` occurs in `s`.
pub fn contains_char(s: &[char], c: char) -> (r: bool)
    ensures
        r == s@.contains(c),
{
    let mut i: usize = 0;
    while i < s.len()
        invariant
            i <= s@.len(),
            forall|k: int| 0 <= k < i ==> s@[k] != c,
        decreases s.len() - i,
    {
        if s[i] == c {
            assert(s@[i as int] == c);
            return true;
        }
        i = i + 1;
    }
    false
}

/// Appends the characters of `src` to `out`.
pub fn push_chars(out: &mut Vec<char>, src: &[char])
    ensures
        final(out)@ == old(out)@ + src@,
{
    let mut k: usize = 0;
    while k < src.len()
        invariant
            k <= src@.len(),
            out@ == old(out)@ + src@.take(k as int),
        decreases src.len() - k,
    {
        out.push(src[k]);
        assert(src@.take(k as int + 1) =~= src@.take(k as int).push(src@[k as int]));
        k = k + 1;
    }
    assert(src@.take(k as int) =~= src@);
}

/// Whether every character of `s` is ASCII.
pub open spec fn is_ascii_text(s: Seq<char>) -> bool {
    forall|i: int| 0 <= i < s.len() ==> (#[trigger] s[i] as u32) < 128
}

/// The lower-case form of an ASCII character: `A` to `Z` become `a` to `z`,
/// the others stay.
pub open spec fn ascii_lower(c: char) -> char {
    if 'A' <= c && c <= 'Z' { ((c as u32) + 32) as char } else { c }
}

/// The lower-case form that `str::to_lowercase` gives for text holding a
/// character that is not ASCII (Unicode's case tables and the final-sigma
/// rule).
pub uninterp spec fn unicode_lowercase(s: Seq<char>) -> Seq<char>;

/// The lower-case form of `s`, as `str::to_lowercase` gives it: ASCII text
/// character by character, other text as `unicode_lowercase` names it.
pub open spec fn lowercase(s: Seq<char>) -> Seq<char> {
    if is_ascii_text(s) { s.map_values(|c: char| ascii_lower(c)) } else { unicode_lowercase(s) }
}

/// `str::to_lowercase`. Unicode maps the ASCII letters `A` to `Z` to `a` to
/// `z` and leaves the other ASCII characters as they are, so ASCII text is
/// lowered character by character; for other text the result is named
/// `unicode_lowercase`: it depends on `s` alone.
#[verifier::external_body]
pub(crate) fn to_lowercase(s: &str) -> (r: String)
    ensures
        r@ == lowercase(s@),
        !is_ascii_text(s@) ==> r@ == unicode_lowercase(s@),
{
    s.to_lowercase()
}

/// Lowering ASCII text gives ASCII text, and lowering it again changes
/// nothing.
pub proof fn lemma_ascii_lowercase_idempotent(s: Seq<char>)
    requires
        is_ascii_text(s),
    ensures
        is_ascii_text(lowercase(s)),
        lowercase(lowercase(s)) == lowercase(s),
{
    let l = lowercase(s);
    assert forall|i: int| 0 <= i < l.len() implies (#[trigger] l[i] as u32) < 128 by {
        assert(l[i] == ascii_lower(s[i]));
        assert((s[i] as u32) < 128);
    }
    assert forall|i: int| 0 <= i < l.len() implies #[trigger] ascii_lower(l[i]) == l[i] by {
        assert(l[i] == ascii_lower(s[i]));
    }
    assert(l.map_values(|c: char| ascii_lower(c)) =~= l);
}

/// Reading `a + b` is reading `a`, then reading `b` onto the value reached.
pub proof fn lemma_read_digits_append(a: Seq<char>, b: Seq<char>, acc: int, negative: bool, lo: int, hi: int)
    ensures
        read_digits(a + b, acc, negative, lo, hi) == (match read_digits(a, acc, negative, lo, hi) {
            Ok(v) => read_digits(b, v, negative, lo, hi),
            Err(e) => Err(e),
        }),
    decreases a.len(),
{
    if a.len() == 0 {
        assert(a + b =~= b);
    } else {
        assert((a + b)[0] == a[0]);
        assert((a + b).drop_first() =~= a.drop_first() + b);
        if is_digit(a[0]) {
            let next = if negative { acc * 10 - digit_value(a[0]) } else { acc * 10 + digit_value(a[0]) };
            lemma_read_digits_append(a.drop_first(), b, next, negative, lo, hi);
        }
    }
}

proof fn lemma_digit_char(d: nat)
    requires
        d < 10,
    ensures
        is_digit(digit_char(d)),
        digit_value(digit_char(d)) == d,
{
}

/// The digits of `n` read back as `n`.
pub proof fn lemma_read_decimal(n: nat, lo: int, hi: int)
    requires
        lo <= 0,
        n <= hi,
    ensures
        read_digits(decimal_digits(n), 0, false, lo, hi) == Ok::<int, IntErrorKind>(n as int),
    decreases n,
{
    if n < 10 {
        lemma_digit_char(n);
        assert(decimal_digits(n).drop_first() =~= Seq::<char>::empty());
        assert(read_digits(Seq::<char>::empty(), n as int, false, lo, hi) == Ok::<int, IntErrorKind>(n as int));
    } else {
        let q = n / 10;
        let r = n % 10;
        lemma_read_decimal(q, lo, hi);
        lemma_digit_char(r);
        lemma_read_digits_append(decimal_digits(q), seq![digit_char(r)], 0, false, lo, hi);
        assert(decimal_digits(q) + seq![digit_char(r)] =~= decimal_digits(n));
        assert(q * 10 + r == n);
        assert(seq![digit_char(r)].drop_first() =~= Seq::<char>::empty());
        assert(read_digits(Seq::<char>::empty(), n as int, false, lo, hi) == Ok::<int, IntErrorKind>(n as int));
        assert(read_digits(seq![digit_char(r)], q as int, false, lo, hi) == Ok::<int, IntErrorKind>(n as int));
    }
}

/// Reading digits from a value in range ends in range.
proof fn lemma_read_digits_bounds(ds: Seq<char>, acc: int, negative: bool, lo: int, hi: int)
    requires
        lo <= acc <= hi,
    ensures
        read_digits(ds, acc, negative, lo, hi) matches Ok(v) ==> lo <= v <= hi,
    decreases ds.len(),
{
    if ds.len() > 0 && is_digit(ds[0]) {
        let next = if negative { acc * 10 - digit_value(ds[0]) } else { acc * 10 + digit_value(ds[0]) };
        if lo <= next <= hi {
            lemma_read_digits_bounds(ds.drop_first(), next, negative, lo, hi);
        }
    }
}

/// What `parse_integer` reads lies in the range it reads for.
pub proof fn lemma_parse_integer_bounds(s: Seq<char>, signed: bool, lo: int, hi: int)
    requires
        lo <= 0 <= hi,
    ensures
        parse_integer(s, signed, lo, hi) matches Ok(v) ==> lo <= v <= hi,
{
    lemma_read_digits_bounds(s, 0, false, lo, hi);
    lemma_read_digits_bounds(s.drop_first(), 0, false, lo, hi);
    lemma_read_digits_bounds(s.drop_first(), 0, true, lo, hi);
}

/// The characters that Unicode's PropList.txt gives the White_Space
/// property, which `char::is_whitespace` and so `str::trim` go by.
pub open spec fn unicode_white_space() -> Seq<char> {
    seq!['\u{9}', '\u{A}', '\u{B}', '\u{C}', '\u{D}', '\u{20}', '\u{85}', '\u{A0}', '\u{1680}',
        '\u{2000}', '\u{2001}', '\u{2002}', '\u{2003}', '\u{2004}', '\u{2005}', '\u{2006}',
        '\u{2007}', '\u{2008}', '\u{2009}', '\u{200A}', '\u{2028}', '\u{2029}', '\u{202F}',
        '\u{205F}', '\u{3000}']
}

/// Trimming after a white-space character is appended: white space alone
/// stays empty, other text gains the character.
proof fn lemma_trim_start_push(s: Seq<char>, c: char)
    requires
        is_white_space(c),
    ensures
        trim_start(s.push(c)) == (if trim_start(s).len() == 0 { Seq::<char>::empty() } else { trim_start(s).push(c) }),
    decreases s.len(),
{
    if s.len() == 0 {
        assert(s.push(c).drop_first() =~= Seq::<char>::empty());
        assert(trim_start(Seq::<char>::empty()) == Seq::<char>::empty());
        assert(trim_start(s.push(c)) == trim_start(s.push(c).drop_first()));
        assert(trim_start(s) == s);
    } else if is_white_space(s[0]) {
        assert(s.push(c).drop_first() =~= s.drop_first().push(c));
        lemma_trim_start_push(s.drop_first(), c);
    } else {
        assert(s.push(c)[0] == s[0]);
    }
}

/// `str::trim` takes exactly Unicode white space off the ends: appending or
/// prepending a White_Space character changes nothing in the trimmed text,
/// and any other character is kept.
pub proof fn lemma_trim_is_unicode_white_space(s: Seq<char>, c: char)
    ensures
        unicode_white_space().contains(c) ==> trim(s.push(c)) == trim(s) && trim(seq![c] + s) == trim(s),
        !unicode_white_space().contains(c) ==> trim(seq![c]) == seq![c],
{
    let w = unicode_white_space();
    if w.contains(c) {
        let i = choose|i: int| 0 <= i < w.len() && w[i] == c;
        assert(is_white_space(c)) by {
            assert(w[i] == c);
        }
        lemma_trim_start_push(s, c);
        let t = trim_start(s);
        if t.len() > 0 {
            assert(t.push(c).drop_last() =~= t);
        }
        assert((seq![c] + s).drop_first() =~= s);
    } else {
        assert(!is_white_space(c)) by {
            let u = c as u32;
            if is_white_space(c) {
                if u == 0x09 { assert(w[0] == c); }
                else if u == 0x0A { assert(w[1] == c); }
                else if u == 0x0B { assert(w[2] == c); }
                else if u == 0x0C { assert(w[3] == c); }
                else if u == 0x0D { assert(w[4] == c); }
                else if u == 0x20 { assert(w[5] == c); }
                else if u == 0x85 { assert(w[6] == c); }
                else if u == 0xA0 { assert(w[7] == c); }
                else if u == 0x1680 { assert(w[8] == c); }
                else if 0x2000 <= u && u <= 0x200A { assert(w[(u - 0x2000 + 9) as int] == c); }
                else if u == 0x2028 { assert(w[20] == c); }
                else if u == 0x2029 { assert(w[21] == c); }
                else if u == 0x202F { assert(w[22] == c); }
                else if u == 0x205F { assert(w[23] == c); }
                else { assert(w[24] == c); }
            }
        }
        assert(trim_start(seq![c]) == seq![c]);
        assert(trim_end(seq![c]) == seq![c]);
    }
}

/// Text that neither starts nor ends with white space is its own trimmed
/// form.
pub proof fn lemma_trim_unchanged(s: Seq<char>)
    requires
        s.len() > 0,
        !is_white_space(s[0]),
        !is_white_space(s.last()),
    ensures
        trim(s) == s,
{
    assert(trim_start(s) == s);
    assert(trim_end(s) == s);
}

/// The digits of `n`, read as a negative number, give `-n`.
proof fn lemma_read_decimal_negative(n: nat, lo: int, hi: int)
    requires
        lo <= -n,
        0 <= hi,
    ensures
        read_digits(decimal_digits(n), 0, true, lo, hi) == Ok::<int, IntErrorKind>(-n),
    decreases n,
{
    if n < 10 {
        lemma_digit_char(n);
        assert(decimal_digits(n).drop_first() =~= Seq::<char>::empty());
        assert(read_digits(Seq::<char>::empty(), -n, true, lo, hi) == Ok::<int, IntErrorKind>(-n));
    } else {
        let q = n / 10;
        let r = n % 10;
        lemma_read_decimal_negative(q, lo, hi);
        lemma_digit_char(r);
        lemma_read_digits_append(decimal_digits(q), seq![digit_char(r)], 0, true, lo, hi);
        assert(decimal_digits(q) + seq![digit_char(r)] =~= decimal_digits(n));
        assert(q * 10 + r == n);
        assert(seq![digit_char(r)].drop_first() =~= Seq::<char>::empty());
        assert(read_digits(Seq::<char>::empty(), -n, true, lo, hi) == Ok::<int, IntErrorKind>(-n));
        assert(read_digits(seq![digit_char(r)], -q, true, lo, hi) == Ok::<int, IntErrorKind>(-n));
    }
}

/// The decimal form of `n` is text with no white space at either end, and a
/// signed type whose range holds `n` reads it back as `n`.
pub proof fn lemma_format_int_reads_back(n: int, lo: int, hi: int)
    requires
        lo <= 0 <= hi,
        lo <= n <= hi,
    ensures
        trim(format_int(n, 0)) == format_int(n, 0),
        format_int(n, 0).len() > 0,
        parse_integer(format_int(n, 0), true, lo, hi) == Ok::<int, IntErrorKind>(n),
{
    let m: nat = if n < 0 { (-n) as nat } else { n as nat };
    let d = decimal_digits(m);
    lemma_padded_digits(m, 0);
    assert(zero_padded(d, 0) == d);
    let t = format_int(n, 0);
    if n < 0 {
        assert(t =~= seq!['-'] + d);
        assert(t.drop_first() =~= d);
        lemma_read_decimal_negative(m, lo, hi);
        assert(is_digit(d[d.len() - 1]));
        assert(t.last() == d[d.len() - 1]);
    } else {
        assert(t == d);
        lemma_parse_padded(m, 0, true, lo, hi);
        assert(is_digit(d[0]));
        assert(is_digit(d[d.len() - 1]));
    }
    assert(!is_white_space(t[0]));
    assert(!is_white_space(t.last()));
    assert(trim_start(t) == t);
    assert(trim_end(t) == t);
}

proof fn lemma_read_zeros(k: nat, lo: int, hi: int)
    requires
        lo <= 0 <= hi,
    ensures
        read_digits(Seq::new(k, |i: int| '0'), 0, false, lo, hi) == Ok::<int, IntErrorKind>(0),
    decreases k,
{
    if k > 0 {
        assert(Seq::new(k, |i: int| '0').drop_first() =~= Seq::new((k - 1) as nat, |i: int| '0'));
        lemma_read_zeros((k - 1) as nat, lo, hi);
    }
}

proof fn lemma_decimal_digits_shape(n: nat)
    ensures
        decimal_digits(n).len() >= 1,
        forall|i: int| 0 <= i < decimal_digits(n).len() ==> is_digit(#[trigger] decimal_digits(n)[i]),
    decreases n,
{
    lemma_digit_char(n % 10);
    if n >= 10 {
        lemma_decimal_digits_shape(n / 10);
        assert forall|i: int| 0 <= i < decimal_digits(n).len() implies is_digit(#[trigger] decimal_digits(n)[i]) by {
            if i < decimal_digits(n / 10).len() {
                assert(decimal_digits(n)[i] == decimal_digits(n / 10)[i]);
            }
        }
    } else {
        lemma_digit_char(n);
    }
}

/// Every character of a zero-padded decimal is a digit, and there is one at least.
pub proof fn lemma_padded_digits(n: nat, width: nat)
    ensures
        zero_padded(decimal_digits(n), width).len() >= 1,
        forall|i: int| 0 <= i < zero_padded(decimal_digits(n), width).len()
            ==> is_digit(#[trigger] zero_padded(decimal_digits(n), width)[i]),
{
    lemma_decimal_digits_shape(n);
    let d = decimal_digits(n);
    let p = zero_padded(d, width);
    assert forall|i: int| 0 <= i < p.len() implies is_digit(#[trigger] p[i]) by {
        if d.len() < width {
            let z = (width - d.len()) as nat;
            if i >= z {
                assert(p[i] == d[i - z]);
            }
        }
    }
}

/// A zero-padded decimal parses back to its value.
pub proof fn lemma_parse_padded(n: nat, width: nat, signed: bool, lo: int, hi: int)
    requires
        lo <= 0,
        n <= hi,
    ensures
        parse_integer(zero_padded(decimal_digits(n), width), signed, lo, hi) == Ok::<int, IntErrorKind>(n as int),
{
    let d = decimal_digits(n);
    let p = zero_padded(d, width);
    lemma_padded_digits(n, width);
    lemma_read_decimal(n, lo, hi);
    if d.len() < width {
        let z = (width - d.len()) as nat;
        lemma_read_zeros(z, lo, hi);
        lemma_read_digits_append(Seq::new(z, |i: int| '0'), d, 0, false, lo, hi);
    }
    assert(is_digit(p[0]));
}

/// Splitting text that holds no separator gives the text itself.
pub proof fn lemma_split_without_sep(s: Seq<char>, sep: char)
    requires
        !s.contains(sep),
    ensures
        split_on(s, sep) == seq![s],
    decreases s.len(),
{
    if s.len() > 0 {
        assert(s[0] != sep);
        assert(!s.drop_first().contains(sep)) by {
            if s.drop_first().contains(sep) {
                let k = choose|k: int| 0 <= k < s.drop_first().len() && s.drop_first()[k] == sep;
                assert(s[k + 1] == sep);
            }
        }
        lemma_split_without_sep(s.drop_first(), sep);
        assert(seq![s[0]] + s.drop_first() =~= s);
        assert(split_on(s, sep) =~= seq![s]);
    } else {
        assert(s =~= Seq::<char>::empty());
    }
}

/// A first piece free of the separator comes off whole.
pub proof fn lemma_split_first_piece(a: Seq<char>, rest: Seq<char>, sep: char)
    requires
        !a.contains(sep),
    ensures
        split_on(a + seq![sep] + rest, sep) == seq![a] + split_on(rest, sep),
    decreases a.len(),
{
    let s = a + seq![sep] + rest;
    if a.len() == 0 {
        assert(s[0] == sep);
        assert(s.drop_first() =~= rest);
        assert(a =~= Seq::<char>::empty());
    } else {
        assert(a[0] != sep);
        assert(s[0] == a[0]);
        assert(!a.drop_first().contains(sep)) by {
            if a.drop_first().contains(sep) {
                let k = choose|k: int| 0 <= k < a.drop_first().len() && a.drop_first()[k] == sep;
                assert(a[k + 1] == sep);
            }
        }
        assert(s.drop_first() =~= a.drop_first() + seq![sep] + rest);
        lemma_split_first_piece(a.drop_first(), rest, sep);
        assert(seq![a[0]] + a.drop_first() =~= a);
        assert(split_on(s, sep) =~= seq![a] + split_on(rest, sep));
    }
}

/// Three separator-free pieces joined by the separator split back apart.
pub proof fn lemma_split_three(a: Seq<char>, b: Seq<char>, c: Seq<char>, sep: char)
    requires
        !a.contains(sep),
        !b.contains(sep),
        !c.contains(sep),
    ensures
        split_on(a + seq![sep] + b + seq![sep] + c, sep) == seq![a, b, c],
{
    lemma_split_without_sep(c, sep);
    lemma_split_first_piece(b, c, sep);
    assert(a + seq![sep] + b + seq![sep] + c =~= a + seq![sep] + (b + seq![sep] + c));
    lemma_split_first_piece(a, b + seq![sep] + c, sep);
    assert(seq![a] + (seq![b] + seq![c]) =~= seq![a, b, c]);
}

/// Whether `pat` occurs somewhere in `s`.
pub open spec fn occurs_in(s: Seq<char>, pat: Seq<char>) -> bool {
    exists|i: int| 0 <= i && i + pat.len() <= s.len() && #[trigger] s.subrange(i, i + pat.len()) == pat
}

/// Replacing a pattern that does not occur changes nothing.
pub proof fn lemma_replace_absent(s: Seq<char>, pat: Seq<char>, rep: Seq<char>)
    requires
        !occurs_in(s, pat),
    ensures
        replace_all(s, pat, rep) == s,
    decreases s.len(),
{
    if pat.len() > 0 && s.len() >= pat.len() {
        assert(s.take(pat.len() as int) != pat) by {
            if s.take(pat.len() as int) == pat {
                assert(s.subrange(0, 0int + pat.len()) =~= s.take(pat.len() as int));
                assert(occurs_in(s, pat));
            }
        }
        let t = s.drop_first();
        assert(!occurs_in(t, pat)) by {
            if occurs_in(t, pat) {
                let i = choose|i: int| 0 <= i && i + pat.len() <= t.len() && #[trigger] t.subrange(i, i + pat.len()) == pat;
                assert(s.subrange(i + 1, i + 1 + pat.len()) =~= t.subrange(i, i + pat.len()));
            }
        }
        lemma_replace_absent(t, pat, rep);
        assert(seq![s[0]] + t =~= s);
    }
}

/// Replacing a whole non-empty text by `rep` gives `rep`.
pub proof fn lemma_replace_whole(pat: Seq<char>, rep: Seq<char>)
    requires
        pat.len() > 0,
    ensures
        replace_all(pat, pat, rep) == rep,
{
    assert(pat.take(pat.len() as int) =~= pat);
    assert(pat.skip(pat.len() as int) =~= Seq::<char>::empty());
    assert(replace_all(Seq::<char>::empty(), pat, rep) == Seq::<char>::empty());
    assert(rep + Seq::<char>::empty() =~= rep);
}

#[verifier::external_type_specification]
#[verifier::external_body]
pub struct ExUtf8Error(core::str::Utf8Error);

/// `core::str::from_utf8`: the text the bytes encode when they are valid
/// UTF-8 (vstd's `valid_utf8` and `decode_utf8`), an error otherwise.
#[verifier::external_body]
pub(crate) fn str_from_utf8(bytes: &[u8]) -> (r: Result<&str, core::str::Utf8Error>)
    ensures
        r is Ok <==> vstd::utf8::valid_utf8(bytes@),
        r matches Ok(s) ==> s@ == vstd::utf8::decode_utf8(bytes@),
{
    core::str::from_utf8(bytes)
}

/// The text a `Utf8Error` displays; nothing is stated of it.
#[verifier::external_body]
pub(crate) fn utf8_error_text(e: &core::str::Utf8Error) -> String {
    e.to_string()
}

/// Whether two strings hold the same characters.
pub fn same_text(a: &str, b: &str) -> (r: bool)
    ensures
        r == (a@ == b@),
{
    String::from_str(a) == String::from_str(b)
}

/// The UTF-8 bytes of `s`.
pub fn utf8_bytes(s: &str) -> (r: Vec<u8>)
    ensures
        r@ == vstd::utf8::encode_utf8(s@),
{
    s.as_bytes_vec()
}

} // verus!
