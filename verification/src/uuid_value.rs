//! UUIDs, carried as the 128-bit value `uuid::Uuid::as_u128` gives, with
//! their hyphenated text.

use vstd::prelude::*;
use crate::text::push_char;

verus! {

/// The lower-case hexadecimal digit for `d < 16`.
pub open spec fn hex_digit(d: nat) -> char {
    if d == 0 { '0' }
    else if d == 1 { '1' }
    else if d == 2 { '2' }
    else if d == 3 { '3' }
    else if d == 4 { '4' }
    else if d == 5 { '5' }
    else if d == 6 { '6' }
    else if d == 7 { '7' }
    else if d == 8 { '8' }
    else if d == 9 { '9' }
    else if d == 10 { 'a' }
    else if d == 11 { 'b' }
    else if d == 12 { 'c' }
    else if d == 13 { 'd' }
    else if d == 14 { 'e' }
    else { 'f' }
}

/// The last `n` hexadecimal digits of `v`, most significant first.
pub open spec fn hex_digits(v: nat, n: nat) -> Seq<char>
    decreases n,
{
    if n == 0 {
        Seq::empty()
    } else {
        hex_digits(v / 16, (n - 1) as nat).push(hex_digit(v % 16))
    }
}

/// The hyphenated form of a UUID: 32 lower-case hexadecimal digits in groups
/// of 8, 4, 4, 4 and 12, as `uuid::Uuid` displays.
pub open spec fn uuid_text(v: u128) -> Seq<char> {
    let h = hex_digits(v as nat, 32);
    h.subrange(0, 8) + seq!['-'] + h.subrange(8, 12) + seq!['-'] + h.subrange(12, 16) + seq!['-']
        + h.subrange(16, 20) + seq!['-'] + h.subrange(20, 32)
}

/// Whether `s` is the hyphenated text of some UUID.
pub open spec fn is_uuid_text(s: Seq<char>) -> bool {
    exists|v: u128| s == #[trigger] uuid_text(v)
}

/// The value `uuid::Uuid::parse_str` reads from `s`, if it accepts it.
pub uninterp spec fn uuid_from_text(s: Seq<char>) -> Option<u128>;

fn hex_char(d: u128) -> (c: char)
    requires
        d < 16,
    ensures
        c == hex_digit(d as nat),
{
    if d == 0 { '0' }
    else if d == 1 { '1' }
    else if d == 2 { '2' }
    else if d == 3 { '3' }
    else if d == 4 { '4' }
    else if d == 5 { '5' }
    else if d == 6 { '6' }
    else if d == 7 { '7' }
    else if d == 8 { '8' }
    else if d == 9 { '9' }
    else if d == 10 { 'a' }
    else if d == 11 { 'b' }
    else if d == 12 { 'c' }
    else if d == 13 { 'd' }
    else if d == 14 { 'e' }
    else { 'f' }
}

/// The hyphenated text of the UUID `v`.
pub fn uuid_to_text(v: u128) -> (r: String)
    ensures
        r@ == uuid_text(v),
{
    let mut digits: Vec<char> = Vec::new();
    let mut rest: u128 = v;
    let mut k: usize = 0;
    proof { lemma_hex_digits_len(v as nat, 32); }
    while k < 32
        invariant
            k <= 32,
            hex_digits(v as nat, 32).len() == 32,
            digits@.len() == k,
            digits@.reverse() == hex_digits(v as nat, 32).subrange(32 - k, 32),
            hex_digits(v as nat, 32) == hex_digits(rest as nat, (32 - k) as nat) + digits@.reverse(),
        decreases 32 - k,
    {
        let ghost before = digits@;
        let ghost high = hex_digits((rest / 16) as nat, (31 - k) as nat);
        assert(hex_digits(rest as nat, (32 - k) as nat) == high.push(hex_digit((rest % 16) as nat)));
        digits.push(hex_char(rest % 16));
        assert(digits@.reverse() =~= seq![hex_digit((rest % 16) as nat)] + before.reverse());
        assert(hex_digits(v as nat, 32) =~= high + digits@.reverse());
        rest = rest / 16;
        k = k + 1;
        proof {
            let h = hex_digits(v as nat, 32);
            assert(hex_digits(rest as nat, (32 - k) as nat).len() == 32 - k) by {
                lemma_hex_digits_len(rest as nat, (32 - k) as nat);
            }
            assert(h.subrange(32 - k, 32) =~= digits@.reverse());
        }
    }
    proof {
        assert(hex_digits(rest as nat, 0) =~= Seq::<char>::empty());
        assert(digits@.reverse() =~= hex_digits(v as nat, 32));
    }
    let mut h: Vec<char> = Vec::new();
    let mut i: usize = 0;
    while i < 32
        invariant
            i <= 32,
            digits@.len() == 32,
            h@ == digits@.reverse().take(i as int),
        decreases 32 - i,
    {
        h.push(digits[31 - i]);
        assert(digits@.reverse().take(i as int + 1) =~= digits@.reverse().take(i as int).push(digits@[31 - i]));
        i = i + 1;
    }
    assert(digits@.reverse().take(32) =~= digits@.reverse());
    let mut out = String::new();
    push_range(&mut out, &h, 0, 8);
    push_char(&mut out, '-');
    push_range(&mut out, &h, 8, 12);
    push_char(&mut out, '-');
    push_range(&mut out, &h, 12, 16);
    push_char(&mut out, '-');
    push_range(&mut out, &h, 16, 20);
    push_char(&mut out, '-');
    push_range(&mut out, &h, 20, 32);
    assert(out@ =~= uuid_text(v));
    out
}

/// Appends `chars[a..b]` to `out`.
fn push_range(out: &mut String, chars: &Vec<char>, a: usize, b: usize)
    requires
        a <= b <= chars@.len(),
    ensures
        final(out)@ == old(out)@ + chars@.subrange(a as int, b as int),
{
    let mut k: usize = a;
    while k < b
        invariant
            a <= k <= b <= chars@.len(),
            out@ == old(out)@ + chars@.subrange(a as int, k as int),
        decreases b - k,
    {
        push_char(out, chars[k]);
        assert(chars@.subrange(a as int, k as int + 1) =~= chars@.subrange(a as int, k as int).push(chars@[k as int]));
        k = k + 1;
    }
}

proof fn lemma_hex_digits_len(v: nat, n: nat)
    ensures
        hex_digits(v, n).len() == n,
    decreases n,
{
    if n > 0 {
        lemma_hex_digits_len(v / 16, (n - 1) as nat);
    }
}

/// Whether `c` is a lower-case hexadecimal digit.
pub open spec fn is_hex_char(c: char) -> bool {
    ('0' <= c && c <= '9') || ('a' <= c && c <= 'f')
}

/// Every character of `hex_digits(v, n)` is a lower-case hexadecimal digit.
proof fn lemma_hex_digits_chars(v: nat, n: nat)
    ensures
        forall|i: int| 0 <= i < hex_digits(v, n).len() ==> is_hex_char(#[trigger] hex_digits(v, n)[i]),
    decreases n,
{
    if n > 0 {
        lemma_hex_digits_chars(v / 16, (n - 1) as nat);
        assert(is_hex_char(hex_digit(v % 16)));
        assert forall|i: int| 0 <= i < hex_digits(v, n).len() implies is_hex_char(#[trigger] hex_digits(v, n)[i]) by {
            if i < hex_digits(v / 16, (n - 1) as nat).len() {
                assert(hex_digits(v, n)[i] == hex_digits(v / 16, (n - 1) as nat)[i]);
            }
        }
    }
}

/// The hyphenated text of a UUID is 36 characters long and starts and ends
/// with a hexadecimal digit.
pub proof fn lemma_uuid_text_shape(v: u128)
    ensures
        uuid_text(v).len() == 36,
        is_hex_char(uuid_text(v)[0]),
        is_hex_char(uuid_text(v)[35]),
{
    lemma_hex_digits_len(v as nat, 32);
    lemma_hex_digits_chars(v as nat, 32);
    let h = hex_digits(v as nat, 32);
    assert(uuid_text(v)[0] == h[0]);
    assert(uuid_text(v)[35] == h[31]);
}

/// `16` to the power `n`.
pub open spec fn pow16(n: nat) -> nat
    decreases n,
{
    if n == 0 { 1 } else { 16 * pow16((n - 1) as nat) }
}

/// Below `16^n`, the last `n` hexadecimal digits tell numbers apart.
proof fn lemma_hex_digits_injective(a: nat, b: nat, n: nat)
    requires
        a < pow16(n),
        b < pow16(n),
        hex_digits(a, n) == hex_digits(b, n),
    ensures
        a == b,
    decreases n,
{
    if n > 0 {
        let m = (n - 1) as nat;
        lemma_hex_digits_len(a / 16, m);
        lemma_hex_digits_len(b / 16, m);
        assert(hex_digits(a, n).drop_last() =~= hex_digits(a / 16, m));
        assert(hex_digits(b, n).drop_last() =~= hex_digits(b / 16, m));
        assert(hex_digits(a, n).last() == hex_digit(a % 16));
        assert(hex_digits(b, n).last() == hex_digit(b % 16));
        assert(a % 16 == b % 16);
        let p = pow16(m);
        assert(a / 16 < p) by (nonlinear_arith)
            requires
                a < 16 * p,
        ;
        assert(b / 16 < p) by (nonlinear_arith)
            requires
                b < 16 * p,
        ;
        lemma_hex_digits_injective(a / 16, b / 16, m);
    }
}

/// Different UUIDs have different hyphenated texts.
pub proof fn lemma_uuid_text_injective(a: u128, b: u128)
    ensures
        uuid_text(a) == uuid_text(b) ==> a == b,
{
    if uuid_text(a) == uuid_text(b) {
        let ha = hex_digits(a as nat, 32);
        let hb = hex_digits(b as nat, 32);
        lemma_hex_digits_len(a as nat, 32);
        lemma_hex_digits_len(b as nat, 32);
        let ta = uuid_text(a);
        let tb = uuid_text(b);
        assert(ta.subrange(0, 8) =~= ha.subrange(0, 8));
        assert(ta.subrange(9, 13) =~= ha.subrange(8, 12));
        assert(ta.subrange(14, 18) =~= ha.subrange(12, 16));
        assert(ta.subrange(19, 23) =~= ha.subrange(16, 20));
        assert(ta.subrange(24, 36) =~= ha.subrange(20, 32));
        assert(tb.subrange(0, 8) =~= hb.subrange(0, 8));
        assert(tb.subrange(9, 13) =~= hb.subrange(8, 12));
        assert(tb.subrange(14, 18) =~= hb.subrange(12, 16));
        assert(tb.subrange(19, 23) =~= hb.subrange(16, 20));
        assert(tb.subrange(24, 36) =~= hb.subrange(20, 32));
        assert(ha =~= ha.subrange(0, 8) + ha.subrange(8, 12) + ha.subrange(12, 16) + ha.subrange(16, 20) + ha.subrange(20, 32));
        assert(hb =~= hb.subrange(0, 8) + hb.subrange(8, 12) + hb.subrange(12, 16) + hb.subrange(16, 20) + hb.subrange(20, 32));
        assert(ha == hb);
        assert(pow16(32) == 0x1_0000_0000_0000_0000_0000_0000_0000_0000) by {
            reveal_with_fuel(pow16, 33);
        }
        lemma_hex_digits_injective(a as nat, b as nat, 32);
    }
}

#[verifier::external_type_specification]
#[verifier::external_body]
pub struct ExUuidError(uuid::Error);

/// `uuid::Uuid::parse_str` (which `str::parse::<Uuid>` calls), giving the
/// UUID's 128-bit value. The value is named `uuid_from_text`; its
/// documentation says that every format the crate writes is read back, so the
/// hyphenated text of a value reads as that value. Which other texts it
/// accepts is not stated.
#[verifier::external_body]
pub(crate) fn parse_uuid(s: &str) -> (r: Result<u128, uuid::Error>)
    ensures
        r is Ok <==> uuid_from_text(s@) is Some,
        r matches Ok(v) ==> uuid_from_text(s@) == Some(v),
        r matches Ok(w) ==> s@ == uuid_text(w) || !is_uuid_text(s@),
        r is Err ==> !is_uuid_text(s@),
{
    uuid::Uuid::parse_str(s).map(|u| u.as_u128())
}

/// The text `uuid::Error` displays; nothing is stated of it.
#[verifier::external_body]
pub(crate) fn uuid_error_text(e: &uuid::Error) -> String {
    e.to_string()
}

} // verus!
