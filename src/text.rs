//! Decimal rendering of integers and the human-readable form of a span of
//! seconds ("1 hours, 2 minutes, 5 seconds").
use vstd::prelude::*;
use vstd::string::*;

verus! {

/// The ASCII digit for `d < 10`.
pub open spec fn digit_char(d: nat) -> char {
    if d == 0 { '0' }
    else if d == 1 { '1' }
    else if d == 2 { '2' }
    else if d == 3 { '3' }
    else if d == 4 { '4' }
    else if d == 5 { '5' }
    else if d == 6 { '6' }
    else if d == 7 { '7' }
    else if d == 8 { '8' }
    else { '9' }
}

/// Base-ten digits of `n`, most significant first, without leading zeros.
pub open spec fn decimal(n: nat) -> Seq<char>
    decreases n,
{
    if n < 10 {
        seq![digit_char(n)]
    } else {
        decimal(n / 10).push(digit_char(n % 10))
    }
}

/// Base-ten text of a signed integer, with a leading `-` when negative.
pub open spec fn int_text(i: int) -> Seq<char> {
    if i < 0 {
        seq!['-'] + decimal((-i) as nat)
    } else {
        decimal(i as nat)
    }
}

/// Hours, minutes and seconds of a span of `d` seconds, each truncated toward
/// zero, so that a negative span has no positive part.
pub open spec fn hms(d: int) -> (int, int, int) {
    if d >= 0 {
        (d / 3600, (d / 60) % 60, d % 60)
    } else {
        (-((-d) / 3600), -(((-d) / 60) % 60), -((-d) % 60))
    }
}

/// `"{H} hours, {M} minutes, {S} seconds"` for a span of `d` seconds.
pub open spec fn span_words(d: int) -> Seq<char> {
    let (h, m, s) = hms(d);
    int_text(h) + " hours, "@ + int_text(m) + " minutes, "@ + int_text(s) + " seconds"@
}

fn digit_str(d: u64) -> (r: &'static str)
    requires
        d < 10,
    ensures
        r@ == seq![digit_char(d as nat)],
{
    proof {
        reveal_strlit("0");
        reveal_strlit("1");
        reveal_strlit("2");
        reveal_strlit("3");
        reveal_strlit("4");
        reveal_strlit("5");
        reveal_strlit("6");
        reveal_strlit("7");
        reveal_strlit("8");
        reveal_strlit("9");
    }
    if d == 0 { "0" }
    else if d == 1 { "1" }
    else if d == 2 { "2" }
    else if d == 3 { "3" }
    else if d == 4 { "4" }
    else if d == 5 { "5" }
    else if d == 6 { "6" }
    else if d == 7 { "7" }
    else if d == 8 { "8" }
    else { "9" }
}

/// Appends the decimal digits of `n` to `s`.
pub fn push_decimal(s: &mut String, n: u64)
    ensures
        final(s)@ == old(s)@ + decimal(n as nat),
    decreases n,
{
    if n >= 10 {
        push_decimal(s, n / 10);
    }
    let d = digit_str(n % 10);
    s.append(d);
    proof {
        if n < 10 {
            assert(n % 10 == n);
            assert(old(s)@ + decimal(n as nat) =~= old(s)@ + seq![digit_char(n as nat)]);
        } else {
            assert(old(s)@ + decimal(n as nat) =~= old(s)@ + decimal((n / 10) as nat)
                + seq![digit_char((n % 10) as nat)]);
        }
    }
}

/// Appends the decimal text of a signed integer to `s`.
pub fn push_int(s: &mut String, i: i64)
    ensures
        final(s)@ == old(s)@ + int_text(i as int),
{
    if i < 0 {
        proof {
            reveal_strlit("-");
        }
        s.append("-");
        let mag: u64 = ((-(i + 1)) as u64) + 1;
        push_decimal(s, mag);
        assert(s@ =~= old(s)@ + int_text(i as int));
    } else {
        push_decimal(s, i as u64);
    }
}

/// The text `"{H} hours, {M} minutes, {S} seconds"` for a span of `seconds`.
pub fn span_text(seconds: i64) -> (r: String)
    ensures
        r@ == span_words(seconds as int),
{
    let neg = seconds < 0;
    let mag: u64 = if neg { ((-(seconds + 1)) as u64) + 1 } else { seconds as u64 };
    let h: u64 = mag / 3600;
    let m: u64 = (mag / 60) % 60;
    let sec: u64 = mag % 60;
    let (hi, mi, si): (i64, i64, i64) = if neg {
        (-(h as i64), -(m as i64), -(sec as i64))
    } else {
        (h as i64, m as i64, sec as i64)
    };
    assert(hms(seconds as int) == (hi as int, mi as int, si as int));
    proof {
        reveal_strlit(" hours, ");
        reveal_strlit(" minutes, ");
        reveal_strlit(" seconds");
    }
    let mut r = String::new();
    push_int(&mut r, hi);
    r.append(" hours, ");
    push_int(&mut r, mi);
    r.append(" minutes, ");
    push_int(&mut r, si);
    r.append(" seconds");
    assert(r@ =~= span_words(seconds as int));
    r
}

} // verus!
