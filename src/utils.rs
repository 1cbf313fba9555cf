use vstd::prelude::*;

verus! {

/// Bytes in a kilobyte, as reports count them.
pub const KB: u64 = 1024;

/// Bytes in a megabyte.
pub const MB: u64 = 1048576;

/// Bytes in a gigabyte.
pub const GB: u64 = 1073741824;

/// Bits per second in a kilobit per second.
pub const KBPS: u32 = 1000;

/// Bits per second in a megabit per second.
pub const MBPS: u32 = 1000000;

/// The character of a decimal digit.
pub open spec fn digit_char(d: nat) -> char {
    if d == 0 { '0' }
    else if d == 1 { '1' }
    else if d == 2 { '2' }
    else if d == 3 { '3' }
    else if d == 4 { '4' }
    else if d == 5 { '5' }
    else if d == 6 { '6' }
    else if d == 7 { '7' }
    else if d == 8 { '8' }
    else { '9' }
}

/// The decimal text of `n`, without leading zeros.
pub open spec fn decimal(n: nat) -> Seq<char>
    decreases n,
{
    if n < 10 {
        seq![digit_char(n)]
    } else {
        decimal(n / 10).push(digit_char(n % 10))
    }
}

/// `num / den` rounded to the nearest integer, halves to the even neighbour.
///
/// The quotient is exact. Printing an `f64` quotient with two decimals can
/// round the other way where the exact value lies halfway between two
/// hundredths but the nearest `f64` does not: 1015 bps shows here as
/// `1.02 Kbps`, where `format!("{:.2}", 1015.0 / 1000.0)` gives `1.01`.
pub open spec fn round_half_even(num: nat, den: nat) -> nat
    recommends
        den > 0,
{
    let q = num / den;
    let r = num % den;
    if 2 * r > den {
        q + 1
    } else if 2 * r < den {
        q
    } else if q % 2 == 0 {
        q
    } else {
        q + 1
    }
}

/// A count of hundredths written with two decimals: `12345` is `123.45`.
pub open spec fn two_decimals(h: nat) -> Seq<char> {
    decimal(h / 100) + seq!['.', digit_char((h / 10) % 10), digit_char(h % 10)]
}

/// `value / unit` written with two decimals, then a space and the unit's name.
pub open spec fn scaled(value: nat, unit: nat, name: Seq<char>) -> Seq<char> {
    two_decimals(round_half_even(value * 100, unit)) + seq![' '] + name
}

/// The text of a byte count: whole bytes below a kilobyte, else two decimals
/// of the largest binary unit (KB, MB, GB) that the count reaches.
pub open spec fn bytes_text(b: nat) -> Seq<char> {
    if b >= GB {
        scaled(b, GB as nat, seq!['G', 'B'])
    } else if b >= MB {
        scaled(b, MB as nat, seq!['M', 'B'])
    } else if b >= KB {
        scaled(b, KB as nat, seq!['K', 'B'])
    } else {
        decimal(b) + seq![' ', 'B']
    }
}

/// The text of a bitrate: whole bits per second below a kilobit, else two
/// decimals of the largest decimal unit (Kbps, Mbps) that the rate reaches.
pub open spec fn bitrate_text(bps: nat) -> Seq<char> {
    if bps >= MBPS {
        scaled(bps, MBPS as nat, seq!['M', 'b', 'p', 's'])
    } else if bps >= KBPS {
        scaled(bps, KBPS as nat, seq!['K', 'b', 'p', 's'])
    } else {
        decimal(bps) + seq![' ', 'b', 'p', 's']
    }
}

/// The amount that `bytes_text(b)` shows, in hundredths of a byte: the
/// number it prints times the value of its unit, times 100.
pub open spec fn bytes_shown(b: nat) -> nat {
    if b >= GB {
        round_half_even(b * 100, GB as nat) * (GB as nat)
    } else if b >= MB {
        round_half_even(b * 100, MB as nat) * (MB as nat)
    } else if b >= KB {
        round_half_even(b * 100, KB as nat) * (KB as nat)
    } else {
        b * 100
    }
}

/// The rate that `bitrate_text(bps)` shows, in hundredths of a bit per
/// second: the number it prints times the value of its unit, times 100.
pub open spec fn bitrate_shown(bps: nat) -> nat {
    if bps >= MBPS {
        round_half_even(bps * 100, MBPS as nat) * (MBPS as nat)
    } else if bps >= KBPS {
        round_half_even(bps * 100, KBPS as nat) * (KBPS as nat)
    } else {
        bps * 100
    }
}

proof fn lemma_round_bounds(n: nat, d: nat)
    requires
        d > 0,
    ensures
        n / d <= round_half_even(n, d) <= n / d + 1,
{
}

proof fn lemma_round_monotone(n1: nat, n2: nat, d: nat)
    requires
        d > 0,
        n1 <= n2,
    ensures
        round_half_even(n1, d) <= round_half_even(n2, d),
{
    let q1 = n1 / d;
    let q2 = n2 / d;
    assert(q1 <= q2) by (nonlinear_arith)
        requires d > 0, n1 <= n2, q1 == n1 / d, q2 == n2 / d;
    lemma_round_bounds(n1, d);
    lemma_round_bounds(n2, d);
    if q1 == q2 {
        assert(n1 % d <= n2 % d) by (nonlinear_arith)
            requires d > 0, n1 <= n2, n1 / d == n2 / d;
        if n1 % d == n2 % d {
            assert(n1 == n2) by (nonlinear_arith)
                requires d > 0, n1 / d == n2 / d, n1 % d == n2 % d;
        }
    }
}

/// An amount below the unit `big` shows as at most one `big`, when shown in
/// a unit `small` that divides it.
proof fn lemma_shown_below(a: nat, small: nat, m: nat)
    requires
        small > 0,
        a < m * small,
    ensures
        round_half_even(a * 100, small) * small <= 100 * (m * small),
{
    let k = 100 * m;
    assert(a * 100 < k * small) by (nonlinear_arith)
        requires a < m * small, k == 100 * m;
    assert((a * 100) / small < k) by (nonlinear_arith)
        requires small > 0, a * 100 < k * small;
    lemma_round_bounds(a * 100, small);
    assert(round_half_even(a * 100, small) * small <= k * small) by (nonlinear_arith)
        requires round_half_even(a * 100, small) <= k, small > 0;
    assert(k * small == 100 * (m * small)) by (nonlinear_arith)
        requires k == 100 * m;
}

/// An amount of at least one `unit` shows as at least one `unit`.
proof fn lemma_shown_at_least(b: nat, unit: nat)
    requires
        unit > 0,
        b >= unit,
    ensures
        round_half_even(b * 100, unit) * unit >= 100 * unit,
{
    assert((b * 100) / unit >= 100) by (nonlinear_arith)
        requires unit > 0, b >= unit;
    lemma_round_bounds(b * 100, unit);
    assert(round_half_even(b * 100, unit) * unit >= 100 * unit) by (nonlinear_arith)
        requires round_half_even(b * 100, unit) >= 100, unit > 0;
}

proof fn lemma_shown_same_unit(a: nat, b: nat, unit: nat)
    requires
        unit > 0,
        a <= b,
    ensures
        round_half_even(a * 100, unit) * unit <= round_half_even(b * 100, unit) * unit,
{
    lemma_round_monotone(a * 100, b * 100, unit);
    assert(round_half_even(a * 100, unit) * unit <= round_half_even(b * 100, unit) * unit)
        by (nonlinear_arith)
        requires round_half_even(a * 100, unit) <= round_half_even(b * 100, unit), unit > 0;
}

/// A larger byte count never shows as a smaller amount: rounding to two
/// decimals and moving to a larger unit both keep the order.
pub proof fn lemma_bytes_shown_monotone(a: nat, b: nat)
    requires
        a <= b,
    ensures
        bytes_shown(a) <= bytes_shown(b),
{
    if a >= GB {
        lemma_shown_same_unit(a, b, GB as nat);
    } else if a >= MB {
        lemma_shown_below(a, MB as nat, 1024);
        if b >= GB {
            lemma_shown_at_least(b, GB as nat);
        } else {
            lemma_shown_same_unit(a, b, MB as nat);
        }
    } else if a >= KB {
        lemma_shown_below(a, KB as nat, 1024);
        if b >= GB {
            lemma_shown_at_least(b, GB as nat);
            lemma_shown_below(a, KB as nat, 1048576);
        } else if b >= MB {
            lemma_shown_at_least(b, MB as nat);
        } else {
            lemma_shown_same_unit(a, b, KB as nat);
        }
    } else {
        if b >= GB {
            lemma_shown_at_least(b, GB as nat);
        } else if b >= MB {
            lemma_shown_at_least(b, MB as nat);
        } else if b >= KB {
            lemma_shown_at_least(b, KB as nat);
        }
    }
}

/// A higher bitrate never shows as a lower rate.
pub proof fn lemma_bitrate_shown_monotone(a: nat, b: nat)
    requires
        a <= b,
    ensures
        bitrate_shown(a) <= bitrate_shown(b),
{
    if a >= MBPS {
        lemma_shown_same_unit(a, b, MBPS as nat);
    } else if a >= KBPS {
        lemma_shown_below(a, KBPS as nat, 1000);
        if b >= MBPS {
            lemma_shown_at_least(b, MBPS as nat);
        } else {
            lemma_shown_same_unit(a, b, KBPS as nat);
        }
    } else {
        if b >= MBPS {
            lemma_shown_at_least(b, MBPS as nat);
        } else if b >= KBPS {
            lemma_shown_at_least(b, KBPS as nat);
        }
    }
}

/// A rate of at most 1,400,000 bps shows as at most `1.40 Mbps`.
pub proof fn lemma_bitrate_shown_at_most_1_40_mbps(bps: nat)
    requires
        bps <= 1400000,
    ensures
        bitrate_shown(bps) <= bitrate_shown(1400000),
        bitrate_shown(1400000) == 140000000,
        bitrate_text(1400000) == two_decimals(140) + seq![' '] + seq!['M', 'b', 'p', 's'],
{
    lemma_bitrate_shown_monotone(bps, 1400000);
    assert(round_half_even(140000000, 1000000) == 140);
}

fn digit_str(d: u64) -> (r: &'static str)
    requires
        d < 10,
    ensures
        r@ == seq![digit_char(d as nat)],
{
    if d == 0 {
        proof { reveal_strlit("0"); }
        "0"
    } else if d == 1 {
        proof { reveal_strlit("1"); }
        "1"
    } else if d == 2 {
        proof { reveal_strlit("2"); }
        "2"
    } else if d == 3 {
        proof { reveal_strlit("3"); }
        "3"
    } else if d == 4 {
        proof { reveal_strlit("4"); }
        "4"
    } else if d == 5 {
        proof { reveal_strlit("5"); }
        "5"
    } else if d == 6 {
        proof { reveal_strlit("6"); }
        "6"
    } else if d == 7 {
        proof { reveal_strlit("7"); }
        "7"
    } else if d == 8 {
        proof { reveal_strlit("8"); }
        "8"
    } else {
        proof { reveal_strlit("9"); }
        "9"
    }
}

fn push_decimal(s: &mut String, n: u64)
    ensures
        final(s)@ == old(s)@ + decimal(n as nat),
    decreases n,
{
    if n >= 10 {
        push_decimal(s, n / 10);
    }
    s.append(digit_str(n % 10));
    proof {
        if n >= 10 {
            assert(decimal(n as nat) == decimal((n / 10) as nat).push(digit_char((n % 10) as nat)));
        }
    }
    assert(final(s)@ =~= old(s)@ + decimal(n as nat));
}

fn rounded_quotient(num: u128, den: u128) -> (r: u128)
    requires
        0 < den < 0x1_0000_0000_0000_0000,
        num < 0x1_0000_0000_0000_0000_0000,
    ensures
        r == round_half_even(num as nat, den as nat),
{
    let q = num / den;
    let rem = num % den;
    assert(q <= num) by (nonlinear_arith)
        requires q == num / den, den > 0;
    if 2 * rem > den {
        q + 1
    } else if 2 * rem < den {
        q
    } else if q % 2 == 0 {
        q
    } else {
        q + 1
    }
}

fn push_scaled(s: &mut String, value: u64, unit: u64, name: &str)
    requires
        0 < unit,
    ensures
        final(s)@ == old(s)@ + scaled(value as nat, unit as nat, name@),
{
    let h = rounded_quotient(value as u128 * 100, unit as u128);
    proof {
        assert(h <= (value as nat * 100) / (unit as nat) + 1) by (nonlinear_arith)
            requires
                h == round_half_even(value as nat * 100, unit as nat),
                unit > 0;
        assert((value as nat * 100) / (unit as nat) <= value as nat * 100) by (nonlinear_arith)
            requires unit > 0;
    }
    let whole = (h / 100) as u64;
    push_decimal(s, whole);
    s.append(".");
    s.append(digit_str(((h / 10) % 10) as u64));
    s.append(digit_str((h % 10) as u64));
    s.append(" ");
    s.append(name);
    proof {
        reveal_strlit(".");
        reveal_strlit(" ");
    }
    assert(final(s)@ =~= old(s)@ + scaled(value as nat, unit as nat, name@));
}

/// The text of a byte count, such as `500 B` or `1.50 KB`.
pub fn format_bytes(bytes: u64) -> (r: String)
    ensures
        r@ == bytes_text(bytes as nat),
{
    let mut s = String::new();
    if bytes >= GB {
        proof { reveal_strlit("GB"); }
        push_scaled(&mut s, bytes, GB, "GB");
    } else if bytes >= MB {
        proof { reveal_strlit("MB"); }
        push_scaled(&mut s, bytes, MB, "MB");
    } else if bytes >= KB {
        proof { reveal_strlit("KB"); }
        push_scaled(&mut s, bytes, KB, "KB");
    } else {
        push_decimal(&mut s, bytes);
        s.append(" B");
        proof { reveal_strlit(" B"); }
    }
    assert(s@ =~= bytes_text(bytes as nat));
    s
}

/// The text of a bitrate in bits per second, such as `500 bps` or `5.00 Kbps`.
pub fn format_bitrate(bps: u32) -> (r: String)
    ensures
        r@ == bitrate_text(bps as nat),
{
    let mut s = String::new();
    if bps >= MBPS {
        proof { reveal_strlit("Mbps"); }
        push_scaled(&mut s, bps as u64, MBPS as u64, "Mbps");
    } else if bps >= KBPS {
        proof { reveal_strlit("Kbps"); }
        push_scaled(&mut s, bps as u64, KBPS as u64, "Kbps");
    } else {
        push_decimal(&mut s, bps as u64);
        s.append(" bps");
        proof { reveal_strlit(" bps"); }
    }
    assert(s@ =~= bitrate_text(bps as nat));
    s
}

/// Relies on std::time::SystemTime::now and duration_since(UNIX_EPOCH): the
/// wall-clock milliseconds since the Unix epoch, or None when the clock reads
/// earlier than the epoch. Nothing is known of the value itself.
#[verifier::external_body]
fn wall_clock_millis() -> (r: Option<u128>) {
    match std::time::SystemTime::now().duration_since(std::time::UNIX_EPOCH) {
        Ok(d) => Some(d.as_millis()),
        Err(_) => None,
    }
}

/// The timestamp for a clock reading of `reading` milliseconds since the Unix
/// epoch: the reading cut down to `u64`. A clock that reads earlier than the
/// epoch (`None`) gives 0 rather than a panic.
pub fn millis_or_zero(reading: Option<u128>) -> (r: u64)
    ensures
        reading matches Some(ms) ==> r == ms as u64,
        reading is None ==> r == 0,
{
    match reading {
        Some(ms) => ms as u64,
        None => 0,
    }
}

/// Milliseconds since the Unix epoch by the wall clock, cut down to `u64`,
/// or 0 when the clock reads earlier than the epoch (see `millis_or_zero`).
pub fn timestamp_ms() -> (r: u64) {
    millis_or_zero(wall_clock_millis())
}

} // verus!
