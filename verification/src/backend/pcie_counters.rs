//! PCIe traffic from the driver's cumulative word counters.

use vstd::arithmetic::power::pow;
use vstd::prelude::*;

use crate::backend::hwmon;
use crate::backend::hwmon::{append_padded, parse_whole};
use crate::text;
use crate::text::append_decimal;

verus! {

/// Bytes in a counted word.
pub const BYTES_PER_WORD: u64 = 4;

/// Cumulative word counts of the two directions.
#[derive(Clone, Copy, Debug, PartialEq, Eq, Structural)]
pub struct PcieCounterSnapshot {
    /// Words that entered the chip.
    pub words_in: u64,
    /// Words that left the chip.
    pub words_out: u64,
}

/// Traffic between two snapshots: bytes each way, and the time between, in
/// nanoseconds. Bytes over time is the rate.
#[derive(Clone, Copy, Debug, PartialEq, Eq, Structural)]
pub struct PcieBandwidth {
    pub rx_bytes: u128,
    pub tx_bytes: u128,
    pub window_ns: u64,
}

/// The counter files whose sum is the data into the chip.
pub fn in_counters() -> (names: Vec<&'static str>)
    ensures
        names@.len() == 6,
        names@[0]@ == "slv_posted_wr_data_word_received0"@,
        names@[1]@ == "slv_posted_wr_data_word_received1"@,
        names@[2]@ == "slv_nonposted_wr_data_word_received0"@,
        names@[3]@ == "slv_nonposted_wr_data_word_received1"@,
        names@[4]@ == "mst_rd_data_word_received0"@,
        names@[5]@ == "mst_rd_data_word_received1"@,
{
    vec![
        "slv_posted_wr_data_word_received0",
        "slv_posted_wr_data_word_received1",
        "slv_nonposted_wr_data_word_received0",
        "slv_nonposted_wr_data_word_received1",
        "mst_rd_data_word_received0",
        "mst_rd_data_word_received1",
    ]
}

/// The counter files whose sum is the data out of the chip.
pub fn out_counters() -> (names: Vec<&'static str>)
    ensures
        names@.len() == 6,
        names@[0]@ == "slv_rd_data_word_sent0"@,
        names@[1]@ == "slv_rd_data_word_sent1"@,
        names@[2]@ == "mst_posted_wr_data_word_sent0"@,
        names@[3]@ == "mst_posted_wr_data_word_sent1"@,
        names@[4]@ == "mst_nonposted_wr_data_word_sent0"@,
        names@[5]@ == "mst_nonposted_wr_data_word_sent1"@,
{
    vec![
        "slv_rd_data_word_sent0",
        "slv_rd_data_word_sent1",
        "mst_posted_wr_data_word_sent0",
        "mst_posted_wr_data_word_sent1",
        "mst_nonposted_wr_data_word_sent0",
        "mst_nonposted_wr_data_word_sent1",
    ]
}

/// The number that a counter file holds; one that is missing or holds none
/// counts as 0.
pub open spec fn counter_value(f: Option<String>) -> nat {
    match f {
        Some(s) => match hwmon::whole_number(s@) {
            Some(v) => v,
            None => 0,
        },
        None => 0,
    }
}

/// The sum of the first `n` counter files.
pub open spec fn counter_sum(files: Seq<Option<String>>, n: nat) -> nat
    decreases n,
{
    if n == 0 {
        0
    } else {
        counter_sum(files, (n - 1) as nat) + counter_value(files[n - 1])
    }
}

fn sum_counters(files: &Vec<Option<String>>) -> (sum: u64)
    ensures
        sum as nat == counter_sum(files@, files@.len()) % 0x1_0000_0000_0000_0000,
{
    let mut sum: u64 = 0;
    for i in 0..files.len()
        invariant
            sum as nat == counter_sum(files@, i as nat) % 0x1_0000_0000_0000_0000,
    {
        let v: u64 = match &files[i] {
            Some(s) => match parse_whole(s.as_str()) {
                Some(v) => v,
                None => 0,
            },
            None => 0,
        };
        assert(v == counter_value(files@[i as int]));
        sum = sum.wrapping_add(v);
    }
    sum
}

/// What the files of a counter directory hold, as read, in the order of
/// [`in_counters`] and [`out_counters`].
#[derive(Debug)]
pub struct CounterFiles {
    pub in_files: Vec<Option<String>>,
    pub out_files: Vec<Option<String>>,
}

/// Whether no file of a counter directory could be read.
pub open spec fn no_file_read(d: CounterFiles) -> bool {
    &&& forall|i: int| 0 <= i < d.in_files@.len() ==> #[trigger] d.in_files@[i] is None
    &&& forall|i: int| 0 <= i < d.out_files@.len() ==> #[trigger] d.out_files@[i] is None
}

fn none_read(files: &Vec<Option<String>>) -> (b: bool)
    ensures
        b == (forall|i: int| 0 <= i < files@.len() ==> #[trigger] files@[i] is None),
{
    for k in 0..files.len()
        invariant
            forall|i: int| 0 <= i < k ==> #[trigger] files@[i] is None,
    {
        if files[k].is_some() {
            assert(files@[k as int] is Some);
            return false;
        }
    }
    true
}

/// Folds what a counter directory holds into a snapshot; the sums wrap around
/// at 64 bits. Where there is no such directory, or none of its files can be
/// read, there is no snapshot; a single file that is missing counts as 0.
pub fn read_counters(dir: &Option<CounterFiles>) -> (r: Option<PcieCounterSnapshot>)
    ensures
        r is None <==> (dir is None || no_file_read(dir->0)),
        match r {
            None => true,
            Some(snap) => {
                &&& snap.words_in as nat == counter_sum(
                    dir->0.in_files@,
                    dir->0.in_files@.len(),
                ) % 0x1_0000_0000_0000_0000
                &&& snap.words_out as nat == counter_sum(
                    dir->0.out_files@,
                    dir->0.out_files@.len(),
                ) % 0x1_0000_0000_0000_0000
            },
        },
{
    match dir {
        Some(d) => if none_read(&d.in_files) && none_read(&d.out_files) {
            None
        } else {
            Some(
                PcieCounterSnapshot {
                    words_in: sum_counters(&d.in_files),
                    words_out: sum_counters(&d.out_files),
                },
            )
        },
        None => None,
    }
}

/// Turns successive snapshots into traffic.
#[derive(Clone, Copy, Debug)]
pub struct PcieRateTracker {
    /// The last snapshot and its time in nanoseconds.
    pub prev: Option<(PcieCounterSnapshot, u64)>,
}

/// The bytes of the words from `before` to `after`; a counter that went
/// backwards gives none.
pub open spec fn bytes_between(before: u64, after: u64) -> nat {
    if after <= before { 0 } else { ((after - before) * 4) as nat }
}

/// The traffic since a snapshot, unless no time has passed.
pub open spec fn traffic(
    prev: Option<(PcieCounterSnapshot, u64)>,
    snap: PcieCounterSnapshot,
    now_ns: u64,
) -> Option<PcieBandwidth> {
    match prev {
        Some((before, at)) => if now_ns <= at {
            None
        } else {
            Some(
                PcieBandwidth {
                    rx_bytes: bytes_between(before.words_in, snap.words_in) as u128,
                    tx_bytes: bytes_between(before.words_out, snap.words_out) as u128,
                    window_ns: (now_ns - at) as u64,
                },
            )
        },
        None => None,
    }
}

impl PcieRateTracker {
    /// A tracker that has seen nothing.
    pub fn new() -> (t: Self)
        ensures
            t.prev is None,
    {
        PcieRateTracker { prev: None }
    }

    /// Takes a snapshot and gives the traffic since the one before. The first
    /// gives none, nor does one at no later time.
    pub fn sample(&mut self, snap: PcieCounterSnapshot, now_ns: u64) -> (r: Option<PcieBandwidth>)
        ensures
            r == traffic(old(self).prev, snap, now_ns),
            final(self).prev == Some((snap, now_ns)),
            r is Some <==> (old(self).prev matches Some((_, at)) && at < now_ns),
            r matches Some(bw) ==> {
                let (before, at) = old(self).prev->0;
                &&& bw.window_ns == now_ns - at
                &&& bw.rx_bytes == if snap.words_in >= before.words_in {
                    4 * (snap.words_in - before.words_in)
                } else {
                    0
                }
                &&& bw.tx_bytes == if snap.words_out >= before.words_out {
                    4 * (snap.words_out - before.words_out)
                } else {
                    0
                }
            },
    {
        let result: Option<PcieBandwidth> = match self.prev {
            Some((before, at)) => if now_ns <= at {
                None
            } else {
                let d_in: u128 = snap.words_in.saturating_sub(before.words_in) as u128;
                let d_out: u128 = snap.words_out.saturating_sub(before.words_out) as u128;
                assert(d_in * BYTES_PER_WORD == d_in * 4);
                assert(d_out * BYTES_PER_WORD == d_out * 4);
                Some(
                    PcieBandwidth {
                        rx_bytes: d_in * BYTES_PER_WORD as u128,
                        tx_bytes: d_out * BYTES_PER_WORD as u128,
                        window_ns: now_ns - at,
                    },
                )
            },
            None => None,
        };
        self.prev = Some((snap, now_ns));
        result
    }
}

/// A counter that goes backwards, as a reset makes it, reads as no traffic,
/// never as negative traffic.
pub proof fn law_reset_reads_as_no_traffic(
    before: PcieCounterSnapshot,
    at: u64,
    snap: PcieCounterSnapshot,
    now_ns: u64,
)
    requires
        at < now_ns,
        snap.words_in <= before.words_in,
        snap.words_out <= before.words_out,
    ensures
        traffic(Some((before, at)), snap, now_ns) matches Some(bw) && bw.rx_bytes == 0
            && bw.tx_bytes == 0,
{
}

/// Of counters that do not go backwards every word counts, as four bytes, over
/// the time between the two snapshots.
pub proof fn law_every_word_counts(
    before: PcieCounterSnapshot,
    at: u64,
    snap: PcieCounterSnapshot,
    now_ns: u64,
)
    requires
        at < now_ns,
        before.words_in <= snap.words_in,
        before.words_out <= snap.words_out,
    ensures
        traffic(Some((before, at)), snap, now_ns) matches Some(bw) && {
            &&& bw.rx_bytes == 4 * (snap.words_in - before.words_in)
            &&& bw.tx_bytes == 4 * (snap.words_out - before.words_out)
            &&& bw.window_ns == now_ns - at
        },
{
}

/// The traffic of two windows that follow each other is the traffic of both as
/// one, in bytes and in time.
pub proof fn law_windows_add_up(
    a: PcieCounterSnapshot,
    at_a: u64,
    b: PcieCounterSnapshot,
    at_b: u64,
    c: PcieCounterSnapshot,
    at_c: u64,
)
    requires
        at_a < at_b < at_c,
        a.words_in <= b.words_in <= c.words_in,
        a.words_out <= b.words_out <= c.words_out,
    ensures
        traffic(Some((a, at_a)), c, at_c)->0.rx_bytes == traffic(Some((a, at_a)), b, at_b)->0.rx_bytes
            + traffic(Some((b, at_b)), c, at_c)->0.rx_bytes,
        traffic(Some((a, at_a)), c, at_c)->0.tx_bytes == traffic(Some((a, at_a)), b, at_b)->0.tx_bytes
            + traffic(Some((b, at_b)), c, at_c)->0.tx_bytes,
        traffic(Some((a, at_a)), c, at_c)->0.window_ns == traffic(
            Some((a, at_a)),
            b,
            at_b,
        )->0.window_ns + traffic(Some((b, at_b)), c, at_c)->0.window_ns,
{
}

/// One word more is four bytes more, in its own direction alone.
pub proof fn law_one_more_word_is_four_bytes(
    before: PcieCounterSnapshot,
    at: u64,
    snap: PcieCounterSnapshot,
    now_ns: u64,
)
    requires
        at < now_ns,
        before.words_in <= snap.words_in < u64::MAX,
        before.words_out <= snap.words_out < u64::MAX,
    ensures
        ({
            let bw = traffic(Some((before, at)), snap, now_ns)->0;
            let more_in = traffic(
                Some((before, at)),
                PcieCounterSnapshot { words_in: (snap.words_in + 1) as u64, ..snap },
                now_ns,
            )->0;
            let more_out = traffic(
                Some((before, at)),
                PcieCounterSnapshot { words_out: (snap.words_out + 1) as u64, ..snap },
                now_ns,
            )->0;
            &&& more_in.rx_bytes == bw.rx_bytes + 4
            &&& more_in.tx_bytes == bw.tx_bytes
            &&& more_out.rx_bytes == bw.rx_bytes
            &&& more_out.tx_bytes == bw.tx_bytes + 4
        }),
{
}

/// The first snapshot gives no traffic, and neither does one at no later time.
pub proof fn law_traffic_needs_a_window(
    before: PcieCounterSnapshot,
    at: u64,
    snap: PcieCounterSnapshot,
    now_ns: u64,
)
    ensures
        traffic(None, snap, now_ns) is None,
        traffic(Some((before, at)), snap, now_ns) is Some <==> at < now_ns,
{
}

// Rates as texts

/// The largest unit of which the rate `num / den` is at least one, as the power
/// of a thousand, from `k` on; there are five units.
pub open spec fn unit_power(num: nat, den: nat, k: nat) -> nat
    decreases 4 - k,
{
    if k < 4 && num >= 1000 * den {
        unit_power(num, 1000 * den, k + 1)
    } else {
        k
    }
}

/// What the rate is divided by in that unit.
pub open spec fn unit_divisor(num: nat, den: nat, k: nat) -> nat
    decreases 4 - k,
{
    if k < 4 && num >= 1000 * den {
        unit_divisor(num, 1000 * den, k + 1)
    } else {
        den
    }
}

/// The name of a unit.
pub open spec fn unit_name(k: nat) -> Seq<char> {
    if k == 0 {
        "B/s"@
    } else if k == 1 {
        "kB/s"@
    } else if k == 2 {
        "MB/s"@
    } else if k == 3 {
        "GB/s"@
    } else {
        "TB/s"@
    }
}

/// `num / den` rounded to the nearest whole number, and to the even one of two
/// that are as near.
pub open spec fn nearest(num: nat, den: nat) -> nat {
    let q = num / den;
    let r = num % den;
    if 2 * r > den || (2 * r == den && q % 2 == 1) { q + 1 } else { q }
}

/// A number of hundredths, tenths or units as a text.
pub open spec fn fraction_text(n: nat, decimals: nat) -> Seq<char> {
    if decimals == 2 {
        text::decimal(n / 100) + seq!['.'] + hwmon::padded(n % 100, 2)
    } else if decimals == 1 {
        text::decimal(n / 10) + seq!['.'] + hwmon::padded(n % 10, 1)
    } else {
        text::decimal(n)
    }
}

/// The largest whole mantissa of four characters.
pub const LARGEST_MANTISSA: u64 = 9999;

/// The mantissa `num / den` with as many decimals as fit four characters; one
/// that is too large for them without any is cut to the largest that fits.
pub open spec fn mantissa_text(num: nat, den: nat) -> Seq<char> {
    let two = fraction_text(nearest(num * 100, den), 2);
    let one = fraction_text(nearest(num * 10, den), 1);
    let whole = nearest(num, den);
    if two.len() <= 4 {
        two
    } else if one.len() <= 4 {
        one
    } else if whole <= LARGEST_MANTISSA {
        fraction_text(whole, 0)
    } else {
        fraction_text(LARGEST_MANTISSA as nat, 0)
    }
}

/// A rate of so many bytes in so many nanoseconds, in the largest unit of which
/// it is at least one.
pub open spec fn rate_text(bytes: nat, window_ns: nat) -> Seq<char> {
    let num = bytes * 1_000_000_000;
    let k = unit_power(num, window_ns, 0);
    let den = unit_divisor(num, window_ns, 0);
    (if k == 0 { fraction_text(nearest(num, den), 0) } else { mantissa_text(num, den) }) + " "@
        + unit_name(k)
}

fn round_nearest(num: u128, den: u128) -> (q: u64)
    requires
        0 < den <= 0x1_0000_0000_0000_0000 * 1_000_000_000_000,
        num / den < 0xffff_ffff_ffff_ffff,
    ensures
        q == nearest(num as nat, den as nat),
{
    let q: u64 = (num / den) as u64;
    let r: u128 = num % den;
    if 2 * r > den || (2 * r == den && q % 2 == 1) {
        q + 1
    } else {
        q
    }
}

fn fraction(n: u64, decimals: u8) -> (s: String)
    ensures
        s@ == fraction_text(n as nat, decimals as nat),
{
    let mut s = String::new();
    if decimals == 2 {
        append_decimal(&mut s, n / 100);
        s.push('.');
        append_padded(&mut s, n % 100, 2);
    } else if decimals == 1 {
        append_decimal(&mut s, n / 10);
        s.push('.');
        append_padded(&mut s, n % 10, 1);
    } else {
        append_decimal(&mut s, n);
    }
    assert(s@ =~= fraction_text(n as nat, decimals as nat));
    s
}

/// The rate of a traffic as a text of at most nine characters.
pub fn format_bandwidth(bytes: u128, window_ns: u64) -> (s: String)
    requires
        bytes <= 0x4_0000_0000_0000_0000,
        window_ns > 0,
    ensures
        s@ == rate_text(bytes as nat, window_ns as nat),
        s@.len() <= 9,
{
    proof {
        law_rate_fits_nine_characters(bytes as nat, window_ns as nat);
    }
    let num: u128 = bytes * 1_000_000_000;
    let mut den: u128 = window_ns as u128;
    let mut k: u8 = 0;
    let ghost mut grown: nat = 1;
    while k < 4 && num >= 1000 * den
        invariant
            k <= 4,
            num == bytes * 1_000_000_000,
            bytes <= 0x4_0000_0000_0000_0000,
            window_ns > 0,
            den >= window_ns,
            den == grown * window_ns,
            grown == if k == 0 {
                1nat
            } else if k == 1 {
                1000
            } else if k == 2 {
                1_000_000
            } else if k == 3 {
                1_000_000_000
            } else {
                1_000_000_000_000
            },
            unit_power(num as nat, window_ns as nat, 0) == unit_power(
                num as nat,
                den as nat,
                k as nat,
            ),
            unit_divisor(num as nat, window_ns as nat, 0) == unit_divisor(
                num as nat,
                den as nat,
                k as nat,
            ),
        decreases 4 - k,
    {
        proof {
            assert(1000 * (grown * window_ns) == (1000 * grown) * window_ns) by (nonlinear_arith);
            grown = 1000 * grown;
        }
        den = 1000 * den;
        k = k + 1;
    }
    proof {
        assert(den <= 1_000_000_000_000 * 0xffff_ffff_ffff_ffff) by (nonlinear_arith)
            requires
                den == grown * window_ns,
                grown <= 1_000_000_000_000,
                0 < window_ns <= 0xffff_ffff_ffff_ffff,
        ;
        if k == 4 {
            assert(den >= 1_000_000_000_000) by (nonlinear_arith)
                requires
                    den == 1_000_000_000_000 * window_ns,
                    window_ns >= 1,
            ;
            lemma_quotient_bound((num * 100) as int, den as int, 7_400_000_000_000_000_000);
            lemma_quotient_bound((num * 10) as int, den as int, 7_400_000_000_000_000_000);
            lemma_quotient_bound(num as int, den as int, 7_400_000_000_000_000_000);
        } else {
            lemma_quotient_small((num * 100) as int, den as int, 100_000);
            lemma_quotient_small((num * 10) as int, den as int, 100_000);
            lemma_quotient_small(num as int, den as int, 100_000);
        }
    }
    let mut s: String = if k == 0 {
        fraction(round_nearest(num, den), 0)
    } else {
        let two = fraction(round_nearest(num * 100, den), 2);
        if text::chars_of(two.as_str()).len() <= 4 {
            two
        } else {
            let one = fraction(round_nearest(num * 10, den), 1);
            if text::chars_of(one.as_str()).len() <= 4 {
                one
            } else {
                let whole: u64 = round_nearest(num, den);
                fraction(if whole <= LARGEST_MANTISSA { whole } else { LARGEST_MANTISSA }, 0)
            }
        }
    };
    s.append(" ");
    if k == 0 {
        s.append("B/s");
    } else if k == 1 {
        s.append("kB/s");
    } else if k == 2 {
        s.append("MB/s");
    } else if k == 3 {
        s.append("GB/s");
    } else {
        s.append("TB/s");
    }
    s
}

proof fn lemma_quotient_bound(n: int, d: int, bound: int)
    requires
        0 <= n <= bound * 1_000_000_000_000,
        d >= 1_000_000_000_000,
        bound >= 0,
    ensures
        0 <= n / d <= bound,
{
    assert(n <= bound * d) by (nonlinear_arith)
        requires
            n <= bound * 1_000_000_000_000,
            d >= 1_000_000_000_000,
            bound >= 0,
    ;
    vstd::arithmetic::div_mod::lemma_div_pos_is_pos(n, d);
    assert(n / d <= bound) by (nonlinear_arith)
        requires
            0 <= n <= bound * d,
            d > 0,
    ;
}

proof fn lemma_quotient_small(n: int, d: int, bound: int)
    requires
        0 <= n <= bound * d,
        d > 0,
    ensures
        0 <= n / d <= bound,
{
    vstd::arithmetic::div_mod::lemma_div_pos_is_pos(n, d);
    assert(n / d <= bound) by (nonlinear_arith)
        requires
            0 <= n <= bound * d,
            d > 0,
    ;
}

proof fn lemma_unit(num: nat, den: nat, k: nat)
    requires
        den > 0,
        k <= 4,
    ensures
        k <= unit_power(num, den, k) <= 4,
        unit_divisor(num, den, k) > 0,
        unit_power(num, den, k) < 4 ==> num < 1000 * unit_divisor(num, den, k),
    decreases 4 - k,
{
    if k < 4 && num >= 1000 * den {
        lemma_unit(num, 1000 * den, k + 1);
    }
}

proof fn lemma_short_decimal(n: nat)
    requires
        n < 10_000,
    ensures
        text::decimal(n).len() <= 4,
{
    reveal_with_fuel(text::decimal, 4);
}

/// The text of a rate fits nine characters, however high the rate is.
pub proof fn law_rate_fits_nine_characters(bytes: nat, window_ns: nat)
    requires
        window_ns > 0,
    ensures
        rate_text(bytes, window_ns).len() <= 9,
{
    let num = bytes * 1_000_000_000;
    let k = unit_power(num, window_ns, 0);
    let den = unit_divisor(num, window_ns, 0);
    lemma_unit(num, window_ns, 0);
    if k == 0 {
        assert(num / den < 1000) by (nonlinear_arith)
            requires
                num < 1000 * den,
                den > 0,
        ;
        lemma_short_decimal(nearest(num, den));
    } else {
        if nearest(num, den) <= LARGEST_MANTISSA {
            lemma_short_decimal(nearest(num, den));
        }
        lemma_short_decimal(LARGEST_MANTISSA as nat);
    }
    reveal_strlit(" ");
    reveal_strlit("B/s");
    reveal_strlit("kB/s");
    reveal_strlit("MB/s");
    reveal_strlit("GB/s");
    reveal_strlit("TB/s");
}

/// Whether `s` is the number `m / unit`, and that is as near to `num / den` as the
/// places of `s` allow.
pub open spec fn near_by(s: Seq<char>, num: nat, den: nat, m: nat, unit: nat) -> bool {
    &&& (unit == 1 && s == text::decimal(m)) || (unit == 10 && text::denotes(s, m as int, 10)) || (
    unit == 100 && text::denotes(s, m as int, 100))
    &&& -(den as int) <= 2 * (m * den - num * unit) <= den
}

/// Whether `s` is a number of at least three digits that is as near to `num / den`
/// as its places allow, followed by a unit.
pub open spec fn reads_as(s: Seq<char>, num: nat, den: nat, name: Seq<char>) -> bool {
    exists|mantissa: Seq<char>, m: nat, unit: nat| #[trigger]
        near_by(mantissa, num, den, m, unit) && m >= 100 && s == mantissa + " "@ + name
}

/// A rate reads as the bytes of a second, in steps of a thousand: whole bytes up to a
/// thousand, and above that three digits or more of thousands, millions, thousand
/// millions or million millions of them, up to 9999 of the last.
pub proof fn law_rates_read_as_bytes_per_second(bytes: nat, window_ns: nat)
    requires
        window_ns > 0,
    ensures
        ({
            let s = rate_text(bytes, window_ns);
            let num = bytes * 1_000_000_000;
            let kilo = 1000 * window_ns;
            let mega = 1_000_000 * window_ns;
            let giga = 1_000_000_000 * window_ns;
            let tera = 1_000_000_000_000 * window_ns;
            &&& num < kilo ==> exists|m: nat|
                s == #[trigger] text::decimal(m) + " "@ + "B/s"@ && -window_ns <= 2 * (m * window_ns
                    - num) <= window_ns
            &&& kilo <= num < mega ==> reads_as(s, num, kilo, "kB/s"@)
            &&& mega <= num < giga ==> reads_as(s, num, mega, "MB/s"@)
            &&& giga <= num < tera ==> reads_as(s, num, giga, "GB/s"@)
            &&& tera <= num && 2 * num < 19_999 * tera ==> reads_as(s, num, tera, "TB/s"@)
            &&& 2 * num > 19_999 * tera ==> s == text::decimal(9999) + " "@ + "TB/s"@
        }),
{
    let num = bytes * 1_000_000_000;
    lemma_units(num, window_ns);
    let k = unit_power(num, window_ns, 0);
    let den = unit_divisor(num, window_ns, 0);
    if k == 0 {
        let m = nearest(num, den);
        lemma_nearest(num, den);
        assert(rate_text(bytes, window_ns) == text::decimal(m) + " "@ + "B/s"@);
    } else {
        lemma_mantissa(num, den);
        let mantissa = mantissa_text(num, den);
        assert(rate_text(bytes, window_ns) == mantissa + " "@ + unit_name(k));
        if 2 * num < 19_999 * den {
            let (m, unit) = choose|m: nat, unit: nat| #[trigger]
                near_by(mantissa, num, den, m, unit) && m >= 100;
            assert(near_by(mantissa, num, den, m, unit));
        }
    }
}

proof fn lemma_units(num: nat, w: nat)
    requires
        w > 0,
    ensures
        num < 1000 * w ==> unit_power(num, w, 0) == 0 && unit_divisor(num, w, 0) == w,
        1000 * w <= num < 1_000_000 * w ==> unit_power(num, w, 0) == 1 && unit_divisor(num, w, 0)
            == 1000 * w,
        1_000_000 * w <= num < 1_000_000_000 * w ==> unit_power(num, w, 0) == 2 && unit_divisor(
            num,
            w,
            0,
        ) == 1_000_000 * w,
        1_000_000_000 * w <= num < 1_000_000_000_000 * w ==> unit_power(num, w, 0) == 3
            && unit_divisor(num, w, 0) == 1_000_000_000 * w,
        1_000_000_000_000 * w <= num ==> unit_power(num, w, 0) == 4 && unit_divisor(num, w, 0)
            == 1_000_000_000_000 * w,
{
    reveal_with_fuel(unit_power, 5);
    reveal_with_fuel(unit_divisor, 5);
}

proof fn lemma_nearest(num: nat, den: nat)
    requires
        den > 0,
    ensures
        -(den as int) <= 2 * (nearest(num, den) * den - num) <= den,
{
    let q = num / den;
    vstd::arithmetic::div_mod::lemma_fundamental_div_mod(num as int, den as int);
    assert(q * den == den * q) by (nonlinear_arith);
    assert((q + 1) * den == q * den + den) by (nonlinear_arith);
}

proof fn lemma_at_least(m: nat, den: nat, least: nat)
    requires
        m * den > (least - 1) * den,
        den > 0,
        least > 0,
    ensures
        m >= least,
{
    if m < least {
        assert(m * den <= (least - 1) * den) by (nonlinear_arith)
            requires
                m <= least - 1,
                den > 0,
        ;
    }
}

/// The three roundings of a rate that is at least one, and how large they are.
proof fn lemma_roundings(num: nat, den: nat)
    requires
        0 < den <= num,
    ensures
        ({
            let two = nearest(num * 100, den);
            let one = nearest(num * 10, den);
            let whole = nearest(num, den);
            &&& two >= 100
            &&& two >= 1000 ==> one >= 100
            &&& one >= 1000 ==> whole >= 100
            &&& 2 * num < 19_999 * den ==> whole <= 9999
            &&& 2 * num > 19_999 * den ==> two >= 1000 && one >= 1000 && whole >= 10_000
        }),
{
    let two = nearest(num * 100, den);
    let one = nearest(num * 10, den);
    let whole = nearest(num, den);
    lemma_nearest(num * 100, den);
    lemma_nearest(num * 10, den);
    lemma_nearest(num, den);
    lemma_at_least(two, den, 100);
    if two >= 1000 {
        assert(two * den >= 1000 * den) by (nonlinear_arith)
            requires
                two >= 1000,
        ;
        lemma_at_least(one, den, 100);
    }
    if one >= 1000 {
        assert(one * den >= 1000 * den) by (nonlinear_arith)
            requires
                one >= 1000,
        ;
        lemma_at_least(whole, den, 100);
    }
    if whole > 9999 {
        assert(whole * den >= 10_000 * den) by (nonlinear_arith)
            requires
                whole >= 10_000,
        ;
    }
    if 2 * num > 19_999 * den {
        lemma_at_least(two, den, 1000);
        lemma_at_least(one, den, 1000);
        lemma_at_least(whole, den, 10_000);
    }
}

proof fn lemma_fraction_reads(n: nat)
    ensures
        text::denotes(fraction_text(n, 2), n as int, 100),
        text::denotes(fraction_text(n, 1), n as int, 10),
        n < 1000 ==> fraction_text(n, 2).len() <= 4,
        n < 1000 ==> fraction_text(n, 1).len() <= 4,
{
    reveal_with_fuel(pow, 3);
    assert(pow(10, 1) == 10);
    assert(pow(10, 2) == 100);
    hwmon::lemma_fraction_denotes(false, n, 100, 2);
    hwmon::lemma_fraction_denotes(false, n, 10, 1);
    let none = Seq::<char>::empty();
    assert(none + text::decimal(n / 100) + seq!['.'] + hwmon::padded(n % 100, 2)
        =~= fraction_text(n, 2));
    assert(none + text::decimal(n / 10) + seq!['.'] + hwmon::padded(n % 10, 1)
        =~= fraction_text(n, 1));
    hwmon::lemma_padded(n % 100, 2);
    hwmon::lemma_padded(n % 10, 1);
    if n < 1000 {
        reveal_with_fuel(text::decimal, 3);
    }
}

proof fn lemma_mantissa(num: nat, den: nat)
    requires
        0 < den <= num,
    ensures
        2 * num < 19_999 * den ==> exists|m: nat, unit: nat| #[trigger]
            near_by(mantissa_text(num, den), num, den, m, unit) && m >= 100,
        2 * num > 19_999 * den ==> mantissa_text(num, den) == text::decimal(9999),
{
    let two = nearest(num * 100, den);
    let one = nearest(num * 10, den);
    let whole = nearest(num, den);
    let s = mantissa_text(num, den);
    lemma_roundings(num, den);
    lemma_fraction_reads(two);
    lemma_fraction_reads(one);
    if 2 * num > 19_999 * den {
        lemma_long_fraction(two);
        lemma_long_fraction(one);
    } else if 2 * num < 19_999 * den {
        if fraction_text(two, 2).len() <= 4 {
            lemma_nearest(num * 100, den);
            assert(near_by(s, num, den, two, 100));
        } else if fraction_text(one, 1).len() <= 4 {
            lemma_nearest(num * 10, den);
            assert(near_by(s, num, den, one, 10));
        } else {
            lemma_nearest(num, den);
            assert(near_by(s, num, den, whole, 1));
        }
    }
}

proof fn lemma_long_fraction(n: nat)
    requires
        n >= 1000,
    ensures
        fraction_text(n, 2).len() > 4,
        fraction_text(n, 1).len() > 4,
{
    hwmon::lemma_padded(n % 100, 2);
    hwmon::lemma_padded(n % 10, 1);
    reveal_with_fuel(text::decimal, 4);
}

/// Every counter file adds the number that it holds, whatever whitespace stands
/// around it, and one that is missing adds nothing.
pub proof fn law_counters_add_their_numbers(
    files: Seq<Option<String>>,
    file: String,
    n: nat,
    after: Seq<char>,
)
    requires
        n <= u64::MAX,
        text::all_white(after),
        file@ == text::decimal(n) + after,
    ensures
        counter_sum(files.push(Some(file)), files.len() + 1) == counter_sum(files, files.len()) + n,
        counter_sum(files.push(None), files.len() + 1) == counter_sum(files, files.len()),
        counter_sum(Seq::empty(), 0) == 0,
{
    let none = Seq::<char>::empty();
    hwmon::law_file_numbers_read_back(none, n as int, after);
    assert(none + text::decimal(n) + after =~= file@);
    lemma_sum_prefix(files, files.push(Some(file)), files.len());
    lemma_sum_prefix(files, files.push(None), files.len());
}

proof fn lemma_sum_prefix(a: Seq<Option<String>>, b: Seq<Option<String>>, n: nat)
    requires
        n <= a.len(),
        n <= b.len(),
        forall|i: int| 0 <= i < n ==> #[trigger] a[i] == b[i],
    ensures
        counter_sum(a, n) == counter_sum(b, n),
    decreases n,
{
    if n > 0 {
        lemma_sum_prefix(a, b, (n - 1) as nat);
        assert(a[n - 1] == b[n - 1]);
    }
}

} // verus!
