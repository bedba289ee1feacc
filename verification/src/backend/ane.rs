//! The energy that the Apple Neural Engine used, out of the channels of a
//! report.

use vstd::prelude::*;

use crate::text;
use crate::text::{str_eq, trim};

verus! {

/// A channel of an energy report.
#[derive(Debug)]
pub struct EnergyChannel {
    pub name: Option<String>,
    /// The label of the unit, if it has one.
    pub unit: Option<String>,
    /// The energy since the last report, in that unit.
    pub raw: i64,
}

/// A number of microjoules, as near as fits.
pub open spec fn capped(n: int) -> int {
    if n > i64::MAX {
        i64::MAX as int
    } else if n < i64::MIN {
        i64::MIN as int
    } else {
        n
    }
}

/// A thousandth, without the fraction.
pub open spec fn thousandth(n: int) -> int {
    if n < 0 { -((-n) / 1000) } else { n / 1000 }
}

/// The energy of a channel in microjoules. A unit that is not known is
/// millijoules.
pub open spec fn microjoules(raw: int, unit: Seq<char>) -> int {
    let u = text::trimmed(unit);
    if u == "nJ"@ {
        thousandth(raw)
    } else if u == "uJ"@ || u == "µJ"@ {
        raw
    } else {
        capped(raw * 1000)
    }
}

/// What a channel adds: nothing where it is of another block, or where its
/// counter stood still or was reset.
pub open spec fn channel_energy(c: EnergyChannel) -> int {
    if text::opt_text(c.name) == Some("ANE"@) && c.raw > 0 {
        microjoules(
            c.raw as int,
            match c.unit {
                Some(u) => u@,
                None => Seq::empty(),
            },
        )
    } else {
        0
    }
}

/// The energy of the first `n` channels.
pub open spec fn energy_sum(channels: Seq<EnergyChannel>, n: nat) -> int
    decreases n,
{
    if n == 0 {
        0
    } else {
        capped(energy_sum(channels, (n - 1) as nat) + channel_energy(channels[n - 1]))
    }
}

/// The energy of a channel in microjoules.
pub fn energy_to_uj(raw: i64, unit: &str) -> (uj: i64)
    ensures
        uj == microjoules(raw as int, unit@),
{
    let u = trim(unit);
    if str_eq(u.as_str(), "nJ") {
        if raw < 0 {
            (-((-(raw as i128)) / 1000)) as i64
        } else {
            raw / 1000
        }
    } else if str_eq(u.as_str(), "uJ") || str_eq(u.as_str(), "µJ") {
        raw
    } else {
        match raw.checked_mul(1000) {
            Some(v) => v,
            None => if raw < 0 {
                i64::MIN
            } else {
                i64::MAX
            },
        }
    }
}

/// The energy that the channels of the engine report, in microjoules.
pub fn sum_ane_energy_uj(channels: &Vec<EnergyChannel>) -> (total: u64)
    ensures
        total == energy_sum(channels@, channels@.len()),
{
    let mut total: i64 = 0;
    for i in 0..channels.len()
        invariant
            total == energy_sum(channels@, i as nat),
            total >= 0,
    {
        let c = &channels[i];
        let engine = match &c.name {
            Some(n) => str_eq(n.as_str(), "ANE"),
            None => false,
        };
        if engine && c.raw > 0 {
            let uj: i64 = match &c.unit {
                Some(u) => energy_to_uj(c.raw, u.as_str()),
                None => {
                    let none = String::new();
                    assert(none@ =~= Seq::<char>::empty());
                    energy_to_uj(c.raw, none.as_str())
                },
            };
            total = match total.checked_add(uj) {
                Some(v) => v,
                None => i64::MAX,
            };
        }
    }
    total as u64
}

/// Energy is the same in every unit: of nanojoules whole thousands count, in
/// microjoules it is what it is, and a millijoule is a thousand of them as far as
/// they fit. A unit that is not known is millijoules.
pub proof fn law_units_measure_the_same(raw: int, unit: Seq<char>)
    requires
        i64::MIN <= raw <= i64::MAX,
    ensures
        text::trimmed(unit) == "nJ"@ && raw >= 0 ==> 1000 * microjoules(raw, unit) <= raw < 1000 * (
        microjoules(raw, unit) + 1),
        text::trimmed(unit) == "nJ"@ && raw < 0 ==> 1000 * (microjoules(raw, unit) - 1) < raw <= 1000
            * microjoules(raw, unit),
        text::trimmed(unit) == "uJ"@ ==> microjoules(raw, unit) == raw,
        text::trimmed(unit) == "µJ"@ ==> microjoules(raw, unit) == raw,
        text::trimmed(unit) != "nJ"@ && text::trimmed(unit) != "uJ"@ && text::trimmed(unit)
            != "µJ"@ && i64::MIN <= 1000 * raw <= i64::MAX ==> microjoules(raw, unit) == 1000 * raw,
        text::trimmed(unit) != "nJ"@ && text::trimmed(unit) != "uJ"@ && text::trimmed(unit)
            != "µJ"@ && 1000 * raw > i64::MAX ==> microjoules(raw, unit) == i64::MAX,
{
    reveal_strlit("nJ");
    reveal_strlit("uJ");
    reveal_strlit("µJ");
    assert("nJ"@[0] == 'n');
    assert("uJ"@[0] == 'u');
    assert("µJ"@[0] == 'µ');
}

/// Only the channels of the engine count, and of these only what they used: one
/// more channel adds its energy, as far as the sum fits, and any other channel
/// adds nothing.
pub proof fn law_only_the_engine_counts(channels: Seq<EnergyChannel>, c: EnergyChannel)
    ensures
        ({
            let before = energy_sum(channels, channels.len());
            let after = energy_sum(channels.push(c), channels.len() + 1);
            let unit = match c.unit {
                Some(u) => u@,
                None => Seq::empty(),
            };
            &&& c.name is None || c.name->0@ != "ANE"@ || c.raw <= 0 ==> after == before
            &&& c.name is Some && c.name->0@ == "ANE"@ && c.raw > 0 && before + microjoules(
                c.raw as int,
                unit,
            ) <= i64::MAX ==> after == before + microjoules(c.raw as int, unit)
        }),
        energy_sum(channels, 0) == 0,
        0 <= energy_sum(channels, channels.len()) <= i64::MAX,
{
    lemma_energy_prefix(channels, channels.push(c), channels.len());
    lemma_energy_range(channels, channels.len());
    let unit = match c.unit {
        Some(u) => u@,
        None => Seq::empty(),
    };
    law_units_measure_the_same(c.raw as int, unit);
}

proof fn lemma_energy_prefix(a: Seq<EnergyChannel>, b: Seq<EnergyChannel>, n: nat)
    requires
        n <= a.len(),
        n <= b.len(),
        forall|i: int| 0 <= i < n ==> #[trigger] a[i] == b[i],
    ensures
        energy_sum(a, n) == energy_sum(b, n),
    decreases n,
{
    if n > 0 {
        lemma_energy_prefix(a, b, (n - 1) as nat);
    }
}

proof fn lemma_energy_range(channels: Seq<EnergyChannel>, n: nat)
    requires
        n <= channels.len(),
    ensures
        0 <= energy_sum(channels, n) <= i64::MAX,
    decreases n,
{
    if n > 0 {
        lemma_energy_range(channels, (n - 1) as nat);
    }
}

} // verus!
