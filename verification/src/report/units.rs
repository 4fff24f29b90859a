//! Choosing the unit a byte count or a bit rate is shown in.

use vstd::prelude::*;

use crate::parser::{binary_prefix_power, pow1024};

verus! {

/// Binary byte units.
#[derive(Debug, Clone, Copy, PartialEq, Eq, Structural)]
pub enum ByteUnit {
    B,
    KiB,
    MiB,
    GiB,
    TiB,
    PiB,
    EiB,
}

/// How many bytes one of a unit is.
pub open spec fn byte_divisor(u: ByteUnit) -> u64 {
    match u {
        ByteUnit::B => 1,
        ByteUnit::KiB => 0x400,
        ByteUnit::MiB => 0x10_0000,
        ByteUnit::GiB => 0x4000_0000,
        ByteUnit::TiB => 0x100_0000_0000,
        ByteUnit::PiB => 0x4_0000_0000_0000,
        ByteUnit::EiB => 0x1000_0000_0000_0000,
    }
}

/// The largest unit of which there is at least one in `bytes` (bytes below one KiB in B).
pub open spec fn byte_unit_for(bytes: u64) -> ByteUnit {
    if bytes >= 0x1000_0000_0000_0000 {
        ByteUnit::EiB
    } else if bytes >= 0x4_0000_0000_0000 {
        ByteUnit::PiB
    } else if bytes >= 0x100_0000_0000 {
        ByteUnit::TiB
    } else if bytes >= 0x4000_0000 {
        ByteUnit::GiB
    } else if bytes >= 0x10_0000 {
        ByteUnit::MiB
    } else if bytes >= 0x400 {
        ByteUnit::KiB
    } else {
        ByteUnit::B
    }
}

/// The unit a byte count is shown in.
pub fn byte_unit(bytes: u64) -> (r: ByteUnit)
    ensures
        r == byte_unit_for(bytes),
{
    if bytes >= 0x1000_0000_0000_0000 {
        ByteUnit::EiB
    } else if bytes >= 0x4_0000_0000_0000 {
        ByteUnit::PiB
    } else if bytes >= 0x100_0000_0000 {
        ByteUnit::TiB
    } else if bytes >= 0x4000_0000 {
        ByteUnit::GiB
    } else if bytes >= 0x10_0000 {
        ByteUnit::MiB
    } else if bytes >= 0x400 {
        ByteUnit::KiB
    } else {
        ByteUnit::B
    }
}

impl ByteUnit {
    /// How many bytes one of this unit is.
    pub fn divisor(&self) -> (r: u64)
        ensures
            r == byte_divisor(*self),
    {
        match self {
            ByteUnit::B => 1,
            ByteUnit::KiB => 0x400,
            ByteUnit::MiB => 0x10_0000,
            ByteUnit::GiB => 0x4000_0000,
            ByteUnit::TiB => 0x100_0000_0000,
            ByteUnit::PiB => 0x4_0000_0000_0000,
            ByteUnit::EiB => 0x1000_0000_0000_0000,
        }
    }

    /// The unit's symbol.
    pub fn suffix(&self) -> (r: &'static str)
        ensures
            r == byte_suffix(*self),
    {
        match self {
            ByteUnit::B => "B",
            ByteUnit::KiB => "KiB",
            ByteUnit::MiB => "MiB",
            ByteUnit::GiB => "GiB",
            ByteUnit::TiB => "TiB",
            ByteUnit::PiB => "PiB",
            ByteUnit::EiB => "EiB",
        }
    }
}

/// The symbol of a byte unit.
pub open spec fn byte_suffix(u: ByteUnit) -> &'static str {
    match u {
        ByteUnit::B => "B",
        ByteUnit::KiB => "KiB",
        ByteUnit::MiB => "MiB",
        ByteUnit::GiB => "GiB",
        ByteUnit::TiB => "TiB",
        ByteUnit::PiB => "PiB",
        ByteUnit::EiB => "EiB",
    }
}

/// The unit chosen for a byte count puts the count between one and 1024 of it (from one
/// upwards for the largest unit, below 1024 for bytes).
pub proof fn lemma_byte_unit_in_range(bytes: u64)
    ensures
        byte_unit_for(bytes) != ByteUnit::B ==> byte_divisor(byte_unit_for(bytes)) <= bytes,
        byte_unit_for(bytes) != ByteUnit::EiB ==> bytes < 1024 * byte_divisor(byte_unit_for(bytes)),
{
}

/// Decimal bit-rate units.
#[derive(Debug, Clone, Copy, PartialEq, Eq, Structural)]
pub enum RateUnit {
    Bit,
    Kilo,
    Mega,
    Giga,
    Tera,
    Peta,
    Exa,
}

/// How many bit/s one of a unit is.
pub open spec fn rate_divisor(u: RateUnit) -> u64 {
    match u {
        RateUnit::Bit => 1,
        RateUnit::Kilo => 1_000,
        RateUnit::Mega => 1_000_000,
        RateUnit::Giga => 1_000_000_000,
        RateUnit::Tera => 1_000_000_000_000,
        RateUnit::Peta => 1_000_000_000_000_000,
        RateUnit::Exa => 1_000_000_000_000_000_000,
    }
}

/// The largest unit of which there is at least one in `bps` (rates below 1 kbit/s in bit/s).
pub open spec fn rate_unit_for(bps: u64) -> RateUnit {
    if bps >= 1_000_000_000_000_000_000 {
        RateUnit::Exa
    } else if bps >= 1_000_000_000_000_000 {
        RateUnit::Peta
    } else if bps >= 1_000_000_000_000 {
        RateUnit::Tera
    } else if bps >= 1_000_000_000 {
        RateUnit::Giga
    } else if bps >= 1_000_000 {
        RateUnit::Mega
    } else if bps >= 1_000 {
        RateUnit::Kilo
    } else {
        RateUnit::Bit
    }
}

/// The unit a bit rate is shown in.
pub fn rate_unit(bps: u64) -> (r: RateUnit)
    ensures
        r == rate_unit_for(bps),
{
    if bps >= 1_000_000_000_000_000_000 {
        RateUnit::Exa
    } else if bps >= 1_000_000_000_000_000 {
        RateUnit::Peta
    } else if bps >= 1_000_000_000_000 {
        RateUnit::Tera
    } else if bps >= 1_000_000_000 {
        RateUnit::Giga
    } else if bps >= 1_000_000 {
        RateUnit::Mega
    } else if bps >= 1_000 {
        RateUnit::Kilo
    } else {
        RateUnit::Bit
    }
}

/// The symbol of a rate unit.
pub open spec fn rate_suffix(u: RateUnit) -> &'static str {
    match u {
        RateUnit::Bit => "bit/s",
        RateUnit::Kilo => "kbit/s",
        RateUnit::Mega => "Mbit/s",
        RateUnit::Giga => "Gbit/s",
        RateUnit::Tera => "Tbit/s",
        RateUnit::Peta => "Pbit/s",
        RateUnit::Exa => "Ebit/s",
    }
}

impl RateUnit {
    /// How many bit/s one of this unit is.
    pub fn divisor(&self) -> (r: u64)
        ensures
            r == rate_divisor(*self),
    {
        match self {
            RateUnit::Bit => 1,
            RateUnit::Kilo => 1_000,
            RateUnit::Mega => 1_000_000,
            RateUnit::Giga => 1_000_000_000,
            RateUnit::Tera => 1_000_000_000_000,
            RateUnit::Peta => 1_000_000_000_000_000,
            RateUnit::Exa => 1_000_000_000_000_000_000,
        }
    }

    /// The unit's symbol.
    pub fn suffix(&self) -> (r: &'static str)
        ensures
            r == rate_suffix(*self),
    {
        match self {
            RateUnit::Bit => "bit/s",
            RateUnit::Kilo => "kbit/s",
            RateUnit::Mega => "Mbit/s",
            RateUnit::Giga => "Gbit/s",
            RateUnit::Tera => "Tbit/s",
            RateUnit::Peta => "Pbit/s",
            RateUnit::Exa => "Ebit/s",
        }
    }
}

/// The unit chosen for a bit rate puts it between one and 1000 of it (from one upwards for
/// the largest unit, below 1000 for bit/s).
pub proof fn lemma_rate_unit_in_range(bps: u64)
    ensures
        rate_unit_for(bps) != RateUnit::Bit ==> rate_divisor(rate_unit_for(bps)) <= bps,
        rate_unit_for(bps) != RateUnit::Exa ==> bps < 1000 * rate_divisor(rate_unit_for(bps)),
{
}

/// Each byte unit's symbol names its size: `B` is one byte, and any other symbol is a prefix
/// letter followed by `iB`, the unit being 1024 to the power that letter stands for (K 1, M 2,
/// G 3, T 4, P 5, E 6). Different units have different symbols.
pub proof fn lemma_byte_suffix_names_divisor(u: ByteUnit, v: ByteUnit)
    ensures
        byte_divisor(u) == 1 <==> byte_suffix(u)@ == "B"@,
        byte_divisor(u) != 1 ==> {
            let t = byte_suffix(u)@;
            &&& t.len() == 3 && t[1] == 'i' && t[2] == 'B'
            &&& binary_prefix_power(t[0]) >= 1
            &&& byte_divisor(u) == pow1024(binary_prefix_power(t[0]))
        },
        byte_suffix(u)@ == byte_suffix(v)@ ==> u == v,
{
    reveal_strlit("B");
    reveal_strlit("KiB");
    reveal_strlit("MiB");
    reveal_strlit("GiB");
    reveal_strlit("TiB");
    reveal_strlit("PiB");
    reveal_strlit("EiB");
    reveal_with_fuel(pow1024, 7);
    assert(pow1024(6) == 0x1000_0000_0000_0000);
    let t = byte_suffix(u)@;
    let w = byte_suffix(v)@;
    if t == w {
        assert(t.len() == w.len());
        if t.len() == 3 {
            assert(t[0] == w[0]);
        }
    }
}

/// `1000` to the power `k`.
pub open spec fn pow1000(k: nat) -> nat
    decreases k,
{
    if k == 0 {
        1
    } else {
        1000 * pow1000((k - 1) as nat)
    }
}

/// The power of 1000 that a decimal unit prefix letter stands for: k 1, M 2, G 3, T 4, P 5, E 6.
pub open spec fn decimal_prefix_power(c: char) -> nat {
    if c == 'k' {
        1
    } else if c == 'M' {
        2
    } else if c == 'G' {
        3
    } else if c == 'T' {
        4
    } else if c == 'P' {
        5
    } else if c == 'E' {
        6
    } else {
        0
    }
}

/// Each rate unit's symbol names its size: `bit/s` is one bit per second, and any other symbol
/// is a prefix letter followed by `bit/s`, the unit being 1000 to the power that letter stands
/// for (k 1, M 2, G 3, T 4, P 5, E 6). Different units have different symbols.
pub proof fn lemma_rate_suffix_names_divisor(u: RateUnit, v: RateUnit)
    ensures
        rate_divisor(u) == 1 <==> rate_suffix(u)@ == "bit/s"@,
        rate_divisor(u) != 1 ==> {
            let t = rate_suffix(u)@;
            &&& t.len() == 6 && t.skip(1) == "bit/s"@
            &&& decimal_prefix_power(t[0]) >= 1
            &&& rate_divisor(u) == pow1000(decimal_prefix_power(t[0]))
        },
        rate_suffix(u)@ == rate_suffix(v)@ ==> u == v,
{
    reveal_strlit("bit/s");
    reveal_strlit("kbit/s");
    reveal_strlit("Mbit/s");
    reveal_strlit("Gbit/s");
    reveal_strlit("Tbit/s");
    reveal_strlit("Pbit/s");
    reveal_strlit("Ebit/s");
    reveal_with_fuel(pow1000, 7);
    assert(pow1000(6) == 1_000_000_000_000_000_000);
    let t = rate_suffix(u)@;
    let w = rate_suffix(v)@;
    if rate_divisor(u) != 1 {
        assert(t.skip(1) =~= "bit/s"@);
    }
    if t == w {
        assert(t.len() == w.len());
        if t.len() == 6 {
            assert(t[0] == w[0]);
        }
    }
}

} // verus!
