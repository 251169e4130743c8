use vstd::prelude::*;

verus! {

/// The condition code: the sign of the value most recently written to a
/// general-purpose register.
#[allow(clippy::upper_case_acronyms)]
#[derive(Debug, Clone, Copy, PartialEq, Eq, Structural)]
pub enum ConditionFlags {
    POS,
    ZRO,
    NEG,
}

/// The encoding of each condition in the `cond` register.
pub open spec fn flag_value(f: ConditionFlags) -> u16 {
    match f {
        ConditionFlags::POS => 0,
        ConditionFlags::ZRO => 2,
        ConditionFlags::NEG => 4,
    }
}

/// The condition that a register value sets: zero, negative when bit 15 is
/// set, positive otherwise.
pub open spec fn flag_of(v: u16) -> ConditionFlags {
    if v == 0 {
        ConditionFlags::ZRO
    } else if v >= 0x8000 {
        ConditionFlags::NEG
    } else {
        ConditionFlags::POS
    }
}

impl From<ConditionFlags> for u16 {
    fn from(val: ConditionFlags) -> (r: u16)
        ensures
            r == flag_value(val),
    {
        match val {
            ConditionFlags::POS => 0,
            ConditionFlags::ZRO => 2,
            ConditionFlags::NEG => 4,
        }
    }
}

impl vstd::std_specs::convert::FromSpecImpl<ConditionFlags> for u16 {
    open spec fn obeys_from_spec() -> bool {
        true
    }

    open spec fn from_spec(v: ConditionFlags) -> u16 {
        flag_value(v)
    }
}

} // verus!
