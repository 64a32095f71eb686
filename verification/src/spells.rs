//! Spell composition and projectile stats.
//!
//! A spell is composed from a non-empty ordered sequence of elemental
//! tokens.  The first token selects the spell's identity; every later
//! token is a modifier that adjusts the stats by exactly one rule and
//! then accrues cost.  Because each rule reads the stats already updated
//! by the tokens before it, composition is deliberately order-sensitive.
//!
//! Stats are non-negative fixed-point values (`FX_ONE` is 1.0).  The
//! additive and doubling rules saturate at `i64::MAX` instead of
//! overflowing, so composition is total in the sequence of tokens.

use vstd::prelude::*;
use crate::fixed::{
    sat_add, sat_add_spec, sat_double, sat_double_spec, sat_fx_mul, sat_fx_mul_spec, FX_ONE,
};

verus! {

/// Base flight speed of a projectile, multiplied by the speed stat.
pub const BASE_SPELL_SPEED: i64 = 50_000;

/// Base flight range of a projectile, multiplied by the range stat.
pub const BASE_SPELL_RANGE: i64 = 20_000;

/// Half the additive unit, for the Pressure strength bonus.
pub const FX_HALF: i64 = 5_000;

/// The ten elemental tokens.
#[derive(Clone, Copy, Debug, PartialEq, Eq, Structural)]
pub enum Element {
    Earth,
    Water,
    Air,
    Fire,
    Acid,
    Pressure,
    Shock,
    Radiance,
    Life,
    Void,
}

/// Stats of a composed spell.  Immutable after composition except for the
/// accumulated flight distance (and the owning entity's velocity).
#[derive(Clone, Copy, Debug, PartialEq, Eq, Structural)]
pub struct Spell {
    pub element: Element,
    pub strength: i64,
    pub duration: i64,
    pub range: i64,
    pub speed: i64,
    pub area: i64,
    pub cost: i64,
    pub is_inverted: bool,
    pub is_trap: bool,
    pub distance_traveled: i64,
}

/// All numeric stats are non-negative.
pub open spec fn spell_wf(s: Spell) -> bool {
    &&& s.strength >= 0
    &&& s.duration >= 0
    &&& s.range >= 0
    &&& s.speed >= 0
    &&& s.area >= 0
    &&& s.cost >= 0
    &&& s.distance_traveled >= 0
}

/// Neutral stats of a fresh spell whose identity is `e`.
pub open spec fn initial_spell(e: Element) -> Spell {
    Spell {
        element: e,
        strength: FX_ONE,
        duration: FX_ONE,
        range: FX_ONE,
        speed: FX_ONE,
        area: FX_ONE,
        cost: FX_ONE,
        is_inverted: false,
        is_trap: false,
        distance_traveled: 0,
    }
}

/// Effect of one modifier token: apply its stat rule, then accrue cost.
/// Void is free; Life adds the current cost (doubling it); the Earth
/// token that first sets the trap flag is free, any further Earth token
/// adds one; every other modifier adds one.
pub open spec fn apply_modifier(s: Spell, m: Element) -> Spell {
    let t = match m {
        Element::Earth => Spell { is_trap: true, ..s },
        Element::Water => Spell { range: 0, ..s },
        Element::Air => Spell { range: sat_add_spec(s.range as int, FX_ONE as int) as i64, ..s },
        Element::Fire => Spell { speed: sat_add_spec(s.speed as int, FX_ONE as int) as i64, ..s },
        Element::Acid => Spell {
            duration: sat_add_spec(s.duration as int, FX_ONE as int) as i64,
            ..s
        },
        Element::Pressure => Spell {
            area: (s.area as int / 2) as i64,
            strength: sat_add_spec(s.strength as int, FX_HALF as int) as i64,
            ..s
        },
        Element::Shock => Spell {
            duration: (s.duration as int / 2) as i64,
            strength: sat_double_spec(s.strength as int) as i64,
            ..s
        },
        Element::Radiance => Spell { area: sat_add_spec(s.area as int, FX_ONE as int) as i64, ..s },
        Element::Life => Spell {
            strength: sat_add_spec(s.strength as int, FX_ONE as int) as i64,
            ..s
        },
        Element::Void => Spell { is_inverted: !s.is_inverted, ..s },
    };
    let cost = match m {
        Element::Void => t.cost as int,
        Element::Life => sat_add_spec(t.cost as int, t.cost as int),
        Element::Earth => if s.is_trap {
            sat_add_spec(t.cost as int, FX_ONE as int)
        } else {
            t.cost as int
        },
        _ => sat_add_spec(t.cost as int, FX_ONE as int),
    };
    Spell { cost: cost as i64, ..t }
}

/// Stats composed from a non-empty ordered token sequence: neutral stats
/// for the first token's identity, then every later token applied in
/// order.
pub open spec fn compose_spec(elements: Seq<Element>) -> Spell
    decreases elements.len(),
{
    if elements.len() <= 1 {
        initial_spell(elements[0])
    } else {
        apply_modifier(compose_spec(elements.drop_last()), elements.last())
    }
}

impl Spell {
    /// Compose the stats of a cast from its ordered token sequence.
    pub fn new(elements: &Vec<Element>) -> (r: Spell)
        requires
            elements@.len() >= 1,
        ensures
            r == compose_spec(elements@),
            spell_wf(r),
    {
        let mut spell = Spell {
            element: elements[0],
            strength: FX_ONE,
            duration: FX_ONE,
            range: FX_ONE,
            speed: FX_ONE,
            area: FX_ONE,
            cost: FX_ONE,
            is_inverted: false,
            is_trap: false,
            distance_traveled: 0,
        };
        let n = elements.len();
        let mut i: usize = 1;
        proof {
            assert(elements@.take(1int) =~= seq![elements@[0]]);
            assert(spell == compose_spec(elements@.take(1int)));
        }
        while i < n
            invariant
                1 <= i <= n,
                n == elements@.len(),
                spell == compose_spec(elements@.take(i as int)),
                spell_wf(spell),
            decreases n - i,
        {
            let m = elements[i];
            let was_trap = spell.is_trap;
            match m {
                Element::Earth => {
                    spell.is_trap = true;
                },
                Element::Water => {
                    spell.range = 0;
                },
                Element::Air => {
                    spell.range = sat_add(spell.range, FX_ONE);
                },
                Element::Fire => {
                    spell.speed = sat_add(spell.speed, FX_ONE);
                },
                Element::Acid => {
                    spell.duration = sat_add(spell.duration, FX_ONE);
                },
                Element::Pressure => {
                    spell.area = spell.area / 2;
                    spell.strength = sat_add(spell.strength, FX_HALF);
                },
                Element::Shock => {
                    spell.duration = spell.duration / 2;
                    spell.strength = sat_double(spell.strength);
                },
                Element::Radiance => {
                    spell.area = sat_add(spell.area, FX_ONE);
                },
                Element::Life => {
                    spell.strength = sat_add(spell.strength, FX_ONE);
                },
                Element::Void => {
                    spell.is_inverted = !spell.is_inverted;
                },
            }
            match m {
                Element::Void => {},
                Element::Life => {
                    spell.cost = sat_add(spell.cost, spell.cost);
                },
                Element::Earth => {
                    if was_trap {
                        spell.cost = sat_add(spell.cost, FX_ONE);
                    }
                },
                _ => {
                    spell.cost = sat_add(spell.cost, FX_ONE);
                },
            }
            proof {
                assert(elements@.take(i + 1int).drop_last() =~= elements@.take(i as int));
                assert(elements@.take(i + 1int).last() == elements@[i as int]);
            }
            i = i + 1;
        }
        proof {
            assert(elements@.take(n as int) =~= elements@);
        }
        spell
    }

    /// A flying projectile is expired once it has collided or its
    /// accumulated flight distance strictly exceeds its range times the
    /// base range — and not before.
    pub fn is_expired(&self, collided: bool) -> (r: bool)
        requires
            spell_wf(*self),
        ensures
            r == (collided || self.distance_traveled > sat_fx_mul_spec(
                self.range as int,
                BASE_SPELL_RANGE as int,
            )),
    {
        collided || self.distance_traveled > sat_fx_mul(self.range, BASE_SPELL_RANGE)
    }
}

} // verus!

