//! The upgrades that a ship can pick up.
use vstd::prelude::*;
use rand::Rng;

verus! {

/// A kind of ship upgrade.
#[derive(Clone, Copy, Debug, PartialEq, Eq, Hash, Structural)]
pub enum Upgrade {
    EngineUpgrade,
    ShieldRecharge,
    ShieldStrength,
    HullStrength,
    FireSpeed,
    JammerRange,
    JammerEfficiency,
}

/// The number of kinds of upgrade.
pub const UPGRADE_KINDS: u32 = 7;

/// The upgrades in order, numbered from 0.
pub open spec fn upgrade_at(i: int) -> Upgrade {
    if i == 0 {
        Upgrade::EngineUpgrade
    } else if i == 1 {
        Upgrade::ShieldRecharge
    } else if i == 2 {
        Upgrade::ShieldStrength
    } else if i == 3 {
        Upgrade::HullStrength
    } else if i == 4 {
        Upgrade::FireSpeed
    } else if i == 5 {
        Upgrade::JammerRange
    } else {
        Upgrade::JammerEfficiency
    }
}

/// The display name of an upgrade.
pub open spec fn upgrade_name(u: Upgrade) -> Seq<char> {
    match u {
        Upgrade::EngineUpgrade => "Engine Upgrade"@,
        Upgrade::ShieldRecharge => "Shield Recharge"@,
        Upgrade::ShieldStrength => "Shield Strength"@,
        Upgrade::HullStrength => "Hull Strength"@,
        Upgrade::FireSpeed => "Fire Speed"@,
        Upgrade::JammerRange => "Jammer Range"@,
        Upgrade::JammerEfficiency => "Jammer Efficiency"@,
    }
}

/// The name of the material that an upgrade is made of.
pub open spec fn material_name(u: Upgrade) -> Seq<char> {
    match u {
        Upgrade::EngineUpgrade => "XM Engine Coils"@,
        Upgrade::ShieldRecharge => "XM Shield Generators"@,
        Upgrade::ShieldStrength => "XM Shield Capacitors"@,
        Upgrade::HullStrength => "XM Plates"@,
        Upgrade::FireSpeed => "XM Plasma Injectors"@,
        Upgrade::JammerRange => "XM Attenuators"@,
        Upgrade::JammerEfficiency => "XM Amplifiers"@,
    }
}

/// The frame of an upgrade in the pickup sprite sheet. Frame 5 belongs to
/// an upgrade that the game no longer offers.
pub open spec fn sprite_index(u: Upgrade) -> int {
    match u {
        Upgrade::EngineUpgrade => 0,
        Upgrade::ShieldRecharge => 1,
        Upgrade::ShieldStrength => 2,
        Upgrade::HullStrength => 3,
        Upgrade::FireSpeed => 4,
        Upgrade::JammerRange => 6,
        Upgrade::JammerEfficiency => 7,
    }
}

/// Relies on `rand::thread_rng` and `Rng::gen_range`: a number drawn from
/// `0..n`, which is below `n`.
#[verifier::external_body]
fn random_below(n: u32) -> (r: u32)
    requires
        n > 0,
    ensures
        r < n,
{
    rand::thread_rng().gen_range(0..n)
}

impl Upgrade {
    /// The display name.
    pub fn to_string(&self) -> (r: String)
        ensures
            r@ == upgrade_name(*self),
    {
        let s = match self {
            Upgrade::EngineUpgrade => "Engine Upgrade",
            Upgrade::ShieldRecharge => "Shield Recharge",
            Upgrade::ShieldStrength => "Shield Strength",
            Upgrade::HullStrength => "Hull Strength",
            Upgrade::FireSpeed => "Fire Speed",
            Upgrade::JammerRange => "Jammer Range",
            Upgrade::JammerEfficiency => "Jammer Efficiency",
        };
        s.to_owned()
    }

    /// The name of the material the upgrade is made of.
    pub fn get_upgrade_material_name(&self) -> (r: String)
        ensures
            r@ == material_name(*self),
    {
        let s = match self {
            Upgrade::EngineUpgrade => "XM Engine Coils",
            Upgrade::ShieldRecharge => "XM Shield Generators",
            Upgrade::ShieldStrength => "XM Shield Capacitors",
            Upgrade::HullStrength => "XM Plates",
            Upgrade::FireSpeed => "XM Plasma Injectors",
            Upgrade::JammerRange => "XM Attenuators",
            Upgrade::JammerEfficiency => "XM Amplifiers",
        };
        s.to_owned()
    }

    /// The frame of the upgrade in the pickup sprite sheet.
    pub fn get_sprite_index(&self) -> (r: usize)
        ensures
            r == sprite_index(*self),
    {
        match self {
            Upgrade::EngineUpgrade => 0,
            Upgrade::ShieldRecharge => 1,
            Upgrade::ShieldStrength => 2,
            Upgrade::HullStrength => 3,
            Upgrade::FireSpeed => 4,
            Upgrade::JammerRange => 6,
            Upgrade::JammerEfficiency => 7,
        }
    }

    /// The upgrade numbered `index`.
    pub fn from_index(index: u32) -> (r: Upgrade)
        requires
            index < UPGRADE_KINDS,
        ensures
            r == upgrade_at(index as int),
    {
        match index {
            0 => Upgrade::EngineUpgrade,
            1 => Upgrade::ShieldRecharge,
            2 => Upgrade::ShieldStrength,
            3 => Upgrade::HullStrength,
            4 => Upgrade::FireSpeed,
            5 => Upgrade::JammerRange,
            _ => Upgrade::JammerEfficiency,
        }
    }

    /// An upgrade of a kind drawn at random.
    pub fn random() -> (r: Upgrade)
        ensures
            exists|i: int| 0 <= i < UPGRADE_KINDS && r == upgrade_at(i),
    {
        let i = random_below(UPGRADE_KINDS);
        Upgrade::from_index(i)
    }
}

} // verus!
