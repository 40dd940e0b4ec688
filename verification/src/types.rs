//! The data types that a decoded quest yields: the episode, the monster
//! taxonomy of the object stream's records, and the assembled quest metadata.

use vstd::prelude::*;

verus! {

/// The game episode a quest belongs to.
#[derive(Clone, Copy, Debug, PartialEq, Eq, Hash, Structural)]
pub enum Episode {
    I,
    II,
    IV,
}

/// How many monster kinds the classification distinguishes: the length of
/// every monster-count table.
pub const MONSTER_TYPE_COUNT: usize = 111;

/// The monster kinds that object-stream records are classified into.
#[derive(Clone, Copy, Debug, PartialEq, Eq, Hash, Structural)]
pub enum MonsterType {
    Hildebear,
    Hildeblue,
    RagRappy,
    AlRappy,
    Monest,
    SavageWolf,
    BarbarousWolf,
    Booma,
    Gobooma,
    Gigobooma,
    GrassAssassin,
    PoisonLily,
    NarLily,
    NanoDragon,
    EvilShark,
    PalShark,
    GuilShark,
    PofuillySlime,
    PouillySlime,
    PanArms,
    Dubchic,
    Gilchic,
    Garanz,
    SinowBeat,
    SinowGold,
    Canadine,
    Canane,
    Dubswitch,
    Delsaber,
    ChaosSorcerer,
    DarkGunner,
    ChaosBringer,
    DarkBelra,
    Dimenian,
    LaDimenian,
    SoDimenian,
    Bulclaw,
    Claw,
    Dragon,
    DeRolLe,
    VolOpt,
    DarkFalz,
    Hildebear2,
    Hildeblue2,
    RagRappy2,
    LoveRappy,
    Monest2,
    PoisonLily2,
    NarLily2,
    GrassAssassin2,
    Dimenian2,
    LaDimenian2,
    SoDimenian2,
    DarkBelra2,
    SavageWolf2,
    BarbarousWolf2,
    PanArms2,
    Dubchic2,
    Gilchic2,
    Garanz2,
    Dubswitch2,
    Delsaber2,
    ChaosSorcerer2,
    GalGryphon,
    OlgaFlow,
    BarbaRay,
    GolDragon,
    SinowBerill,
    SinowSpigell,
    Merillia,
    Meriltas,
    Mericarol,
    Mericus,
    Merikle,
    UlGibbon,
    ZolGibbon,
    Gibbles,
    Gee,
    GiGue,
    Deldepth,
    Delbiter,
    Dolmolm,
    Dolmdarl,
    Morfos,
    Recobox,
    SinowZoa,
    SinowZele,
    Epsilon,
    IllGill,
    DelLily,
    Astark,
    SatelliteLizard,
    Yowie,
    MerissaA,
    MerissaAA,
    Girtablulu,
    Zu,
    Pazuzu,
    Boota,
    ZeBoota,
    BaBoota,
    Dorphon,
    DorphonEclair,
    Goran,
    PyroGoran,
    GoranDetonator,
    SandRappy,
    DelRappy,
    SaintMillion,
    Kondrieu,
    Shambertin,
}

impl MonsterType {
    /// The slot of this kind in a monster-count table.
    pub open spec fn spec_slot(self) -> int {
        match self {
            MonsterType::Hildebear => 0,
            MonsterType::Hildeblue => 1,
            MonsterType::RagRappy => 2,
            MonsterType::AlRappy => 3,
            MonsterType::Monest => 4,
            MonsterType::SavageWolf => 5,
            MonsterType::BarbarousWolf => 6,
            MonsterType::Booma => 7,
            MonsterType::Gobooma => 8,
            MonsterType::Gigobooma => 9,
            MonsterType::GrassAssassin => 10,
            MonsterType::PoisonLily => 11,
            MonsterType::NarLily => 12,
            MonsterType::NanoDragon => 13,
            MonsterType::EvilShark => 14,
            MonsterType::PalShark => 15,
            MonsterType::GuilShark => 16,
            MonsterType::PofuillySlime => 17,
            MonsterType::PouillySlime => 18,
            MonsterType::PanArms => 19,
            MonsterType::Dubchic => 20,
            MonsterType::Gilchic => 21,
            MonsterType::Garanz => 22,
            MonsterType::SinowBeat => 23,
            MonsterType::SinowGold => 24,
            MonsterType::Canadine => 25,
            MonsterType::Canane => 26,
            MonsterType::Dubswitch => 27,
            MonsterType::Delsaber => 28,
            MonsterType::ChaosSorcerer => 29,
            MonsterType::DarkGunner => 30,
            MonsterType::ChaosBringer => 31,
            MonsterType::DarkBelra => 32,
            MonsterType::Dimenian => 33,
            MonsterType::LaDimenian => 34,
            MonsterType::SoDimenian => 35,
            MonsterType::Bulclaw => 36,
            MonsterType::Claw => 37,
            MonsterType::Dragon => 38,
            MonsterType::DeRolLe => 39,
            MonsterType::VolOpt => 40,
            MonsterType::DarkFalz => 41,
            MonsterType::Hildebear2 => 42,
            MonsterType::Hildeblue2 => 43,
            MonsterType::RagRappy2 => 44,
            MonsterType::LoveRappy => 45,
            MonsterType::Monest2 => 46,
            MonsterType::PoisonLily2 => 47,
            MonsterType::NarLily2 => 48,
            MonsterType::GrassAssassin2 => 49,
            MonsterType::Dimenian2 => 50,
            MonsterType::LaDimenian2 => 51,
            MonsterType::SoDimenian2 => 52,
            MonsterType::DarkBelra2 => 53,
            MonsterType::SavageWolf2 => 54,
            MonsterType::BarbarousWolf2 => 55,
            MonsterType::PanArms2 => 56,
            MonsterType::Dubchic2 => 57,
            MonsterType::Gilchic2 => 58,
            MonsterType::Garanz2 => 59,
            MonsterType::Dubswitch2 => 60,
            MonsterType::Delsaber2 => 61,
            MonsterType::ChaosSorcerer2 => 62,
            MonsterType::GalGryphon => 63,
            MonsterType::OlgaFlow => 64,
            MonsterType::BarbaRay => 65,
            MonsterType::GolDragon => 66,
            MonsterType::SinowBerill => 67,
            MonsterType::SinowSpigell => 68,
            MonsterType::Merillia => 69,
            MonsterType::Meriltas => 70,
            MonsterType::Mericarol => 71,
            MonsterType::Mericus => 72,
            MonsterType::Merikle => 73,
            MonsterType::UlGibbon => 74,
            MonsterType::ZolGibbon => 75,
            MonsterType::Gibbles => 76,
            MonsterType::Gee => 77,
            MonsterType::GiGue => 78,
            MonsterType::Deldepth => 79,
            MonsterType::Delbiter => 80,
            MonsterType::Dolmolm => 81,
            MonsterType::Dolmdarl => 82,
            MonsterType::Morfos => 83,
            MonsterType::Recobox => 84,
            MonsterType::SinowZoa => 85,
            MonsterType::SinowZele => 86,
            MonsterType::Epsilon => 87,
            MonsterType::IllGill => 88,
            MonsterType::DelLily => 89,
            MonsterType::Astark => 90,
            MonsterType::SatelliteLizard => 91,
            MonsterType::Yowie => 92,
            MonsterType::MerissaA => 93,
            MonsterType::MerissaAA => 94,
            MonsterType::Girtablulu => 95,
            MonsterType::Zu => 96,
            MonsterType::Pazuzu => 97,
            MonsterType::Boota => 98,
            MonsterType::ZeBoota => 99,
            MonsterType::BaBoota => 100,
            MonsterType::Dorphon => 101,
            MonsterType::DorphonEclair => 102,
            MonsterType::Goran => 103,
            MonsterType::PyroGoran => 104,
            MonsterType::GoranDetonator => 105,
            MonsterType::SandRappy => 106,
            MonsterType::DelRappy => 107,
            MonsterType::SaintMillion => 108,
            MonsterType::Kondrieu => 109,
            MonsterType::Shambertin => 110,
        }
    }

    /// The slot of this kind in a monster-count table.
    pub fn index(self) -> (i: usize)
        ensures
            i as int == self.spec_slot(),
            i < MONSTER_TYPE_COUNT,
    {
        match self {
            MonsterType::Hildebear => 0,
            MonsterType::Hildeblue => 1,
            MonsterType::RagRappy => 2,
            MonsterType::AlRappy => 3,
            MonsterType::Monest => 4,
            MonsterType::SavageWolf => 5,
            MonsterType::BarbarousWolf => 6,
            MonsterType::Booma => 7,
            MonsterType::Gobooma => 8,
            MonsterType::Gigobooma => 9,
            MonsterType::GrassAssassin => 10,
            MonsterType::PoisonLily => 11,
            MonsterType::NarLily => 12,
            MonsterType::NanoDragon => 13,
            MonsterType::EvilShark => 14,
            MonsterType::PalShark => 15,
            MonsterType::GuilShark => 16,
            MonsterType::PofuillySlime => 17,
            MonsterType::PouillySlime => 18,
            MonsterType::PanArms => 19,
            MonsterType::Dubchic => 20,
            MonsterType::Gilchic => 21,
            MonsterType::Garanz => 22,
            MonsterType::SinowBeat => 23,
            MonsterType::SinowGold => 24,
            MonsterType::Canadine => 25,
            MonsterType::Canane => 26,
            MonsterType::Dubswitch => 27,
            MonsterType::Delsaber => 28,
            MonsterType::ChaosSorcerer => 29,
            MonsterType::DarkGunner => 30,
            MonsterType::ChaosBringer => 31,
            MonsterType::DarkBelra => 32,
            MonsterType::Dimenian => 33,
            MonsterType::LaDimenian => 34,
            MonsterType::SoDimenian => 35,
            MonsterType::Bulclaw => 36,
            MonsterType::Claw => 37,
            MonsterType::Dragon => 38,
            MonsterType::DeRolLe => 39,
            MonsterType::VolOpt => 40,
            MonsterType::DarkFalz => 41,
            MonsterType::Hildebear2 => 42,
            MonsterType::Hildeblue2 => 43,
            MonsterType::RagRappy2 => 44,
            MonsterType::LoveRappy => 45,
            MonsterType::Monest2 => 46,
            MonsterType::PoisonLily2 => 47,
            MonsterType::NarLily2 => 48,
            MonsterType::GrassAssassin2 => 49,
            MonsterType::Dimenian2 => 50,
            MonsterType::LaDimenian2 => 51,
            MonsterType::SoDimenian2 => 52,
            MonsterType::DarkBelra2 => 53,
            MonsterType::SavageWolf2 => 54,
            MonsterType::BarbarousWolf2 => 55,
            MonsterType::PanArms2 => 56,
            MonsterType::Dubchic2 => 57,
            MonsterType::Gilchic2 => 58,
            MonsterType::Garanz2 => 59,
            MonsterType::Dubswitch2 => 60,
            MonsterType::Delsaber2 => 61,
            MonsterType::ChaosSorcerer2 => 62,
            MonsterType::GalGryphon => 63,
            MonsterType::OlgaFlow => 64,
            MonsterType::BarbaRay => 65,
            MonsterType::GolDragon => 66,
            MonsterType::SinowBerill => 67,
            MonsterType::SinowSpigell => 68,
            MonsterType::Merillia => 69,
            MonsterType::Meriltas => 70,
            MonsterType::Mericarol => 71,
            MonsterType::Mericus => 72,
            MonsterType::Merikle => 73,
            MonsterType::UlGibbon => 74,
            MonsterType::ZolGibbon => 75,
            MonsterType::Gibbles => 76,
            MonsterType::Gee => 77,
            MonsterType::GiGue => 78,
            MonsterType::Deldepth => 79,
            MonsterType::Delbiter => 80,
            MonsterType::Dolmolm => 81,
            MonsterType::Dolmdarl => 82,
            MonsterType::Morfos => 83,
            MonsterType::Recobox => 84,
            MonsterType::SinowZoa => 85,
            MonsterType::SinowZele => 86,
            MonsterType::Epsilon => 87,
            MonsterType::IllGill => 88,
            MonsterType::DelLily => 89,
            MonsterType::Astark => 90,
            MonsterType::SatelliteLizard => 91,
            MonsterType::Yowie => 92,
            MonsterType::MerissaA => 93,
            MonsterType::MerissaAA => 94,
            MonsterType::Girtablulu => 95,
            MonsterType::Zu => 96,
            MonsterType::Pazuzu => 97,
            MonsterType::Boota => 98,
            MonsterType::ZeBoota => 99,
            MonsterType::BaBoota => 100,
            MonsterType::Dorphon => 101,
            MonsterType::DorphonEclair => 102,
            MonsterType::Goran => 103,
            MonsterType::PyroGoran => 104,
            MonsterType::GoranDetonator => 105,
            MonsterType::SandRappy => 106,
            MonsterType::DelRappy => 107,
            MonsterType::SaintMillion => 108,
            MonsterType::Kondrieu => 109,
            MonsterType::Shambertin => 110,
        }
    }
}

/// The metadata extracted from one quest container: its name and short
/// description from the metadata stream, and the episode and per-kind
/// monster counts from the object stream.  `monster_counts` has one slot per
/// monster kind, at `MonsterType::index`.
pub struct Quest {
    pub name: String,
    pub short_description: String,
    pub episode: Episode,
    pub monster_counts: Vec<u32>,
}

} // verus!
