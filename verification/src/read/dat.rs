//! The object stream of a quest: a chain of typed section headers, the
//! monster records of each monster section, their classification into
//! monster kinds, and the episode inference over them.

use vstd::prelude::*;
use crate::read::{le32, read_u32_le, ReadError};
use crate::types::{Episode, MonsterType, MONSTER_TYPE_COUNT};

verus! {

/// One monster record of the object stream.
#[derive(Clone, Copy, Debug, PartialEq, Eq, Structural)]
pub struct MonsterData {
    pub id: u32,
    pub regular: bool,
    pub skin: u32,
    pub area: u32,
}

/// What decoding the object stream yields: the inferred episode and one
/// count per monster kind, at `MonsterType::index`.
pub struct DatFile {
    pub episode: Episode,
    pub monster_counts: Vec<u32>,
}

/// How much of the stream lies at or after `pos`.
pub open spec fn bytes_from(len: int, pos: int) -> int {
    if pos <= len {
        len - pos
    } else {
        0
    }
}

/// The monster records of one monster section: `count` fixed 72-byte
/// records from `base`, each read as its identifier, a flag word whose bit
/// 23 clear marks a regular variant, and its skin, all under the section's
/// area.  A record past the end of the stream is `Io`.
pub open spec fn spec_monster_block(
    data: Seq<u8>,
    base: int,
    area: u32,
    count: int,
    acc: Seq<MonsterData>,
) -> Result<Seq<MonsterData>, ReadError>
    decreases count,
{
    if count <= 0 {
        Ok(acc)
    } else if base < 0 || base + 68 > data.len() {
        Err(ReadError::Io)
    } else {
        let id = le32(data, base) as u32;
        let rflag = le32(data, base + 48) as u32;
        let skin = le32(data, base + 64) as u32;
        let m = MonsterData { id, regular: (rflag / 0x800000) % 2 == 0, skin, area };
        spec_monster_block(data, base + 72, area, count - 1, acc.push(m))
    }
}

/// The monster records of the whole object stream: section headers are
/// walked from `pos`, a header of type 2 contributes `size / 72` monster
/// records, types 1 and 3 contribute none, and any other type ends the walk.
/// A header or record past the end of the stream is `Io`; a header that does
/// not advance the walk is `InvalidData`.
pub open spec fn spec_monsters(data: Seq<u8>, pos: int, acc: Seq<MonsterData>) -> Result<
    Seq<MonsterData>,
    ReadError,
>
    decreases bytes_from(data.len() as int, pos),
{
    if pos < 0 || pos + 16 > data.len() {
        Err(ReadError::Io)
    } else {
        let object_type = le32(data, pos);
        let next_header = le32(data, pos + 4);
        let area = le32(data, pos + 8) as u32;
        let size = le32(data, pos + 12);
        if object_type == 2 {
            match spec_monster_block(data, pos + 16, area, size / 72, acc) {
                Err(e) => Err(e),
                Ok(acc2) => if next_header == 0 {
                    Err(ReadError::InvalidData)
                } else {
                    spec_monsters(data, pos + next_header, acc2)
                },
            }
        } else if object_type != 1 && object_type != 3 {
            Ok(acc)
        } else {
            if next_header == 0 {
                Err(ReadError::InvalidData)
            } else {
                spec_monsters(data, pos + next_header, acc)
            }
        }
    }
}

/// Classification by identifier and a three-way skin variant.
pub open spec fn spec_classify_skin3(id: u32, skin: u32, ep: Episode) -> Option<MonsterType> {
    let s = skin % 3;
    if id == 0x44 { if s == 0 { Some(MonsterType::Booma) } else if s == 1 { Some(MonsterType::Gobooma) } else { Some(MonsterType::Gigobooma) } }
    else if id == 0x63 { if s == 0 { Some(MonsterType::EvilShark) } else if s == 1 { Some(MonsterType::PalShark) } else { Some(MonsterType::GuilShark) } }
    else if id == 0xA6 {
        match ep {
            Episode::I => if s == 0 { Some(MonsterType::Dimenian) } else if s == 1 { Some(MonsterType::LaDimenian) } else { Some(MonsterType::SoDimenian) },
            Episode::II => if s == 0 { Some(MonsterType::Dimenian2) } else if s == 1 { Some(MonsterType::LaDimenian2) } else { Some(MonsterType::SoDimenian2) },
            Episode::IV => None,
        }
    }
    else if id == 0xD6 { if s == 0 { Some(MonsterType::Mericarol) } else if s == 1 { Some(MonsterType::Mericus) } else { Some(MonsterType::Merikle) } }
    else if id == 0x115 { if s == 0 { Some(MonsterType::Boota) } else if s == 1 { Some(MonsterType::ZeBoota) } else { Some(MonsterType::BaBoota) } }
    else if id == 0x117 { if s == 0 { Some(MonsterType::Goran) } else if s == 1 { Some(MonsterType::PyroGoran) } else { Some(MonsterType::GoranDetonator) } }
    else { None }
}

/// Classification by identifier and a two-way skin variant, refined by the
/// record's area and regular flag; it overrides the three-way one.
pub open spec fn spec_classify_skin2(id: u32, skin: u32, regular: bool, area: u32, ep: Episode) -> Option<MonsterType> {
    let s = skin % 2;
    if id == 0x40 { match ep {
            Episode::I => if s == 0 { Some(MonsterType::Hildebear) } else { Some(MonsterType::Hildeblue) },
            Episode::II => if s == 0 { Some(MonsterType::Hildebear2) } else { Some(MonsterType::Hildeblue2) },
            Episode::IV => None,
        } }
    else if id == 0x41 { match ep {
            Episode::I => if s == 0 { Some(MonsterType::RagRappy) } else { Some(MonsterType::AlRappy) },
            Episode::II => if s == 0 { Some(MonsterType::RagRappy2) } else { Some(MonsterType::LoveRappy) },
            Episode::IV => if s == 0 { Some(MonsterType::SandRappy) } else { Some(MonsterType::DelRappy) },
        } }
    else if id == 0x61 {
        if area > 15 {
            match ep {
                Episode::I => Some(MonsterType::DelLily),
                Episode::II => Some(MonsterType::DelLily),
                Episode::IV => None,
            }
        } else {
            match ep {
                Episode::I => if s == 0 { Some(MonsterType::PoisonLily) } else { Some(MonsterType::NarLily) },
                Episode::II => if s == 0 { Some(MonsterType::PoisonLily2) } else { Some(MonsterType::NarLily2) },
                Episode::IV => None,
            }
        }
    }
    else if id == 0x80 { match ep {
            Episode::I => if s == 0 { Some(MonsterType::Dubchic) } else { Some(MonsterType::Gilchic) },
            Episode::II => if s == 0 { Some(MonsterType::Dubchic2) } else { Some(MonsterType::Gilchic2) },
            Episode::IV => None,
        } }
    else if id == 0xD4 { if s == 0 { Some(MonsterType::SinowBerill) } else { Some(MonsterType::SinowSpigell) } }
    else if id == 0xD5 { if s == 0 { Some(MonsterType::Merillia) } else { Some(MonsterType::Meriltas) } }
    else if id == 0xD7 { if s == 0 { Some(MonsterType::UlGibbon) } else { Some(MonsterType::ZolGibbon) } }
    else if id == 0xDD { if s == 0 { Some(MonsterType::Dolmolm) } else { Some(MonsterType::Dolmdarl) } }
    else if id == 0xE0 { if area > 15 { Some(MonsterType::Epsilon) } else { if s == 0 { Some(MonsterType::SinowZoa) } else { Some(MonsterType::SinowZele) } } }
    else if id == 0x112 { if s == 0 { Some(MonsterType::MerissaA) } else { Some(MonsterType::MerissaAA) } }
    else if id == 0x114 { if s == 0 { Some(MonsterType::Zu) } else { Some(MonsterType::Pazuzu) } }
    else if id == 0x116 { if s == 0 { Some(MonsterType::Dorphon) } else { Some(MonsterType::DorphonEclair) } }
    else if id == 0x119 {
        if s == 0 {
            if regular { Some(MonsterType::SaintMillion) } else { Some(MonsterType::Kondrieu) }
        } else {
            if regular { Some(MonsterType::Shambertin) } else { Some(MonsterType::Kondrieu) }
        }
    }
    else { None }
}

/// Classification by identifier alone, refined by the regular flag; it
/// overrides both skin-based ones.
pub open spec fn spec_classify_plain(id: u32, regular: bool, ep: Episode) -> Option<MonsterType> {
    if id == 0x42 { match ep {
            Episode::I => Some(MonsterType::Monest),
            Episode::II => Some(MonsterType::Monest2),
            Episode::IV => None,
        } }
    else if id == 0x43 { match ep {
            Episode::I => if regular { Some(MonsterType::SavageWolf) } else { Some(MonsterType::BarbarousWolf) },
            Episode::II => if regular { Some(MonsterType::SavageWolf2) } else { Some(MonsterType::BarbarousWolf2) },
            Episode::IV => None,
        } }
    else if id == 0x60 { match ep {
            Episode::I => Some(MonsterType::GrassAssassin),
            Episode::II => Some(MonsterType::GrassAssassin2),
            Episode::IV => None,
        } }
    else if id == 0x62 { Some(MonsterType::NanoDragon) }
    else if id == 0x64 { if regular { Some(MonsterType::PofuillySlime) } else { Some(MonsterType::PouillySlime) } }
    else if id == 0x65 { match ep {
            Episode::I => Some(MonsterType::PanArms),
            Episode::II => Some(MonsterType::PanArms2),
            Episode::IV => None,
        } }
    else if id == 0x81 { match ep {
            Episode::I => Some(MonsterType::Garanz),
            Episode::II => Some(MonsterType::Garanz2),
            Episode::IV => None,
        } }
    else if id == 0x82 { if regular { Some(MonsterType::SinowBeat) } else { Some(MonsterType::SinowGold) } }
    else if id == 0x83 { Some(MonsterType::Canadine) }
    else if id == 0x84 { Some(MonsterType::Canane) }
    else if id == 0x85 { match ep {
            Episode::I => Some(MonsterType::Dubswitch),
            Episode::II => Some(MonsterType::Dubswitch2),
            Episode::IV => None,
        } }
    else if id == 0xA0 { match ep {
            Episode::I => Some(MonsterType::Delsaber),
            Episode::II => Some(MonsterType::Delsaber2),
            Episode::IV => None,
        } }
    else if id == 0xA1 { match ep {
            Episode::I => Some(MonsterType::ChaosSorcerer),
            Episode::II => Some(MonsterType::ChaosSorcerer2),
            Episode::IV => None,
        } }
    else if id == 0xA2 { Some(MonsterType::DarkGunner) }
    else if id == 0xA4 { Some(MonsterType::ChaosBringer) }
    else if id == 0xA5 { match ep {
            Episode::I => Some(MonsterType::DarkBelra),
            Episode::II => Some(MonsterType::DarkBelra2),
            Episode::IV => None,
        } }
    else if id == 0xA7 { Some(MonsterType::Bulclaw) }
    else if id == 0xA8 { Some(MonsterType::Claw) }
    else if id == 0xC0 { match ep {
            Episode::I => Some(MonsterType::Dragon),
            Episode::II => Some(MonsterType::GalGryphon),
            Episode::IV => None,
        } }
    else if id == 0xC1 { Some(MonsterType::DeRolLe) }
    else if id == 0xC5 { Some(MonsterType::VolOpt) }
    else if id == 0xC8 { Some(MonsterType::DarkFalz) }
    else if id == 0xCA { Some(MonsterType::OlgaFlow) }
    else if id == 0xCB { Some(MonsterType::BarbaRay) }
    else if id == 0xCC { Some(MonsterType::GolDragon) }
    else if id == 0xD8 { Some(MonsterType::Gibbles) }
    else if id == 0xD9 { Some(MonsterType::Gee) }
    else if id == 0xDA { Some(MonsterType::GiGue) }
    else if id == 0xDB { Some(MonsterType::Deldepth) }
    else if id == 0xDC { Some(MonsterType::Delbiter) }
    else if id == 0xDE { Some(MonsterType::Morfos) }
    else if id == 0xDF { Some(MonsterType::Recobox) }
    else if id == 0xE1 { Some(MonsterType::IllGill) }
    else if id == 0x110 { Some(MonsterType::Astark) }
    else if id == 0x111 { if regular { Some(MonsterType::SatelliteLizard) } else { Some(MonsterType::Yowie) } }
    else if id == 0x113 { Some(MonsterType::Girtablulu) }
    else { None }
}

/// The kind of one monster record under episode `ep`.
pub open spec fn spec_classify(m: MonsterData, ep: Episode) -> Option<MonsterType> {
    match spec_classify_plain(m.id, m.regular, ep) {
        Some(t) => Some(t),
        None => match spec_classify_skin2(m.id, m.skin, m.regular, m.area, ep) {
            Some(t) => Some(t),
            None => spec_classify_skin3(m.id, m.skin, ep),
        },
    }
}

fn classify_skin3(id: u32, skin: u32, ep: Episode) -> (r: Option<MonsterType>)
    ensures
        r == spec_classify_skin3(id, skin, ep),
{
    let s = skin % 3;
    if id == 0x44 { if s == 0 { Some(MonsterType::Booma) } else if s == 1 { Some(MonsterType::Gobooma) } else { Some(MonsterType::Gigobooma) } }
    else if id == 0x63 { if s == 0 { Some(MonsterType::EvilShark) } else if s == 1 { Some(MonsterType::PalShark) } else { Some(MonsterType::GuilShark) } }
    else if id == 0xA6 {
        match ep {
            Episode::I => if s == 0 { Some(MonsterType::Dimenian) } else if s == 1 { Some(MonsterType::LaDimenian) } else { Some(MonsterType::SoDimenian) },
            Episode::II => if s == 0 { Some(MonsterType::Dimenian2) } else if s == 1 { Some(MonsterType::LaDimenian2) } else { Some(MonsterType::SoDimenian2) },
            Episode::IV => None,
        }
    }
    else if id == 0xD6 { if s == 0 { Some(MonsterType::Mericarol) } else if s == 1 { Some(MonsterType::Mericus) } else { Some(MonsterType::Merikle) } }
    else if id == 0x115 { if s == 0 { Some(MonsterType::Boota) } else if s == 1 { Some(MonsterType::ZeBoota) } else { Some(MonsterType::BaBoota) } }
    else if id == 0x117 { if s == 0 { Some(MonsterType::Goran) } else if s == 1 { Some(MonsterType::PyroGoran) } else { Some(MonsterType::GoranDetonator) } }
    else { None }
}

fn classify_skin2(id: u32, skin: u32, regular: bool, area: u32, ep: Episode) -> (r: Option<
    MonsterType,
>)
    ensures
        r == spec_classify_skin2(id, skin, regular, area, ep),
{
    let s = skin % 2;
    if id == 0x40 { match ep {
            Episode::I => if s == 0 { Some(MonsterType::Hildebear) } else { Some(MonsterType::Hildeblue) },
            Episode::II => if s == 0 { Some(MonsterType::Hildebear2) } else { Some(MonsterType::Hildeblue2) },
            Episode::IV => None,
        } }
    else if id == 0x41 { match ep {
            Episode::I => if s == 0 { Some(MonsterType::RagRappy) } else { Some(MonsterType::AlRappy) },
            Episode::II => if s == 0 { Some(MonsterType::RagRappy2) } else { Some(MonsterType::LoveRappy) },
            Episode::IV => if s == 0 { Some(MonsterType::SandRappy) } else { Some(MonsterType::DelRappy) },
        } }
    else if id == 0x61 {
        if area > 15 {
            match ep {
                Episode::I => Some(MonsterType::DelLily),
                Episode::II => Some(MonsterType::DelLily),
                Episode::IV => None,
            }
        } else {
            match ep {
                Episode::I => if s == 0 { Some(MonsterType::PoisonLily) } else { Some(MonsterType::NarLily) },
                Episode::II => if s == 0 { Some(MonsterType::PoisonLily2) } else { Some(MonsterType::NarLily2) },
                Episode::IV => None,
            }
        }
    }
    else if id == 0x80 { match ep {
            Episode::I => if s == 0 { Some(MonsterType::Dubchic) } else { Some(MonsterType::Gilchic) },
            Episode::II => if s == 0 { Some(MonsterType::Dubchic2) } else { Some(MonsterType::Gilchic2) },
            Episode::IV => None,
        } }
    else if id == 0xD4 { if s == 0 { Some(MonsterType::SinowBerill) } else { Some(MonsterType::SinowSpigell) } }
    else if id == 0xD5 { if s == 0 { Some(MonsterType::Merillia) } else { Some(MonsterType::Meriltas) } }
    else if id == 0xD7 { if s == 0 { Some(MonsterType::UlGibbon) } else { Some(MonsterType::ZolGibbon) } }
    else if id == 0xDD { if s == 0 { Some(MonsterType::Dolmolm) } else { Some(MonsterType::Dolmdarl) } }
    else if id == 0xE0 { if area > 15 { Some(MonsterType::Epsilon) } else { if s == 0 { Some(MonsterType::SinowZoa) } else { Some(MonsterType::SinowZele) } } }
    else if id == 0x112 { if s == 0 { Some(MonsterType::MerissaA) } else { Some(MonsterType::MerissaAA) } }
    else if id == 0x114 { if s == 0 { Some(MonsterType::Zu) } else { Some(MonsterType::Pazuzu) } }
    else if id == 0x116 { if s == 0 { Some(MonsterType::Dorphon) } else { Some(MonsterType::DorphonEclair) } }
    else if id == 0x119 {
        if s == 0 {
            if regular { Some(MonsterType::SaintMillion) } else { Some(MonsterType::Kondrieu) }
        } else {
            if regular { Some(MonsterType::Shambertin) } else { Some(MonsterType::Kondrieu) }
        }
    }
    else { None }
}

fn classify_plain(id: u32, regular: bool, ep: Episode) -> (r: Option<MonsterType>)
    ensures
        r == spec_classify_plain(id, regular, ep),
{
    if id == 0x42 { match ep {
            Episode::I => Some(MonsterType::Monest),
            Episode::II => Some(MonsterType::Monest2),
            Episode::IV => None,
        } }
    else if id == 0x43 { match ep {
            Episode::I => if regular { Some(MonsterType::SavageWolf) } else { Some(MonsterType::BarbarousWolf) },
            Episode::II => if regular { Some(MonsterType::SavageWolf2) } else { Some(MonsterType::BarbarousWolf2) },
            Episode::IV => None,
        } }
    else if id == 0x60 { match ep {
            Episode::I => Some(MonsterType::GrassAssassin),
            Episode::II => Some(MonsterType::GrassAssassin2),
            Episode::IV => None,
        } }
    else if id == 0x62 { Some(MonsterType::NanoDragon) }
    else if id == 0x64 { if regular { Some(MonsterType::PofuillySlime) } else { Some(MonsterType::PouillySlime) } }
    else if id == 0x65 { match ep {
            Episode::I => Some(MonsterType::PanArms),
            Episode::II => Some(MonsterType::PanArms2),
            Episode::IV => None,
        } }
    else if id == 0x81 { match ep {
            Episode::I => Some(MonsterType::Garanz),
            Episode::II => Some(MonsterType::Garanz2),
            Episode::IV => None,
        } }
    else if id == 0x82 { if regular { Some(MonsterType::SinowBeat) } else { Some(MonsterType::SinowGold) } }
    else if id == 0x83 { Some(MonsterType::Canadine) }
    else if id == 0x84 { Some(MonsterType::Canane) }
    else if id == 0x85 { match ep {
            Episode::I => Some(MonsterType::Dubswitch),
            Episode::II => Some(MonsterType::Dubswitch2),
            Episode::IV => None,
        } }
    else if id == 0xA0 { match ep {
            Episode::I => Some(MonsterType::Delsaber),
            Episode::II => Some(MonsterType::Delsaber2),
            Episode::IV => None,
        } }
    else if id == 0xA1 { match ep {
            Episode::I => Some(MonsterType::ChaosSorcerer),
            Episode::II => Some(MonsterType::ChaosSorcerer2),
            Episode::IV => None,
        } }
    else if id == 0xA2 { Some(MonsterType::DarkGunner) }
    else if id == 0xA4 { Some(MonsterType::ChaosBringer) }
    else if id == 0xA5 { match ep {
            Episode::I => Some(MonsterType::DarkBelra),
            Episode::II => Some(MonsterType::DarkBelra2),
            Episode::IV => None,
        } }
    else if id == 0xA7 { Some(MonsterType::Bulclaw) }
    else if id == 0xA8 { Some(MonsterType::Claw) }
    else if id == 0xC0 { match ep {
            Episode::I => Some(MonsterType::Dragon),
            Episode::II => Some(MonsterType::GalGryphon),
            Episode::IV => None,
        } }
    else if id == 0xC1 { Some(MonsterType::DeRolLe) }
    else if id == 0xC5 { Some(MonsterType::VolOpt) }
    else if id == 0xC8 { Some(MonsterType::DarkFalz) }
    else if id == 0xCA { Some(MonsterType::OlgaFlow) }
    else if id == 0xCB { Some(MonsterType::BarbaRay) }
    else if id == 0xCC { Some(MonsterType::GolDragon) }
    else if id == 0xD8 { Some(MonsterType::Gibbles) }
    else if id == 0xD9 { Some(MonsterType::Gee) }
    else if id == 0xDA { Some(MonsterType::GiGue) }
    else if id == 0xDB { Some(MonsterType::Deldepth) }
    else if id == 0xDC { Some(MonsterType::Delbiter) }
    else if id == 0xDE { Some(MonsterType::Morfos) }
    else if id == 0xDF { Some(MonsterType::Recobox) }
    else if id == 0xE1 { Some(MonsterType::IllGill) }
    else if id == 0x110 { Some(MonsterType::Astark) }
    else if id == 0x111 { if regular { Some(MonsterType::SatelliteLizard) } else { Some(MonsterType::Yowie) } }
    else if id == 0x113 { Some(MonsterType::Girtablulu) }
    else { None }
}

/// Classify one monster record under episode `ep`.
fn classify(m: MonsterData, ep: Episode) -> (r: Option<MonsterType>)
    ensures
        r == spec_classify(m, ep),
{
    match classify_plain(m.id, m.regular, ep) {
        Some(t) => Some(t),
        None => match classify_skin2(m.id, m.skin, m.regular, m.area, ep) {
            Some(t) => Some(t),
            None => classify_skin3(m.id, m.skin, ep),
        },
    }
}

/// What one monster record says about the episode, if anything.
pub open spec fn spec_episode_hint(m: MonsterData) -> Option<Episode> {
    let id = m.id;
    let area = m.area;
    if id == 0x44 || (0x62 <= id && id <= 0x64) || (0x82 <= id && id <= 0x84) || id == 0xA2
        || id == 0xA4 || (0xA7 <= id && id <= 0xA8) || id == 0xC1 || id == 0xC5 || id == 0xC8 {
        Some(Episode::I)
    } else if 0xCA <= id && id <= 0xE1 {
        Some(Episode::II)
    } else if 0x110 <= id && id <= 0x119 {
        Some(Episode::IV)
    } else if id == 0x40 {
        if area == 1 { Some(Episode::II) } else { None }
    } else if id == 0x41 {
        if area >= 6 { Some(Episode::IV) } else { None }
    } else if id == 0x43 {
        if area <= 2 { Some(Episode::I) } else { Some(Episode::II) }
    } else if id == 0x60 || (0xA5 <= id && id <= 0xA6) {
        if area <= 2 { Some(Episode::II) } else { Some(Episode::I) }
    } else if id == 0x61 {
        if 3 <= area && area <= 5 { Some(Episode::I) } else { Some(Episode::II) }
    } else if (0x80 <= id && id <= 0x81) || id == 0x85 || (0xA0 <= id && id <= 0xA1) {
        if area <= 4 { Some(Episode::II) } else { Some(Episode::I) }
    } else {
        None
    }
}

fn episode_hint(m: MonsterData) -> (r: Option<Episode>)
    ensures
        r == spec_episode_hint(m),
{
    let id = m.id;
    let area = m.area;
    if id == 0x44 || (0x62 <= id && id <= 0x64) || (0x82 <= id && id <= 0x84) || id == 0xA2
        || id == 0xA4 || (0xA7 <= id && id <= 0xA8) || id == 0xC1 || id == 0xC5 || id == 0xC8 {
        Some(Episode::I)
    } else if 0xCA <= id && id <= 0xE1 {
        Some(Episode::II)
    } else if 0x110 <= id && id <= 0x119 {
        Some(Episode::IV)
    } else if id == 0x40 {
        if area == 1 { Some(Episode::II) } else { None }
    } else if id == 0x41 {
        if area >= 6 { Some(Episode::IV) } else { None }
    } else if id == 0x43 {
        if area <= 2 { Some(Episode::I) } else { Some(Episode::II) }
    } else if id == 0x60 || (0xA5 <= id && id <= 0xA6) {
        if area <= 2 { Some(Episode::II) } else { Some(Episode::I) }
    } else if id == 0x61 {
        if 3 <= area && area <= 5 { Some(Episode::I) } else { Some(Episode::II) }
    } else if (0x80 <= id && id <= 0x81) || id == 0x85 || (0xA0 <= id && id <= 0xA1) {
        if area <= 4 { Some(Episode::II) } else { Some(Episode::I) }
    } else {
        None
    }
}

/// The episode inferred from a record list: what its first record with an
/// episode hint says, if any record has one.
pub open spec fn spec_detect(ms: Seq<MonsterData>) -> Option<Episode>
    decreases ms.len(),
{
    if ms.len() == 0 {
        None
    } else {
        match spec_episode_hint(ms.first()) {
            Some(e) => Some(e),
            None => spec_detect(ms.drop_first()),
        }
    }
}

/// Infer the episode from the monster records: the first record with an
/// episode hint decides, and a list without any yields `None`.
pub fn detect_episode(data: &Vec<MonsterData>) -> (r: Option<Episode>)
    ensures
        r == spec_detect(data@),
{
    proof {
        assert(data@.skip(0) =~= data@);
    }
    let mut i: usize = 0;
    while i < data.len()
        invariant
            i <= data@.len(),
            spec_detect(data@.skip(i as int)) == spec_detect(data@),
        decreases data@.len() - i,
    {
        let m = data[i];
        proof {
            assert(data@.skip(i as int).first() == data@[i as int]);
            assert(data@.skip(i as int).drop_first() =~= data@.skip(i as int + 1));
        }
        match episode_hint(m) {
            Some(e) => {
                return Some(e);
            },
            None => {},
        }
        i = i + 1;
    }
    proof {
        assert(data@.skip(data@.len() as int) =~= Seq::<MonsterData>::empty());
    }
    None
}

/// Addition that stops at the largest count instead of wrapping.
pub open spec fn sat_add(a: u32, b: u32) -> u32 {
    if a + b > u32::MAX {
        u32::MAX
    } else {
        (a + b) as u32
    }
}

/// A count table with `by` more (saturating) in slot `slot`.
pub open spec fn bump(counts: Seq<u32>, slot: int, by: u32) -> Seq<u32> {
    counts.update(slot, sat_add(counts[slot], by))
}

/// The all-zero count table.
pub open spec fn empty_counts() -> Seq<u32> {
    Seq::new(MONSTER_TYPE_COUNT as nat, |i: int| 0u32)
}

/// One record's contribution to the count table: a record of the composite
/// machine kind also counts eight of its component kind, and a record of a
/// recognised kind counts once in that kind's slot.
pub open spec fn count_one(counts: Seq<u32>, m: MonsterData, ep: Episode) -> Seq<u32> {
    let base = if m.id == 0x84 {
        bump(counts, MonsterType::Canadine.spec_slot(), 8)
    } else {
        counts
    };
    match spec_classify(m, ep) {
        Some(t) => bump(base, t.spec_slot(), 1),
        None => base,
    }
}

/// The count table of a record list under episode `ep`.
pub open spec fn spec_counts(ms: Seq<MonsterData>, ep: Episode) -> Seq<u32>
    decreases ms.len(),
{
    if ms.len() == 0 {
        empty_counts()
    } else {
        count_one(spec_counts(ms.drop_last(), ep), ms.last(), ep)
    }
}

/// The meaning of a whole object stream: its monster records, the episode
/// they imply (episode one when nothing decides), and their count table.
pub open spec fn spec_dat_result(bytes: Seq<u8>) -> Result<(Episode, Seq<u32>), ReadError> {
    match spec_monsters(bytes, 0, Seq::empty()) {
        Err(e) => Err(e),
        Ok(ms) => {
            let ep = match spec_detect(ms) {
                Some(e) => e,
                None => Episode::I,
            };
            Ok((ep, spec_counts(ms, ep)))
        },
    }
}

/// Add `by` to slot `slot`, saturating at the largest count.
fn bump_count(counts: &mut Vec<u32>, slot: usize, by: u32)
    requires
        slot < old(counts)@.len(),
    ensures
        final(counts)@ == bump(old(counts)@, slot as int, by),
{
    let c = counts[slot];
    let nc = if c > u32::MAX - by {
        u32::MAX
    } else {
        c + by
    };
    counts.set(slot, nc);
}

/// Read the monster records of one monster section, appending them to `vec`.
fn parse_monster_block(
    data: &Vec<u8>,
    base0: u128,
    area: u32,
    count: u32,
    vec: &mut Vec<MonsterData>,
) -> (r: Result<(), ReadError>)
    requires
        base0 <= 0xFFFF_FFFF_FFFF_FFFF_FFFFu128,
    ensures
        match r {
            Ok(_) => spec_monster_block(data@, base0 as int, area, count as int, old(vec)@)
                == Ok::<_, ReadError>(final(vec)@),
            Err(e) => spec_monster_block(data@, base0 as int, area, count as int, old(vec)@)
                == Err::<Seq<MonsterData>, ReadError>(e),
        },
{
    let data_len = data.len();
    let mut base: u128 = base0;
    let mut j: u32 = 0;
    while j < count
        invariant
            j <= count,
            data_len == data@.len(),
            base == base0 + 72 * (j as int),
            base0 <= 0xFFFF_FFFF_FFFF_FFFF_FFFFu128,
            spec_monster_block(data@, base as int, area, (count - j) as int, vec@)
                == spec_monster_block(data@, base0 as int, area, count as int, old(vec)@),
        decreases count - j,
    {
        if base + 68 > data_len as u128 {
            return Err(ReadError::Io);
        }
        let b = base as usize;
        let id = read_u32_le(data, b);
        let rflag = read_u32_le(data, b + 48);
        let skin = read_u32_le(data, b + 64);
        let regular = (rflag / 0x800000) % 2 == 0;
        vec.push(MonsterData { id, regular, skin, area });
        j = j + 1;
        base = base + 72;
    }
    Ok(())
}

/// Read every monster record of the object stream by walking its section
/// headers from the start.
pub fn extract_monster_data(data: &Vec<u8>) -> (r: Result<Vec<MonsterData>, ReadError>)
    ensures
        match r {
            Ok(v) => spec_monsters(data@, 0, Seq::empty()) == Ok::<_, ReadError>(v@),
            Err(e) => spec_monsters(data@, 0, Seq::empty()) == Err::<Seq<MonsterData>, ReadError>(
                e,
            ),
        },
{
    let data_len = data.len();
    let ghost target = spec_monsters(data@, 0, Seq::empty());
    let mut vec: Vec<MonsterData> = Vec::new();
    let mut pos: u128 = 0;
    loop
        invariant
            data_len == data@.len(),
            pos as int <= usize::MAX as int + u32::MAX as int,
            target == spec_monsters(data@, 0, Seq::empty()),
            spec_monsters(data@, pos as int, vec@) == target,
        decreases bytes_from(data_len as int, pos as int),
    {
        if pos + 16 > data_len as u128 {
            return Err(ReadError::Io);
        }
        let p = pos as usize;
        let object_type = read_u32_le(data, p);
        let next_header = read_u32_le(data, p + 4);
        let area = read_u32_le(data, p + 8);
        let size = read_u32_le(data, p + 12);
        if object_type == 2 {
            let count = size / 72;
            match parse_monster_block(data, pos + 16, area, count, &mut vec) {
                Ok(_) => {},
                Err(e) => {
                    return Err(e);
                },
            }
        } else if object_type != 1 && object_type != 3 {
            return Ok(vec);
        }
        if next_header == 0 {
            return Err(ReadError::InvalidData);
        }
        pos = pos + next_header as u128;
    }
}

/// Decode the object stream: read its monster records, infer the episode
/// (episode one when nothing decides), and count the records by kind.
pub fn read(data: &Vec<u8>) -> (r: Result<DatFile, ReadError>)
    ensures
        match r {
            Ok(d) => spec_dat_result(data@) == Ok::<_, ReadError>(
                (d.episode, d.monster_counts@),
            ) && d.monster_counts@.len() == MONSTER_TYPE_COUNT,
            Err(e) => spec_dat_result(data@) == Err::<(Episode, Seq<u32>), ReadError>(e),
        },
{
    let monsters = match extract_monster_data(data) {
        Ok(v) => v,
        Err(e) => {
            return Err(e);
        },
    };
    let episode = match detect_episode(&monsters) {
        Some(e) => e,
        None => Episode::I,
    };
    let mut counts: Vec<u32> = Vec::new();
    let mut i: usize = 0;
    while i < MONSTER_TYPE_COUNT
        invariant
            i <= MONSTER_TYPE_COUNT,
            counts@ == Seq::new(i as nat, |k: int| 0u32),
        decreases MONSTER_TYPE_COUNT - i,
    {
        counts.push(0);
        i = i + 1;
        proof {
            assert(counts@ =~= Seq::new(i as nat, |k: int| 0u32));
        }
    }
    proof {
        assert(counts@ =~= empty_counts());
    }
    let mut k: usize = 0;
    while k < monsters.len()
        invariant
            k <= monsters@.len(),
            counts@.len() == MONSTER_TYPE_COUNT,
            counts@ == spec_counts(monsters@.take(k as int), episode),
        decreases monsters@.len() - k,
    {
        let m = monsters[k];
        if m.id == 0x84 {
            bump_count(&mut counts, MonsterType::Canadine.index(), 8);
        }
        match classify(m, episode) {
            Some(t) => {
                bump_count(&mut counts, t.index(), 1);
            },
            None => {},
        }
        k = k + 1;
        proof {
            assert(monsters@.take(k as int).drop_last() =~= monsters@.take(k as int - 1));
            assert(monsters@.take(k as int).last() == monsters@[k as int - 1]);
        }
    }
    proof {
        assert(monsters@.take(monsters@.len() as int) =~= monsters@);
    }
    Ok(DatFile { episode, monster_counts: counts })
}

} // verus!
