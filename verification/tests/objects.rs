use quest_archive::read::dat::{self, extract_monster_data, detect_episode, MonsterData};
use quest_archive::read::ReadError;
use quest_archive::types::{Episode, MonsterType, MONSTER_TYPE_COUNT};

fn le(v: u32) -> [u8; 4] {
    v.to_le_bytes()
}

/// One 72-byte monster record: identifier, flag word (bit 23 set marks the
/// rare variant), and skin.
fn monster(id: u32, rare: bool, skin: u32) -> Vec<u8> {
    let mut m = vec![0u8; 72];
    m[0..4].copy_from_slice(&le(id));
    m[48..52].copy_from_slice(&le(if rare { 0x800000 } else { 0 }));
    m[64..68].copy_from_slice(&le(skin));
    m
}

/// A monster section (type 2) for one area, followed by a terminator header.
fn dat_stream(area: u32, monsters: &[Vec<u8>]) -> Vec<u8> {
    let size = 72 * monsters.len() as u32;
    let next = 16 + size;
    let mut data = Vec::new();
    data.extend(le(2));
    data.extend(le(next));
    data.extend(le(area));
    data.extend(le(size));
    for m in monsters {
        data.extend(m);
    }
    // A header of an unknown type ends the walk.
    data.extend(le(0));
    data.extend(le(16));
    data.extend(le(0));
    data.extend(le(0));
    data
}

#[test]
fn monster_records_are_extracted() {
    let data = dat_stream(3, &[monster(0x44, false, 1), monster(0x63, true, 2)]);
    let ms = extract_monster_data(&data).unwrap();
    assert_eq!(ms.len(), 2);
    assert_eq!(ms[0], MonsterData { id: 0x44, regular: true, skin: 1, area: 3 });
    assert_eq!(ms[1], MonsterData { id: 0x63, regular: false, skin: 2, area: 3 });
}

#[test]
fn non_monster_sections_are_walked_over() {
    let mut data = Vec::new();
    data.extend(le(1));
    data.extend(le(16));
    data.extend(le(9));
    data.extend(le(0));
    data.extend(dat_stream(2, &[monster(0x44, false, 0)]));
    let ms = extract_monster_data(&data).unwrap();
    assert_eq!(ms.len(), 1);
    assert_eq!(ms[0].id, 0x44);
}

#[test]
fn truncated_object_stream_is_an_io_error() {
    assert_eq!(extract_monster_data(&vec![0u8; 8]), Err(ReadError::Io));
    // A monster section whose records run past the end of the stream.
    let mut data = Vec::new();
    data.extend(le(2));
    data.extend(le(88));
    data.extend(le(1));
    data.extend(le(72));
    assert_eq!(extract_monster_data(&data), Err(ReadError::Io));
}

#[test]
fn stuck_header_is_invalid_data() {
    // A section header that does not advance the walk.
    let mut data = Vec::new();
    data.extend(le(1));
    data.extend(le(0));
    data.extend(le(0));
    data.extend(le(0));
    assert_eq!(extract_monster_data(&data), Err(ReadError::InvalidData));
}

#[test]
fn episode_detection_reads_the_first_hint() {
    let ms = vec![
        MonsterData { id: 0x999, regular: true, skin: 0, area: 0 },
        MonsterData { id: 0x110, regular: true, skin: 0, area: 0 },
    ];
    assert_eq!(detect_episode(&ms), Some(Episode::IV));
    let ms2 = vec![MonsterData { id: 0x44, regular: true, skin: 0, area: 0 }];
    assert_eq!(detect_episode(&ms2), Some(Episode::I));
    let ms3 = vec![MonsterData { id: 0xCA, regular: true, skin: 0, area: 0 }];
    assert_eq!(detect_episode(&ms3), Some(Episode::II));
    assert_eq!(detect_episode(&vec![]), None);
}

#[test]
fn area_dependent_hints() {
    let lily = |area: u32| MonsterData { id: 0x61, regular: true, skin: 0, area };
    assert_eq!(detect_episode(&vec![lily(4)]), Some(Episode::I));
    assert_eq!(detect_episode(&vec![lily(9)]), Some(Episode::II));
}

#[test]
fn booma_variants_are_counted_by_skin() {
    let data = dat_stream(
        1,
        &[monster(0x44, false, 0), monster(0x44, false, 1), monster(0x44, false, 4)],
    );
    let d = dat::read(&data).unwrap();
    assert_eq!(d.episode, Episode::I);
    assert_eq!(d.monster_counts.len(), MONSTER_TYPE_COUNT);
    assert_eq!(d.monster_counts[MonsterType::Booma.index()], 1);
    assert_eq!(d.monster_counts[MonsterType::Gobooma.index()], 2);
    assert_eq!(d.monster_counts[MonsterType::Gigobooma.index()], 0);
}

#[test]
fn composite_machine_counts_its_components() {
    // The composite machine counts once itself and eight of its component.
    let data = dat_stream(1, &[monster(0x84, false, 0)]);
    let d = dat::read(&data).unwrap();
    assert_eq!(d.episode, Episode::I);
    assert_eq!(d.monster_counts[MonsterType::Canane.index()], 1);
    assert_eq!(d.monster_counts[MonsterType::Canadine.index()], 8);
}

#[test]
fn episode_changes_the_classification() {
    // The same identifier names different kinds in different episodes; the
    // detected episode drives the classification.
    let data1 = dat_stream(1, &[monster(0x43, false, 0), monster(0x40, false, 0)]);
    let d1 = dat::read(&data1).unwrap();
    assert_eq!(d1.episode, Episode::I);
    assert_eq!(d1.monster_counts[MonsterType::SavageWolf.index()], 1);
    assert_eq!(d1.monster_counts[MonsterType::Hildebear.index()], 1);

    let data2 = dat_stream(5, &[monster(0x43, false, 0), monster(0x40, false, 0)]);
    let d2 = dat::read(&data2).unwrap();
    assert_eq!(d2.episode, Episode::II);
    assert_eq!(d2.monster_counts[MonsterType::SavageWolf2.index()], 1);
    assert_eq!(d2.monster_counts[MonsterType::Hildebear2.index()], 1);
}

#[test]
fn rare_flag_picks_the_rare_kind() {
    let data = dat_stream(1, &[monster(0x64, false, 0), monster(0x64, true, 0)]);
    let d = dat::read(&data).unwrap();
    assert_eq!(d.monster_counts[MonsterType::PofuillySlime.index()], 1);
    assert_eq!(d.monster_counts[MonsterType::PouillySlime.index()], 1);
}

#[test]
fn unknown_records_count_nothing() {
    let data = dat_stream(1, &[monster(0x44, false, 0), monster(0x999, false, 0)]);
    let d = dat::read(&data).unwrap();
    let total: u64 = d.monster_counts.iter().map(|&c| c as u64).sum();
    assert_eq!(total, 1);
}

#[test]
fn empty_object_stream_defaults_to_episode_one() {
    let mut data = Vec::new();
    data.extend(le(0));
    data.extend(le(16));
    data.extend(le(0));
    data.extend(le(0));
    let d = dat::read(&data).unwrap();
    assert_eq!(d.episode, Episode::I);
    assert!(d.monster_counts.iter().all(|&c| c == 0));
}
