use initerse::GridPos;
use initerse::codec::LoadError;
use initerse::tiles::World;
use initerse::tower::{Machine, Tower};

#[test]
fn serialize_exact_payload() {
    let m = Machine { tower: Tower::Electron, buffer: 2000, rate: 1000 };
    assert_eq!(m.serialize(), b"buffer: 2000 rate: 1000".to_vec());
}

#[test]
fn serialize_zero_payload() {
    let m = Machine { tower: Tower::AntimatterCollector, buffer: 0, rate: 1000 };
    assert_eq!(m.serialize(), b"buffer: 0 rate: 1000".to_vec());
}

#[test]
fn deserialize_exact_payload() {
    let m = Tower::Electron.deserialize_machine(b"buffer: 2000 rate: 1000").unwrap();
    assert_eq!(m.tower, Tower::Electron);
    assert_eq!(m.buffer, 2000);
    assert_eq!(m.rate, 1000);
}

#[test]
fn round_trip_every_storable_tag() {
    let tags = [
        Tower::Electron,
        Tower::StringCreator,
        Tower::AntimatterCollector,
        Tower::Energy,
    ];
    for (i, t) in tags.iter().enumerate() {
        let m = Machine { tower: *t, buffer: 17 * (i as u64 + 1), rate: 999 + i as u64 };
        let back = t.deserialize_machine(&m.serialize()).unwrap();
        assert_eq!(back, m);
    }
}

#[test]
fn round_trip_extreme_values() {
    let m = Machine { tower: Tower::Energy, buffer: u64::MAX, rate: u64::MAX };
    let back = Tower::Energy.deserialize_machine(&m.serialize()).unwrap();
    assert_eq!(back, m);
}

#[test]
fn deserialize_rejects_malformed() {
    assert_eq!(
        Tower::Electron.deserialize_machine(b""),
        Err(LoadError::Malformed)
    );
    assert_eq!(
        Tower::Electron.deserialize_machine(b"buffer: x rate: 1"),
        Err(LoadError::Malformed)
    );
    assert_eq!(
        Tower::Electron.deserialize_machine(b"buffer: 2000"),
        Err(LoadError::Malformed)
    );
    assert_eq!(
        Tower::Electron.deserialize_machine(b"buffer: 2000 rate: 1000 "),
        Err(LoadError::Malformed)
    );
    // a value that cannot fit in 64 bits is malformed.
    assert_eq!(
        Tower::Electron.deserialize_machine(b"buffer: 99999999999999999999999 rate: 1"),
        Err(LoadError::Malformed)
    );
}

#[test]
fn save_single_machine_exact_bytes() {
    let mut w = World::new(0, Vec::new());
    w.set_tower(GridPos::new(0, 0), Tower::Electron.new_machine().unwrap());
    assert_eq!(w.save(), b"0 0 1 buffer: 0 rate: 1000\n".to_vec());
}

#[test]
fn load_exact_record() {
    let w = World::load(b"2 -3 4 buffer: 5 rate: 6\n").unwrap();
    let m = w.get_tower(&GridPos::new(2, -3));
    assert_eq!(m.tower, Tower::Energy);
    assert_eq!(m.buffer, 5);
    assert_eq!(m.rate, 6);
}

#[test]
fn load_empty_text_gives_empty_world() {
    let w = World::load(b"").unwrap();
    assert!(w.try_get_tower(&GridPos::new(0, 0)).is_none());
    assert_eq!(w.tilesize(), 48_000);
}

#[test]
fn load_rejects_malformed_lines() {
    assert!(matches!(World::load(b"junk\n"), Err(LoadError::Malformed)));
    assert!(matches!(
        World::load(b"0 0 1 buffer: 0 rate: 0"),
        Err(LoadError::Malformed)
    ));
    // the sentinel tag has no code, so code 0 is malformed.
    assert!(matches!(
        World::load(b"0 0 0 buffer: 0 rate: 0\n"),
        Err(LoadError::Malformed)
    ));
    assert!(matches!(
        World::load(b"0 0 9 buffer: 0 rate: 0\n"),
        Err(LoadError::Malformed)
    ));
    // one bad record after a good one is fatal for the whole load.
    assert!(matches!(
        World::load(b"0 0 1 buffer: 0 rate: 1000\nbad\n"),
        Err(LoadError::Malformed)
    ));
}

#[test]
fn save_load_round_trip_many_machines() {
    let mut w = World::new(0, Vec::new());
    let cells = [
        (GridPos::new(0, 0), Tower::Electron),
        (GridPos::new(-1, -1), Tower::AntimatterCollector),
        (GridPos::new(2_000_000, -2_000_000), Tower::Energy),
        (GridPos::new(i32::MIN, i32::MAX), Tower::StringCreator),
    ];
    for (c, t) in cells.iter() {
        let mut m = t.new_machine().unwrap();
        m.buffer = 42;
        w.set_tower(*c, m);
    }
    let text = w.save();
    let w2 = World::load(&text).unwrap();
    for (c, t) in cells.iter() {
        let m = w2.try_get_tower(c).unwrap();
        assert_eq!(m.tower, *t);
        assert_eq!(m.buffer, 42);
    }
    // nothing extra came back.
    assert!(w2.try_get_tower(&GridPos::new(5, 5)).is_none());
}

#[test]
fn negative_coordinates_round_trip() {
    let mut w = World::new(0, Vec::new());
    let c = GridPos::new(-7, -2_000_000_000);
    w.set_tower(c, Tower::Electron.new_machine().unwrap());
    let w2 = World::load(&w.save()).unwrap();
    assert_eq!(w2.get_tower(&c).tower, Tower::Electron);
}
