use region_prune::chunk::Chunk;
use region_prune::coords::{coords, decimal, region_coords};
use region_prune::layout::{
    declared_length, entry_offset, entry_vacant, record_offset, ENTRY_BYTES, GRID_SIDE,
    HEADER_BYTES, SECTOR_BYTES,
};
use region_prune::world::{World, REGION_DIRS};

#[test]
fn entry_offset_follows_the_formula() {
    assert_eq!(entry_offset(0, 0), 0);
    assert_eq!(entry_offset(1, 0), 4);
    assert_eq!(entry_offset(0, 1), 128);
    assert_eq!(entry_offset(5, 7), 4 * (5 + 7 * 32));
    assert_eq!(entry_offset(31, 31), 4092);
}

#[test]
fn entry_offset_covers_the_whole_grid() {
    for z in 0..32 {
        for x in 0..32 {
            assert_eq!(entry_offset(x, z), (4 * (x + z * 32)) as u64);
        }
    }
}

#[test]
fn entry_offset_wraps_cells_outside_the_grid() {
    assert_eq!(entry_offset(32, 0), 0);
    assert_eq!(entry_offset(33, 64), 4);
    assert_eq!(entry_offset(-1, 0), 4 * 31);
    assert_eq!(entry_offset(0, -1), 4 * 31 * 32);
    assert_eq!(entry_offset(-1, -33), 4092);
    assert_eq!(entry_offset(-32, -64), 0);
    assert_eq!(entry_offset(i32::MIN, i32::MAX), 4 * (0 + 31 * 32));
    assert_eq!(entry_offset(i32::MAX, i32::MIN), 4 * 31);
}

#[test]
fn layout_constants_describe_the_container() {
    assert_eq!(SECTOR_BYTES, 4096);
    assert_eq!(GRID_SIDE, 32);
    assert_eq!(ENTRY_BYTES, 4);
    assert_eq!(HEADER_BYTES, 5);
    assert_eq!(GRID_SIDE * GRID_SIDE * ENTRY_BYTES, SECTOR_BYTES);
}

#[test]
fn record_offset_counts_sectors_big_endian() {
    assert_eq!(record_offset(&[0, 0, 2, 1]), 8192);
    assert_eq!(record_offset(&[0, 1, 0, 1]), 256 * 4096);
    assert_eq!(record_offset(&[1, 0, 0, 1]), 65536 * 4096);
    assert_eq!(record_offset(&[1, 2, 3, 9]), (65536 + 512 + 3) * 4096);
    assert_eq!(record_offset(&[255, 255, 255, 255]), 0xff_ffff * 4096);
}

#[test]
fn record_offset_ignores_the_sector_count() {
    assert_eq!(record_offset(&[0, 0, 7, 0]), record_offset(&[0, 0, 7, 200]));
}

#[test]
fn vacant_entry_is_one_without_an_offset() {
    assert!(entry_vacant(&[0, 0, 0, 0]));
    assert!(entry_vacant(&[0, 0, 0, 3]));
    assert!(!entry_vacant(&[0, 0, 1, 0]));
    assert!(!entry_vacant(&[0, 1, 0, 0]));
    assert!(!entry_vacant(&[1, 0, 0, 0]));
}

#[test]
fn declared_length_is_big_endian() {
    assert_eq!(declared_length(&[0, 0, 0, 0, 2]), 0);
    assert_eq!(declared_length(&[0, 0, 0, 1, 2]), 1);
    assert_eq!(declared_length(&[0, 0, 1, 0, 2]), 256);
    assert_eq!(declared_length(&[0, 1, 0, 0, 2]), 65536);
    assert_eq!(declared_length(&[1, 0, 0, 0, 2]), 16777216);
    assert_eq!(declared_length(&[255, 255, 255, 255, 2]), u32::MAX);
    assert_eq!(declared_length(&[0, 0, 0, 9, 1]), declared_length(&[0, 0, 0, 9, 77]));
}

#[test]
fn decimal_reads_signed_numbers() {
    assert_eq!(decimal(b"0"), Some(0));
    assert_eq!(decimal(b"7"), Some(7));
    assert_eq!(decimal(b"-7"), Some(-7));
    assert_eq!(decimal(b"+7"), Some(7));
    assert_eq!(decimal(b"-0"), Some(0));
    assert_eq!(decimal(b"0012"), Some(12));
    assert_eq!(decimal(b"2147483647"), Some(i32::MAX));
    assert_eq!(decimal(b"-2147483648"), Some(i32::MIN));
    assert_eq!(decimal(b"000000000000000000000000000042"), Some(42));
}

#[test]
fn decimal_rejects_what_is_no_number() {
    assert_eq!(decimal(b""), None);
    assert_eq!(decimal(b"+"), None);
    assert_eq!(decimal(b"-"), None);
    assert_eq!(decimal(b"--1"), None);
    assert_eq!(decimal(b"+-1"), None);
    assert_eq!(decimal(b"1-"), None);
    assert_eq!(decimal(b"12a"), None);
    assert_eq!(decimal(b"a12"), None);
    assert_eq!(decimal(b" 1"), None);
    assert_eq!(decimal(b"1 "), None);
    assert_eq!(decimal(b"1.5"), None);
    assert_eq!(decimal(b"0x10"), None);
    assert_eq!(decimal("١٢".as_bytes()), None);
}

#[test]
fn decimal_rejects_numbers_that_do_not_fit() {
    assert_eq!(decimal(b"2147483648"), None);
    assert_eq!(decimal(b"-2147483649"), None);
    assert_eq!(decimal(b"4294967296"), None);
    assert_eq!(decimal(b"99999999999999999999999999999999999999"), None);
    assert_eq!(decimal(b"-99999999999999999999999999999999999999"), None);
    assert_eq!(decimal(b"18446744073709551617"), None);
}

#[test]
fn decimal_agrees_with_the_standard_parser() {
    let samples = [
        "", "0", "1", "-1", "+1", "+", "-", "00", "-00", "+00", "10", "2147483647", "2147483648",
        "-2147483648", "-2147483649", "21474836470", "0000000002147483647", "1e3", "1_000", "٣",
        "12 ", " 12", "+-3", "-+3", "3-", "9223372036854775807", "-9223372036854775808", "r", ".",
    ];
    for text in samples.iter() {
        assert_eq!(decimal(text.as_bytes()), text.parse::<i32>().ok(), "{:?}", text);
    }
}

#[test]
fn coords_reads_second_and_third_segment() {
    assert_eq!(coords(b"r.1.2.mca"), Some((1, 2)));
    assert_eq!(coords(b"r.-3.4.mca"), Some((-3, 4)));
    assert_eq!(coords(b"r.-3.-4.mca"), Some((-3, -4)));
    assert_eq!(coords(b"r.+5.0.mca"), Some((5, 0)));
    assert_eq!(coords(b"anything.10.20.ext"), Some((10, 20)));
    assert_eq!(coords(b".1.2."), Some((1, 2)));
    assert_eq!(coords(b"r.2147483647.-2147483648.mca"), Some((i32::MAX, i32::MIN)));
}

#[test]
fn coords_accepts_more_than_four_segments() {
    assert_eq!(coords(b"r.1.2.mca.bak"), Some((1, 2)));
    assert_eq!(coords(b"r.1.2.3.4.5"), Some((1, 2)));
    assert_eq!(coords(b"r.1.2.."), Some((1, 2)));
}

#[test]
fn coords_skips_names_with_fewer_than_four_segments() {
    assert_eq!(coords(b""), None);
    assert_eq!(coords(b"r"), None);
    assert_eq!(coords(b"r.1"), None);
    assert_eq!(coords(b"r.1.2"), None);
    assert_eq!(coords(b"1.2.mca"), None);
    assert_eq!(coords(b"level.dat"), None);
    assert_eq!(coords(b".."), None);
}

#[test]
fn coords_skips_names_whose_cell_is_no_number() {
    assert_eq!(coords(b"r.a.2.mca"), None);
    assert_eq!(coords(b"r.1.b.mca"), None);
    assert_eq!(coords(b"r..2.mca"), None);
    assert_eq!(coords(b"r.1..mca"), None);
    assert_eq!(coords(b"..."), None);
    assert_eq!(coords(b"r.1 .2.mca"), None);
    assert_eq!(coords(b"r.2147483648.0.mca"), None);
    assert_eq!(coords(b"r.0.-2147483649.mca"), None);
    assert_eq!(coords(b"r.1,5.2.mca"), None);
}

#[test]
fn coords_agrees_with_splitting_and_parsing() {
    let samples = [
        "r.0.0.mca", "r.-1.31.mca", "r.1.2", "r.1.2.mca.old", "....", "r.x.z.mca", "r.1.2.",
        "a.b", "r.+1.-0.mca", "r.1.٢.mca", "région.4.5.mca", "r.4.5.mça", "r.12345678901.1.mca",
        ".0.0.", "0.0.0.0", "r. 1.2.mca",
    ];
    for name in samples.iter() {
        let parts: Vec<&str> = name.split('.').collect();
        let expected = if parts.len() < 4 {
            None
        } else {
            match (parts[1].parse::<i32>(), parts[2].parse::<i32>()) {
                (Ok(x), Ok(z)) => Some((x, z)),
                _ => None,
            }
        };
        assert_eq!(region_coords(name), expected, "{:?}", name);
        assert_eq!(coords(name.as_bytes()), expected, "{:?}", name);
    }
}

#[test]
fn region_coords_reads_text() {
    assert_eq!(region_coords("r.12.-7.mca"), Some((12, -7)));
    assert_eq!(region_coords("r.12.mca"), None);
    assert_eq!(region_coords("çà.1.2.là"), Some((1, 2)));
}

#[test]
fn world_keeps_its_path() {
    let world = World::new("/srv/saves/alpha");
    assert_eq!(world.root(), "/srv/saves/alpha");
    assert_eq!(World::new("").root(), "");
}

#[test]
fn world_names_three_directories() {
    assert_eq!(REGION_DIRS, 3);
    assert_eq!(World::region_dir(0), Some("region"));
    assert_eq!(World::region_dir(1), Some("DIM-1/region"));
    assert_eq!(World::region_dir(2), Some("DIM1/region"));
    assert_eq!(World::region_dir(3), None);
    assert_eq!(World::region_dir(usize::MAX), None);
}

#[test]
fn plan_gives_one_slot_for_each_name() {
    let names: Vec<String> = vec![
        "r.0.0.mca".to_string(),
        "notes.txt".to_string(),
        "r.-1.5.mca".to_string(),
        "r.x.5.mca".to_string(),
        "r.3.4.mca.tmp".to_string(),
    ];
    let chunks = World::plan(&names, 1200);
    assert_eq!(
        chunks,
        vec![
            Some(Chunk::new(0, 0, 1200)),
            None,
            Some(Chunk::new(-1, 5, 1200)),
            None,
            Some(Chunk::new(3, 4, 1200)),
        ]
    );
}

#[test]
fn plan_of_an_empty_directory_is_empty() {
    assert_eq!(World::plan(&Vec::new(), 5), Vec::new());
}

#[test]
fn plan_is_not_disturbed_by_other_files() {
    let alone = World::plan(&vec!["r.7.8.mca".to_string()], 9);
    let crowded = World::plan(
        &vec![
            "README".to_string(),
            "r.7.8.mca".to_string(),
            "r.7.mca".to_string(),
            "r.one.two.mca".to_string(),
        ],
        9,
    );
    assert_eq!(alone, vec![Some(Chunk::new(7, 8, 9))]);
    assert_eq!(crowded, vec![None, Some(Chunk::new(7, 8, 9)), None, None]);
}

#[test]
fn chunk_new_keeps_its_arguments() {
    let chunk = Chunk::new(-4, 9, 77);
    assert_eq!(chunk.x, -4);
    assert_eq!(chunk.z, 9);
    assert_eq!(chunk.limit, 77);
}
