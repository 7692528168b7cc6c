use rustypaint::stickers::{fingerprint, Shelf, STICKER_HISTORY};

#[test]
fn a_picture_placed_again_moves_to_the_end_rather_than_doubling() {
    let mut shelf = Shelf::new();
    shelf.remember(1, "one");
    shelf.remember(2, "two");
    shelf.remember(3, "three");
    shelf.remember(1, "one again");
    let prints: Vec<u64> = shelf.entries.iter().map(|e| e.0).collect();
    assert_eq!(prints, vec![2, 3, 1]);
    assert_eq!(shelf.entries.last().unwrap().1, "one again");
}

#[test]
fn the_shelf_keeps_only_the_newest_pictures() {
    let mut shelf = Shelf::new();
    for print in 0..20u64 {
        shelf.remember(print, print * 10);
    }
    assert_eq!(shelf.entries.len(), STICKER_HISTORY);
    assert_eq!(STICKER_HISTORY, 12);
    let prints: Vec<u64> = shelf.entries.iter().map(|e| e.0).collect();
    assert_eq!(prints, (8..20).collect::<Vec<u64>>());
    assert_eq!(shelf.entries[0].1, 80);
}

#[test]
fn the_same_picture_gets_the_same_fingerprint_and_another_does_not() {
    let red = [255u8, 0, 0, 255].repeat(4);
    let blue = [0u8, 0, 255, 255].repeat(4);
    assert_eq!(fingerprint((2, 2), &red), fingerprint((2, 2), &red));
    assert_ne!(fingerprint((2, 2), &red), fingerprint((2, 2), &blue));
    assert_ne!(fingerprint((2, 2), &red), fingerprint((4, 1), &red), "the size counts too");
}

#[test]
fn a_picture_is_told_apart_by_its_pixels() {
    let mut shelf = Shelf::new();
    let red = [255u8, 0, 0, 255].repeat(4);
    let blue = [0u8, 0, 255, 255].repeat(4);
    shelf.remember_picture((2, 2), &red, "red");
    shelf.remember_picture((2, 2), &blue, "blue");
    shelf.remember_picture((2, 2), &red, "red again");
    let names: Vec<&str> = shelf.entries.iter().map(|e| e.1).collect();
    assert_eq!(names, vec!["blue", "red again"]);
}

#[test]
fn the_fingerprint_is_the_standard_hash_of_the_size_and_the_bytes() {
    let bytes = [10u8, 20, 30, 40, 50, 60, 70, 80].repeat(3);
    let mut hasher = std::collections::hash_map::DefaultHasher::new();
    std::hash::Hash::hash(&(3u32, 2u32), &mut hasher);
    std::hash::Hash::hash(bytes.as_slice(), &mut hasher);
    assert_eq!(fingerprint((3, 2), &bytes), std::hash::Hasher::finish(&hasher));
}
