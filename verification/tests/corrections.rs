use dermixen_app::corrections::{correction_name, correction_path, correction_text};
use dermixen_app::units::ContentHash;

#[test]
fn a_correction_is_named_after_the_file_stem_and_the_hash() {
    let hash = ContentHash([1; 32]);
    assert_eq!(correction_name("/music/a.mp3", &hash), "a-01010101.anchors");
    let mut bytes = [0u8; 32];
    bytes[..4].copy_from_slice(&[0xde, 0xad, 0xbe, 0xef]);
    let other = ContentHash(bytes);
    assert_eq!(correction_name("/x/y.tar.gz", &other), "y.tar-deadbeef.anchors");
    assert_eq!(correction_name("/x/.hidden", &other), ".hidden-deadbeef.anchors");
    assert_eq!(correction_name("/x/dir/", &other), "dir-deadbeef.anchors");
    assert_eq!(correction_name("", &other), "-deadbeef.anchors");
}

#[test]
fn a_correction_lies_in_the_corrections_folder() {
    let hash = ContentHash([1; 32]);
    assert_eq!(
        correction_path("/data/corrections", "/music/a.mp3", &hash),
        "/data/corrections/a-01010101.anchors"
    );
}

#[test]
fn a_correction_holds_one_line_per_value() {
    assert_eq!(
        correction_text("/music/a.mp3", "140", "0.250000", "30.000000", "300.500000"),
        "# Written by the Dermixen timeline from a correction made by hand.\n\
         file /music/a.mp3\n\
         bpm 140\n\
         first_beat 0.250000\n\
         intro 30.000000 ear\n\
         outro 300.500000 ear\n"
    );
}
