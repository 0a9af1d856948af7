use suiji_potplayer::brand::app_icon;
use suiji_potplayer::library::{sorted_unique, Library};
use suiji_potplayer::pathname::{extension_of, file_name_of, file_stem_of, file_title, is_image_path, truncate_path};
use suiji_potplayer::potplayer::{first_existing, launch_many, potplayer_candidates};
use suiji_potplayer::text::{same_file, same_root, to_lower, trim};
use suiji_potplayer::tray::{tray_icon_rgba, TRAY_ICON_SIZE};

#[test]
fn windows_path_parts() {
    assert_eq!(file_name_of("D:\\Movies\\a.b.mkv"), Some("a.b.mkv".to_string()));
    assert_eq!(file_stem_of("D:\\Movies\\a.b.mkv"), Some("a.b".to_string()));
    assert_eq!(extension_of("D:\\Movies\\a.b.mkv"), Some("mkv".to_string()));
    assert_eq!(extension_of("D:\\Movies\\.hidden"), None);
    assert_eq!(file_name_of("D:\\Movies\\"), Some("Movies".to_string()));
    assert_eq!(file_name_of("D:\\"), None);
    assert_eq!(file_title("E:/x/Some Film.mp4"), "Some Film");
    assert_eq!(truncate_path("E:/x/abcdef.mp4", 4), "abc…");
    assert_eq!(truncate_path("E:/x/abc.mp4", 4), "abc");
    assert!(is_image_path("p\\IMG.JPEG"));
    assert!(!is_image_path("p\\clip.mkv"));
}

#[test]
fn text_helpers() {
    assert_eq!(trim("  a b \t"), "a b");
    assert_eq!(to_lower("AbC-Ω"), "abc-Ω");
    assert!(same_file("D:\\A.MKV", "d:\\a.mkv"));
    assert!(!same_file("D:\\A.MKV", "D:\\A.mkv "));
    assert!(same_root(" D:\\Movies\\ ", "d:\\movies"));
}

#[test]
fn player_candidates_and_choice() {
    let c = potplayer_candidates("  X:\\pot.exe ");
    assert_eq!(c.len(), 4);
    assert_eq!(c[0], "X:\\pot.exe");
    assert_eq!(first_existing(&c, &[false, false, true, true]), Some(c[2].clone()));
    assert_eq!(first_existing(&c, &[false]), None);
    assert_eq!(potplayer_candidates("").len(), 3);
}

#[test]
fn launch_outcomes_split() {
    let files = vec!["a.mkv".to_string(), "b.mkv".to_string()];
    let (items, errs) = launch_many(&files, &[Ok(7), Err("denied".to_string())]);
    assert_eq!(items.len(), 1);
    assert_eq!(items[0].path, "a.mkv");
    assert_eq!(items[0].pid, 7);
    assert_eq!(errs, vec!["b.mkv: denied".to_string()]);
}

#[test]
fn library_extension_match_and_sort() {
    let exts = vec![".mkv".to_string(), ".MP4".to_string()];
    assert!(Library::matches_extension("a\\y.Mp4", &exts));
    assert!(!Library::matches_extension("a\\z.txt", &exts));
    assert!(!Library::matches_extension("a\\noext", &exts));
    let files = vec!["b".to_string(), "a".to_string(), "b".to_string(), "Z".to_string()];
    assert_eq!(sorted_unique(files), vec!["Z".to_string(), "a".to_string(), "b".to_string()]);
    assert!(Library::empty().is_empty());
}

#[test]
fn tray_icon_pixels() {
    let px = tray_icon_rgba();
    assert_eq!(TRAY_ICON_SIZE, 32);
    assert_eq!(px.len(), 32 * 32 * 4);
    assert_eq!(&px[0..4], &[0xF7, 0xF3, 0xEC, 0xFF]);
    let at = |x: usize, y: usize| &px[(y * 32 + x) * 4..(y * 32 + x) * 4 + 4];
    assert_eq!(at(8, 8), &[0x1C, 0x19, 0x17, 0xFF]);
    assert_eq!(at(12, 15), &[0xF7, 0xF3, 0xEC, 0xFF]);
}

fn one_pixel_ico() -> Vec<u8> {
    let mut v: Vec<u8> = Vec::new();
    v.extend_from_slice(&[0, 0, 1, 0, 1, 0]);
    v.extend_from_slice(&[1, 1, 0, 0, 1, 0, 32, 0]);
    v.extend_from_slice(&48u32.to_le_bytes());
    v.extend_from_slice(&22u32.to_le_bytes());
    v.extend_from_slice(&40u32.to_le_bytes());
    v.extend_from_slice(&1i32.to_le_bytes());
    v.extend_from_slice(&2i32.to_le_bytes());
    v.extend_from_slice(&1u16.to_le_bytes());
    v.extend_from_slice(&32u16.to_le_bytes());
    v.extend_from_slice(&[0u8; 24]);
    v.extend_from_slice(&[0x10, 0x20, 0x30, 0xFF]);
    v.extend_from_slice(&[0, 0, 0, 0]);
    v
}

#[test]
fn app_icon_decodes_ico_bytes() {
    let ic = app_icon(&one_pixel_ico()).expect("a one-pixel icon");
    assert_eq!((ic.width, ic.height), (1, 1));
    assert_eq!(ic.rgba, vec![0x30, 0x20, 0x10, 0xFF]);
    assert!(app_icon(b"not an icon").is_none());
}

#[test]
fn file_name_skips_unc_verbatim_and_device_prefixes() {
    assert_eq!(file_name_of("\\\\NAS\\Movies"), None);
    assert_eq!(file_name_of("\\\\NAS\\Movies\\"), None);
    assert_eq!(file_name_of("\\\\NAS\\Movies\\Film"), Some("Film".to_string()));
    assert_eq!(file_name_of("\\\\?\\C:\\x\\y.mkv"), Some("y.mkv".to_string()));
    assert_eq!(file_name_of("\\\\?\\C:"), None);
    assert_eq!(file_name_of("\\\\?\\UNC\\NAS\\share"), None);
    assert_eq!(file_name_of("\\\\?\\UNC\\NAS\\share\\a.mkv"), Some("a.mkv".to_string()));
    assert_eq!(file_name_of("\\\\.\\COM1"), None);
    // Not a UNC prefix: the share is missing.
    assert_eq!(file_name_of("\\\\NAS"), Some("NAS".to_string()));
}
