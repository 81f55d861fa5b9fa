use fromsoft_bindings::game_version::{DetectError, GameVersion, Language, ProductVersion};
use fromsoft_bindings::version_resource::{
    read_resource_metadata, read_version_metadata, resource_is_readable, words_of,
};

#[derive(Debug, PartialEq)]
enum Ds3Version {
    V1_15_2,
}

impl GameVersion for Ds3Version {
    const NAME: &'static str = "dark souls iii";

    fn from_lang_version(lang_id: u16, version: &str) -> Option<Self> {
        if lang_id == 0x0009 && version == "1.15.2.0" {
            Some(Ds3Version::V1_15_2)
        } else {
            None
        }
    }
}

fn utf16(s: &str) -> Vec<u16> {
    s.encode_utf16().collect()
}

fn pad_even(words: &mut Vec<u16>) {
    if words.len() % 2 != 0 {
        words.push(0);
    }
}

/// One version resource node: header, key, value and children.
fn node(key: &str, value_len: u16, kind: u16, value: &[u16], children: &[Vec<u16>]) -> Vec<u16> {
    let mut words = vec![0, value_len, kind];
    words.extend(utf16(key));
    words.push(0);
    pad_even(&mut words);
    words.extend_from_slice(value);
    for child in children {
        pad_even(&mut words);
        words.extend_from_slice(child);
    }
    words[0] = (words.len() * 2) as u16;
    words
}

fn version_blob(product: &str, lang: (u16, u16), version: (u16, u16, u16, u16)) -> Vec<u8> {
    let mut fixed = vec![0u16; 26];
    fixed[0] = 0x04BD;
    fixed[1] = 0xFEEF;
    // dwProductVersion: Minor, Major, Build, Patch
    fixed[8] = version.1;
    fixed[9] = version.0;
    fixed[10] = version.3;
    fixed[11] = version.2;
    let mut value = utf16(product);
    value.push(0);
    let product_name = node("ProductName", value.len() as u16, 1, &value, &[]);
    let company = {
        let mut v = utf16("FromSoftware");
        v.push(0);
        node("CompanyName", v.len() as u16, 1, &v, &[])
    };
    let table_key = format!("{:04x}{:04x}", lang.0, lang.1);
    let table = node(&table_key, 0, 1, &[], &[company, product_name]);
    let string_info = node("StringFileInfo", 0, 1, &[], &[table]);
    let translation = node("Translation", 4, 0, &[lang.0, lang.1], &[]);
    let var_info = node("VarFileInfo", 0, 1, &[], &[translation]);
    let root = node("VS_VERSION_INFO", 52, 0, &fixed, &[string_info, var_info]);
    root.iter().flat_map(|w| w.to_le_bytes()).collect()
}

fn put16(image: &mut [u8], at: usize, v: u16) {
    image[at..at + 2].copy_from_slice(&v.to_le_bytes());
}

fn put32(image: &mut [u8], at: usize, v: u32) {
    image[at..at + 4].copy_from_slice(&v.to_le_bytes());
}

/// A mapped PE64 image whose only content is a version resource.
fn image_with_version(blob: &[u8]) -> Vec<u8> {
    let mut image = vec![0u8; 0x800];
    image[0] = b'M';
    image[1] = b'Z';
    put32(&mut image, 0x3C, 0x40);
    image[0x40..0x44].copy_from_slice(b"PE\0\0");
    put16(&mut image, 0x44, 0x8664);
    put16(&mut image, 0x54, 0xF0);
    put16(&mut image, 0x56, 0x2022);
    put16(&mut image, 0x58, 0x20B);
    put32(&mut image, 0x78, 0x1000);
    put32(&mut image, 0x7C, 0x200);
    put32(&mut image, 0x90, 0x800);
    put32(&mut image, 0x94, 0x200);
    put32(&mut image, 0xC4, 16);
    put32(&mut image, 0xD8, 0x200);
    put32(&mut image, 0xDC, 0x600);
    let r = 0x200;
    put16(&mut image, r + 14, 1);
    put32(&mut image, r + 0x10, 16);
    put32(&mut image, r + 0x14, 0x8000_0018);
    put16(&mut image, r + 0x18 + 14, 1);
    put32(&mut image, r + 0x28, 1);
    put32(&mut image, r + 0x2C, 0x8000_0030);
    put16(&mut image, r + 0x30 + 14, 1);
    put32(&mut image, r + 0x40, 0x0409);
    put32(&mut image, r + 0x44, 0x48);
    put32(&mut image, r + 0x48, (r + 0x58) as u32);
    put32(&mut image, r + 0x4C, blob.len() as u32);
    image[r + 0x58..r + 0x58 + blob.len()].copy_from_slice(blob);
    image
}

#[test]
fn reads_version_metadata_from_image() {
    let blob = version_blob("DARK SOULS™ III", (0x0409, 0x04B0), (1, 15, 2, 0));
    let image = image_with_version(&blob);
    let m = read_version_metadata(&image).expect("version resource");
    assert_eq!(m.product_version, Some(ProductVersion { major: 1, minor: 15, patch: 2, build: 0 }));
    assert_eq!(m.translations, vec![Language { lang_id: 0x0409, charset_id: 0x04B0 }]);
    assert_eq!(
        m.strings,
        vec![
            ("CompanyName".to_string(), "FromSoftware".to_string()),
            ("ProductName".to_string(), "DARK SOULS™ III".to_string()),
        ]
    );
}

#[test]
fn detects_version_from_image() {
    let image = image_with_version(&version_blob("DARK SOULS™ III", (0x0409, 0x04B0), (1, 15, 2, 0)));
    assert_eq!(Ds3Version::try_detect(&image).unwrap().unwrap(), Ds3Version::V1_15_2);
    let blob = version_blob("DARK SOULS™ III", (0x0409, 0x04B0), (1, 15, 2, 0));
    assert_eq!(Ds3Version::detect(&blob).unwrap(), Ds3Version::V1_15_2);
}

#[test]
fn unknown_version_from_image() {
    let image = image_with_version(&version_blob("DARK SOULS III", (0x0411, 0x04B0), (1, 8, 0, 0)));
    match Ds3Version::try_detect(&image) {
        Some(Err(DetectError::UnsupportedVersion(v))) => assert_eq!(v, "1.8.0.0"),
        other => panic!("unexpected {:?}", other),
    }
}

#[test]
fn wrong_product_from_image() {
    let image = image_with_version(&version_blob("ELDEN RING™", (0x0409, 0x04B0), (1, 15, 2, 0)));
    assert!(matches!(Ds3Version::try_detect(&image), Some(Err(DetectError::WrongProduct { .. }))));
}

#[test]
fn unreadable_image_has_no_metadata() {
    assert!(read_version_metadata(&[0u8; 64]).is_none());
    assert!(read_version_metadata(&[]).is_none());
    assert!(Ds3Version::try_detect(&vec![0u8; 0x800]).is_none());
}

#[test]
fn image_without_resources_has_no_metadata() {
    let mut image = image_with_version(&[]);
    image[0xD8..0xE0].fill(0);
    assert!(read_version_metadata(&image).is_none());
}

#[test]
fn resource_words_are_little_endian() {
    assert_eq!(words_of(&[0x34, 0x12, 0xFF, 0x00, 0x07]), vec![0x1234, 0x00FF]);
    assert_eq!(words_of(&[]), Vec::<u16>::new());
}

#[test]
fn reads_metadata_from_resource_words() {
    let blob = version_blob("DARK SOULS™ III", (0x0411, 0x04B0), (1, 8, 0, 3));
    let words = words_of(&blob);
    assert!(resource_is_readable(&words));
    let m = read_resource_metadata(&words).expect("readable resource");
    assert_eq!(m.product_version, Some(ProductVersion { major: 1, minor: 8, patch: 0, build: 3 }));
    assert_eq!(m.translations, vec![Language { lang_id: 0x0411, charset_id: 0x04B0 }]);
    assert_eq!(m.strings[1], ("ProductName".to_string(), "DARK SOULS™ III".to_string()));
}

#[test]
fn empty_resource_has_no_version() {
    let m = read_resource_metadata(&[]).expect("nothing to misread");
    assert_eq!(m.product_version, None);
    assert!(m.translations.is_empty());
    assert!(m.strings.is_empty());
    assert!(matches!(Ds3Version::detect(&[]), Err(DetectError::MissingVersionMetadata)));
}

/// A root node whose one-character key ends on its last word.
fn key_filling_root() -> Vec<u8> {
    [10u16, 0, 0, 65, 0].iter().flat_map(|w| w.to_le_bytes()).collect()
}

#[test]
fn key_filling_node_is_refused() {
    let words = words_of(&key_filling_root());
    assert!(!resource_is_readable(&words));
    assert!(read_resource_metadata(&words).is_none());
    let image = image_with_version(&key_filling_root());
    assert!(read_version_metadata(&image).is_none());
    assert!(Ds3Version::try_detect(&image).is_none());
}

#[test]
fn key_filling_string_is_refused() {
    let mut value = utf16("FromSoftware");
    value.push(0);
    let company = node("CompanyName", value.len() as u16, 1, &value, &[]);
    let bad = vec![10u16, 0, 1, 65, 0];
    let table = node("040904b0", 0, 1, &[], &[company, bad]);
    let string_info = node("StringFileInfo", 0, 1, &[], &[table]);
    let root = node("VS_VERSION_INFO", 0, 0, &[], &[string_info]);
    let blob: Vec<u8> = root.iter().flat_map(|w| w.to_le_bytes()).collect();
    assert!(!resource_is_readable(&words_of(&blob)));
    assert!(Ds3Version::try_detect(&image_with_version(&blob)).is_none());
}

#[test]
fn misplaced_string_key_is_harmless_elsewhere() {
    // The same node under an unknown file info is never parsed.
    let bad = vec![10u16, 0, 1, 65, 0];
    let other = node("OtherFileInfo", 0, 1, &[], &[bad]);
    let root = node("VS_VERSION_INFO", 0, 0, &[], &[other]);
    let blob: Vec<u8> = root.iter().flat_map(|w| w.to_le_bytes()).collect();
    assert!(resource_is_readable(&words_of(&blob)));
    assert!(matches!(Ds3Version::detect(&blob), Err(DetectError::MissingVersionMetadata)));
}
