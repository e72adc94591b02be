use std::io::{Cursor, Write};

use null_launcher::archive::{extracts_entry, installer_entry, jar_main_class, natives_in_jar};
use zip::write::SimpleFileOptions;

/// A jar with these entries, in order; `None` makes a directory.
fn jar(entries: &[(&str, Option<&[u8]>)]) -> Vec<u8> {
    let mut w = zip::ZipWriter::new(Cursor::new(Vec::new()));
    let opts = SimpleFileOptions::default();
    for (name, data) in entries {
        match data {
            Some(d) => {
                w.start_file(*name, opts).unwrap();
                w.write_all(d).unwrap();
            }
            None => {
                w.add_directory(*name, opts).unwrap();
            }
        }
    }
    w.finish().unwrap().into_inner()
}

fn natives_jar() -> Vec<u8> {
    jar(&[
        ("META-INF/", None),
        ("META-INF/MANIFEST.MF", Some(b"Manifest-Version: 1.0\r\n")),
        ("liblwjgl.so", Some(b"ELF-one")),
        ("linux/", None),
        ("linux/libglfw.so", Some(b"ELF-two")),
    ])
}

#[test]
fn extraction_skips_directories_and_excluded_entries() {
    let meta = Some(vec!["META-INF/".to_string()]);
    assert!(!extracts_entry("META-INF/", true, &None));
    assert!(!extracts_entry("META-INF/MANIFEST.MF", false, &meta));
    assert!(extracts_entry("META-INF/MANIFEST.MF", false, &None));
    assert!(extracts_entry("a.so", false, &meta));
    assert!(!extracts_entry("sub/", true, &meta));
    assert!(!extracts_entry("a.so", false, &Some(vec!["".to_string()])));
}

#[test]
fn native_files_of_a_jar() {
    let (files, error) = natives_in_jar(&natives_jar(), &Some(vec!["META-INF/".to_string()]));
    assert_eq!(error, None);
    assert_eq!(
        files,
        vec![
            ("liblwjgl.so".to_string(), b"ELF-one".to_vec()),
            ("linux/libglfw.so".to_string(), b"ELF-two".to_vec()),
        ]
    );
    let (all, error) = natives_in_jar(&natives_jar(), &None);
    assert_eq!(error, None);
    assert_eq!(all.len(), 3);
    assert_eq!(all[0].0, "META-INF/MANIFEST.MF");
    let (none, error) = natives_in_jar(b"PK broken", &None);
    assert!(none.is_empty());
    assert!(error.is_some());
}

#[test]
fn main_class_of_a_jar() {
    let with_main = jar(&[(
        "META-INF/MANIFEST.MF",
        Some(b"Manifest-Version: 1.0\r\nMain-Class: net.minecraftforge.installertools.ConsoleTool\r\n"),
    )]);
    assert_eq!(jar_main_class(&with_main), Ok(Some("net.minecraftforge.installertools.ConsoleTool".to_string())));
    let without = jar(&[("META-INF/MANIFEST.MF", Some(b"Manifest-Version: 1.0\r\n"))]);
    assert_eq!(jar_main_class(&without), Ok(None));
    let no_manifest = jar(&[("a.class", Some(b"x"))]);
    assert_eq!(jar_main_class(&no_manifest), Err("specified file not found in archive".to_string()));
    let not_text = jar(&[("META-INF/MANIFEST.MF", Some(&[0xff, 0xfe, 0x00]))]);
    assert!(jar_main_class(&not_text).is_err());
    assert!(jar_main_class(b"not a zip archive").is_err());
}

#[test]
fn installer_entries() {
    let installer = jar(&[
        ("install_profile.json", Some(b"{}")),
        ("data/client.lzma", Some(b"lzma")),
    ]);
    assert_eq!(installer_entry(&installer, "install_profile.json"), Ok(b"{}".to_vec()));
    assert_eq!(installer_entry(&installer, "/data/client.lzma"), Ok(b"lzma".to_vec()));
    assert_eq!(
        installer_entry(&installer, "/version.json"),
        Err("'version.json' not found in installer jar: specified file not found in archive".to_string())
    );
    assert!(installer_entry(b"not a zip archive", "install_profile.json").is_err());
}
