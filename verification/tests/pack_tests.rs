use npdk::manifest::{parse_config, ConfigError};
use npdk::packer::{FileEntry, PackError, Packer};
use npdk::unpacker::{UnPacker, UnpackError};

const MANIFEST_NAME: &str = "plugin.conf.toml";
const DEMO_MANIFEST: &str =
    "package.name=\"demo\"\npackage.version=\"0.1.0\"\npackage.exposes=[]";

fn entry(name: &str, content: &str) -> FileEntry {
    FileEntry { name: name.to_string(), content: content.to_string() }
}

#[test]
fn concrete_scenario_demo_plugin() {
    let entries = vec![entry(MANIFEST_NAME, DEMO_MANIFEST), entry("index.js", "console.log(1)")];
    let packer = Packer::new("dist");
    let artifact = packer.pack(&entries).unwrap();
    assert_eq!(artifact.file_name, "demo.notex.plugin");
    let out = UnPacker::new("demo.notex.plugin").unpack(&artifact.data).unwrap();
    assert_eq!(out.len(), 2);
    assert_eq!(out[0], (MANIFEST_NAME.to_string(), DEMO_MANIFEST.to_string()));
    assert_eq!(out[1], ("index.js".to_string(), "console.log(1)".to_string()));
}

#[test]
fn roundtrip_keeps_every_pair() {
    let entries = vec![
        entry("src/a.ts", "export const a = 1;"),
        entry(MANIFEST_NAME, DEMO_MANIFEST),
        entry("readme.md", "# demo\nsome text"),
        entry("unicode.txt", "h\u{e9}ll\u{f8} \u{4e16}\u{754c}"),
    ];
    let artifact = Packer::new(".").pack(&entries).unwrap();
    let out = UnPacker::new("x").unpack(&artifact.data).unwrap();
    assert_eq!(out.len(), entries.len());
    for (i, e) in entries.iter().enumerate() {
        assert_eq!(out[i].0, e.name);
        assert_eq!(out[i].1, e.content);
    }
}

#[test]
fn boundary_empty_name_and_content_roundtrip() {
    let entries = vec![
        entry(MANIFEST_NAME, DEMO_MANIFEST),
        entry("", "content of the nameless file"),
        entry("empty.txt", ""),
        entry("after.txt", "still intact"),
    ];
    let artifact = Packer::new(".").pack(&entries).unwrap();
    let out = UnPacker::new("x").unpack(&artifact.data).unwrap();
    assert_eq!(out.len(), 4);
    assert_eq!(out[1], ("".to_string(), "content of the nameless file".to_string()));
    assert_eq!(out[2], ("empty.txt".to_string(), "".to_string()));
    assert_eq!(out[3], ("after.txt".to_string(), "still intact".to_string()));
}

#[test]
fn packing_twice_unpacks_identically() {
    let entries = vec![entry(MANIFEST_NAME, DEMO_MANIFEST), entry("a.js", "let x = 2;")];
    let p = Packer::new(".");
    let a1 = p.pack(&entries).unwrap();
    let a2 = p.pack(&entries).unwrap();
    let out1 = UnPacker::new("x").unpack(&a1.data).unwrap();
    let out2 = UnPacker::new("x").unpack(&a2.data).unwrap();
    assert_eq!(out1, out2);
}

#[test]
fn truncating_artifact_by_one_byte_fails_unpack() {
    let entries = vec![entry(MANIFEST_NAME, DEMO_MANIFEST), entry("index.js", "console.log(1)")];
    let artifact = Packer::new(".").pack(&entries).unwrap();
    let mut data = artifact.data.clone();
    data.truncate(data.len() - 1);
    assert!(UnPacker::new("x").unpack(&data).is_err());
}

#[test]
fn manifest_missing_fails_pack() {
    let entries = vec![entry("index.js", "console.log(1)"), entry("b.txt", "b")];
    assert_eq!(Packer::new(".").pack(&entries).unwrap_err(), PackError::ManifestMissing);
}

#[test]
fn manifest_duplicate_fails_pack() {
    let entries = vec![
        entry(MANIFEST_NAME, DEMO_MANIFEST),
        entry("index.js", "console.log(1)"),
        entry(MANIFEST_NAME, DEMO_MANIFEST),
    ];
    assert_eq!(Packer::new(".").pack(&entries).unwrap_err(), PackError::ManifestDuplicate);
}

#[test]
fn manifest_not_toml_fails_pack() {
    let entries = vec![entry(MANIFEST_NAME, "not a manifest at all {{{"), entry("a", "b")];
    assert_eq!(Packer::new(".").pack(&entries).unwrap_err(), PackError::ManifestInvalid);
}

#[test]
fn manifest_without_package_name_fails_pack() {
    let entries = vec![entry(MANIFEST_NAME, "package.version=\"1\"\npackage.exposes=[]")];
    assert_eq!(Packer::new(".").pack(&entries).unwrap_err(), PackError::ManifestInvalid);
}

#[test]
fn garbage_artifact_fails_decompression() {
    let garbage = vec![1u8, 2, 3, 4, 5];
    assert_eq!(
        UnPacker::new("x").unpack(&garbage).unwrap_err(),
        UnpackError::DecompressFailed
    );
}

#[test]
fn valid_brotli_of_truncated_records_fails_decode() {
    // a lone partial record header, compressed as a well-formed brotli stream
    let stream = vec![0u8, 0, 0, 5];
    let compressed = brotli_pack(&stream);
    assert_eq!(
        UnPacker::new("x").unpack(&compressed).unwrap_err(),
        UnpackError::DecodeTruncated
    );
}

#[test]
fn non_utf8_record_content_fails_decode() {
    // one record: name "a", content the invalid UTF-8 byte 0xff
    let stream = vec![0u8, 0, 0, 1, 0, 0, 0, 1, b'a', 0xff];
    let compressed = brotli_pack(&stream);
    assert_eq!(
        UnPacker::new("x").unpack(&compressed).unwrap_err(),
        UnpackError::DecodeInvalidText
    );
}

#[test]
fn repeated_names_come_back_in_stream_order() {
    // two records with the same name: both survive unpack, in stream order,
    // so a mapping built from the pairs lets the later one win
    let stream = vec![
        0u8, 0, 0, 1, 0, 0, 0, 1, b'a', b'1', // ("a", "1")
        0u8, 0, 0, 1, 0, 0, 0, 1, b'a', b'2', // ("a", "2")
    ];
    let compressed = brotli_pack(&stream);
    let out = UnPacker::new("x").unpack(&compressed).unwrap();
    assert_eq!(out, vec![
        ("a".to_string(), "1".to_string()),
        ("a".to_string(), "2".to_string()),
    ]);
}

fn brotli_pack(data: &[u8]) -> Vec<u8> {
    let params = brotli::enc::BrotliEncoderParams::default();
    let mut out = Vec::new();
    brotli::BrotliCompress(&mut &data[..], &mut out, &params).unwrap();
    out
}

#[test]
fn parse_config_reads_demo_manifest() {
    let c = parse_config(DEMO_MANIFEST).unwrap();
    assert_eq!(c.package.name, "demo");
    assert_eq!(c.package.version, "0.1.0");
    assert!(c.package.exposes.is_empty());
    assert!(c.profile.is_none());
}

#[test]
fn parse_config_reads_profile_and_exposes() {
    let text = "[package]\nname=\"p\"\nversion=\"2.0\"\nexposes=[\"Widget\",\"Panel\"]\n[profile]\nbuild=\"npm run build\"";
    let c = parse_config(text).unwrap();
    assert_eq!(c.package.name, "p");
    assert_eq!(c.package.exposes, vec!["Widget".to_string(), "Panel".to_string()]);
    assert_eq!(c.profile.unwrap().build, "npm run build");
}

#[test]
fn parse_config_rejects_non_manifest() {
    assert_eq!(parse_config("][").unwrap_err(), ConfigError::Invalid);
    assert_eq!(parse_config("package.name=7").unwrap_err(), ConfigError::Invalid);
}

#[test]
fn constructors_keep_their_paths() {
    let p = Packer::new("some/dir");
    assert_eq!(p.source, "some/dir");
    let u = UnPacker::new("demo.notex.plugin");
    assert_eq!(u.plugin_source, "demo.notex.plugin");
}
