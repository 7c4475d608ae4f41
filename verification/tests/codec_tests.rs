use voxel_launcher::codec::{parse_descriptor, serialize_descriptor};
use voxel_launcher::descriptor::VersionData;

fn round_trip(d: &VersionData) {
    let text = serialize_descriptor(d);
    let back = parse_descriptor(text.as_str());
    assert_eq!(back, Some(d.clone()));
}

#[test]
fn round_trip_git_latest() {
    round_trip(&VersionData::GitLatest);
}

#[test]
fn round_trip_not_found() {
    round_trip(&VersionData::NotFound);
}

#[test]
fn round_trip_binary() {
    round_trip(&VersionData::Binary {
        url: "https://example.org/VoxelEngine.AppImage".to_string(),
        unzip: false,
    });
    round_trip(&VersionData::Binary {
        url: "https://example.org/win64.zip".to_string(),
        unzip: true,
    });
}

#[test]
fn round_trip_source() {
    round_trip(&VersionData::Source {
        zipball_url: "https://example.org/zipball/v15".to_string(),
    });
}

#[test]
fn round_trip_local() {
    round_trip(&VersionData::Local {
        binary: "VoxelEngine.AppImage".to_string(),
        origin: Box::new(VersionData::Binary {
            url: "https://example.org/VoxelEngine.AppImage".to_string(),
            unzip: false,
        }),
    });
    round_trip(&VersionData::Local {
        binary: "build/VoxelEngine".to_string(),
        origin: Box::new(VersionData::GitLatest),
    });
}

#[test]
fn round_trip_awkward_strings() {
    round_trip(&VersionData::Binary {
        url: "quote \" backslash \\ and \\\" both".to_string(),
        unzip: true,
    });
    round_trip(&VersionData::Source {
        zipball_url: String::new(),
    });
    round_trip(&VersionData::Local {
        binary: "\\\\\"\"".to_string(),
        origin: Box::new(VersionData::Source {
            zipball_url: "inner \" quote".to_string(),
        }),
    });
}

#[test]
fn serialized_text_is_readable() {
    let text = serialize_descriptor(&VersionData::Binary {
        url: "https://example.org/a".to_string(),
        unzip: true,
    });
    assert_eq!(text, "Binary(url:\"https://example.org/a\",unzip:true)");
    let text = serialize_descriptor(&VersionData::GitLatest);
    assert_eq!(text, "GitLatest");
    let text = serialize_descriptor(&VersionData::Local {
        binary: "b".to_string(),
        origin: Box::new(VersionData::NotFound),
    });
    assert_eq!(text, "Local(binary:\"b\",origin:NotFound)");
}

#[test]
fn corrupt_sidecar_is_rejected() {
    assert_eq!(parse_descriptor(""), None);
    assert_eq!(parse_descriptor("Gibberish"), None);
    assert_eq!(parse_descriptor("Binary(url:\"x\",unzip:maybe)"), None);
    assert_eq!(parse_descriptor("Binary(url:\"x\",unzip:true"), None);
    assert_eq!(parse_descriptor("Local(binary:\"x\",origin:"), None);
    assert_eq!(parse_descriptor("GitLatest trailing"), None);
}

#[test]
fn nested_local_is_rejected() {
    // A hand-written sidecar nesting Local inside Local violates the
    // one-level wrapping invariant and is treated as corrupt.
    let nested = "Local(binary:\"a\",origin:Local(binary:\"b\",origin:GitLatest))";
    assert_eq!(parse_descriptor(nested), None);
}

#[test]
fn descriptor_equality_is_structural() {
    let a = VersionData::Binary { url: "u".to_string(), unzip: true };
    let b = VersionData::Binary { url: "u".to_string(), unzip: true };
    let c = VersionData::Binary { url: "u".to_string(), unzip: false };
    assert_eq!(a, b);
    assert_ne!(a, c);
    assert_ne!(a, VersionData::GitLatest);
}
