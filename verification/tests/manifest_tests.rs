use ebpm::error::PkgError;
use ebpm::program::Manifest;

#[test]
fn new_manifest_has_empty_scripts_and_cmd() {
    let files = vec!["bin/tool".to_string(), "docs".to_string()];
    let m = Manifest::new("tool".to_string(), &files);
    assert_eq!(m.name, "tool");
    assert_eq!(m.files, files);
    assert_eq!(m.install_script, "");
    assert_eq!(m.remove_script, "");
    assert_eq!(m.cmd, "");
}

#[test]
fn to_json_exact_text() {
    let m = Manifest {
        name: "tool".to_string(),
        files: vec!["bin/tool".to_string(), "docs/readme".to_string()],
        install_script: "setup.sh".to_string(),
        remove_script: "".to_string(),
        cmd: "$RES/bin/tool".to_string(),
    };
    assert_eq!(
        m.to_json(),
        "{\"name\":\"tool\",\"files\":[\"bin/tool\",\"docs/readme\"],\
         \"install_script\":\"setup.sh\",\"remove_script\":\"\",\"cmd\":\"$RES/bin/tool\"}"
    );
}

#[test]
fn to_json_escapes_quotes_backslashes_and_controls() {
    let m = Manifest {
        name: "tool".to_string(),
        files: Vec::new(),
        install_script: "".to_string(),
        remove_script: "".to_string(),
        cmd: "say \"hi\\there\"\n\tdone\r".to_string(),
    };
    let json = m.to_json();
    assert!(json.ends_with("\"cmd\":\"say \\\"hi\\\\there\\\"\\n\\tdone\\r\"}"));
}

#[test]
fn to_json_escapes_every_other_control_character() {
    let m = Manifest {
        name: "tool".to_string(),
        files: Vec::new(),
        install_script: "".to_string(),
        remove_script: "".to_string(),
        cmd: "a\u{8}b\u{0}c\u{1f}d".to_string(),
    };
    let json = m.to_json();
    assert!(json.ends_with("\"cmd\":\"a\\u0008b\\u0000c\\u001fd\"}"));
    let back = Manifest::from_json(&json).unwrap();
    assert_eq!(back.cmd, m.cmd);
}

#[test]
fn json_round_trip_restores_every_field() {
    let m = Manifest {
        name: "tool".to_string(),
        files: vec!["bin/tool".to_string(), "a b/c\"d".to_string()],
        install_script: "install.sh".to_string(),
        remove_script: "rm.sh".to_string(),
        cmd: "$RES/bin/tool --flag \u{7}".to_string(),
    };
    let back = Manifest::from_json(&m.to_json()).unwrap();
    assert_eq!(back.name, m.name);
    assert_eq!(back.files, m.files);
    assert_eq!(back.install_script, m.install_script);
    assert_eq!(back.remove_script, m.remove_script);
    assert_eq!(back.cmd, m.cmd);
}

#[test]
fn from_json_defaults_absent_optional_fields() {
    let m = Manifest::from_json("{\"name\":\"tool\"}").unwrap();
    assert_eq!(m.name, "tool");
    assert!(m.files.is_empty());
    assert_eq!(m.install_script, "");
    assert_eq!(m.remove_script, "");
    assert_eq!(m.cmd, "");
}

#[test]
fn from_json_ignores_unknown_fields() {
    let m = Manifest::from_json("{\"name\":\"tool\",\"color\":\"green\",\"cmd\":\"run\"}")
        .unwrap();
    assert_eq!(m.name, "tool");
    assert_eq!(m.cmd, "run");
}

#[test]
fn from_json_rejects_malformed_text() {
    assert!(matches!(
        Manifest::from_json("{\"name\":"),
        Err(PkgError::Parse(_))
    ));
}

#[test]
fn from_json_rejects_missing_name() {
    assert!(matches!(
        Manifest::from_json("{\"files\":[]}"),
        Err(PkgError::Parse(_))
    ));
}

#[test]
fn from_json_rejects_wrongly_typed_fields() {
    assert!(matches!(
        Manifest::from_json("{\"name\":7}"),
        Err(PkgError::Parse(_))
    ));
    assert!(matches!(
        Manifest::from_json("{\"name\":\"tool\",\"files\":[1]}"),
        Err(PkgError::Parse(_))
    ));
    assert!(matches!(
        Manifest::from_json("{\"name\":\"tool\",\"files\":\"bin\"}"),
        Err(PkgError::Parse(_))
    ));
    assert!(matches!(
        Manifest::from_json("{\"name\":\"tool\",\"cmd\":[]}"),
        Err(PkgError::Parse(_))
    ));
}

#[test]
fn from_json_rejects_unsafe_names() {
    assert!(matches!(
        Manifest::from_json("{\"name\":\"\"}"),
        Err(PkgError::InvalidName)
    ));
    assert!(matches!(
        Manifest::from_json("{\"name\":\"a/b\"}"),
        Err(PkgError::InvalidName)
    ));
    assert!(matches!(
        Manifest::from_json("{\"name\":\"..\"}"),
        Err(PkgError::InvalidName)
    ));
}

#[test]
fn is_valid_checks_the_name() {
    assert!(Manifest::new("tool".to_string(), &Vec::new()).is_valid());
    assert!(!Manifest::new("a/b".to_string(), &Vec::new()).is_valid());
    assert!(!Manifest::new("".to_string(), &Vec::new()).is_valid());
    assert!(!Manifest::new(".".to_string(), &Vec::new()).is_valid());
}

#[test]
fn error_kinds_describe_themselves() {
    assert_eq!(PkgError::InvalidName.describe(), "invalid program name");
    assert_eq!(PkgError::Io("x".to_string()).describe(), "i/o failure");
    assert_eq!(PkgError::Parse("x".to_string()).describe(), "parse failure");
}
