use ebpm::archive::{Archiver, Extractor};
use ebpm::filetransfer::{SourceListing, TransferStrategy};
use ebpm::package::{Package, UnpackedPackage};
use ebpm::program::{LayoutAction, Manifest};

fn tool_manifest() -> Manifest {
    Manifest {
        name: "tool".to_string(),
        files: vec!["bin/tool".to_string()],
        install_script: "".to_string(),
        remove_script: "".to_string(),
        cmd: "$RES/bin/tool".to_string(),
    }
}

#[test]
fn package_keeps_its_path() {
    let p = Package::new("tool.ebpm.zip".to_string());
    assert_eq!(p.path, "tool.ebpm.zip");
}

#[test]
fn pack_entries_list_every_file_and_the_manifest() {
    let staged = UnpackedPackage::new(tool_manifest(), ".".to_string());
    let entries = staged.pack_entries();
    assert_eq!(entries.len(), 2);
    assert_eq!(entries[0].archive_name(), "bin/tool");
    assert_eq!(entries[1].archive_name(), "manifest.ebpm.json");
    assert_eq!(staged.archive_file_name(), "tool.ebpm.zip");
}

#[test]
fn end_to_end_pack_unpack_install() {
    let tool_bytes = b"#!/bin/sh\necho tool\n".to_vec();
    let staged = UnpackedPackage::new(tool_manifest(), ".".to_string());

    // Pack: the declared file plus the manifest file itself.
    let manifest_json = staged.manifest.to_json();
    let entries = staged.pack_entries();
    let contents = vec![tool_bytes.clone(), manifest_json.clone().into_bytes()];
    let archive = Archiver::new(entries).compress(&contents).unwrap();

    // Unpack into extraction actions: both entries come back whole.
    let acts = Extractor::new(archive).extract().unwrap();
    assert_eq!(acts.len(), 2);
    assert_eq!(acts[0].parts, vec!["bin".to_string(), "tool".to_string()]);
    assert_eq!(acts[0].data, tool_bytes);
    assert_eq!(acts[1].parts, vec!["manifest.ebpm.json".to_string()]);
    assert_eq!(acts[1].data, manifest_json.clone().into_bytes());

    // The staged manifest read back from the extracted bytes equals the
    // packed one.
    let text = String::from_utf8(acts[1].data.clone()).unwrap();
    let back = Manifest::from_json(&text).unwrap();
    assert_eq!(back.name, staged.manifest.name);
    assert_eq!(back.files, staged.manifest.files);
    assert_eq!(back.cmd, staged.manifest.cmd);

    // Install: the plan populates the resource directory, copies the
    // manifest, and creates an executable launcher.  A declared single
    // file lands under the resource root under its own base name.
    let sources = vec![SourceListing::FileSource { path: "bin/tool".to_string() }];
    let plan = staged.install_plan("/h", &sources, TransferStrategy::Copy);

    assert!(plan.transfer.dirs.is_empty());
    assert_eq!(plan.transfer.ops.len(), 1);
    assert_eq!(plan.transfer.ops[0].src, "bin/tool");
    assert_eq!(plan.transfer.ops[0].dst, "/h/Applications/res/tool/tool");
    assert!(plan.transfer.cleanup.is_empty());

    assert_eq!(plan.manifest_op.src, "manifest.ebpm.json");
    assert_eq!(plan.manifest_op.dst, "/h/Applications/tool.json");
    assert!(plan.install_script.is_none());

    match &plan.layout[4] {
        LayoutAction::EnsureLauncher { path, content, mode } => {
            assert_eq!(path, "/h/Applications/exe/tool");
            assert_eq!(content, "#!/bin/bash\nebpm run tool $@");
            assert_eq!(mode & 0o111, 0o110);
        },
        _ => panic!("expected the launcher step"),
    }

    // Remove after install leaves no trace: the deletions name exactly
    // the paths the install plan created or wrote.
    let remove = staged.manifest.remove_plan("/h");
    assert_eq!(remove.remove_manifest, plan.manifest_op.dst);
    assert_eq!(remove.remove_launcher, "/h/Applications/exe/tool");
    assert_eq!(remove.remove_res_dir, "/h/Applications/res/tool");
}

#[test]
fn install_plan_runs_the_install_script_only_when_named() {
    let mut m = tool_manifest();
    m.install_script = "setup.sh".to_string();
    let staged = UnpackedPackage::new(m, "/stage".to_string());
    let plan = staged.install_plan("/h", &Vec::new(), TransferStrategy::Move);
    let script = plan.install_script.expect("the manifest names an install script");
    assert_eq!(script.script, "setup.sh");
    assert_eq!(script.cwd, "/h/Applications/res/tool");
    assert_eq!(plan.manifest_op.src, "manifest.ebpm.json");
}

#[test]
fn installing_a_declared_directory_mirrors_its_tree() {
    let mut m = tool_manifest();
    m.files = vec!["bin".to_string()];
    let staged = UnpackedPackage::new(m, "/stage".to_string());
    let sources = vec![SourceListing::DirSource {
        path: "bin".to_string(),
        subdirs: Vec::new(),
        leaves: vec!["tool".to_string()],
    }];
    let plan = staged.install_plan("/h", &sources, TransferStrategy::Copy);
    assert_eq!(plan.transfer.dirs, vec!["/h/Applications/res/tool/bin".to_string()]);
    assert_eq!(plan.transfer.ops.len(), 1);
    assert_eq!(plan.transfer.ops[0].src, "bin/tool");
    assert_eq!(plan.transfer.ops[0].dst, "/h/Applications/res/tool/bin/tool");
}
