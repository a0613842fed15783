//! Packages: the packed archive handle, the staged (unpacked) form, and
//! the planning of `pack` and `install` over them.

use vstd::prelude::*;

verus! {

use crate::archive::ArchivedFile;
use crate::filetransfer::{
    FilesTransfer,
    TransferStrategy,
    TransferOp,
    TransferPlan,
    SourceListing,
    spec_plan_dirs,
    spec_plan_ops,
    spec_plan_cleanup,
    op_views,
};
use crate::program::{
    Manifest,
    ProgramResources,
    LayoutAction,
    ScriptAction,
    spec_layout_actions,
    spec_res_path,
    spec_manifest_path,
};
use crate::paths::seq_views;
use vstd::string::StrSliceExecFns;

/// A packed package: a handle to one archive file.
pub struct Package {
    pub path: String,
}

impl Package {
    pub fn new(path: String) -> (r: Self)
        ensures
            r.path@ == path@,
    {
        Self { path }
    }
}

/// A staged package: a manifest paired with the directory that holds the
/// declared files and the manifest file itself.
pub struct UnpackedPackage {
    pub manifest: Manifest,
    pub path: String,
}

impl UnpackedPackage {
    pub fn new(manifest: Manifest, path: String) -> (r: Self)
        ensures
            r.manifest == manifest,
            r.path@ == path@,
    {
        Self { manifest, path }
    }

    /// The entry list `pack` stores: every manifest-declared file under
    /// its own relative name, then the manifest file itself.
    pub fn pack_entries(&self) -> (r: Vec<ArchivedFile>)
        ensures
            r@.len() == self.manifest.files@.len() + 1,
            forall|i: int|
                0 <= i < self.manifest.files@.len() ==> (#[trigger] r@[i] matches
                    ArchivedFile::File(p) && p@ == self.manifest.files@[i]@),
            r@[self.manifest.files@.len() as int] matches ArchivedFile::File(p) && p@
                == "manifest.ebpm.json"@,
    {
        let mut r: Vec<ArchivedFile> = Vec::new();
        let mut i: usize = 0;
        while i < self.manifest.files.len()
            invariant
                i <= self.manifest.files@.len(),
                r@.len() == i,
                forall|j: int|
                    0 <= j < i ==> (#[trigger] r@[j] matches ArchivedFile::File(p) && p@
                        == self.manifest.files@[j]@),
            decreases self.manifest.files@.len() - i,
        {
            r.push(ArchivedFile::File(self.manifest.files[i].clone()));
            i = i + 1;
        }
        r.push(ArchivedFile::File("manifest.ebpm.json".to_owned()));
        r
    }

    /// The file name `pack` writes the archive to: `<name>.ebpm.zip`.
    pub fn archive_file_name(&self) -> (r: String)
        ensures
            r@ == self.manifest.name@ + ".ebpm.zip"@,
    {
        let mut r = String::new();
        r.push_str(self.manifest.name.as_str());
        r.push_str(".ebpm.zip");
        r
    }

    /// Plans `install`: make the layout exist, carry every declared
    /// file into the resource directory, carry the manifest file to its
    /// copy location, and run the install script exactly when the
    /// manifest names one (a script failure aborts the installation).
    /// The runner performs the four parts in this order and stops at
    /// the first failure.  Every operation's source — the manifest
    /// file's included — is relative to the staged directory.
    pub fn install_plan(
        &self,
        home: &str,
        sources: &Vec<SourceListing>,
        strategy: TransferStrategy,
    ) -> (r: InstallPlan)
        ensures
            spec_layout_actions(r.layout@, home@, self.manifest.name@),
            r.transfer.strategy == strategy,
            seq_views(r.transfer.dirs@) == spec_plan_dirs(
                sources@,
                spec_res_path(home@, self.manifest.name@),
            ),
            op_views(r.transfer.ops@) == spec_plan_ops(
                sources@,
                spec_res_path(home@, self.manifest.name@),
            ),
            seq_views(r.transfer.cleanup@) == spec_plan_cleanup(sources@, strategy is Move),
            r.manifest_op.src@ == "manifest.ebpm.json"@,
            r.manifest_op.dst@ == spec_manifest_path(home@, self.manifest.name@),
            r.install_script is Some <==> self.manifest.install_script@.len() > 0,
            r.install_script matches Some(sa) ==> sa.script@ == self.manifest.install_script@
                && sa.cwd@ == spec_res_path(home@, self.manifest.name@),
    {
        let layout = ProgramResources::from(&self.manifest, home);
        let actions = ProgramResources::creation_actions(home, self.manifest.name.as_str());
        let transfer = FilesTransfer::new(strategy).execute_transfer(
            sources,
            layout.res_path.as_str(),
        );
        let manifest_op = TransferOp {
            src: "manifest.ebpm.json".to_owned(),
            dst: layout.manifest,
        };
        let install_script = if self.manifest.install_script.as_str().unicode_len() > 0 {
            Some(
                ScriptAction {
                    script: self.manifest.install_script.clone(),
                    cwd: layout.res_path.clone(),
                },
            )
        } else {
            None
        };
        InstallPlan { layout: actions, transfer, manifest_op, install_script }
    }
}

/// An installation, fully planned: the layout steps, the transfer of the
/// declared files into the resource directory, the manifest copy, and
/// the optional install script, in that order.
pub struct InstallPlan {
    pub layout: Vec<LayoutAction>,
    pub transfer: TransferPlan,
    pub manifest_op: TransferOp,
    pub install_script: Option<ScriptAction>,
}

} // verus!
