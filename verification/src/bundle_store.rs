//! Storing a client certificate so that a failure on the way loses none.
//!
//! The new files are written into a directory beside the one in use and checked
//! there. Only then does the directory in use move aside and the new one take its
//! place.
use vstd::prelude::*;

use crate::mtls;
use crate::mtls::{BundleFile, CliMtlsBundle};
use crate::paths;
use crate::paths::{
    cli_mtls_backup_dir, cli_mtls_dir, cli_mtls_temp_dir, Environment, HomeNotSet, HostPath,
};

verus! {

/// A directory that storing touches: the one in use, the one that is written,
/// and the one that keeps what was in use.
#[derive(Clone, Copy, Debug, PartialEq, Eq, Structural)]
pub enum Place {
    InUse,
    Temp,
    Backup,
}

/// Why a bundle was not stored.
#[derive(Clone, Copy, Debug, PartialEq, Eq, Structural)]
pub enum StoreFailure {
    /// The directory could not be removed.
    Remove(Place),
    /// The directory could not be created.
    Create(Place),
    /// The file could not be written.
    Write(BundleFile),
    /// The file could not be looked at.
    Read(BundleFile),
    /// The file is empty.
    Empty(BundleFile),
    /// The directory in use could not move aside.
    MoveAside,
    /// The new directory could not take its place.
    MoveIn,
}

/// What is to be done next.
#[derive(Clone, Copy, Debug, PartialEq, Eq, Structural)]
pub enum StoreAction {
    /// See whether the directory exists.
    Exists(Place),
    /// Remove the directory with all that is in it.
    Remove(Place),
    /// Create the directory and those above it.
    Create(Place),
    /// Write the file into the new directory.
    Write(BundleFile),
    /// Ask for the length of the file in the new directory.
    Measure(BundleFile),
    /// Rename the first directory to the second.
    Rename(Place, Place),
    /// Nothing: the bundle is stored.
    Stored,
    /// Nothing: the bundle is not stored.
    Fail(StoreFailure),
}

/// How far storing a bundle has come.
#[derive(Clone, Copy, Debug, PartialEq, Eq, Structural)]
pub enum BundleStore {
    LookForTemp,
    ClearTemp,
    CreateTemp,
    Write(BundleFile),
    Measure(BundleFile),
    LookForInUse,
    LookForBackup,
    ClearBackup,
    MoveAside,
    MoveIn { had_backup: bool },
    MoveBack,
    DropBackup,
    Stored,
    Failed(StoreFailure),
}

/// The file behind a file, where there is one.
pub open spec fn next_file(file: BundleFile) -> Option<BundleFile> {
    match file {
        BundleFile::Ca => Some(BundleFile::Cert),
        BundleFile::Cert => Some(BundleFile::Key),
        BundleFile::Key => None,
    }
}

impl BundleStore {
    /// What is to be done next.
    pub open spec fn todo(self) -> StoreAction {
        match self {
            BundleStore::LookForTemp => StoreAction::Exists(Place::Temp),
            BundleStore::ClearTemp => StoreAction::Remove(Place::Temp),
            BundleStore::CreateTemp => StoreAction::Create(Place::Temp),
            BundleStore::Write(file) => StoreAction::Write(file),
            BundleStore::Measure(file) => StoreAction::Measure(file),
            BundleStore::LookForInUse => StoreAction::Exists(Place::InUse),
            BundleStore::LookForBackup => StoreAction::Exists(Place::Backup),
            BundleStore::ClearBackup => StoreAction::Remove(Place::Backup),
            BundleStore::MoveAside => StoreAction::Rename(Place::InUse, Place::Backup),
            BundleStore::MoveIn { .. } => StoreAction::Rename(Place::Temp, Place::InUse),
            BundleStore::MoveBack => StoreAction::Rename(Place::Backup, Place::InUse),
            BundleStore::DropBackup => StoreAction::Remove(Place::Backup),
            BundleStore::Stored => StoreAction::Stored,
            BundleStore::Failed(failure) => StoreAction::Fail(failure),
        }
    }

    /// What is to be done next.
    pub fn action(self) -> (r: StoreAction)
        ensures
            r == self.todo(),
            self is Stored <==> r is Stored,
            self matches BundleStore::Failed(failure) ==> r == StoreAction::Fail(failure),
            !(self is Failed) ==> !(r is Fail),
    {
        match self {
            BundleStore::LookForTemp => StoreAction::Exists(Place::Temp),
            BundleStore::ClearTemp => StoreAction::Remove(Place::Temp),
            BundleStore::CreateTemp => StoreAction::Create(Place::Temp),
            BundleStore::Write(file) => StoreAction::Write(file),
            BundleStore::Measure(file) => StoreAction::Measure(file),
            BundleStore::LookForInUse => StoreAction::Exists(Place::InUse),
            BundleStore::LookForBackup => StoreAction::Exists(Place::Backup),
            BundleStore::ClearBackup => StoreAction::Remove(Place::Backup),
            BundleStore::MoveAside => StoreAction::Rename(Place::InUse, Place::Backup),
            BundleStore::MoveIn { .. } => StoreAction::Rename(Place::Temp, Place::InUse),
            BundleStore::MoveBack => StoreAction::Rename(Place::Backup, Place::InUse),
            BundleStore::DropBackup => StoreAction::Remove(Place::Backup),
            BundleStore::Stored => StoreAction::Stored,
            BundleStore::Failed(failure) => StoreAction::Fail(failure),
        }
    }

    /// The step behind an action. The reply is `None` where the action failed or
    /// the directory does not exist, and holds the file's length where a file was
    /// measured.
    pub open spec fn after(self, reply: Option<u64>) -> BundleStore {
        let good = reply is Some;
        match self {
            BundleStore::LookForTemp => if good {
                BundleStore::ClearTemp
            } else {
                BundleStore::CreateTemp
            },
            BundleStore::ClearTemp => if good {
                BundleStore::CreateTemp
            } else {
                BundleStore::Failed(StoreFailure::Remove(Place::Temp))
            },
            BundleStore::CreateTemp => if good {
                BundleStore::Write(BundleFile::Ca)
            } else {
                BundleStore::Failed(StoreFailure::Create(Place::Temp))
            },
            BundleStore::Write(file) => if !good {
                BundleStore::Failed(StoreFailure::Write(file))
            } else if next_file(file) is Some {
                BundleStore::Write(next_file(file)->0)
            } else {
                BundleStore::Measure(BundleFile::Ca)
            },
            BundleStore::Measure(file) => if !good {
                BundleStore::Failed(StoreFailure::Read(file))
            } else if reply == Some(0u64) {
                BundleStore::Failed(StoreFailure::Empty(file))
            } else if next_file(file) is Some {
                BundleStore::Measure(next_file(file)->0)
            } else {
                BundleStore::LookForInUse
            },
            BundleStore::LookForInUse => if good {
                BundleStore::LookForBackup
            } else {
                BundleStore::MoveIn { had_backup: false }
            },
            BundleStore::LookForBackup => if good {
                BundleStore::ClearBackup
            } else {
                BundleStore::MoveAside
            },
            BundleStore::ClearBackup => if good {
                BundleStore::MoveAside
            } else {
                BundleStore::Failed(StoreFailure::Remove(Place::Backup))
            },
            BundleStore::MoveAside => if good {
                BundleStore::MoveIn { had_backup: true }
            } else {
                BundleStore::Failed(StoreFailure::MoveAside)
            },
            BundleStore::MoveIn { had_backup } => if good && had_backup {
                BundleStore::DropBackup
            } else if good {
                BundleStore::Stored
            } else if had_backup {
                BundleStore::MoveBack
            } else {
                BundleStore::Failed(StoreFailure::MoveIn)
            },
            BundleStore::MoveBack => BundleStore::Failed(StoreFailure::MoveIn),
            BundleStore::DropBackup => if good {
                BundleStore::Stored
            } else {
                BundleStore::Failed(StoreFailure::Remove(Place::Backup))
            },
            BundleStore::Stored => BundleStore::Stored,
            BundleStore::Failed(failure) => BundleStore::Failed(failure),
        }
    }

    /// Goes on behind an action. The reply is `None` where the action failed or
    /// the directory does not exist, and holds the file's length where a file was
    /// measured.
    pub fn next(self, reply: Option<u64>) -> (r: BundleStore)
        ensures
            r == self.after(reply),
            self is Stored || self is Failed ==> r == self,
    {
        match (self, reply) {
            (BundleStore::LookForTemp, Some(_)) => BundleStore::ClearTemp,
            (BundleStore::LookForTemp, None) => BundleStore::CreateTemp,
            (BundleStore::ClearTemp, Some(_)) => BundleStore::CreateTemp,
            (BundleStore::ClearTemp, None) => BundleStore::Failed(
                StoreFailure::Remove(Place::Temp),
            ),
            (BundleStore::CreateTemp, Some(_)) => BundleStore::Write(BundleFile::Ca),
            (BundleStore::CreateTemp, None) => BundleStore::Failed(
                StoreFailure::Create(Place::Temp),
            ),
            (BundleStore::Write(BundleFile::Ca), Some(_)) => BundleStore::Write(BundleFile::Cert),
            (BundleStore::Write(BundleFile::Cert), Some(_)) => BundleStore::Write(BundleFile::Key),
            (BundleStore::Write(BundleFile::Key), Some(_)) => BundleStore::Measure(BundleFile::Ca),
            (BundleStore::Write(file), None) => BundleStore::Failed(StoreFailure::Write(file)),
            (BundleStore::Measure(file), None) => BundleStore::Failed(StoreFailure::Read(file)),
            (BundleStore::Measure(file), Some(length)) => {
                if length == 0 {
                    BundleStore::Failed(StoreFailure::Empty(file))
                } else {
                    match file {
                        BundleFile::Ca => BundleStore::Measure(BundleFile::Cert),
                        BundleFile::Cert => BundleStore::Measure(BundleFile::Key),
                        BundleFile::Key => BundleStore::LookForInUse,
                    }
                }
            },
            (BundleStore::LookForInUse, Some(_)) => BundleStore::LookForBackup,
            (BundleStore::LookForInUse, None) => BundleStore::MoveIn { had_backup: false },
            (BundleStore::LookForBackup, Some(_)) => BundleStore::ClearBackup,
            (BundleStore::LookForBackup, None) => BundleStore::MoveAside,
            (BundleStore::ClearBackup, Some(_)) => BundleStore::MoveAside,
            (BundleStore::ClearBackup, None) => BundleStore::Failed(
                StoreFailure::Remove(Place::Backup),
            ),
            (BundleStore::MoveAside, Some(_)) => BundleStore::MoveIn { had_backup: true },
            (BundleStore::MoveAside, None) => BundleStore::Failed(StoreFailure::MoveAside),
            (BundleStore::MoveIn { had_backup: true }, Some(_)) => BundleStore::DropBackup,
            (BundleStore::MoveIn { had_backup: false }, Some(_)) => BundleStore::Stored,
            (BundleStore::MoveIn { had_backup: true }, None) => BundleStore::MoveBack,
            (BundleStore::MoveIn { had_backup: false }, None) => BundleStore::Failed(
                StoreFailure::MoveIn,
            ),
            (BundleStore::MoveBack, _) => BundleStore::Failed(StoreFailure::MoveIn),
            (BundleStore::DropBackup, Some(_)) => BundleStore::Stored,
            (BundleStore::DropBackup, None) => BundleStore::Failed(
                StoreFailure::Remove(Place::Backup),
            ),
            (BundleStore::Stored, _) => BundleStore::Stored,
            (BundleStore::Failed(failure), _) => BundleStore::Failed(failure),
        }
    }
}

/// Where the three directories are.
#[derive(Debug)]
pub struct BundlePlaces {
    pub in_use: HostPath,
    pub temp: HostPath,
    pub backup: HostPath,
}

impl BundlePlaces {
    /// Where a directory is.
    pub open spec fn path_of(self, place: Place) -> paths::PathView {
        match place {
            Place::InUse => self.in_use@,
            Place::Temp => self.temp@,
            Place::Backup => self.backup@,
        }
    }

    /// Where a directory is.
    pub fn path(&self, place: Place) -> (r: &HostPath)
        ensures
            r@ == self.path_of(place),
            place == Place::InUse ==> r@ == self.in_use@,
            place == Place::Temp ==> r@ == self.temp@,
            place == Place::Backup ==> r@ == self.backup@,
    {
        match place {
            Place::InUse => &self.in_use,
            Place::Temp => &self.temp,
            Place::Backup => &self.backup,
        }
    }

    /// Where a file is written before it comes into use.
    pub fn file_path(&self, file: BundleFile) -> (r: HostPath)
        ensures
            r@ == self.temp@.join(file.file_name()),
            r@.base == self.temp@.base,
            file == BundleFile::Ca ==> r@.parts == self.temp@.parts.push("ca.crt"@),
            file == BundleFile::Cert ==> r@.parts == self.temp@.parts.push("tls.crt"@),
            file == BundleFile::Key ==> r@.parts == self.temp@.parts.push("tls.key"@),
    {
        self.temp.clone().join(file.name())
    }
}

/// A bundle, where it is stored, and how far storing it has come.
#[derive(Debug)]
pub struct StorePlan {
    pub bundle: CliMtlsBundle,
    pub places: BundlePlaces,
    pub step: BundleStore,
}

/// Where the bundle of a cluster is to be stored, with nothing done yet.
pub fn store_cli_mtls_bundle(env: &Environment, name: &str, bundle: CliMtlsBundle) -> (r: Result<
    StorePlan,
    HomeNotSet,
>)
    ensures
        match (r, paths::config_dir(env.xdg_config_home, env.home)) {
            (Ok(plan), Some(config)) => {
                &&& plan.bundle@ == bundle@
                &&& plan.bundle.ca@ == bundle.ca@ && plan.bundle.cert@ == bundle.cert@
                    && plan.bundle.key@ == bundle.key@
                &&& plan.places.in_use@ == paths::cluster_dir(config, name@).join("mtls"@)
                &&& plan.places.temp@ == paths::cluster_dir(config, name@).join("mtls.tmp"@)
                &&& plan.places.backup@ == paths::cluster_dir(config, name@).join("mtls.bak"@)
                &&& plan.step == BundleStore::LookForTemp
            },
            (Err(_), None) => true,
            _ => false,
        },
{
    let in_use = match cli_mtls_dir(env, name) {
        Ok(dir) => dir,
        Err(e) => return Err(e),
    };
    let temp = match cli_mtls_temp_dir(env, name) {
        Ok(dir) => dir,
        Err(e) => return Err(e),
    };
    let backup = match cli_mtls_backup_dir(env, name) {
        Ok(dir) => dir,
        Err(e) => return Err(e),
    };
    Ok(
        StorePlan {
            bundle,
            places: BundlePlaces { in_use, temp, backup },
            step: BundleStore::LookForTemp,
        },
    )
}

/// What is said of a failure: a text, with a path inside it where it names one.
#[derive(Debug)]
pub struct StoreMessage {
    pub before: &'static str,
    pub path: Option<HostPath>,
    pub after: &'static str,
}

/// What a message holds.
pub struct MessageView {
    pub before: Seq<char>,
    pub path: Option<paths::PathView>,
    pub after: Seq<char>,
}

impl View for StoreMessage {
    type V = MessageView;

    open spec fn view(&self) -> MessageView {
        MessageView {
            before: self.before@,
            path: match self.path {
                Some(path) => Some(path@),
                None => None,
            },
            after: self.after@,
        }
    }
}

/// What is said of a failure.
pub open spec fn failure_text(failure: StoreFailure, places: BundlePlaces) -> MessageView {
    let (before, path, after) = match failure {
        StoreFailure::Remove(place) => ("failed to remove "@, Some(places.path_of(place)), ""@),
        StoreFailure::Create(place) => ("failed to create "@, Some(places.path_of(place)), ""@),
        StoreFailure::Write(file) => ("failed to write "@, None, file.file_name()),
        StoreFailure::Read(file) => (
            "failed to read "@,
            Some(places.temp@.join(file.file_name())),
            ""@,
        ),
        StoreFailure::Empty(file) => (
            ""@,
            Some(places.temp@.join(file.file_name())),
            " is empty"@,
        ),
        StoreFailure::MoveAside => ("failed to rename "@, Some(places.in_use@), ""@),
        StoreFailure::MoveIn => ("failed to move "@, Some(places.temp@), ""@),
    };
    MessageView { before, path, after }
}

/// What is said of a failure.
pub fn failure_message(failure: StoreFailure, places: &BundlePlaces) -> (r: StoreMessage)
    ensures
        r@ == failure_text(failure, *places),
        match failure {
            StoreFailure::Remove(place) => {
                &&& r.before@ == "failed to remove "@ && r.after@ == ""@
                &&& r.path is Some && r.path->0@ == places.path_of(place)
            },
            StoreFailure::Create(place) => {
                &&& r.before@ == "failed to create "@ && r.after@ == ""@
                &&& r.path is Some && r.path->0@ == places.path_of(place)
            },
            StoreFailure::Write(file) => {
                &&& r.before@ == "failed to write "@ && r.after@ == file.file_name()
                &&& r.path is None
            },
            StoreFailure::Read(file) => {
                &&& r.before@ == "failed to read "@ && r.after@ == ""@
                &&& r.path is Some && r.path->0@ == places.temp@.join(file.file_name())
            },
            StoreFailure::Empty(file) => {
                &&& r.before@ == ""@ && r.after@ == " is empty"@
                &&& r.path is Some && r.path->0@ == places.temp@.join(file.file_name())
            },
            StoreFailure::MoveAside => {
                &&& r.before@ == "failed to rename "@ && r.after@ == ""@
                &&& r.path is Some && r.path->0@ == places.in_use@
            },
            StoreFailure::MoveIn => {
                &&& r.before@ == "failed to move "@ && r.after@ == ""@
                &&& r.path is Some && r.path->0@ == places.temp@
            },
        },
{
    let (before, path, after) = match failure {
        StoreFailure::Remove(place) => (
            "failed to remove ",
            Some(places.path(place).clone()),
            "",
        ),
        StoreFailure::Create(place) => (
            "failed to create ",
            Some(places.path(place).clone()),
            "",
        ),
        StoreFailure::Write(file) => ("failed to write ", None, file.name()),
        StoreFailure::Read(file) => ("failed to read ", Some(places.file_path(file)), ""),
        StoreFailure::Empty(file) => ("", Some(places.file_path(file)), " is empty"),
        StoreFailure::MoveAside => ("failed to rename ", Some(places.in_use.clone()), ""),
        StoreFailure::MoveIn => ("failed to move ", Some(places.temp.clone()), ""),
    };
    StoreMessage { before, path, after }
}

/// What the three directories hold. A directory that does not exist is `None`.
#[verifier::ext_equal]
pub struct Disk {
    pub in_use: Option<Map<BundleFile, Seq<u8>>>,
    pub temp: Option<Map<BundleFile, Seq<u8>>>,
    pub backup: Option<Map<BundleFile, Seq<u8>>>,
}

impl Disk {
    /// What a directory holds.
    pub open spec fn at(self, place: Place) -> Option<Map<BundleFile, Seq<u8>>> {
        match place {
            Place::InUse => self.in_use,
            Place::Temp => self.temp,
            Place::Backup => self.backup,
        }
    }

    /// The disk with another directory at a place.
    pub open spec fn with(
        self,
        place: Place,
        directory: Option<Map<BundleFile, Seq<u8>>>,
    ) -> Disk {
        match place {
            Place::InUse => Disk { in_use: directory, ..self },
            Place::Temp => Disk { temp: directory, ..self },
            Place::Backup => Disk { backup: directory, ..self },
        }
    }
}

/// What an action, and the reply to it, may have done to the disk. A rename is
/// done or not; what removes, creates or writes and fails may have done a part of
/// its work.
pub open spec fn may_become(
    action: StoreAction,
    reply: Option<u64>,
    bundle: mtls::BundleView,
    before: Disk,
    now: Disk,
) -> bool {
    match action {
        StoreAction::Exists(place) => now == before && (reply is Some <==> before.at(place) is Some),
        StoreAction::Remove(place) => if reply is Some {
            now == before.with(place, None)
        } else {
            exists|rest: Option<Map<BundleFile, Seq<u8>>>| now == #[trigger] before.with(place, rest)
        },
        StoreAction::Create(place) => if reply is Some {
            now == before.with(
                place,
                Some(
                    match before.at(place) {
                        Some(directory) => directory,
                        None => Map::empty(),
                    },
                ),
            )
        } else {
            exists|rest: Option<Map<BundleFile, Seq<u8>>>| now == #[trigger] before.with(place, rest)
        },
        StoreAction::Write(file) => if reply is Some {
            before.temp is Some && now == before.with(
                Place::Temp,
                Some(before.temp->0.insert(file, file.part(bundle))),
            )
        } else {
            exists|rest: Option<Map<BundleFile, Seq<u8>>>|
                now == #[trigger] before.with(Place::Temp, rest)
        },
        StoreAction::Measure(file) => now == before && match reply {
            Some(length) => before.temp is Some && before.temp->0.contains_key(file)
                && before.temp->0[file].len() == length,
            None => true,
        },
        StoreAction::Rename(from, to) => if reply is Some {
            before.at(from) is Some && now == before.with(to, before.at(from)).with(from, None)
        } else {
            now == before
        },
        StoreAction::Stored => now == before,
        StoreAction::Fail(_) => now == before,
    }
}

/// The directory that a bundle makes.
pub open spec fn directory_of(bundle: mtls::BundleView) -> Map<BundleFile, Seq<u8>> {
    map![
        BundleFile::Ca => bundle.ca,
        BundleFile::Cert => bundle.cert,
        BundleFile::Key => bundle.key,
    ]
}

/// A run of storing a bundle: the steps, the disk at each, and the replies
/// between them.
pub open spec fn is_run(
    bundle: mtls::BundleView,
    steps: Seq<BundleStore>,
    disks: Seq<Disk>,
    replies: Seq<Option<u64>>,
) -> bool {
    &&& steps.len() == replies.len() + 1
    &&& disks.len() == replies.len() + 1
    &&& steps[0] == BundleStore::LookForTemp
    &&& forall|i: int|
        0 <= i < replies.len() ==> #[trigger] steps[i].after(replies[i]) == steps[i + 1]
            && may_become(steps[i].todo(), replies[i], bundle, disks[i], disks[i + 1])
}

/// What the new directory holds once all files up to one are written.
spec fn written_before(bundle: mtls::BundleView, file: BundleFile) -> Map<BundleFile, Seq<u8>> {
    match file {
        BundleFile::Ca => Map::empty(),
        BundleFile::Cert => Map::empty().insert(BundleFile::Ca, bundle.ca),
        BundleFile::Key => Map::empty().insert(BundleFile::Ca, bundle.ca).insert(
            BundleFile::Cert,
            bundle.cert,
        ),
    }
}

/// What holds at each step, given the disk on which storing began.
spec fn holds_at(step: BundleStore, bundle: mtls::BundleView, first: Disk, now: Disk) -> bool {
    let full = Some(directory_of(bundle));
    match step {
        BundleStore::LookForTemp => now == first,
        BundleStore::ClearTemp => now == first && first.temp is Some,
        BundleStore::CreateTemp => now == first.with(Place::Temp, None),
        BundleStore::Write(file) => now == first.with(
            Place::Temp,
            Some(written_before(bundle, file)),
        ),
        BundleStore::Measure(file) => now == first.with(Place::Temp, full) && (file
            == BundleFile::Ca || bundle.ca.len() > 0) && (file == BundleFile::Key
            ==> bundle.cert.len() > 0),
        BundleStore::LookForInUse => now == first.with(Place::Temp, full) && complete(bundle),
        BundleStore::LookForBackup => now == first.with(Place::Temp, full) && complete(bundle)
            && first.in_use is Some,
        BundleStore::ClearBackup => now == first.with(Place::Temp, full) && complete(bundle)
            && first.in_use is Some,
        BundleStore::MoveAside => now == first.with(Place::Temp, full).with(Place::Backup, None)
            && complete(bundle) && first.in_use is Some,
        BundleStore::MoveIn { had_backup } => complete(bundle) && had_backup == (first.in_use
            is Some) && now.temp == full && now.in_use is None && now.backup == (if had_backup {
            first.in_use
        } else {
            first.backup
        }),
        BundleStore::MoveBack => complete(bundle) && first.in_use is Some && now.temp == full
            && now.in_use is None && now.backup == first.in_use,
        BundleStore::DropBackup => complete(bundle) && now.temp is None && now.in_use == full
            && first.in_use is Some,
        BundleStore::Stored => complete(bundle) && now == (Disk {
            in_use: full,
            temp: None,
            backup: if first.in_use is Some {
                None
            } else {
                first.backup
            },
        }),
        BundleStore::Failed(failure) => match failure {
            StoreFailure::MoveIn => complete(bundle) && (now.in_use == first.in_use || (now.in_use
                is None && now.backup == first.in_use)),
            StoreFailure::Remove(Place::Backup) => complete(bundle) && (now.in_use == first.in_use
                || now.in_use == full),
            _ => now.in_use == first.in_use,
        },
    }
}

/// Whether no file of a bundle is empty.
pub open spec fn complete(bundle: mtls::BundleView) -> bool {
    bundle.ca.len() > 0 && bundle.cert.len() > 0 && bundle.key.len() > 0
}

proof fn lemma_step(
    step: BundleStore,
    reply: Option<u64>,
    bundle: mtls::BundleView,
    first: Disk,
    before: Disk,
    now: Disk,
)
    requires
        holds_at(step, bundle, first, before),
        may_become(step.todo(), reply, bundle, before, now),
    ensures
        holds_at(step.after(reply), bundle, first, now),
{
    match step {
        BundleStore::Write(BundleFile::Key) => {
            if reply is Some {
                assert(now.temp->0 =~= directory_of(bundle));
            }
        },
        _ => {},
    }
}

proof fn lemma_run(
    bundle: mtls::BundleView,
    steps: Seq<BundleStore>,
    disks: Seq<Disk>,
    replies: Seq<Option<u64>>,
    i: int,
)
    requires
        is_run(bundle, steps, disks, replies),
        0 <= i < steps.len(),
    ensures
        holds_at(steps[i], bundle, disks[0], disks[i]),
    decreases i,
{
    if i > 0 {
        lemma_run(bundle, steps, disks, replies, i - 1);
        assert(steps[i - 1].after(replies[i - 1]) == steps[i]);
        lemma_step(
            steps[i - 1],
            replies[i - 1],
            bundle,
            disks[0],
            disks[i - 1],
            disks[i],
        );
    }
}

/// Once a bundle is stored, the directory in use holds it and nothing else, no
/// file of it is empty, and what storing made on the way is gone.
pub proof fn law_stored_bundle_is_in_use(
    bundle: mtls::BundleView,
    steps: Seq<BundleStore>,
    disks: Seq<Disk>,
    replies: Seq<Option<u64>>,
    i: int,
)
    requires
        is_run(bundle, steps, disks, replies),
        0 <= i < steps.len(),
        steps[i] is Stored,
    ensures
        disks[i].in_use == Some(directory_of(bundle)),
        disks[i].temp is None,
        disks[0].in_use is Some ==> disks[i].backup is None,
        complete(bundle),
{
    lemma_run(bundle, steps, disks, replies, i);
}

/// At no time is a bundle lost or mixed: the directory in use holds what it held
/// before, or the whole new bundle, or it is away and the backup holds what it
/// held before.
pub proof fn law_no_bundle_is_lost(
    bundle: mtls::BundleView,
    steps: Seq<BundleStore>,
    disks: Seq<Disk>,
    replies: Seq<Option<u64>>,
    i: int,
)
    requires
        is_run(bundle, steps, disks, replies),
        0 <= i < steps.len(),
    ensures
        ({
            ||| disks[i].in_use == disks[0].in_use
            ||| disks[i].in_use == Some(directory_of(bundle)) && complete(bundle)
            ||| disks[i].in_use is None && disks[i].backup == disks[0].in_use
        }),
{
    lemma_run(bundle, steps, disks, replies, i);
}

/// A bundle with an empty file never comes into use.
pub proof fn law_incomplete_bundle_is_refused(
    bundle: mtls::BundleView,
    steps: Seq<BundleStore>,
    disks: Seq<Disk>,
    replies: Seq<Option<u64>>,
    i: int,
)
    requires
        is_run(bundle, steps, disks, replies),
        0 <= i < steps.len(),
        !complete(bundle),
    ensures
        disks[i].in_use == disks[0].in_use,
        !(steps[i] is Stored),
{
    lemma_run(bundle, steps, disks, replies, i);
}

/// Where storing fails before the directory in use moved aside, or because it
/// could not, that directory is as it was.
pub proof fn law_early_failure_changes_nothing(
    bundle: mtls::BundleView,
    steps: Seq<BundleStore>,
    disks: Seq<Disk>,
    replies: Seq<Option<u64>>,
    i: int,
)
    requires
        is_run(bundle, steps, disks, replies),
        0 <= i < steps.len(),
        steps[i] is Failed,
        steps[i]->Failed_0 != StoreFailure::MoveIn,
        steps[i]->Failed_0 != StoreFailure::Remove(Place::Backup),
    ensures
        disks[i].in_use == disks[0].in_use,
{
    lemma_run(bundle, steps, disks, replies, i);
}

/// Where storing fails, the directory in use is as it was: the bundle that moved
/// aside moves back, and an old backup that cannot be cleared does not touch it.
/// There are two exceptions. Where the bundle that moved aside cannot move back, the
/// backup holds it. Where only that backup cannot be removed at the end, the new
/// bundle is in use.
pub proof fn law_failure_is_undone(
    bundle: mtls::BundleView,
    steps: Seq<BundleStore>,
    disks: Seq<Disk>,
    replies: Seq<Option<u64>>,
    i: int,
)
    requires
        is_run(bundle, steps, disks, replies),
        0 <= i < replies.len(),
        !(steps[i] is Failed),
        steps[i + 1] is Failed,
    ensures
        ({
            let now = disks[i + 1];
            if steps[i] is DropBackup {
                now.in_use == Some(directory_of(bundle))
            } else if steps[i] is MoveBack && replies[i] is None {
                now.in_use is None && now.backup == disks[0].in_use
            } else {
                now.in_use == disks[0].in_use
            }
        }),
{
    lemma_run(bundle, steps, disks, replies, i);
    assert(steps[i].after(replies[i]) == steps[i + 1]);
}

/// How many replies storing can still wait for.
pub open spec fn replies_left(step: BundleStore) -> nat {
    match step {
        BundleStore::LookForTemp => 15,
        BundleStore::ClearTemp => 14,
        BundleStore::CreateTemp => 13,
        BundleStore::Write(BundleFile::Ca) => 12,
        BundleStore::Write(BundleFile::Cert) => 11,
        BundleStore::Write(BundleFile::Key) => 10,
        BundleStore::Measure(BundleFile::Ca) => 9,
        BundleStore::Measure(BundleFile::Cert) => 8,
        BundleStore::Measure(BundleFile::Key) => 7,
        BundleStore::LookForInUse => 6,
        BundleStore::LookForBackup => 5,
        BundleStore::ClearBackup => 4,
        BundleStore::MoveAside => 3,
        BundleStore::MoveIn { .. } => 2,
        BundleStore::MoveBack => 1,
        BundleStore::DropBackup => 1,
        BundleStore::Stored => 0,
        BundleStore::Failed(_) => 0,
    }
}

/// Storing ends: each reply brings it nearer to its end, whatever the reply is.
pub proof fn law_storing_ends(step: BundleStore, reply: Option<u64>)
    ensures
        replies_left(step) == 0 <==> step is Stored || step is Failed,
        replies_left(step) > 0 ==> replies_left(step.after(reply)) < replies_left(step),
{
}

/// What comes behind an action that was done, told by the actions alone. A directory
/// that is left over is removed, the new one is created, the files are written and then
/// measured in one order, and the directories are exchanged: one in use moves aside,
/// behind an old backup that is removed, and the new one takes its place.
pub proof fn law_actions_follow_each_other(step: BundleStore, reply: Option<u64>)
    requires
        reply is Some,
        step is Measure ==> reply->0 > 0,
    ensures
        ({
            let then = step.after(reply).todo();
            match step.todo() {
                StoreAction::Exists(Place::Temp) => then == StoreAction::Remove(Place::Temp),
                StoreAction::Remove(Place::Temp) => then == StoreAction::Create(Place::Temp),
                StoreAction::Create(place) => place == Place::Temp && then == StoreAction::Write(
                    BundleFile::Ca,
                ),
                StoreAction::Write(BundleFile::Ca) => then == StoreAction::Write(BundleFile::Cert),
                StoreAction::Write(BundleFile::Cert) => then == StoreAction::Write(BundleFile::Key),
                StoreAction::Write(BundleFile::Key) => then == StoreAction::Measure(BundleFile::Ca),
                StoreAction::Measure(BundleFile::Ca) => then == StoreAction::Measure(
                    BundleFile::Cert,
                ),
                StoreAction::Measure(BundleFile::Cert) => then == StoreAction::Measure(
                    BundleFile::Key,
                ),
                StoreAction::Measure(BundleFile::Key) => then == StoreAction::Exists(Place::InUse),
                StoreAction::Exists(Place::InUse) => then == StoreAction::Exists(Place::Backup),
                StoreAction::Exists(Place::Backup) => then == StoreAction::Remove(Place::Backup),
                StoreAction::Remove(Place::Backup) => if step is ClearBackup {
                    then == StoreAction::Rename(Place::InUse, Place::Backup)
                } else {
                    step is DropBackup && then == StoreAction::Stored
                },
                StoreAction::Remove(Place::InUse) => false,
                StoreAction::Rename(Place::InUse, Place::Backup) => then == StoreAction::Rename(
                    Place::Temp,
                    Place::InUse,
                ) && step.after(reply) == (BundleStore::MoveIn { had_backup: true }),
                StoreAction::Rename(Place::Temp, Place::InUse) => step is MoveIn && then == if (
                step->had_backup) {
                    StoreAction::Remove(Place::Backup)
                } else {
                    StoreAction::Stored
                },
                StoreAction::Rename(Place::Backup, Place::InUse) => then == StoreAction::Fail(
                    StoreFailure::MoveIn,
                ),
                StoreAction::Rename(_, _) => false,
                StoreAction::Stored => then == StoreAction::Stored,
                StoreAction::Fail(failure) => then == StoreAction::Fail(failure),
            }
        }),
{
}

/// A directory that does not exist is no failure: there is nothing to remove, and
/// nothing to move aside.
pub proof fn law_missing_directories_are_passed_over(step: BundleStore)
    ensures
        step.todo() == StoreAction::Exists(Place::Temp) ==> step.after(None).todo()
            == StoreAction::Create(Place::Temp),
        step.todo() == StoreAction::Exists(Place::InUse) ==> step.after(None) == (
        BundleStore::MoveIn { had_backup: false }),
        step.todo() == StoreAction::Exists(Place::Backup) ==> step.after(None).todo()
            == StoreAction::Rename(Place::InUse, Place::Backup),
        BundleStore::LookForTemp.todo() == StoreAction::Exists(Place::Temp),
{
}

/// A failure names the action that failed. Where the new directory cannot take its
/// place, what moved aside moves back first. An empty file is a failure of its own.
pub proof fn law_failure_names_the_action(step: BundleStore, reply: Option<u64>)
    ensures
        ({
            let now = step.after(reply);
            match step.todo() {
                StoreAction::Exists(_) => !(now is Failed),
                StoreAction::Remove(place) => now is Failed <==> reply is None,
                StoreAction::Create(place) => now is Failed <==> reply is None,
                StoreAction::Write(file) => now is Failed <==> reply is None,
                StoreAction::Measure(file) => now is Failed <==> reply is None || reply == Some(
                    0u64,
                ),
                StoreAction::Rename(Place::InUse, Place::Backup) => now is Failed <==> reply
                    is None,
                StoreAction::Rename(Place::Temp, Place::InUse) => {
                    &&& now is Failed <==> reply is None && step == (BundleStore::MoveIn {
                        had_backup: false,
                    })
                    &&& reply is None && step == (BundleStore::MoveIn { had_backup: true })
                        ==> now.todo() == StoreAction::Rename(Place::Backup, Place::InUse)
                },
                StoreAction::Rename(_, _) => now is Failed,
                StoreAction::Stored => now is Stored,
                StoreAction::Fail(_) => now == step,
            }
        }),
        step.after(reply) matches BundleStore::Failed(failure) ==> match step.todo() {
            StoreAction::Remove(place) => failure == StoreFailure::Remove(place),
            StoreAction::Create(place) => failure == StoreFailure::Create(place),
            StoreAction::Write(file) => failure == StoreFailure::Write(file),
            StoreAction::Measure(file) => failure == if reply is None {
                StoreFailure::Read(file)
            } else {
                StoreFailure::Empty(file)
            },
            StoreAction::Rename(Place::InUse, Place::Backup) => failure == StoreFailure::MoveAside,
            StoreAction::Rename(_, _) => failure == StoreFailure::MoveIn,
            StoreAction::Fail(before) => failure == before,
            _ => false,
        },
{
}

/// What is said of a failure names the path that it is about: the directory that could
/// not be removed, created or moved, or the file in the new directory.
pub proof fn law_failure_names_its_path(failure: StoreFailure, places: BundlePlaces)
    ensures
        match failure {
            StoreFailure::Remove(Place::InUse) => failure_text(failure, places).path == Some(
                places.in_use@,
            ),
            StoreFailure::Remove(Place::Temp) => failure_text(failure, places).path == Some(
                places.temp@,
            ),
            StoreFailure::Remove(Place::Backup) => failure_text(failure, places).path == Some(
                places.backup@,
            ),
            StoreFailure::Create(Place::InUse) => failure_text(failure, places).path == Some(
                places.in_use@,
            ),
            StoreFailure::Create(Place::Temp) => failure_text(failure, places).path == Some(
                places.temp@,
            ),
            StoreFailure::Create(Place::Backup) => failure_text(failure, places).path == Some(
                places.backup@,
            ),
            StoreFailure::Write(file) => failure_text(failure, places).path is None
                && failure_text(failure, places).after == file.file_name(),
            StoreFailure::Read(file) => failure_text(failure, places).path == Some(
                places.temp@.join(file.file_name()),
            ),
            StoreFailure::Empty(file) => failure_text(failure, places).path == Some(
                places.temp@.join(file.file_name()),
            ),
            StoreFailure::MoveAside => failure_text(failure, places).path == Some(places.in_use@),
            StoreFailure::MoveIn => failure_text(failure, places).path == Some(places.temp@),
        },
{
}

/// The directory of a bundle holds the three files of the bundle, each with its own
/// part, and nothing else.
pub proof fn law_directory_of_a_bundle(bundle: mtls::BundleView, file: BundleFile)
    ensures
        directory_of(bundle).contains_key(file),
        directory_of(bundle)[BundleFile::Ca] == bundle.ca,
        directory_of(bundle)[BundleFile::Cert] == bundle.cert,
        directory_of(bundle)[BundleFile::Key] == bundle.key,
{
}

/// What is said of a failure says what was tried, or that the file is empty.
pub proof fn law_failure_says_what_was_tried(failure: StoreFailure, places: BundlePlaces)
    ensures
        failure is Remove ==> failure_text(failure, places).before == "failed to remove "@,
        failure is Create ==> failure_text(failure, places).before == "failed to create "@,
        failure is Write ==> failure_text(failure, places).before == "failed to write "@,
        failure is Read ==> failure_text(failure, places).before == "failed to read "@,
        failure is Empty ==> failure_text(failure, places).before == ""@ && failure_text(
            failure,
            places,
        ).after == " is empty"@,
        failure is MoveAside ==> failure_text(failure, places).before == "failed to rename "@,
        failure is MoveIn ==> failure_text(failure, places).before == "failed to move "@,
        !(failure is Write) && !(failure is Empty) ==> failure_text(failure, places).after == ""@,
{
}

} // verus!
