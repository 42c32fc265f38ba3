use navigator_bootstrap::bundle_store::{
    failure_message, store_cli_mtls_bundle, BundleStore, Place, StoreAction, StoreFailure,
};
use navigator_bootstrap::mtls::{BundleFile, CliMtlsBundle};
use navigator_bootstrap::paths::{Environment, HostPath};
use std::collections::BTreeMap;
use std::path::PathBuf;

fn shown(path: &HostPath) -> String {
    let joined = path
        .parts
        .iter()
        .fold(PathBuf::from(&path.base), |joined, part| joined.join(part));
    joined.to_str().unwrap().to_string()
}

fn environment() -> Environment {
    Environment {
        home: None,
        xdg_config_home: Some("/cfg".to_string()),
        kubeconfig: None,
        cluster_image: None,
        image_tag: None,
    }
}

fn bundle(key: &str) -> CliMtlsBundle {
    CliMtlsBundle {
        ca: b"ca".to_vec(),
        cert: b"cert".to_vec(),
        key: key.as_bytes().to_vec(),
    }
}

#[derive(Default)]
struct Disk {
    dirs: BTreeMap<String, BTreeMap<String, Vec<u8>>>,
}

fn label(place: Place) -> String {
    format!("{place:?}")
}

impl Disk {
    fn perform(&mut self, action: StoreAction, bundle: &CliMtlsBundle) -> Option<u64> {
        match action {
            StoreAction::Exists(place) => self.dirs.get(&label(place)).map(|_| 0),
            StoreAction::Remove(place) => self.dirs.remove(&label(place)).map(|_| 0),
            StoreAction::Create(place) => {
                self.dirs.entry(label(place)).or_default();
                Some(0)
            }
            StoreAction::Write(file) => {
                let dir = self.dirs.get_mut(&label(Place::Temp))?;
                dir.insert(file.name().to_string(), file.contents(bundle).clone());
                Some(0)
            }
            StoreAction::Measure(file) => {
                let dir = self.dirs.get(&label(Place::Temp))?;
                dir.get(file.name()).map(|contents| contents.len() as u64)
            }
            StoreAction::Rename(from, to) => {
                let dir = self.dirs.remove(&label(from))?;
                self.dirs.insert(label(to), dir);
                Some(0)
            }
            StoreAction::Stored | StoreAction::Fail(_) => unreachable!(),
        }
    }
}

/// Stores a bundle, with the action of one number failing.
fn run(disk: &mut Disk, stored: &CliMtlsBundle, failing: usize) -> (StoreAction, usize) {
    let mut step = store_cli_mtls_bundle(&environment(), "dev", bundle("x"))
        .unwrap()
        .step;
    let mut count = 0;
    loop {
        let action = step.action();
        if matches!(action, StoreAction::Stored | StoreAction::Fail(_)) {
            return (action, count);
        }
        let reply = if count == failing && !matches!(action, StoreAction::Exists(_)) {
            None
        } else {
            disk.perform(action, stored)
        };
        step = step.next(reply);
        count += 1;
    }
}

#[test]
fn first_bundle_is_stored() {
    let mut disk = Disk::default();
    let (end, _) = run(&mut disk, &bundle("k"), usize::MAX);
    assert!(matches!(end, StoreAction::Stored));
    assert_eq!(disk.dirs.len(), 1);
    let dir = &disk.dirs["InUse"];
    assert_eq!(dir["ca.crt"], b"ca".to_vec());
    assert_eq!(dir["tls.crt"], b"cert".to_vec());
    assert_eq!(dir["tls.key"], b"k".to_vec());
}

#[test]
fn next_bundle_replaces_the_first() {
    let mut disk = Disk::default();
    run(&mut disk, &bundle("old"), usize::MAX);
    disk.dirs.insert("Temp".to_string(), BTreeMap::new());
    disk.dirs.insert("Backup".to_string(), BTreeMap::new());
    let (end, count) = run(&mut disk, &bundle("new"), usize::MAX);
    assert!(matches!(end, StoreAction::Stored));
    assert_eq!(count, 15);
    assert_eq!(disk.dirs.len(), 1);
    assert_eq!(disk.dirs["InUse"]["tls.key"], b"new".to_vec());
}

#[test]
fn empty_file_is_refused() {
    let mut disk = Disk::default();
    run(&mut disk, &bundle("old"), usize::MAX);
    let (end, _) = run(&mut disk, &bundle(""), usize::MAX);
    assert_eq!(end, StoreAction::Fail(StoreFailure::Empty(BundleFile::Key)));
    assert_eq!(disk.dirs["InUse"]["tls.key"], b"old".to_vec());
}

#[test]
fn no_failure_loses_the_bundle_in_use() {
    let mut failures = Vec::new();
    for failing in 0..15usize {
        let mut disk = Disk::default();
        run(&mut disk, &bundle("old"), usize::MAX);
        disk.dirs.insert("Temp".to_string(), BTreeMap::new());
        disk.dirs.insert("Backup".to_string(), BTreeMap::new());
        let (end, _) = run(&mut disk, &bundle("new"), failing);
        let key = disk.dirs["InUse"]["tls.key"].clone();
        match end {
            StoreAction::Stored => assert_eq!(key, b"new".to_vec()),
            StoreAction::Fail(failure) => {
                failures.push(failure);
                assert!(key == b"old".to_vec() || key == b"new".to_vec());
            }
            _ => unreachable!(),
        }
    }
    assert_eq!(
        failures,
        vec![
            StoreFailure::Remove(Place::Temp),
            StoreFailure::Create(Place::Temp),
            StoreFailure::Write(BundleFile::Ca),
            StoreFailure::Write(BundleFile::Cert),
            StoreFailure::Write(BundleFile::Key),
            StoreFailure::Read(BundleFile::Ca),
            StoreFailure::Read(BundleFile::Cert),
            StoreFailure::Read(BundleFile::Key),
            StoreFailure::Remove(Place::Backup),
            StoreFailure::MoveAside,
            StoreFailure::MoveIn,
            StoreFailure::Remove(Place::Backup),
        ]
    );
}

#[test]
fn bundle_moves_back_where_the_new_one_cannot_move_in() {
    let step = BundleStore::MoveIn { had_backup: true }.next(None);
    assert_eq!(step.action(), StoreAction::Rename(Place::Backup, Place::InUse));
    assert_eq!(
        step.next(Some(0)).action(),
        StoreAction::Fail(StoreFailure::MoveIn)
    );
    assert_eq!(step.next(None).action(), StoreAction::Fail(StoreFailure::MoveIn));
    let first = BundleStore::MoveIn { had_backup: false };
    assert_eq!(first.next(None).action(), StoreAction::Fail(StoreFailure::MoveIn));
}

#[test]
fn failure_is_undone() {
    for failing in 0..14usize {
        let mut disk = Disk::default();
        run(&mut disk, &bundle("old"), usize::MAX);
        disk.dirs.insert("Temp".to_string(), BTreeMap::new());
        disk.dirs.insert("Backup".to_string(), BTreeMap::new());
        if let (StoreAction::Fail(_), _) = run(&mut disk, &bundle("new"), failing) {
            assert_eq!(disk.dirs["InUse"]["tls.key"], b"old".to_vec(), "{failing}");
        }
    }
    let mut disk = Disk::default();
    run(&mut disk, &bundle("old"), usize::MAX);
    let (end, count) = run(&mut disk, &bundle("new"), 12);
    assert_eq!(end, StoreAction::Fail(StoreFailure::Remove(Place::Backup)));
    assert_eq!(count, 13);
    assert_eq!(disk.dirs["InUse"]["tls.key"], b"new".to_vec());
}

#[test]
fn store_failures_are_told() {
    let plan = store_cli_mtls_bundle(&environment(), "dev", bundle("k")).unwrap();
    assert_eq!(plan.bundle.key, b"k".to_vec());
    let tell = |failure| {
        let said = failure_message(failure, &plan.places);
        let path = said.path.as_ref().map(shown).unwrap_or_default();
        format!("{}{}{}", said.before, path, said.after)
    };
    assert_eq!(
        shown(plan.places.path(Place::InUse)),
        "/cfg/navigator/clusters/dev/mtls"
    );
    assert_eq!(
        tell(StoreFailure::Remove(Place::Backup)),
        "failed to remove /cfg/navigator/clusters/dev/mtls.bak"
    );
    assert_eq!(
        tell(StoreFailure::Create(Place::Temp)),
        "failed to create /cfg/navigator/clusters/dev/mtls.tmp"
    );
    assert_eq!(
        tell(StoreFailure::Write(BundleFile::Cert)),
        "failed to write tls.crt"
    );
    assert_eq!(
        tell(StoreFailure::Read(BundleFile::Ca)),
        "failed to read /cfg/navigator/clusters/dev/mtls.tmp/ca.crt"
    );
    assert_eq!(
        tell(StoreFailure::Empty(BundleFile::Key)),
        "/cfg/navigator/clusters/dev/mtls.tmp/tls.key is empty"
    );
    assert_eq!(
        tell(StoreFailure::MoveAside),
        "failed to rename /cfg/navigator/clusters/dev/mtls"
    );
    assert_eq!(
        tell(StoreFailure::MoveIn),
        "failed to move /cfg/navigator/clusters/dev/mtls.tmp"
    );
    let mut env = environment();
    env.xdg_config_home = None;
    assert!(store_cli_mtls_bundle(&env, "dev", bundle("k")).is_err());
}
