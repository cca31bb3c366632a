//! The workspace check: the local packages that the lockfile lists, the
//! package names that the manifests on disk declare, and whether the first
//! cover the second.

use vstd::prelude::*;
use crate::lockfile::{
    DecodeError, Lockfile, LockfileView, PackageView, lockfile_of, packages_view, parse,
    strings_view,
};
use crate::lockfile::ReadError as LockfileError;
use crate::manifest::{NameOutcome, name_in_text, outcome_of, package_name_from_manifest};
use crate::manifest::ReadError as ManifestError;
use crate::document::{str_eq, toml_document};

verus! {

/// The names of the local packages among `ps` (those without a source), in order.
pub open spec fn local_names(ps: Seq<PackageView>) -> Seq<Seq<char>>
    decreases ps.len(),
{
    if ps.len() == 0 {
        Seq::empty()
    } else {
        let rest = local_names(ps.drop_last());
        if ps.last().source is None {
            rest.push(ps.last().name)
        } else {
            rest
        }
    }
}

/// The local packages of a lockfile: the root first, then each local
/// package of the `package` list in its order. Names are not deduplicated.
pub open spec fn local_packages_of(l: LockfileView) -> Seq<Seq<char>> {
    seq![l.root.name] + local_names(l.package)
}

/// The names of the local packages of `lock`, root first.
pub fn local_packages(lock: &Lockfile) -> (r: Vec<String>)
    ensures
        strings_view(r@) == local_packages_of(lock@),
{
    let mut out: Vec<String> = Vec::new();
    out.push(lock.root.name.clone());
    let mut i: usize = 0;
    proof {
        assert(packages_view(lock.package@).take(0) =~= Seq::<PackageView>::empty());
        assert(strings_view(out@) =~= seq![lock.root.name@] + local_names(Seq::<PackageView>::empty()));
    }
    while i < lock.package.len()
        invariant
            i <= lock.package.len(),
            strings_view(out@) == seq![lock.root.name@] + local_names(packages_view(lock.package@).take(i as int)),
        decreases lock.package.len() - i,
    {
        let ghost ps = packages_view(lock.package@);
        proof {
            assert(ps.take(i + 1).drop_last() =~= ps.take(i as int));
            assert(ps.take(i + 1).last() == lock.package@[i as int]@);
        }
        let ghost before = out@;
        if lock.package[i].is_local() {
            out.push(lock.package[i].name.clone());
            proof {
                assert(strings_view(out@) =~= strings_view(before).push(lock.package@[i as int].name@));
            }
        }
        i = i + 1;
    }
    proof {
        assert(packages_view(lock.package@).take(lock.package.len() as int) =~= packages_view(lock.package@));
    }
    out
}

/// One manifest file found on disk: its path, and its text, or `None` where
/// it could not be read.
#[derive(Debug)]
pub struct ManifestFile {
    pub path: String,
    pub contents: Option<String>,
}

/// A package name declared by the manifest at `path`.
#[derive(Debug)]
pub struct Declared {
    pub path: String,
    pub name: String,
}

/// Why the scan of the manifests stopped.
#[derive(Debug)]
pub enum ScanError {
    /// The manifest at `path` could not be read.
    Unreadable { path: String },
    /// The manifest at `path` declares no package name.
    Manifest { path: String, error: ManifestError },
}

/// Why the scan stops, in terms of views.
pub enum ScanFailure {
    Unreadable(Seq<char>),
    Unnamed(Seq<char>, NameOutcome),
}

/// What one manifest file contributes: its path and declared name, or the failure.
pub open spec fn file_outcome(f: ManifestFile) -> Result<(Seq<char>, Seq<char>), ScanFailure> {
    match f.contents {
        None => Err(ScanFailure::Unreadable(f.path@)),
        Some(t) => match name_in_text(t@) {
            NameOutcome::Named(n) => Ok((f.path@, n)),
            o => Err(ScanFailure::Unnamed(f.path@, o)),
        },
    }
}

/// The scan of `files` in their order: every declared name with its path,
/// or the failure of the first file that declares none.
pub open spec fn scan_of(files: Seq<ManifestFile>) -> Result<Seq<(Seq<char>, Seq<char>)>, ScanFailure>
    decreases files.len(),
{
    if files.len() == 0 {
        Ok(Seq::empty())
    } else {
        match scan_of(files.drop_last()) {
            Err(e) => Err(e),
            Ok(done) => match file_outcome(files.last()) {
                Err(e) => Err(e),
                Ok(d) => Ok(done.push(d)),
            },
        }
    }
}

pub open spec fn declared_view(ds: Seq<Declared>) -> Seq<(Seq<char>, Seq<char>)> {
    ds.map_values(|d: Declared| (d.path@, d.name@))
}

pub open spec fn scan_error_view(e: ScanError) -> ScanFailure {
    match e {
        ScanError::Unreadable { path } => ScanFailure::Unreadable(path@),
        ScanError::Manifest { path, error } => ScanFailure::Unnamed(path@, outcome_of(Err(error))),
    }
}

/// A failure met in a prefix of the files is the failure of all of them.
pub proof fn lemma_scan_prefix_error(files: Seq<ManifestFile>, n: int)
    requires
        0 <= n <= files.len(),
        scan_of(files.take(n)) is Err,
    ensures
        scan_of(files) == scan_of(files.take(n)),
    decreases files.len() - n,
{
    if n < files.len() {
        assert(files.take(n + 1).drop_last() =~= files.take(n));
        lemma_scan_prefix_error(files, n + 1);
    } else {
        assert(files.take(n) =~= files);
    }
}

/// Reads the package name of every manifest in `files`, in order, and stops
/// at the first one that cannot be read or declares no name. A name declared
/// by two manifests is listed twice, once with each path, and each is
/// reconciled on its own.
pub fn scan_manifests(files: &Vec<ManifestFile>) -> (r: Result<Vec<Declared>, ScanError>)
    ensures
        match r {
            Ok(ds) => scan_of(files@) == Ok::<Seq<(Seq<char>, Seq<char>)>, ScanFailure>(declared_view(ds@)),
            Err(e) => scan_of(files@) == Err::<Seq<(Seq<char>, Seq<char>)>, ScanFailure>(scan_error_view(e)),
        },
{
    let mut out: Vec<Declared> = Vec::new();
    let mut i: usize = 0;
    proof {
        assert(files@.take(0) =~= Seq::<ManifestFile>::empty());
        assert(declared_view(out@) =~= Seq::<(Seq<char>, Seq<char>)>::empty());
    }
    while i < files.len()
        invariant
            i <= files.len(),
            scan_of(files@.take(i as int)) == Ok::<Seq<(Seq<char>, Seq<char>)>, ScanFailure>(declared_view(out@)),
        decreases files.len() - i,
    {
        proof {
            assert(files@.take(i + 1).drop_last() =~= files@.take(i as int));
            assert(files@.take(i + 1).last() == files@[i as int]);
        }
        let f = &files[i];
        match &f.contents {
            None => {
                proof {
                    lemma_scan_prefix_error(files@, i + 1);
                }
                return Err(ScanError::Unreadable { path: f.path.clone() });
            },
            Some(t) => match package_name_from_manifest(t.as_str()) {
                Ok(name) => {
                    let ghost before = out@;
                    out.push(Declared { path: f.path.clone(), name });
                    proof {
                        assert(declared_view(out@) =~= declared_view(before).push((f.path@, name@)));
                    }
                },
                Err(error) => {
                    proof {
                        lemma_scan_prefix_error(files@, i + 1);
                    }
                    return Err(ScanError::Manifest { path: f.path.clone(), error });
                },
            },
        }
        i = i + 1;
    }
    proof {
        assert(files@.take(files.len() as int) =~= files@);
    }
    Ok(out)
}

/// The index of the first declared name (in listing order) that `local`
/// does not hold, if there is one.
pub open spec fn first_missing(local: Seq<Seq<char>>, declared: Seq<(Seq<char>, Seq<char>)>) -> Option<int>
    decreases declared.len(),
{
    if declared.len() == 0 {
        None
    } else {
        match first_missing(local, declared.drop_last()) {
            Some(i) => Some(i),
            None => if local.contains(declared.last().1) {
                None
            } else {
                Some(declared.len() - 1)
            },
        }
    }
}

/// A package declared on disk that the lockfile does not list as local.
#[derive(Debug)]
pub struct MissedPackage {
    /// The package's name.
    pub package: String,
    /// The path of the manifest that declares it.
    pub manifest: String,
}

/// Whether `names` holds `name`.
pub fn contains_name(names: &Vec<String>, name: &String) -> (r: bool)
    ensures
        r == strings_view(names@).contains(name@),
{
    let mut i: usize = 0;
    while i < names.len()
        invariant
            i <= names.len(),
            forall|j: int| 0 <= j < i ==> names@[j]@ != name@,
        decreases names.len() - i,
    {
        if str_eq(&names[i], name.as_str()) {
            proof {
                assert(strings_view(names@)[i as int] == name@);
            }
            return true;
        }
        i = i + 1;
    }
    proof {
        if strings_view(names@).contains(name@) {
            let j = choose|j: int| 0 <= j < strings_view(names@).len() && strings_view(names@)[j] == name@;
            assert(names@[j]@ == name@);
        }
    }
    false
}

/// Checks that every name declared on disk is among the local packages;
/// reports the first one, in listing order, that is not.
pub fn reconcile(local: &Vec<String>, on_disk: &Vec<Declared>) -> (r: Result<(), MissedPackage>)
    ensures
        match first_missing(strings_view(local@), declared_view(on_disk@)) {
            None => r is Ok,
            Some(i) => r matches Err(m) && 0 <= i < on_disk@.len() && m.package@ == on_disk@[i].name@
                && m.manifest@ == on_disk@[i].path@,
        },
{
    let ghost loc = strings_view(local@);
    let ghost ds = declared_view(on_disk@);
    let mut i: usize = 0;
    proof {
        assert(ds.take(0) =~= Seq::<(Seq<char>, Seq<char>)>::empty());
    }
    while i < on_disk.len()
        invariant
            i <= on_disk.len(),
            loc == strings_view(local@),
            ds == declared_view(on_disk@),
            first_missing(loc, ds.take(i as int)) is None,
        decreases on_disk.len() - i,
    {
        proof {
            assert(ds.take(i + 1).drop_last() =~= ds.take(i as int));
            assert(ds.take(i + 1).last() == ds[i as int]);
        }
        if !contains_name(local, &on_disk[i].name) {
            proof {
                lemma_first_missing_prefix(loc, ds, i + 1);
            }
            return Err(MissedPackage { package: on_disk[i].name.clone(), manifest: on_disk[i].path.clone() });
        }
        i = i + 1;
    }
    proof {
        assert(ds.take(on_disk.len() as int) =~= ds);
    }
    Ok(())
}

/// A miss found in a prefix of the declared names is the first miss of all.
pub proof fn lemma_first_missing_prefix(local: Seq<Seq<char>>, declared: Seq<(Seq<char>, Seq<char>)>, n: int)
    requires
        0 <= n <= declared.len(),
        first_missing(local, declared.take(n)) is Some,
    ensures
        first_missing(local, declared) == first_missing(local, declared.take(n)),
    decreases declared.len() - n,
{
    if n < declared.len() {
        assert(declared.take(n + 1).drop_last() =~= declared.take(n));
        lemma_first_missing_prefix(local, declared, n + 1);
    } else {
        assert(declared.take(n) =~= declared);
    }
}

/// What became of reading the lockfile from disk.
#[derive(Debug)]
pub enum LockfileSource {
    /// There is no lockfile.
    Missing,
    /// The lockfile exists but could not be read.
    Unreadable,
    /// The lockfile's text.
    Text(String),
}

/// Why the workspace check failed.
#[derive(Debug)]
pub enum Error {
    /// There is no lockfile: it has not been generated yet.
    MissingLockfile,
    /// The lockfile exists but could not be read.
    LockfileUnreadable,
    /// The lockfile is malformed or does not have the lockfile's shape.
    Lockfile(LockfileError),
    /// A manifest on disk could not be read or declares no package name.
    Scan(ScanError),
    /// A package declared on disk is not a local package of the lockfile.
    Missed(MissedPackage),
}

/// Why the check fails, in terms of views.
pub enum Failure {
    MissingLockfile,
    LockfileUnreadable,
    LockfileMalformed,
    LockfileInvalid(DecodeError),
    Scan(ScanFailure),
    Missed(Seq<char>, Seq<char>),
}

pub open spec fn error_view(e: Error) -> Failure {
    match e {
        Error::MissingLockfile => Failure::MissingLockfile,
        Error::LockfileUnreadable => Failure::LockfileUnreadable,
        Error::Lockfile(LockfileError::TomlErrors(_)) => Failure::LockfileMalformed,
        Error::Lockfile(LockfileError::DecodeError(d)) => Failure::LockfileInvalid(d),
        Error::Scan(s) => Failure::Scan(scan_error_view(s)),
        Error::Missed(m) => Failure::Missed(m.package@, m.manifest@),
    }
}

pub open spec fn outcome_view(r: Result<Vec<String>, Error>) -> Result<Seq<Seq<char>>, Failure> {
    match r {
        Ok(names) => Ok(strings_view(names@)),
        Err(e) => Err(error_view(e)),
    }
}

/// The lockfile's local packages once the manifests on disk are reconciled
/// with them, given the decoded lockfile.
pub open spec fn reconciled(l: LockfileView, files: Seq<ManifestFile>) -> Result<Seq<Seq<char>>, Failure> {
    match scan_of(files) {
        Err(e) => Err(Failure::Scan(e)),
        Ok(ds) => match first_missing(local_packages_of(l), ds) {
            None => Ok(local_packages_of(l)),
            Some(i) => Err(Failure::Missed(ds[i].1, ds[i].0)),
        },
    }
}

/// The outcome of the whole check: the lockfile is read first, then the
/// manifests are scanned, then the two are reconciled.
pub open spec fn workspace_of(lockfile: LockfileSource, files: Seq<ManifestFile>) -> Result<Seq<Seq<char>>, Failure> {
    match lockfile {
        LockfileSource::Missing => Err(Failure::MissingLockfile),
        LockfileSource::Unreadable => Err(Failure::LockfileUnreadable),
        LockfileSource::Text(t) => match toml_document(t@) {
            None => Err(Failure::LockfileMalformed),
            Some(doc) => match lockfile_of(doc) {
                Err(d) => Err(Failure::LockfileInvalid(d)),
                Ok(l) => reconciled(l, files),
            },
        },
    }
}

/// Reconciles a decoded lockfile with the manifests on disk.
pub fn check_packages(lock: &Lockfile, manifests: &Vec<ManifestFile>) -> (r: Result<Vec<String>, Error>)
    ensures
        outcome_view(r) == reconciled(lock@, manifests@),
{
    let on_disk = match scan_manifests(manifests) {
        Ok(ds) => ds,
        Err(e) => {
            return Err(Error::Scan(e));
        },
    };
    let local = local_packages(lock);
    match reconcile(&local, &on_disk) {
        Ok(()) => Ok(local),
        Err(m) => Err(Error::Missed(m)),
    }
}

/// The full check: reads the lockfile, scans the manifests, and hands back
/// the local packages, root first, when every manifest on disk is among them.
pub fn check_workspace(lockfile: &LockfileSource, manifests: &Vec<ManifestFile>) -> (r: Result<Vec<String>, Error>)
    ensures
        outcome_view(r) == workspace_of(*lockfile, manifests@),
{
    let text = match lockfile {
        LockfileSource::Missing => {
            return Err(Error::MissingLockfile);
        },
        LockfileSource::Unreadable => {
            return Err(Error::LockfileUnreadable);
        },
        LockfileSource::Text(t) => t,
    };
    let lock = match parse(text.as_str()) {
        Ok(l) => l,
        Err(e) => {
            return Err(Error::Lockfile(e));
        },
    };
    check_packages(&lock, manifests)
}

impl Error {
    /// The exit status that reports this error: 3 where the workspace's
    /// layout disagrees with its lockfile, 2 for every other error. (1 is
    /// left to a failed per-package action.)
    pub fn exit_code(&self) -> (r: i32)
        ensures
            r == (if self is Missed { 3i32 } else { 2i32 }),
    {
        match self {
            Error::Missed(_) => 3,
            _ => 2,
        }
    }
}

/// A lockfile that lists no dependencies has its root as its only local package.
pub proof fn lemma_no_dependencies_root_only(l: LockfileView)
    requires
        l.package.len() == 0,
    ensures
        local_packages_of(l) == seq![l.root.name],
{
    assert(local_packages_of(l) =~= seq![l.root.name]);
}

/// The scan succeeds exactly when every file yields a name, and then lists
/// each file's path and name in the files' order.
pub proof fn lemma_scan_each_file(files: Seq<ManifestFile>)
    ensures
        scan_of(files) is Ok <==> forall|i: int| 0 <= i < files.len() ==> file_outcome(files[i]) is Ok,
        scan_of(files) matches Ok(ds) ==> ds.len() == files.len() && forall|i: int|
            0 <= i < files.len() ==> file_outcome(files[i]) == Ok::<(Seq<char>, Seq<char>), ScanFailure>(ds[i]),
    decreases files.len(),
{
    if files.len() > 0 {
        let init = files.drop_last();
        lemma_scan_each_file(init);
        assert forall|i: int| 0 <= i < init.len() implies init[i] == files[i] by {}
        if scan_of(files) is Ok {
            assert forall|i: int| 0 <= i < files.len() implies file_outcome(files[i]) is Ok by {
                if i < init.len() {
                    assert(init[i] == files[i]);
                }
            }
        }
        if forall|i: int| 0 <= i < files.len() ==> file_outcome(files[i]) is Ok {
            assert forall|i: int| 0 <= i < init.len() implies file_outcome(init[i]) is Ok by {
                assert(init[i] == files[i]);
            }
            assert(file_outcome(files[files.len() - 1]) is Ok);
        }
    }
}

/// The set of names that a scan finds.
pub open spec fn names_found(ds: Seq<(Seq<char>, Seq<char>)>) -> Set<Seq<char>> {
    ds.map_values(|d: (Seq<char>, Seq<char>)| d.1).to_set()
}

/// Scanning the same files, in any order and however often, finds the same
/// set of package names: on a successful scan the names depend on which
/// files there are, not on the order in which they are listed.
pub proof fn lemma_scan_names_independent_of_order(files1: Seq<ManifestFile>, files2: Seq<ManifestFile>)
    requires
        files1.to_set() == files2.to_set(),
        scan_of(files1) is Ok,
    ensures
        scan_of(files2) is Ok,
        names_found(scan_of(files1)->Ok_0) == names_found(scan_of(files2)->Ok_0),
{
    lemma_scan_each_file(files1);
    lemma_scan_each_file(files2);
    assert forall|i: int| 0 <= i < files2.len() implies file_outcome(files2[i]) is Ok by {
        assert(files2.to_set().contains(files2[i]));
        assert(files1.contains(files2[i]));
    }
    let ds1 = scan_of(files1)->Ok_0;
    let ds2 = scan_of(files2)->Ok_0;
    let n1 = ds1.map_values(|d: (Seq<char>, Seq<char>)| d.1);
    let n2 = ds2.map_values(|d: (Seq<char>, Seq<char>)| d.1);
    assert forall|n: Seq<char>| n1.contains(n) implies n2.contains(n) by {
        let i = choose|i: int| 0 <= i < n1.len() && n1[i] == n;
        assert(files2.to_set().contains(files1[i]));
        let j = choose|j: int| 0 <= j < files2.len() && files2[j] == files1[i];
        assert(n2[j] == n);
    }
    assert forall|n: Seq<char>| n2.contains(n) implies n1.contains(n) by {
        let j = choose|j: int| 0 <= j < n2.len() && n2[j] == n;
        assert(files1.to_set().contains(files2[j]));
        let i = choose|i: int| 0 <= i < files1.len() && files1[i] == files2[j];
        assert(n1[i] == n);
    }
    assert(n1.to_set() =~= n2.to_set());
}

/// The reported miss is determined by the names and their order: it is the
/// first declared name that the local packages do not hold, and there is
/// none exactly when the local packages hold every declared name.
pub proof fn lemma_first_missing_is_first(local: Seq<Seq<char>>, declared: Seq<(Seq<char>, Seq<char>)>)
    ensures
        first_missing(local, declared) is None <==> forall|j: int|
            0 <= j < declared.len() ==> local.contains(declared[j].1),
        first_missing(local, declared) matches Some(i) ==> 0 <= i < declared.len() && !local.contains(
            declared[i].1,
        ) && forall|j: int| 0 <= j < i ==> local.contains(declared[j].1),
    decreases declared.len(),
{
    if declared.len() > 0 {
        let init = declared.drop_last();
        lemma_first_missing_is_first(local, init);
        assert forall|j: int| 0 <= j < init.len() implies init[j] == declared[j] by {}
    }
}

/// Two checks of the same lockfile and the same manifests come to the same
/// outcome: the same local packages, or the same error (the same missed
/// package and manifest, where one is missed).
pub proof fn lemma_check_deterministic(
    lockfile: LockfileSource,
    files: Seq<ManifestFile>,
    r1: Result<Vec<String>, Error>,
    r2: Result<Vec<String>, Error>,
)
    requires
        outcome_view(r1) == workspace_of(lockfile, files),
        outcome_view(r2) == workspace_of(lockfile, files),
    ensures
        outcome_view(r1) == outcome_view(r2),
{
}

} // verus!
