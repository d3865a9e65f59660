//! Firmware releases published on the image site: the release manifest, and
//! where the firmware of a release, board and MCU is found.

use vstd::prelude::*;

use crate::text::{
    ascii_lowercase, dec, join, join_strings, push_decimal, push_str, str_eq, to_ascii_lowercase,
    views,
};

verus! {

/// Host the firmware images are published on.
pub const FIRMWARE_SITE_BASE: &'static str = "images.onerom.org";

/// Name of the release manifest on the image site.
pub const FIRMWARE_RELEASE_MANIFEST: &'static str = "releases.json";

/// Why a release's firmware could not be located.
#[derive(Debug, Clone, Copy, PartialEq, Eq, Structural)]
pub enum Error {
    /// No release of the version, or no board or MCU of that name in it.
    ReleaseNotFound,
    /// The download is no zip archive, or has no file of the name asked for.
    Zip,
    /// The file could not be read out of the zip archive.
    Read,
}

/// A firmware version: major, minor, patch and build numbers.
#[derive(Debug, Clone, Copy, PartialEq, Eq, Structural)]
pub struct FirmwareVersion {
    pub major: u16,
    pub minor: u16,
    pub patch: u16,
    pub build: u16,
}

impl FirmwareVersion {
    /// A version from its four numbers.
    pub fn new(major: u16, minor: u16, patch: u16, build: u16) -> (r: Self)
        ensures
            r == (FirmwareVersion { major, minor, patch, build }),
    {
        FirmwareVersion { major, minor, patch, build }
    }

    pub fn major(&self) -> (r: u16)
        ensures
            r == self.major,
    {
        self.major
    }

    pub fn minor(&self) -> (r: u16)
        ensures
            r == self.minor,
    {
        self.minor
    }

    pub fn patch(&self) -> (r: u16)
        ensures
            r == self.patch,
    {
        self.patch
    }

    pub fn build(&self) -> (r: u16)
        ensures
            r == self.build,
    {
        self.build
    }
}

/// One MCU of a board in a release.
#[derive(Debug, Clone)]
pub struct Mcu {
    name: String,
    path: Option<String>,
}

/// One board of a release.
#[derive(Debug, Clone)]
pub struct Board {
    pub name: String,
    pub path: Option<String>,
    pub mcus: Vec<Mcu>,
}

/// One firmware release.
#[derive(Debug, Clone)]
pub struct Release {
    pub version: String,
    pub path: Option<String>,
    pub notes: Option<String>,
    pub boards: Vec<Board>,
}

/// The release manifest.
#[derive(Debug, Clone)]
pub struct Releases {
    pub latest: String,
    releases: Vec<Release>,
}

/// `o`'s string, or `default` when there is none.
pub open spec fn or_default(o: Option<String>, default: Seq<char>) -> Seq<char> {
    match o {
        Some(s) => s@,
        None => default,
    }
}

fn clone_or(o: &Option<String>, default: &String) -> (r: String)
    ensures
        r@ == or_default(*o, default@),
{
    match o {
        Some(s) => s.clone(),
        None => default.clone(),
    }
}

/// The first MCU named `name`.
pub open spec fn first_mcu(mcus: Seq<Mcu>, name: Seq<char>) -> Option<int> {
    if exists|i: int| 0 <= i < mcus.len() && mcus[i].spec_name() == name {
        Some(
            choose|i: int|
                0 <= i < mcus.len() && mcus[i].spec_name() == name && forall|j: int|
                    0 <= j < i ==> mcus[j].spec_name() != name,
        )
    } else {
        None
    }
}

/// The first board named `name`.
pub open spec fn first_board(boards: Seq<Board>, name: Seq<char>) -> Option<int> {
    if exists|i: int| 0 <= i < boards.len() && boards[i].name@ == name {
        Some(
            choose|i: int|
                0 <= i < boards.len() && boards[i].name@ == name && forall|j: int|
                    0 <= j < i ==> boards[j].name@ != name,
        )
    } else {
        None
    }
}

/// The first release of version `version`.
pub open spec fn first_release(releases: Seq<Release>, version: Seq<char>) -> Option<int> {
    if exists|i: int| 0 <= i < releases.len() && releases[i].version@ == version {
        Some(
            choose|i: int|
                0 <= i < releases.len() && releases[i].version@ == version && forall|j: int|
                    0 <= j < i ==> releases[j].version@ != version,
        )
    } else {
        None
    }
}

impl Mcu {
    /// An MCU entry, with the directory its firmware is under, when that is
    /// not its name.
    pub fn new(name: String, path: Option<String>) -> (r: Self)
        ensures
            r.spec_name() == name@,
            r.spec_dir() == path,
    {
        Mcu { name, path }
    }

    pub closed spec fn spec_name(self) -> Seq<char> {
        self.name@
    }

    pub closed spec fn spec_dir(self) -> Option<String> {
        self.path
    }

    /// The MCU's name.
    pub fn name(&self) -> (r: &str)
        ensures
            r@ == self.spec_name(),
    {
        self.name.as_str()
    }

    /// The directory of the MCU's firmware: its own path, else its name.
    pub open spec fn spec_path(self) -> Seq<char> {
        or_default(self.spec_dir(), self.spec_name())
    }

    /// The directory of the MCU's firmware: its own path, else its name.
    pub fn path(&self) -> (r: String)
        ensures
            r@ == self.spec_path(),
    {
        clone_or(&self.path, &self.name)
    }
}

impl Board {
    /// The path of the firmware of MCU `mcu` (matched in ASCII lower case)
    /// below the release: the board's directory, `/`, the MCU's directory.
    pub open spec fn spec_path(self, mcu: Seq<char>) -> Option<Seq<char>> {
        match first_mcu(self.mcus@, ascii_lowercase(mcu)) {
            Some(i) => Some(
                or_default(self.path, self.name@) + "/"@ + self.mcus@[i].spec_path(),
            ),
            None => None,
        }
    }

    /// The first MCU named `mcu`.
    pub fn mcu(&self, mcu: &str) -> (r: Option<&Mcu>)
        ensures
            match first_mcu(self.mcus@, mcu@) {
                Some(i) => r == Some(&self.mcus@[i]),
                None => r is None,
            },
    {
        let mut i: usize = 0;
        while i < self.mcus.len()
            invariant
                i <= self.mcus@.len(),
                forall|j: int| 0 <= j < i ==> self.mcus@[j].spec_name() != mcu@,
            decreases self.mcus@.len() - i,
        {
            if str_eq(self.mcus[i].name.as_str(), mcu) {
                proof {
                    assert(self.mcus@[i as int].spec_name() == mcu@);
                    let k = first_mcu(self.mcus@, mcu@).unwrap();
                    assert(!(k < i) && !(i < k));
                }
                return Some(&self.mcus[i]);
            }
            i += 1;
        }
        None
    }

    /// The path of the firmware of MCU `mcu` below the release.
    pub fn path(&self, mcu: &str) -> (r: Result<String, Error>)
        ensures
            match self.spec_path(mcu@) {
                Some(p) => r matches Ok(s) && s@ == p,
                None => r == Err::<String, Error>(Error::ReleaseNotFound),
            },
    {
        let lower = to_ascii_lowercase(mcu);
        match self.mcu(lower.as_str()) {
            Some(m) => {
                let mut s = clone_or(&self.path, &self.name);
                push_str(&mut s, "/");
                let mp = m.path();
                push_str(&mut s, mp.as_str());
                Ok(s)
            },
            None => Err(Error::ReleaseNotFound),
        }
    }
}

impl Release {
    /// The path of the firmware of `board` and `mcu` (both matched in ASCII
    /// lower case) on the image site: the release's directory (its path,
    /// else its version), `/`, the board's path of the MCU.
    pub open spec fn spec_path(self, board: Seq<char>, mcu: Seq<char>) -> Option<Seq<char>> {
        match first_board(self.boards@, ascii_lowercase(board)) {
            Some(i) => match self.boards@[i].spec_path(mcu) {
                Some(p) => Some(or_default(self.path, self.version@) + "/"@ + p),
                None => None,
            },
            None => None,
        }
    }

    /// The first board named `board`.
    pub fn board(&self, board: &str) -> (r: Option<&Board>)
        ensures
            match first_board(self.boards@, board@) {
                Some(i) => r == Some(&self.boards@[i]),
                None => r is None,
            },
    {
        let mut i: usize = 0;
        while i < self.boards.len()
            invariant
                i <= self.boards@.len(),
                forall|j: int| 0 <= j < i ==> self.boards@[j].name@ != board@,
            decreases self.boards@.len() - i,
        {
            if str_eq(self.boards[i].name.as_str(), board) {
                proof {
                    assert(self.boards@[i as int].name@ == board@);
                    let k = first_board(self.boards@, board@).unwrap();
                    assert(!(k < i) && !(i < k));
                }
                return Some(&self.boards[i]);
            }
            i += 1;
        }
        None
    }

    /// The path of the firmware of `board` and `mcu` on the image site.
    pub fn path(&self, board: &str, mcu: &str) -> (r: Result<String, Error>)
        ensures
            match self.spec_path(board@, mcu@) {
                Some(p) => r matches Ok(s) && s@ == p,
                None => r == Err::<String, Error>(Error::ReleaseNotFound),
            },
    {
        let lower = to_ascii_lowercase(board);
        let b = match self.board(lower.as_str()) {
            Some(b) => b,
            None => {
                return Err(Error::ReleaseNotFound);
            },
        };
        let bp = match b.path(mcu) {
            Ok(p) => p,
            Err(e) => {
                return Err(e);
            },
        };
        let mut s = clone_or(&self.path, &self.version);
        push_str(&mut s, "/");
        push_str(&mut s, bp.as_str());
        Ok(s)
    }
}

/// `"<major>.<minor>.<patch>"`.
pub open spec fn spec_version_str(v: FirmwareVersion) -> Seq<char> {
    dec(v.major as nat) + "."@ + dec(v.minor as nat) + "."@ + dec(v.patch as nat)
}

/// The versions of the releases.
pub open spec fn release_versions(rs: Seq<Release>) -> Seq<String> {
    rs.map_values(|r: Release| r.version)
}

impl Releases {
    /// A manifest from its latest version and its releases.
    pub fn new(latest: String, releases: Vec<Release>) -> (r: Self)
        ensures
            r.spec_latest() == latest@,
            r.spec_releases() == releases@,
    {
        Releases { latest, releases }
    }

    pub closed spec fn spec_releases(self) -> Seq<Release> {
        self.releases@
    }

    pub closed spec fn spec_latest(self) -> Seq<char> {
        self.latest@
    }

    /// URL of the release manifest.
    pub fn manifest_url() -> (r: String)
        ensures
            r@ == "https://"@ + FIRMWARE_SITE_BASE@ + "/"@ + FIRMWARE_RELEASE_MANIFEST@,
    {
        let mut s = String::from_str("https://");
        push_str(&mut s, FIRMWARE_SITE_BASE);
        push_str(&mut s, "/");
        push_str(&mut s, FIRMWARE_RELEASE_MANIFEST);
        s
    }

    /// `"<major>.<minor>.<patch>"` of a version (the build is left out).
    pub fn version_str(version: &FirmwareVersion) -> (r: String)
        ensures
            r@ == spec_version_str(*version),
    {
        let mut s = String::new();
        push_decimal(&mut s, version.major as u64);
        push_str(&mut s, ".");
        push_decimal(&mut s, version.minor as u64);
        push_str(&mut s, ".");
        push_decimal(&mut s, version.patch as u64);
        assert(Seq::<char>::empty() + dec(version.major as nat) =~= dec(version.major as nat));
        s
    }

    /// The first release whose version is `version`'s major.minor.patch.
    pub fn release(&self, version: &FirmwareVersion) -> (r: Option<&Release>)
        ensures
            match first_release(self.spec_releases(), spec_version_str(*version)) {
                Some(i) => r == Some(&self.spec_releases()[i]),
                None => r is None,
            },
    {
        let v = Self::version_str(version);
        let mut i: usize = 0;
        while i < self.releases.len()
            invariant
                i <= self.releases@.len(),
                v@ == spec_version_str(*version),
                forall|j: int| 0 <= j < i ==> self.releases@[j].version@ != v@,
            decreases self.releases@.len() - i,
        {
            if str_eq(self.releases[i].version.as_str(), v.as_str()) {
                proof {
                    assert(self.releases@[i as int].version@ == v@);
                    let k = first_release(self.releases@, v@).unwrap();
                    assert(!(k < i) && !(i < k));
                }
                return Some(&self.releases[i]);
            }
            i += 1;
        }
        None
    }

    /// The releases, in manifest order.
    pub fn releases(&self) -> (r: &Vec<Release>)
        ensures
            r@ == self.spec_releases(),
    {
        &self.releases
    }

    /// The versions of the releases, joined with `", "`.
    pub fn releases_str(&self) -> (r: String)
        ensures
            r@ == join(views(release_versions(self.spec_releases())), ", "@),
    {
        let mut versions: Vec<String> = Vec::new();
        let mut i: usize = 0;
        while i < self.releases.len()
            invariant
                i <= self.releases@.len(),
                versions@ == release_versions(self.releases@.take(i as int)),
            decreases self.releases@.len() - i,
        {
            versions.push(self.releases[i].version.clone());
            assert(release_versions(self.releases@.take(i + 1)) =~= release_versions(
                self.releases@.take(i as int),
            ).push(self.releases@[i as int].version));
            i += 1;
        }
        assert(self.releases@.take(self.releases@.len() as int) =~= self.releases@);
        join_strings(&versions, ", ")
    }

    /// The latest version.
    pub fn latest(&self) -> (r: &str)
        ensures
            r@ == self.spec_latest(),
    {
        self.latest.as_str()
    }

    /// The URL of the firmware of `version` for `board` and `mcu`, when the
    /// manifest has such a release, board and MCU:
    /// `https://<site>/<release path>/firmware.bin`.
    pub open spec fn spec_firmware_url(
        self,
        version: FirmwareVersion,
        board: Seq<char>,
        mcu: Seq<char>,
    ) -> Option<Seq<char>> {
        match first_release(self.spec_releases(), spec_version_str(version)) {
            Some(i) => match self.spec_releases()[i].spec_path(board, mcu) {
                Some(p) => Some("https://"@ + FIRMWARE_SITE_BASE@ + "/"@ + p + "/firmware.bin"@),
                None => None,
            },
            None => None,
        }
    }

    /// The URL of the firmware of `version` for `board` and `mcu`.
    pub fn firmware_url(&self, version: &FirmwareVersion, board: &str, mcu: &str) -> (r: Result<
        String,
        Error,
    >)
        ensures
            match self.spec_firmware_url(*version, board@, mcu@) {
                Some(u) => r matches Ok(s) && s@ == u,
                None => r == Err::<String, Error>(Error::ReleaseNotFound),
            },
    {
        let release = match self.release(version) {
            Some(r) => r,
            None => {
                return Err(Error::ReleaseNotFound);
            },
        };
        let path = match release.path(board, mcu) {
            Ok(p) => p,
            Err(e) => {
                return Err(e);
            },
        };
        let mut s = String::from_str("https://");
        push_str(&mut s, FIRMWARE_SITE_BASE);
        push_str(&mut s, "/");
        push_str(&mut s, path.as_str());
        push_str(&mut s, "/firmware.bin");
        Ok(s)
    }
}

#[verifier::external_type_specification]
#[verifier::external_body]
#[verifier::reject_recursive_types(R)]
pub struct ExZipArchive<R>(zip::ZipArchive<R>);

#[verifier::external_type_specification]
#[verifier::external_body]
pub struct ExZipError(zip::result::ZipError);

#[verifier::external_type_specification]
#[verifier::external_body]
#[verifier::reject_recursive_types(T)]
pub struct ExCursor<T>(std::io::Cursor<T>);

/// The bytes that a zip archive reads from: the contents of the in-memory
/// reader that `zip::ZipArchive` holds.  The archive only reads and seeks in
/// them; it never writes to them.
pub uninterp spec fn zip_source(archive: zip::ZipArchive<std::io::Cursor<Vec<u8>>>) -> Seq<u8>;

/// What reading the file `name` out of the zip archive `bytes` gives: the
/// file's uncompressed bytes, or `None` where `zip::ZipArchive::new` refuses
/// `bytes`, where `zip::ZipArchive::by_name` finds no file `name`, or where
/// reading the file found fails.  It depends on `bytes` and `name` alone.
pub uninterp spec fn spec_zip_entry(bytes: Seq<u8>, name: Seq<char>) -> Option<Seq<u8>>;

/// Calls `zip::ZipArchive::new` on the bytes of an archive held in memory.
/// Claimed: on success the archive reads from exactly these bytes; on
/// failure no file can be read out of them.  The zip crate does not document
/// whether malformed input can make it panic, so nothing is claimed of that.
#[verifier::external_body]
fn zip_open(bytes: Vec<u8>) -> (r: Result<zip::ZipArchive<std::io::Cursor<Vec<u8>>>, zip::result::ZipError>)
    ensures
        r matches Ok(a) ==> zip_source(a) == bytes@,
        r is Err ==> forall|n: Seq<char>| #[trigger] spec_zip_entry(bytes@, n) is None,
{
    zip::ZipArchive::new(std::io::Cursor::new(bytes))
}

/// Calls `zip::ZipArchive::by_name` and reads the file found out into a
/// vector with `std::io::copy` (the file handle it returns cannot be named
/// in a verified signature, so both calls stand here).  Claimed: the archive
/// still reads from the same bytes; the result is the file's bytes exactly
/// when `spec_zip_entry` gives some, and otherwise an error, `Error::Zip`
/// where `by_name` fails and `Error::Read` where the read fails (which of
/// the two is left unsaid).
#[verifier::external_body]
fn zip_by_name(archive: &mut zip::ZipArchive<std::io::Cursor<Vec<u8>>>, name: &str) -> (r: Result<
    Vec<u8>,
    Error,
>)
    ensures
        zip_source(*final(archive)) == zip_source(*old(archive)),
        match spec_zip_entry(zip_source(*old(archive)), name@) {
            Some(d) => r matches Ok(v) && v@ == d,
            None => r matches Err(e) && (e == Error::Zip || e == Error::Read),
        },
{
    let mut file = match archive.by_name(name) {
        Ok(f) => f,
        Err(_) => return Err(Error::Zip),
    };
    let mut data = Vec::new();
    match std::io::copy(&mut file, &mut data) {
        Ok(_) => Ok(data),
        Err(_) => Err(Error::Read),
    }
}

/// The bytes of a downloaded ROM file: the download itself, or, when
/// `extract` names a file, that file taken out of the downloaded zip
/// archive; an error exactly when the archive holds no such readable file.
pub fn extract_rom_file(bytes: Vec<u8>, extract: Option<String>) -> (r: Result<Vec<u8>, Error>)
    ensures
        extract is None ==> (r matches Ok(v) && v@ == bytes@),
        extract matches Some(n) ==> match spec_zip_entry(bytes@, n@) {
            Some(d) => r matches Ok(v) && v@ == d,
            None => r matches Err(e) && (e == Error::Zip || e == Error::Read),
        },
{
    match extract {
        None => Ok(bytes),
        Some(name) => {
            let ghost source = bytes@;
            let mut archive = match zip_open(bytes) {
                Ok(a) => a,
                Err(_) => {
                    assert(spec_zip_entry(source, name@) is None);
                    return Err(Error::Zip);
                },
            };
            zip_by_name(&mut archive, name.as_str())
        },
    }
}

} // verus!
