//! Update checks: which build a platform downloads, whether an offered
//! version is newer, checking a download's MD5, and the update status.

use vstd::prelude::*;
use vstd::utf8::encode_utf8;
use crate::foreign::{md5_digest, md5_digest_of};

verus! {

/// The operating system a build targets.
#[derive(Clone, Copy, Debug, PartialEq, Eq, Structural)]
pub enum TargetOs {
    MacOs,
    Windows,
    Linux,
    Other,
}

/// The processor architecture a build targets.
#[derive(Clone, Copy, Debug, PartialEq, Eq, Structural)]
pub enum TargetArch {
    Aarch64,
    X86_64,
    Other,
}

/// The key under which the update manifest lists a platform's download.
pub open spec fn platform_key_text(os: TargetOs, arch: TargetArch) -> Seq<char> {
    match (os, arch) {
        (TargetOs::MacOs, TargetArch::Aarch64) => "macos-aarch64"@,
        (TargetOs::MacOs, TargetArch::X86_64) => "macos-x86_64"@,
        (TargetOs::Windows, _) => "windows-x64"@,
        (TargetOs::Linux, TargetArch::X86_64) => "linux-x86_64"@,
        _ => "unknown"@,
    }
}

/// The manifest key of the platform.
pub fn platform_key(os: TargetOs, arch: TargetArch) -> (key: &'static str)
    ensures
        key@ == platform_key_text(os, arch),
{
    match (os, arch) {
        (TargetOs::MacOs, TargetArch::Aarch64) => "macos-aarch64",
        (TargetOs::MacOs, TargetArch::X86_64) => "macos-x86_64",
        (TargetOs::Windows, _) => "windows-x64",
        (TargetOs::Linux, TargetArch::X86_64) => "linux-x86_64",
        _ => "unknown",
    }
}

/// The file name of the core library on a system.
pub open spec fn library_file_text(os: TargetOs) -> Seq<char> {
    match os {
        TargetOs::MacOs => "libneoshell_core.dylib"@,
        TargetOs::Windows => "neoshell_core.dll"@,
        _ => "libneoshell_core.so"@,
    }
}

/// The file name under which a downloaded core library is staged.
pub fn library_file_name(os: TargetOs) -> (name: &'static str)
    ensures
        name@ == library_file_text(os),
{
    match os {
        TargetOs::MacOs => "libneoshell_core.dylib",
        TargetOs::Windows => "neoshell_core.dll",
        _ => "libneoshell_core.so",
    }
}

/// Lexicographic order of byte strings, as `str`'s `<` compares.
pub open spec fn bytes_less(a: Seq<u8>, b: Seq<u8>) -> bool
    decreases a.len(),
{
    if a.len() == 0 {
        b.len() > 0
    } else if b.len() == 0 {
        false
    } else if a[0] != b[0] {
        a[0] < b[0]
    } else {
        bytes_less(a.drop_first(), b.drop_first())
    }
}

/// The candidate version string sorts after the current one.
pub open spec fn newer_version(candidate: Seq<char>, current: Seq<char>) -> bool {
    bytes_less(encode_utf8(current), encode_utf8(candidate))
}

/// Whether `candidate` differs from `current` and sorts after it as a
/// string (a plain string comparison, as versions of equal shape compare).
pub fn is_newer_version(candidate: &str, current: &str) -> (newer: bool)
    ensures
        newer == newer_version(candidate@, current@),
{
    let a = current.as_bytes();
    let b = candidate.as_bytes();
    let n = a.len();
    let m = b.len();
    let mut i: usize = 0;
    proof {
        assert(a@.subrange(0, n as int) =~= a@);
        assert(b@.subrange(0, m as int) =~= b@);
    }
    while i < n && i < m && a[i] == b[i]
        invariant
            n == a@.len(),
            m == b@.len(),
            0 <= i <= n,
            i <= m,
            bytes_less(a@, b@) == bytes_less(a@.subrange(i as int, n as int), b@.subrange(i as int, m as int)),
        decreases n - i,
    {
        proof {
            assert(a@.subrange(i as int, n as int).drop_first() =~= a@.subrange(i + 1, n as int));
            assert(b@.subrange(i as int, m as int).drop_first() =~= b@.subrange(i + 1, m as int));
        }
        i = i + 1;
    }
    if i == n {
        i < m
    } else if i == m {
        false
    } else {
        a[i] < b[i]
    }
}

/// A platform's download in the update manifest.
#[derive(Clone, Debug)]
pub struct PlatformDownload {
    pub url: String,
    pub md5: String,
    pub size: u64,
}

/// The first download listed under `key`.
pub open spec fn download_lookup(s: Seq<(String, PlatformDownload)>, key: Seq<char>) -> Option<
    PlatformDownload,
>
    decreases s.len(),
{
    if s.len() == 0 {
        None
    } else if s[0].0@ == key {
        Some(s[0].1)
    } else {
        download_lookup(s.drop_first(), key)
    }
}

proof fn lemma_download_lookup(s: Seq<(String, PlatformDownload)>, key: Seq<char>, i: int)
    requires
        0 <= i <= s.len(),
        forall|j: int| 0 <= j < i ==> s[j].0@ != key,
        i < s.len() ==> s[i].0@ == key,
    ensures
        download_lookup(s, key) == (if i < s.len() {
            Some(s[i].1)
        } else {
            None::<PlatformDownload>
        }),
    decreases i,
{
    if i > 0 {
        lemma_download_lookup(s.drop_first(), key, i - 1);
    }
}

/// Replacing the download at `i`, under the key it already has, changes the
/// lookup of that key only, and only if no earlier entry has the key.
proof fn lemma_lookup_update(
    s: Seq<(String, PlatformDownload)>,
    i: int,
    e: (String, PlatformDownload),
    key: Seq<char>,
)
    requires
        0 <= i < s.len(),
        s[i].0@ == e.0@,
        forall|j: int| 0 <= j < i ==> s[j].0@ != e.0@,
    ensures
        download_lookup(s.update(i, e), key) == (if key == e.0@ {
            Some(e.1)
        } else {
            download_lookup(s, key)
        }),
    decreases i,
{
    if i > 0 {
        assert(s.update(i, e).drop_first() =~= s.drop_first().update(i - 1, e));
        lemma_lookup_update(s.drop_first(), i - 1, e, key);
    } else {
        assert(s.update(i, e).drop_first() =~= s.drop_first());
    }
}

/// Appending an entry adds its key if the key was absent.
proof fn lemma_lookup_push(
    s: Seq<(String, PlatformDownload)>,
    e: (String, PlatformDownload),
    key: Seq<char>,
)
    ensures
        download_lookup(s.push(e), key) == (if download_lookup(s, key) is Some {
            download_lookup(s, key)
        } else if key == e.0@ {
            Some(e.1)
        } else {
            None
        }),
    decreases s.len(),
{
    if s.len() > 0 {
        assert(s.push(e).drop_first() =~= s.drop_first().push(e));
        lemma_lookup_push(s.drop_first(), e, key);
    } else {
        assert(s.push(e).drop_first() =~= s);
    }
}

/// The downloads of an update manifest, one per platform key. It is a map
/// from keys to downloads: inserting under a key that is there replaces
/// that key's download.
#[derive(Debug)]
pub struct DownloadTable {
    entries: Vec<(String, PlatformDownload)>,
}

impl DownloadTable {
    /// The entries in the order they were first inserted.
    pub closed spec fn entries(&self) -> Seq<(String, PlatformDownload)> {
        self.entries@
    }

    /// No platform key occurs twice.
    #[verifier::type_invariant]
    closed spec fn keys_distinct(self) -> bool {
        forall|i: int, j: int|
            0 <= i < j < self.entries@.len() ==> self.entries@[i].0@ != self.entries@[j].0@
    }

    /// An empty table.
    pub fn new() -> (t: Self)
        ensures
            t@ == Map::<Seq<char>, PlatformDownload>::empty(),
    {
        let t = DownloadTable { entries: Vec::new() };
        assert(t@ =~= Map::<Seq<char>, PlatformDownload>::empty());
        t
    }

    /// Sets the download for `key`, replacing the one it had.
    pub fn insert(&mut self, key: String, download: PlatformDownload)
        ensures
            final(self)@ == old(self)@.insert(key@, download),
    {
        proof {
            use_type_invariant(&*self);
        }
        let mut entries: Vec<(String, PlatformDownload)> = Vec::new();
        std::mem::swap(&mut entries, &mut self.entries);
        let ghost before = entries@;
        let n = entries.len();
        let mut i: usize = 0;
        while i < n
            invariant
                n == entries@.len(),
                entries@ == before,
                0 <= i <= n,
                forall|j: int| 0 <= j < i ==> entries@[j].0@ != key@,
            ensures
                i < n ==> entries@[i as int].0@ == key@,
            decreases n - i,
        {
            if entries[i].0 == key {
                break;
            }
            i = i + 1;
        }
        let ghost e = (key, download);
        if i < n {
            proof {
                assert forall|k: Seq<char>| #[trigger] download_lookup(before.update(i as int, e), k)
                    == (if k == key@ { Some(download) } else { download_lookup(before, k) }) by {
                    lemma_lookup_update(before, i as int, e, k);
                }
            }
            entries.set(i, (key, download));
            assert(forall|j: int| 0 <= j < n ==> #[trigger] entries@[j].0@ == before[j].0@);
        } else {
            proof {
                assert forall|k: Seq<char>| #[trigger] download_lookup(before.push(e), k)
                    == (if download_lookup(before, k) is Some {
                        download_lookup(before, k)
                    } else if k == key@ {
                        Some(download)
                    } else {
                        None
                    }) by {
                    lemma_lookup_push(before, e, k);
                }
                assert(download_lookup(before, key@) is None) by {
                    lemma_download_lookup(before, key@, n as int);
                }
            }
            entries.push((key, download));
            assert(forall|j: int| 0 <= j < n ==> #[trigger] entries@[j] == before[j]);
        }
        self.entries = entries;
        assert(self@ =~= old(self)@.insert(key@, download));
    }

    /// The download listed under `key`.
    pub fn get(&self, key: &str) -> (found: Option<PlatformDownload>)
        ensures
            found == (if self@.contains_key(key@) {
                Some(self@[key@])
            } else {
                None
            }),
    {
        let k = String::from_str(key);
        let n = self.entries.len();
        let mut i: usize = 0;
        while i < n
            invariant
                n == self.entries@.len(),
                k@ == key@,
                0 <= i <= n,
                forall|j: int| 0 <= j < i ==> self.entries@[j].0@ != key@,
            decreases n - i,
        {
            if self.entries[i].0 == k {
                proof {
                    lemma_download_lookup(self.entries@, key@, i as int);
                }
                return Some(copy_download(&self.entries[i].1));
            }
            i = i + 1;
        }
        proof {
            lemma_download_lookup(self.entries@, key@, n as int);
        }
        None
    }
}

impl View for DownloadTable {
    type V = Map<Seq<char>, PlatformDownload>;

    /// Each key to the download listed under it.
    open spec fn view(&self) -> Map<Seq<char>, PlatformDownload> {
        Map::new(
            |k: Seq<char>| download_lookup(self.entries(), k) is Some,
            |k: Seq<char>| download_lookup(self.entries(), k).unwrap(),
        )
    }
}

/// The update manifest: the offered version, its notes, and the download
/// for each platform.
#[derive(Debug)]
pub struct UpdateInfo {
    pub version: String,
    pub changelog: String,
    pub date: String,
    pub downloads: DownloadTable,
}

/// The message for a platform the manifest lists no download for.
pub open spec fn no_download_text(platform: Seq<char>) -> Seq<char> {
    "No download for platform: "@ + platform
}

fn copy_download(d: &PlatformDownload) -> (r: PlatformDownload)
    ensures
        r == *d,
{
    PlatformDownload { url: d.url.clone(), md5: d.md5.clone(), size: d.size }
}

impl UpdateInfo {
    /// The download listed for `platform`.
    pub fn download_for(&self, platform: &str) -> (found: Result<PlatformDownload, String>)
        ensures
            match found {
                Ok(d) => self.downloads@.contains_key(platform@) && d == self.downloads@[platform@],
                Err(t) => !self.downloads@.contains_key(platform@) && t@ == no_download_text(
                    platform@,
                ),
            },
    {
        match self.downloads.get(platform) {
            Some(d) => Ok(d),
            None => {
                let mut t = String::from_str("No download for platform: ");
                t.append(platform);
                Err(t)
            },
        }
    }
}

/// The update to offer: the manifest itself if its version is newer than
/// the running one.
pub fn newer_update(info: UpdateInfo, current_version: &str) -> (offer: Option<UpdateInfo>)
    ensures
        offer == (if newer_version(info.version@, current_version@) {
            Some(info)
        } else {
            None
        }),
{
    if is_newer_version(info.version.as_str(), current_version) {
        Some(info)
    } else {
        None
    }
}

/// A lower-case hexadecimal digit.
pub open spec fn hex_digit(d: nat) -> char {
    if d < 10 {
        (48 + d) as char
    } else {
        (87 + d) as char
    }
}

/// Lower-case hexadecimal text of bytes, two digits per byte, as `{:x}`
/// writes a digest.
pub open spec fn hex_lower(bytes: Seq<u8>) -> Seq<char>
    decreases bytes.len(),
{
    if bytes.len() == 0 {
        Seq::empty()
    } else {
        hex_lower(bytes.drop_last()) + seq![
            hex_digit((bytes.last() / 16) as nat),
            hex_digit((bytes.last() % 16) as nat),
        ]
    }
}

fn hex_digit_str(d: u8) -> (s: &'static str)
    requires
        d < 16,
    ensures
        s@ == seq![hex_digit(d as nat)],
{
    proof {
        reveal_strlit("0");
        reveal_strlit("1");
        reveal_strlit("2");
        reveal_strlit("3");
        reveal_strlit("4");
        reveal_strlit("5");
        reveal_strlit("6");
        reveal_strlit("7");
        reveal_strlit("8");
        reveal_strlit("9");
        reveal_strlit("a");
        reveal_strlit("b");
        reveal_strlit("c");
        reveal_strlit("d");
        reveal_strlit("e");
        reveal_strlit("f");
    }
    match d {
        0 => "0",
        1 => "1",
        2 => "2",
        3 => "3",
        4 => "4",
        5 => "5",
        6 => "6",
        7 => "7",
        8 => "8",
        9 => "9",
        10 => "a",
        11 => "b",
        12 => "c",
        13 => "d",
        14 => "e",
        _ => "f",
    }
}

/// Lower-case hexadecimal text of bytes.
pub fn to_hex_lower(bytes: &[u8]) -> (text: String)
    ensures
        text@ == hex_lower(bytes@),
{
    let mut s = String::new();
    let n = bytes.len();
    let mut i: usize = 0;
    while i < n
        invariant
            n == bytes@.len(),
            0 <= i <= n,
            s@ == hex_lower(bytes@.subrange(0, i as int)),
        decreases n - i,
    {
        let b = bytes[i];
        s.append(hex_digit_str(b / 16));
        s.append(hex_digit_str(b % 16));
        proof {
            let t = bytes@.subrange(0, i + 1);
            assert(t.drop_last() =~= bytes@.subrange(0, i as int));
            assert(t.last() == b);
            assert(s@ =~= hex_lower(t));
        }
        i = i + 1;
    }
    proof {
        assert(bytes@.subrange(0, n as int) =~= bytes@);
    }
    s
}

/// The message for a download whose digest is not the expected one.
pub open spec fn md5_mismatch_text(expected: Seq<char>, got: Seq<char>) -> Seq<char> {
    "MD5 mismatch: expected "@ + expected + ", got "@ + got
}

/// Checks downloaded bytes against the manifest's MD5 (lower-case hex).
pub fn verify_md5(data: &[u8], expected: &str) -> (checked: Result<(), String>)
    ensures
        match checked {
            Ok(()) => hex_lower(md5_digest_of(data@)) == expected@,
            Err(t) => hex_lower(md5_digest_of(data@)) != expected@ && t@ == md5_mismatch_text(
                expected@,
                hex_lower(md5_digest_of(data@)),
            ),
        },
{
    let digest = md5_digest(data);
    let hash = to_hex_lower(digest.as_slice());
    let want = String::from_str(expected);
    if hash == want {
        Ok(())
    } else {
        let mut t = String::from_str("MD5 mismatch: expected ");
        t.append(expected);
        t.append(", got ");
        t.append(hash.as_str());
        Err(t)
    }
}

/// What is known of an available update: whether one is offered, its
/// version and changelog, download progress (bytes so far of the expected
/// total), whether it is downloaded and verified, and the last error.
#[derive(Clone, Debug)]
pub struct UpdateState {
    pub available: bool,
    pub version: String,
    pub changelog: String,
    pub downloaded: u64,
    pub total: u64,
    pub ready: bool,
    pub error: Option<String>,
}

impl Default for UpdateState {
    fn default() -> (s: Self)
        ensures
            !s.available,
            s.version@ == Seq::<char>::empty(),
            s.changelog@ == Seq::<char>::empty(),
            s.downloaded == 0,
            s.total == 0,
            !s.ready,
            s.error is None,
    {
        UpdateState {
            available: false,
            version: String::new(),
            changelog: String::new(),
            downloaded: 0,
            total: 0,
            ready: false,
            error: None,
        }
    }
}

/// The message recorded for a failed check.
pub open spec fn check_failed_text(e: Seq<char>) -> Seq<char> {
    "Update check failed: "@ + e
}

/// The message recorded for a failed download.
pub open spec fn download_failed_text(e: Seq<char>) -> Seq<char> {
    "Download failed: "@ + e
}

impl UpdateState {
    /// Records the outcome of a check: an offered update becomes available
    /// with its version and changelog; a failure is recorded as the error.
    pub fn record_check(&mut self, outcome: Result<Option<UpdateInfo>, String>)
        ensures
            match outcome {
                Ok(Some(info)) => *final(self) == (UpdateState {
                    available: true,
                    version: info.version,
                    changelog: info.changelog,
                    ..*old(self)
                }),
                Ok(None) => *final(self) == *old(self),
                Err(e) => final(self).error matches Some(t) && t@ == check_failed_text(e@) && *final(self)
                    == (UpdateState { error: final(self).error, ..*old(self) }),
            },
    {
        match outcome {
            Ok(Some(info)) => {
                self.available = true;
                self.version = info.version;
                self.changelog = info.changelog;
            },
            Ok(None) => {},
            Err(e) => {
                let mut t = String::from_str("Update check failed: ");
                t.append(e.as_str());
                self.error = Some(t);
            },
        }
    }

    /// Records download progress.
    pub fn record_progress(&mut self, downloaded: u64, total: u64)
        ensures
            *final(self) == (UpdateState { downloaded, total, ..*old(self) }),
    {
        self.downloaded = downloaded;
        self.total = total;
    }

    /// Records the outcome of a download: ready when it succeeded, the error
    /// otherwise.
    pub fn record_download(&mut self, outcome: Result<(), String>)
        ensures
            match outcome {
                Ok(()) => *final(self) == (UpdateState { ready: true, ..*old(self) }),
                Err(e) => final(self).error matches Some(t) && t@ == download_failed_text(e@) && *final(self)
                    == (UpdateState { error: final(self).error, ..*old(self) }),
            },
    {
        match outcome {
            Ok(()) => {
                self.ready = true;
            },
            Err(e) => {
                let mut t = String::from_str("Download failed: ");
                t.append(e.as_str());
                self.error = Some(t);
            },
        }
    }
}

} // verus!

verus! {

proof fn lemma_bytes_less_irreflexive(a: Seq<u8>)
    ensures
        !bytes_less(a, a),
    decreases a.len(),
{
    if a.len() > 0 {
        lemma_bytes_less_irreflexive(a.drop_first());
    }
}

proof fn lemma_bytes_less_asymmetric(a: Seq<u8>, b: Seq<u8>)
    ensures
        bytes_less(a, b) ==> !bytes_less(b, a),
    decreases a.len(),
{
    if a.len() > 0 && b.len() > 0 && a[0] == b[0] {
        lemma_bytes_less_asymmetric(a.drop_first(), b.drop_first());
    }
}

proof fn lemma_bytes_less_transitive(a: Seq<u8>, b: Seq<u8>, c: Seq<u8>)
    ensures
        bytes_less(a, b) && bytes_less(b, c) ==> bytes_less(a, c),
    decreases a.len(),
{
    if a.len() > 0 && b.len() > 0 && c.len() > 0 {
        lemma_bytes_less_transitive(a.drop_first(), b.drop_first(), c.drop_first());
    }
}

proof fn lemma_bytes_less_total(a: Seq<u8>, b: Seq<u8>)
    ensures
        a != b ==> bytes_less(a, b) || bytes_less(b, a),
    decreases a.len(),
{
    if a.len() > 0 && b.len() > 0 {
        lemma_bytes_less_total(a.drop_first(), b.drop_first());
        if a[0] == b[0] && a.drop_first() == b.drop_first() {
            assert(a =~= seq![a[0]] + a.drop_first());
            assert(b =~= seq![b[0]] + b.drop_first());
        }
    } else if a.len() == 0 && b.len() == 0 {
        assert(a =~= b);
    }
}

/// No version is newer than itself.
pub proof fn law_newer_irreflexive(v: Seq<char>)
    ensures
        !newer_version(v, v),
{
    lemma_bytes_less_irreflexive(encode_utf8(v));
}

/// Of two versions, at most one is newer than the other.
pub proof fn law_newer_asymmetric(a: Seq<char>, b: Seq<char>)
    ensures
        newer_version(a, b) ==> !newer_version(b, a),
{
    lemma_bytes_less_asymmetric(encode_utf8(b), encode_utf8(a));
}

/// A version newer than one that is newer than a third is newer than the
/// third.
pub proof fn law_newer_transitive(a: Seq<char>, b: Seq<char>, c: Seq<char>)
    ensures
        newer_version(a, b) && newer_version(b, c) ==> newer_version(a, c),
{
    lemma_bytes_less_transitive(encode_utf8(c), encode_utf8(b), encode_utf8(a));
}

/// Of two versions whose texts differ in their bytes, one is newer.
pub proof fn law_newer_total(a: Seq<char>, b: Seq<char>)
    ensures
        encode_utf8(a) != encode_utf8(b) ==> newer_version(a, b) || newer_version(b, a),
{
    lemma_bytes_less_total(encode_utf8(a), encode_utf8(b));
}

proof fn lemma_bytes_less_first_difference(a: Seq<u8>, b: Seq<u8>, i: int)
    requires
        0 <= i < a.len(),
        i < b.len(),
        a.subrange(0, i) == b.subrange(0, i),
        a[i] != b[i],
    ensures
        bytes_less(a, b) == (a[i] < b[i]),
    decreases i,
{
    if i > 0 {
        assert(a[0] == a.subrange(0, i)[0]);
        assert(b[0] == b.subrange(0, i)[0]);
        assert(a.drop_first().subrange(0, i - 1) =~= a.subrange(0, i).drop_first());
        assert(b.drop_first().subrange(0, i - 1) =~= b.subrange(0, i).drop_first());
        lemma_bytes_less_first_difference(a.drop_first(), b.drop_first(), i - 1);
    }
}

proof fn lemma_bytes_less_prefix(a: Seq<u8>, b: Seq<u8>)
    requires
        a.len() <= b.len(),
        b.subrange(0, a.len() as int) == a,
    ensures
        bytes_less(a, b) == (a.len() < b.len()),
    decreases a.len(),
{
    if a.len() > 0 {
        assert(a[0] == b.subrange(0, a.len() as int)[0]);
        assert(b.drop_first().subrange(0, a.len() - 1) =~= a.drop_first());
        lemma_bytes_less_prefix(a.drop_first(), b.drop_first());
    }
}

/// Versions compare as their texts do, byte by byte in UTF-8: where the two
/// first differ, the one with the larger byte is newer; where one text
/// starts with the whole of the other, the longer one is newer. So "0.1.1"
/// is newer than "0.1.0", and "0.10.0" is not newer than "0.9.0".
pub proof fn law_newer_by_first_difference(candidate: Seq<char>, current: Seq<char>, i: int)
    ensures
        ({
            let a = encode_utf8(current);
            let b = encode_utf8(candidate);
            0 <= i < a.len() && i < b.len() && a.subrange(0, i) == b.subrange(0, i) && a[i]
                != b[i] ==> newer_version(candidate, current) == (a[i] < b[i])
        }),
        ({
            let a = encode_utf8(current);
            let b = encode_utf8(candidate);
            a.len() <= b.len() && b.subrange(0, a.len() as int) == a ==> newer_version(
                candidate,
                current,
            ) == (a.len() < b.len())
        }),
{
    let a = encode_utf8(current);
    let b = encode_utf8(candidate);
    if 0 <= i < a.len() && i < b.len() && a.subrange(0, i) == b.subrange(0, i) && a[i] != b[i] {
        lemma_bytes_less_first_difference(a, b, i);
    }
    if a.len() <= b.len() && b.subrange(0, a.len() as int) == a {
        lemma_bytes_less_prefix(a, b);
    }
}

/// The manifest key of each platform: Apple silicon and Intel Macs,
/// 64-bit x86 Linux, and every Windows build have their own; any other
/// combination is "unknown".
pub proof fn law_platform_keys(os: TargetOs, arch: TargetArch)
    ensures
        platform_key_text(os, arch) == (if os == TargetOs::MacOs && arch == TargetArch::Aarch64 {
            "macos-aarch64"@
        } else if os == TargetOs::MacOs && arch == TargetArch::X86_64 {
            "macos-x86_64"@
        } else if os == TargetOs::Windows {
            "windows-x64"@
        } else if os == TargetOs::Linux && arch == TargetArch::X86_64 {
            "linux-x86_64"@
        } else {
            "unknown"@
        }),
{
}

/// Every Windows build downloads the `windows-x64` package, whatever its
/// architecture.
pub proof fn law_windows_key_ignores_arch(arch: TargetArch)
    ensures
        platform_key_text(TargetOs::Windows, arch) == "windows-x64"@,
        platform_key_text(TargetOs::Windows, arch) == platform_key_text(
            TargetOs::Windows,
            TargetArch::Other,
        ),
{
}

/// The hexadecimal text has two digits per byte.
pub proof fn law_hex_length(bytes: Seq<u8>)
    ensures
        hex_lower(bytes).len() == 2 * bytes.len(),
    decreases bytes.len(),
{
    if bytes.len() > 0 {
        law_hex_length(bytes.drop_last());
    }
}

} // verus!

verus! {

proof fn lemma_hex_digit_injective(x: nat, y: nat)
    requires
        x < 16,
        y < 16,
        hex_digit(x) == hex_digit(y),
    ensures
        x == y,
{
    assert((hex_digit(x) as u32) == (if x < 10 { 48 + x } else { 87 + x }));
    assert((hex_digit(y) as u32) == (if y < 10 { 48 + y } else { 87 + y }));
}

/// Different digests of one length have different hexadecimal texts, so
/// the MD5 check accepts exactly the digest whose text is expected.
pub proof fn law_hex_injective(a: Seq<u8>, b: Seq<u8>)
    requires
        a.len() == b.len(),
        hex_lower(a) == hex_lower(b),
    ensures
        a == b,
    decreases a.len(),
{
    if a.len() > 0 {
        law_hex_length(a.drop_last());
        law_hex_length(b.drop_last());
        let ha = hex_lower(a);
        let k = ha.len() - 2;
        assert(ha[k] == hex_digit((a.last() / 16) as nat));
        assert(ha[k + 1] == hex_digit((a.last() % 16) as nat));
        assert(hex_lower(b)[k] == hex_digit((b.last() / 16) as nat));
        assert(hex_lower(b)[k + 1] == hex_digit((b.last() % 16) as nat));
        lemma_hex_digit_injective((a.last() / 16) as nat, (b.last() / 16) as nat);
        lemma_hex_digit_injective((a.last() % 16) as nat, (b.last() % 16) as nat);
        assert(hex_lower(a.drop_last()) =~= ha.subrange(0, k));
        assert(hex_lower(b.drop_last()) =~= hex_lower(b).subrange(0, k));
        law_hex_injective(a.drop_last(), b.drop_last());
        assert(a.last() == b.last());
        assert(a =~= a.drop_last().push(a.last()));
        assert(b =~= b.drop_last().push(b.last()));
    }
}

} // verus!
