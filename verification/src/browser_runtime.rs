use vstd::prelude::*;
use vstd::string::StringExecFns;
use crate::text::str_eq;

verus! {

/// The Chrome for Testing release used when the list of versions cannot be had.
pub const FALLBACK_VERSION: &'static str = "131.0.6778.85";

/// Where the list of known good Chrome for Testing versions is published.
pub const CFT_VERSION_LIST_URL: &'static str =
    "https://googlechromelabs.github.io/chrome-for-testing/known-good-versions-with-downloads.json";

/// A browser binary that the tools can drive, with its version (`system` for
/// one found on the machine).
pub struct BrowserRuntime {
    pub binary_path: String,
    pub version: String,
}

/// One download offered for a release.
pub struct DownloadEntry {
    pub platform: String,
    pub url: String,
}

/// The downloads of one release.
pub struct Downloads {
    pub chrome_headless_shell: Vec<DownloadEntry>,
}

/// One release in the list of known good versions.
pub struct KnownGoodVersionEntry {
    pub version: String,
    pub downloads: Downloads,
}

/// The operating system has no Chrome for Testing build.
pub struct UnsupportedOs {
    pub os: String,
}

/// The Chrome for Testing platform name for an operating system and
/// architecture (as `std::env::consts` names them).
pub open spec fn spec_platform(os: Seq<char>, arch: Seq<char>) -> Option<Seq<char>> {
    if os == "linux"@ {
        Some("linux64"@)
    } else if os == "macos"@ {
        if arch == "aarch64"@ { Some("mac-arm64"@) } else { Some("mac-x64"@) }
    } else if os == "windows"@ {
        if arch == "x86_64"@ { Some("win64"@) } else { Some("win32"@) }
    } else {
        None
    }
}

/// The Chrome for Testing platform name, or the operating system that has none.
pub fn platform_string(os: &str, arch: &str) -> (r: Result<&'static str, UnsupportedOs>)
    ensures
        match r {
            Ok(p) => spec_platform(os@, arch@) == Some(p@),
            Err(e) => spec_platform(os@, arch@) is None && e.os@ == os@,
        },
{
    if str_eq(os, "linux") {
        Ok("linux64")
    } else if str_eq(os, "macos") {
        if str_eq(arch, "aarch64") {
            Ok("mac-arm64")
        } else {
            Ok("mac-x64")
        }
    } else if str_eq(os, "windows") {
        if str_eq(arch, "x86_64") {
            Ok("win64")
        } else {
            Ok("win32")
        }
    } else {
        Err(UnsupportedOs { os: String::from_str(os) })
    }
}

/// The archive name of the headless shell for a platform.
pub open spec fn archive_path(version: Seq<char>, platform: Seq<char>) -> Seq<char> {
    version + "/"@ + platform + "/chrome-headless-shell-"@ + platform + ".zip"@
}

/// The mirrors that serve a release's headless shell, in the order tried.
pub open spec fn spec_download_urls(version: Seq<char>, platform: Seq<char>) -> Seq<Seq<char>> {
    seq![
        "https://storage.googleapis.com/chrome-for-testing-public/"@ + archive_path(version, platform),
        "https://playwright.azureedge.net/chrome-for-testing-public/"@ + archive_path(version, platform),
    ]
}

fn download_url(base: &str, version: &str, platform: &str) -> (r: String)
    ensures
        r@ == base@ + archive_path(version@, platform@),
{
    let mut r = String::from_str(base);
    r.append(version);
    r.append("/");
    r.append(platform);
    r.append("/chrome-headless-shell-");
    r.append(platform);
    r.append(".zip");
    proof {
        assert(r@ =~= base@ + archive_path(version@, platform@));
    }
    r
}

/// The URLs from which a release's headless shell can be downloaded.
pub fn cft_download_urls(version: &str, platform: &str) -> (r: Vec<String>)
    ensures
        r@.len() == 2,
        r@[0]@ == spec_download_urls(version@, platform@)[0],
        r@[1]@ == spec_download_urls(version@, platform@)[1],
{
    let mut r: Vec<String> = Vec::new();
    r.push(download_url("https://storage.googleapis.com/chrome-for-testing-public/", version, platform));
    r.push(download_url("https://playwright.azureedge.net/chrome-for-testing-public/", version, platform));
    r
}

/// The path of a release's headless shell below the install directory, as
/// its components: the version, the platform's directory and the binary.
pub open spec fn spec_binary_path(version: Seq<char>, platform: Seq<char>, windows: bool) -> Seq<
    Seq<char>,
> {
    seq![
        version,
        "chrome-headless-shell-"@ + platform,
        if windows { "chrome-headless-shell.exe"@ } else { "chrome-headless-shell"@ },
    ]
}

/// The components of a release's binary path below the install directory.
pub fn binary_path_for_version(version: &str, platform: &str, windows: bool) -> (r: Vec<String>)
    ensures
        r@.len() == 3,
        forall|i: int| 0 <= i < 3 ==> #[trigger] r@[i]@ == spec_binary_path(version@, platform@, windows)[i],
{
    let mut dir = String::from_str("chrome-headless-shell-");
    dir.append(platform);
    let binary = if windows {
        String::from_str("chrome-headless-shell.exe")
    } else {
        String::from_str("chrome-headless-shell")
    };
    let mut r: Vec<String> = Vec::new();
    r.push(String::from_str(version));
    r.push(dir);
    r.push(binary);
    r
}

/// Whether a release offers a headless shell for `platform`.
pub open spec fn offers_platform(entry: KnownGoodVersionEntry, platform: Seq<char>) -> bool {
    exists|j: int|
        0 <= j < entry.downloads.chrome_headless_shell@.len()
            && (#[trigger] entry.downloads.chrome_headless_shell@[j]).platform@ == platform
}

/// The position of the last release, before `end`, that offers `platform`.
pub open spec fn last_offering_before(
    entries: Seq<KnownGoodVersionEntry>,
    platform: Seq<char>,
    end: int,
) -> Option<int>
    decreases end,
{
    if end <= 0 {
        None
    } else if offers_platform(entries[end - 1], platform) {
        Some(end - 1)
    } else {
        last_offering_before(entries, platform, end - 1)
    }
}

/// The newest release in the list (the list runs oldest first) that offers
/// `platform`.
pub open spec fn spec_latest_version(entries: Seq<KnownGoodVersionEntry>, platform: Seq<char>) -> Option<
    Seq<char>,
> {
    match last_offering_before(entries, platform, entries.len() as int) {
        Some(i) => Some(entries[i].version@),
        None => None,
    }
}

pub proof fn lemma_last_offering_before(
    entries: Seq<KnownGoodVersionEntry>,
    platform: Seq<char>,
    end: int,
)
    requires
        end <= entries.len(),
    ensures
        last_offering_before(entries, platform, end) matches Some(i) ==> 0 <= i < end,
    decreases end,
{
    if end > 0 && !offers_platform(entries[end - 1], platform) {
        lemma_last_offering_before(entries, platform, end - 1);
    }
}

fn entry_offers(entry: &KnownGoodVersionEntry, platform: &str) -> (r: bool)
    ensures
        r == offers_platform(*entry, platform@),
{
    let downloads = &entry.downloads.chrome_headless_shell;
    let mut j: usize = 0;
    while j < downloads.len()
        invariant
            j <= downloads@.len(),
            downloads == &entry.downloads.chrome_headless_shell,
            forall|k: int| 0 <= k < j ==> (#[trigger] downloads@[k]).platform@ != platform@,
        decreases downloads@.len() - j,
    {
        if str_eq(downloads[j].platform.as_str(), platform) {
            return true;
        }
        j = j + 1;
    }
    false
}

/// The newest release that offers a headless shell for `platform`.
pub fn latest_version_for_platform(entries: &[KnownGoodVersionEntry], platform: &str) -> (r: Option<
    String,
>)
    ensures
        match r {
            Some(v) => spec_latest_version(entries@, platform@) == Some(v@),
            None => spec_latest_version(entries@, platform@) is None,
        },
{
    let mut end: usize = entries.len();
    while end > 0
        invariant
            end <= entries@.len(),
            last_offering_before(entries@, platform@, entries@.len() as int)
                == last_offering_before(entries@, platform@, end as int),
        decreases end,
    {
        if entry_offers(&entries[end - 1], platform) {
            return Some(entries[end - 1].version.clone());
        }
        end = end - 1;
    }
    None
}

/// The release to install: the one found in the list, else the fallback.
pub fn chosen_version(latest: Option<String>) -> (r: String)
    ensures
        r@ == match latest {
            Some(v) => v@,
            None => FALLBACK_VERSION@,
        },
{
    match latest {
        Some(v) => v,
        None => String::from_str(FALLBACK_VERSION),
    }
}

/// The runtime for a browser found on the machine.
pub fn system_runtime(path: String) -> (r: BrowserRuntime)
    ensures
        r.binary_path == path,
        r.version@ == "system"@,
{
    BrowserRuntime { binary_path: path, version: String::from_str("system") }
}

// ---- a browser already on the machine ----

/// Where a browser might already be installed, in the order looked at.
pub enum SystemCandidate {
    /// A program of this name in a folder of the search path; it counts when
    /// it is an executable file.
    InPath { dir: String, name: &'static str },
    /// A fixed path; it counts when it exists.
    Fixed(String),
}

/// The plain form of a candidate: whether it is in the search path, then the
/// folder and name, or the path and nothing.
pub open spec fn candidate_view(c: SystemCandidate) -> (bool, Seq<char>, Seq<char>) {
    match c {
        SystemCandidate::InPath { dir, name } => (true, dir@, name@),
        SystemCandidate::Fixed(p) => (false, p@, Seq::<char>::empty()),
    }
}

/// The program names looked for in the search path.
pub open spec fn spec_system_names(os: Seq<char>) -> Seq<Seq<char>> {
    if os == "windows"@ {
        seq!["chrome.exe"@, "google-chrome.exe"@]
    } else if os == "macos"@ {
        seq!["google-chrome"@, "google-chrome-stable"@, "chromium"@]
    } else {
        seq!["google-chrome"@, "google-chrome-stable"@, "chromium-browser"@, "chromium"@]
    }
}

/// Every name in every folder, folder by folder.
pub open spec fn in_path_candidates(dirs: Seq<Seq<char>>, names: Seq<Seq<char>>) -> Seq<(bool, Seq<char>, Seq<char>)>
    decreases dirs.len(),
{
    if dirs.len() == 0 {
        seq![]
    } else {
        in_path_candidates(dirs.drop_last(), names) + names.map_values(
            |n: Seq<char>| (true, dirs.last(), n),
        )
    }
}

/// The two Windows install paths under a base folder, when it is set.
pub open spec fn install_folder_candidates(base: Option<Seq<char>>) -> Seq<(bool, Seq<char>, Seq<char>)> {
    match base {
        None => seq![],
        Some(b) => seq![
            (false, b + "\\Google\\Chrome\\Application\\chrome.exe"@, Seq::<char>::empty()),
            (false, b + "\\Chromium\\Application\\chrome.exe"@, Seq::<char>::empty()),
        ],
    }
}

/// Where a browser on the machine is looked for: each name in each folder
/// of the search path, then the usual install paths of macOS, or of Windows
/// under `PROGRAMFILES`, `PROGRAMFILES(X86)` and `LOCALAPPDATA`.
pub open spec fn spec_system_candidates(
    os: Seq<char>,
    dirs: Seq<Seq<char>>,
    program_files: Option<Seq<char>>,
    program_files_x86: Option<Seq<char>>,
    local_app_data: Option<Seq<char>>,
) -> Seq<(bool, Seq<char>, Seq<char>)> {
    in_path_candidates(dirs, spec_system_names(os)) + (if os == "macos"@ {
        seq![
            (false, "/Applications/Google Chrome.app/Contents/MacOS/Google Chrome"@, Seq::<char>::empty()),
            (false, "/Applications/Chromium.app/Contents/MacOS/Chromium"@, Seq::<char>::empty()),
        ]
    } else {
        seq![]
    }) + (if os == "windows"@ {
        install_folder_candidates(program_files) + install_folder_candidates(program_files_x86)
            + install_folder_candidates(local_app_data)
    } else {
        seq![]
    })
}

fn system_names(os: &str) -> (r: Vec<&'static str>)
    ensures
        r@.map_values(|s: &'static str| s@) == spec_system_names(os@),
{
    let mut r: Vec<&'static str> = Vec::new();
    if str_eq(os, "windows") {
        r.push("chrome.exe");
        r.push("google-chrome.exe");
    } else if str_eq(os, "macos") {
        r.push("google-chrome");
        r.push("google-chrome-stable");
        r.push("chromium");
    } else {
        r.push("google-chrome");
        r.push("google-chrome-stable");
        r.push("chromium-browser");
        r.push("chromium");
    }
    proof {
        assert(r@.map_values(|s: &'static str| s@) =~= spec_system_names(os@));
    }
    r
}

fn push_fixed(r: &mut Vec<SystemCandidate>, path: String)
    ensures
        final(r)@.map_values(|c: SystemCandidate| candidate_view(c)) == old(r)@.map_values(
            |c: SystemCandidate| candidate_view(c),
        ).push((false, path@, Seq::<char>::empty())),
{
    r.push(SystemCandidate::Fixed(path));
    proof {
        assert(final(r)@.map_values(|c: SystemCandidate| candidate_view(c)) =~= old(r)@.map_values(
            |c: SystemCandidate| candidate_view(c),
        ).push((false, path@, Seq::<char>::empty())));
    }
}

fn push_install_folder(r: &mut Vec<SystemCandidate>, base: Option<&str>)
    ensures
        final(r)@.map_values(|c: SystemCandidate| candidate_view(c)) == old(r)@.map_values(
            |c: SystemCandidate| candidate_view(c),
        ) + install_folder_candidates(
            match base {
                Some(b) => Some(b@),
                None => None,
            },
        ),
{
    let ghost start = r@.map_values(|c: SystemCandidate| candidate_view(c));
    match base {
        None => {
            proof {
                assert(start + seq![] =~= start);
            }
        },
        Some(b) => {
            let mut chrome = String::from_str(b);
            chrome.append("\\Google\\Chrome\\Application\\chrome.exe");
            push_fixed(r, chrome);
            let mut chromium = String::from_str(b);
            chromium.append("\\Chromium\\Application\\chrome.exe");
            push_fixed(r, chromium);
            proof {
                assert(r@.map_values(|c: SystemCandidate| candidate_view(c)) =~= start
                    + install_folder_candidates(Some(b@)));
            }
        },
    }
}

/// Where to look for a browser already on the machine, in order, given the
/// folders of the search path and the Windows base folders that are set.
pub fn system_chrome_candidates(
    os: &str,
    dirs: &Vec<String>,
    program_files: Option<&str>,
    program_files_x86: Option<&str>,
    local_app_data: Option<&str>,
) -> (r: Vec<SystemCandidate>)
    ensures
        r@.map_values(|c: SystemCandidate| candidate_view(c)) == spec_system_candidates(
            os@,
            dirs@.map_values(|d: String| d@),
            match program_files {
                Some(b) => Some(b@),
                None => None,
            },
            match program_files_x86 {
                Some(b) => Some(b@),
                None => None,
            },
            match local_app_data {
                Some(b) => Some(b@),
                None => None,
            },
        ),
{
    let names = system_names(os);
    let ghost nv = names@.map_values(|s: &'static str| s@);
    let ghost dv = dirs@.map_values(|d: String| d@);
    let mut r: Vec<SystemCandidate> = Vec::new();
    let mut i: usize = 0;
    proof {
        assert(dv.take(0) =~= Seq::<Seq<char>>::empty());
        assert(r@.map_values(|c: SystemCandidate| candidate_view(c)) =~= in_path_candidates(dv.take(0), nv));
    }
    while i < dirs.len()
        invariant
            i <= dirs@.len(),
            dv == dirs@.map_values(|d: String| d@),
            nv == names@.map_values(|s: &'static str| s@),
            r@.map_values(|c: SystemCandidate| candidate_view(c)) == in_path_candidates(dv.take(i as int), nv),
        decreases dirs@.len() - i,
    {
        let ghost base = r@.map_values(|c: SystemCandidate| candidate_view(c));
        let mut j: usize = 0;
        proof {
            assert(base + nv.take(0).map_values(|n: Seq<char>| (true, dv[i as int], n)) =~= base);
        }
        while j < names.len()
            invariant
                i < dirs@.len(),
                j <= names@.len(),
                dv == dirs@.map_values(|d: String| d@),
                nv == names@.map_values(|s: &'static str| s@),
                r@.map_values(|c: SystemCandidate| candidate_view(c)) == base + nv.take(j as int).map_values(
                    |n: Seq<char>| (true, dv[i as int], n),
                ),
            decreases names@.len() - j,
        {
            let ghost before = r@;
            r.push(SystemCandidate::InPath { dir: dirs[i].clone(), name: names[j] });
            j = j + 1;
            proof {
                assert(r@.map_values(|c: SystemCandidate| candidate_view(c)) =~= before.map_values(
                    |c: SystemCandidate| candidate_view(c),
                ).push((true, dv[i as int], nv[j - 1])));
                assert(nv.take(j as int).map_values(|n: Seq<char>| (true, dv[i as int], n)) =~= nv.take(
                    j - 1,
                ).map_values(|n: Seq<char>| (true, dv[i as int], n)).push((true, dv[i as int], nv[j - 1])));
                assert(r@.map_values(|c: SystemCandidate| candidate_view(c)) =~= base + nv.take(
                    j as int,
                ).map_values(|n: Seq<char>| (true, dv[i as int], n)));
            }
        }
        proof {
            assert(nv.take(names@.len() as int) =~= nv);
            assert(dv.take(i + 1).drop_last() =~= dv.take(i as int));
            assert(dv.take(i + 1).last() == dv[i as int]);
        }
        i = i + 1;
    }
    proof {
        assert(dv.take(dirs@.len() as int) =~= dv);
    }
    let ghost in_path = r@.map_values(|c: SystemCandidate| candidate_view(c));
    if str_eq(os, "macos") {
        push_fixed(&mut r, String::from_str("/Applications/Google Chrome.app/Contents/MacOS/Google Chrome"));
        push_fixed(&mut r, String::from_str("/Applications/Chromium.app/Contents/MacOS/Chromium"));
    }
    let ghost after_mac = r@.map_values(|c: SystemCandidate| candidate_view(c));
    if str_eq(os, "windows") {
        push_install_folder(&mut r, program_files);
        push_install_folder(&mut r, program_files_x86);
        push_install_folder(&mut r, local_app_data);
    }
    proof {
        let pf = match program_files {
            Some(b) => Some(b@),
            None => None,
        };
        let pf86 = match program_files_x86 {
            Some(b) => Some(b@),
            None => None,
        };
        let lad = match local_app_data {
            Some(b) => Some(b@),
            None => None,
        };
        assert(r@.map_values(|c: SystemCandidate| candidate_view(c)) =~= spec_system_candidates(
            os@,
            dv,
            pf,
            pf86,
            lad,
        ));
    }
    r
}

// ---- downloading a release ----

/// What asking one download source gave.
pub enum FetchOutcome {
    /// An answer with this status code and the status's text.
    Status { code: u16, text: String },
    /// No answer: the request failed with this error.
    Failed(String),
}

/// The download sources tried so far: the error of the last that failed.
pub struct DownloadAttempts {
    pub last_error: String,
}

impl DownloadAttempts {
    /// Nothing tried yet.
    pub fn new() -> (r: Self)
        ensures
            r.last_error@ == Seq::<char>::empty(),
    {
        DownloadAttempts { last_error: String::new() }
    }

    /// Takes what one source gave; true when its body is to be used (a
    /// success status), else the failure is remembered.
    pub fn record(&mut self, outcome: FetchOutcome) -> (r: bool)
        ensures
            match outcome {
                FetchOutcome::Status { code, text } => {
                    &&& r == (200 <= code <= 299)
                    &&& r ==> final(self).last_error == old(self).last_error
                    &&& !r ==> final(self).last_error@ == "HTTP "@ + text@
                },
                FetchOutcome::Failed(e) => !r && final(self).last_error == e,
            },
    {
        match outcome {
            FetchOutcome::Status { code, text } => {
                if 200 <= code && code <= 299 {
                    true
                } else {
                    let mut e = String::from_str("HTTP ");
                    e.append(text.as_str());
                    self.last_error = e;
                    false
                }
            },
            FetchOutcome::Failed(e) => {
                self.last_error = e;
                false
            },
        }
    }

    /// The error when no source gave the archive.
    pub fn failure_message(&self) -> (r: String)
        ensures
            r@ == "Failed to download Chrome for Testing from all sources. Last error: "@ + self.last_error@
                + ". Try installing Chrome/Chromium on your system so the browser tool can use it directly."@,
    {
        let mut m = String::from_str("Failed to download Chrome for Testing from all sources. Last error: ");
        m.append(self.last_error.as_str());
        m.append(". Try installing Chrome/Chromium on your system so the browser tool can use it directly.");
        m
    }
}

/// The error when a freshly installed binary does not run.
pub fn not_functional_message(path: &str) -> (r: String)
    ensures
        r@ == "Downloaded Chrome for Testing binary at "@ + path@ + " is not functional"@,
{
    let mut m = String::from_str("Downloaded Chrome for Testing binary at ");
    m.append(path);
    m.append(" is not functional");
    m
}

} // verus!
