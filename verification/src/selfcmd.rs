//! `gigabytectl self` — updating and removing this installation.
//!
//! Both halves work on the binary that is currently running, and refuse to touch
//! anything a package manager owns.

use crate::cli;
use crate::cli::SERVICE_NAME;
use crate::cli::SERVICE_PATH;
use crate::config;
use crate::config::Environment;
use crate::config::SYSTEM_CONFIG_DIR;
use crate::error::Error;
use crate::error::Fault;
use crate::error::Problem;
use crate::path;
use crate::sysfs;
use crate::system;
use crate::text;
use crate::text::Cut;
use vstd::prelude::*;
use vstd::string::StringExecFns;

verus! {

pub const RELEASES_API: &'static str =
    "https://api.github.com/repos/Code-Sapling/gigabytectl/releases/latest";

/// Name of the directory this tool owns wherever it stores data. Nothing
/// outside a directory with this name is ever removed.
pub const DATA_DIR_NAME: &'static str = "gigabytectl";

/// Long enough for a slow connection, short enough that a hung server does not
/// wedge the command forever.
pub const DOWNLOAD_TIMEOUT_SECS: &'static str = "300";

// --- Versions ---

/// The number in a piece of a version that has to be one.
pub open spec fn number_at(pieces: Seq<Seq<char>>, i: int) -> Option<u64> {
    match text::parsed_nat(pieces[i], u64::MAX as nat) {
        Some(n) => Some(n as u64),
        None => None,
    }
}

/// The number in a piece of a version that may be missing.
pub open spec fn number_or_zero(pieces: Seq<Seq<char>>, i: int) -> Option<u64> {
    if i < pieces.len() {
        number_at(pieces, i)
    } else {
        Some(0)
    }
}

/// The numbers of a version, if it has the shape of one.
pub open spec fn version_of(version: Seq<char>) -> Option<(u64, u64, u64)> {
    let bare = text::without_leading(text::trimmed(version), 'v');
    let release = text::pieces(bare, Cut::Either('-', '+'))[0];
    let pieces = text::pieces(release, Cut::At('.'));
    match (number_at(pieces, 0), number_or_zero(pieces, 1), number_or_zero(pieces, 2)) {
        (Some(major), Some(minor), Some(patch)) => Some((major, minor, patch)),
        _ => None,
    }
}

fn number_in(pieces: &Vec<String>, i: usize) -> (r: Option<u64>)
    ensures
        r == number_or_zero(text::views(pieces@), i as int),
{
    if i < pieces.len() {
        text::parse_nat(pieces[i].as_str(), u64::MAX)
    } else {
        Some(0)
    }
}

/// Parses `1.2.3`, `v1.2.3`, or `1.2.3-rc1` into comparable parts. A
/// pre-release suffix is dropped, so it compares equal to the final release.
pub fn parse_version(version: &str) -> (r: Option<(u64, u64, u64)>)
    ensures
        r == version_of(version@),
{
    let bare: &str = text::strip_leading(text::trim(version), 'v');
    proof {
        text::lemma_pieces_not_empty(bare@, Cut::Either('-', '+'));
    }
    let release: String = match text::piece(bare, Cut::Either('-', '+'), 0) {
        Some(release) => release,
        None => "".to_owned(),
    };
    let pieces: Vec<String> = text::split(release.as_str(), Cut::At('.'));
    proof {
        assert(text::views(pieces@).len() == pieces@.len());
    }
    match (number_in(&pieces, 0), number_in(&pieces, 1), number_in(&pieces, 2)) {
        (Some(major), Some(minor), Some(patch)) => Some((major, minor, patch)),
        _ => None,
    }
}

/// Whether a version comes after another, component by component.
pub open spec fn later(a: (u64, u64, u64), b: (u64, u64, u64)) -> bool {
    a.0 > b.0 || a.0 == b.0 && (a.1 > b.1 || a.1 == b.1 && a.2 > b.2)
}

pub open spec fn newer(candidate: Seq<char>, current: Seq<char>) -> bool {
    match (version_of(candidate), version_of(current)) {
        (Some(a), Some(b)) => later(a, b),
        _ => false,
    }
}

/// Whether `candidate` is a later release than `current`.
///
/// Versions that cannot be parsed are treated as "not newer", so a tag in an
/// unexpected shape never triggers a download.
pub fn is_newer(candidate: &str, current: &str) -> (r: bool)
    ensures
        r == newer(candidate@, current@),
{
    match (parse_version(candidate), parse_version(current)) {
        (Some(a), Some(b)) => a.0 > b.0 || a.0 == b.0 && (a.1 > b.1 || a.1 == b.1 && a.2 > b.2),
        _ => false,
    }
}

// --- Releases ---

/// One release as reported by the GitHub API.
#[derive(Debug)]
pub struct Release {
    pub tag_name: String,
    pub assets: Vec<Asset>,
}

#[derive(Debug)]
pub struct Asset {
    pub name: String,
    pub browser_download_url: String,
}

/// Whether an asset is the Linux tarball for an architecture.
pub open spec fn suits(asset: Asset, arch: Seq<char>) -> bool {
    &&& text::includes(asset.name@, arch)
    &&& text::includes(asset.name@, "linux"@)
    &&& text::finishes(asset.name@, ".tar.gz"@)
}

/// The place of the first asset that suits, if one does.
pub open spec fn choice(assets: Seq<Asset>, arch: Seq<char>) -> Option<int>
    decreases assets.len(),
{
    if assets.len() == 0 {
        None
    } else {
        match choice(assets.drop_last(), arch) {
            Some(i) => Some(i),
            None => if suits(assets.last(), arch) {
                Some(assets.len() - 1)
            } else {
                None
            },
        }
    }
}

proof fn lemma_choice(assets: Seq<Asset>, arch: Seq<char>, at: int)
    requires
        0 <= at <= assets.len(),
        forall|i: int| 0 <= i < at ==> !suits(#[trigger] assets[i], arch),
    ensures
        at < assets.len() && suits(assets[at], arch) ==> choice(assets, arch) == Some(at),
        at == assets.len() ==> choice(assets, arch) is None,
        choice(assets, arch) matches Some(i) ==> 0 <= i < assets.len() && suits(assets[i], arch),
    decreases assets.len(),
{
    if assets.len() > 0 {
        let front = assets.drop_last();
        let inner = if at <= front.len() {
            at
        } else {
            front.len() as int
        };
        assert forall|i: int| 0 <= i < inner implies !suits(#[trigger] front[i], arch) by {
            assert(front[i] == assets[i]);
        }
        lemma_choice(front, arch, inner);
        if at == assets.len() {
            assert(!suits(assets[assets.len() - 1], arch));
        }
    }
}

fn asset_place(assets: &[Asset], arch: &str) -> (r: Option<usize>)
    ensures
        match choice(assets@, arch@) {
            Some(i) => 0 <= i < assets@.len() && r == Some(i as usize),
            None => r is None,
        },
{
    let mut i: usize = 0;
    while i < assets.len()
        invariant
            i <= assets@.len(),
            forall|j: int| 0 <= j < i ==> !suits(#[trigger] assets@[j], arch@),
        decreases assets@.len() - i,
    {
        let name: &str = assets[i].name.as_str();
        if text::contains(name, arch) && text::contains(name, "linux") && text::ends_with(
            name,
            ".tar.gz",
        ) {
            proof {
                lemma_choice(assets@, arch@, i as int);
            }
            return Some(i);
        }
        i = i + 1;
    }
    proof {
        lemma_choice(assets@, arch@, i as int);
    }
    None
}

/// The release asset for this machine: the Linux tarball built for `arch`.
pub fn pick_asset<'a>(assets: &'a [Asset], arch: &str) -> (r: Option<&'a Asset>)
    ensures
        match choice(assets@, arch@) {
            Some(i) => 0 <= i < assets@.len() && r == Some(&assets@[i]),
            None => r is None,
        },
{
    match asset_place(assets, arch) {
        Some(i) => Some(&assets[i]),
        None => None,
    }
}

pub open spec fn names_text(assets: Seq<Asset>) -> Seq<char> {
    if assets.len() == 0 {
        "none"@
    } else {
        text::joined(Seq::new(assets.len(), |i: int| assets[i].name@), ", "@)
    }
}

pub fn asset_names(assets: &[Asset]) -> (r: String)
    ensures
        r@ == names_text(assets@),
{
    if assets.len() == 0 {
        return "none".to_owned();
    }
    let ghost all = Seq::new(assets@.len(), |i: int| assets@[i].name@);
    let mut names: Vec<String> = Vec::new();
    let mut i: usize = 0;
    proof {
        assert(text::views(names@) =~= all.take(0));
    }
    while i < assets.len()
        invariant
            i <= assets@.len(),
            all == Seq::new(assets@.len(), |i: int| assets@[i].name@),
            text::views(names@) == all.take(i as int),
        decreases assets@.len() - i,
    {
        text::push_text(&mut names, assets[i].name.as_str());
        i = i + 1;
        proof {
            assert(all.take(i as int) =~= all.take(i - 1).push(all[i - 1]));
        }
    }
    proof {
        assert(all.take(i as int) =~= all);
    }
    text::join(names.as_slice(), ", ")
}

// --- Updating ---

/// The arguments with which `curl` asks for the latest release.
pub fn latest_release_args() -> (r: Vec<String>)
    ensures
        text::views(r@) == seq![
            "-sSfL"@,
            "--max-time"@,
            "30"@,
            "-H"@,
            "Accept: application/vnd.github+json"@,
            RELEASES_API@,
        ],
{
    let mut r: Vec<String> = Vec::new();
    text::push_text(&mut r, "-sSfL");
    text::push_text(&mut r, "--max-time");
    text::push_text(&mut r, "30");
    text::push_text(&mut r, "-H");
    text::push_text(&mut r, "Accept: application/vnd.github+json");
    text::push_text(&mut r, RELEASES_API);
    proof {
        assert(text::views(r@) =~= seq![
            "-sSfL"@,
            "--max-time"@,
            "30"@,
            "-H"@,
            "Accept: application/vnd.github+json"@,
            RELEASES_API@,
        ]);
    }
    r
}

/// The arguments with which `curl` downloads a tarball.
pub fn download_args(tarball: &str, url: &str) -> (r: Vec<String>)
    ensures
        text::views(r@) == seq![
            "-sSfL"@,
            "--max-time"@,
            DOWNLOAD_TIMEOUT_SECS@,
            "-o"@,
            tarball@,
            url@,
        ],
{
    let mut r: Vec<String> = Vec::new();
    text::push_text(&mut r, "-sSfL");
    text::push_text(&mut r, "--max-time");
    text::push_text(&mut r, DOWNLOAD_TIMEOUT_SECS);
    text::push_text(&mut r, "-o");
    text::push_text(&mut r, tarball);
    text::push_text(&mut r, url);
    proof {
        assert(text::views(r@) =~= seq![
            "-sSfL"@,
            "--max-time"@,
            DOWNLOAD_TIMEOUT_SECS@,
            "-o"@,
            tarball@,
            url@,
        ]);
    }
    r
}

/// The arguments with which `tar` unpacks it.
pub fn unpack_args(tarball: &str, workdir: &str) -> (r: Vec<String>)
    ensures
        text::views(r@) == seq!["-xzf"@, tarball@, "-C"@, workdir@],
{
    let mut r: Vec<String> = Vec::new();
    text::push_text(&mut r, "-xzf");
    text::push_text(&mut r, tarball);
    text::push_text(&mut r, "-C");
    text::push_text(&mut r, workdir);
    proof {
        assert(text::views(r@) =~= seq!["-xzf"@, tarball@, "-C"@, workdir@]);
    }
    r
}

/// What to print first.
pub fn installed_line(current: &str, exe: &str) -> (r: String)
    ensures
        r@ == "Installed: "@ + current@ + " ("@ + exe@ + ")"@,
{
    text::concat5("Installed: ", current, " (", exe, ")")
}

/// The version that a tag stands for.
pub open spec fn tagged(tag: Seq<char>) -> Seq<char> {
    text::without_leading(tag, 'v')
}

/// What is left to do about a release.
#[derive(Clone, Copy, Debug, PartialEq, Eq, Structural)]
pub enum Offer {
    /// Nothing.
    Done,
    /// Install the asset in this place.
    Take(usize),
}

/// What was found out about a release: its version, the lines to print, and then
/// what is left to do.
#[derive(Debug)]
pub struct Found {
    pub version: String,
    pub lines: Vec<String>,
    pub outcome: Result<Offer, Error>,
}

pub open spec fn found_lines(current: Seq<char>, tag: Seq<char>) -> Seq<Seq<char>> {
    seq!["Latest:    "@ + tagged(tag) + " (tag "@ + tag + ")"@, ""@] + if newer(
        tagged(tag),
        current,
    ) {
        seq!["Update available: "@ + current + " -> "@ + tagged(tag)]
    } else {
        seq!["Already up to date."@]
    }
}

/// Looks at the latest release: whether it is newer than this program, and,
/// unless only asked to look, which of its assets to install.
pub fn update(current: &str, release: &Release, check: bool, arch: &str) -> (r: Found)
    ensures
        r.version@ == tagged(release.tag_name@),
        text::views(r.lines@) == found_lines(current@, release.tag_name@),
        if !newer(tagged(release.tag_name@), current@) || check {
            r.outcome == Ok::<Offer, Error>(Offer::Done)
        } else {
            match choice(release.assets@, arch@) {
                Some(i) => r.outcome == Ok::<Offer, Error>(Offer::Take(i as usize)),
                None => r.outcome is Err && r.outcome->Err_0@ == (Fault::NoAsset {
                    tag: release.tag_name@,
                    arch: arch@,
                    assets: names_text(release.assets@),
                }),
            }
        },
{
    let tag: &str = release.tag_name.as_str();
    let latest: &str = text::strip_leading(tag, 'v');
    let mut lines: Vec<String> = Vec::new();
    text::push_text(
        &mut lines,
        text::concat5("Latest:    ", latest, " (tag ", tag, ")").as_str(),
    );
    text::push_text(&mut lines, "");
    if !is_newer(latest, current) {
        text::push_text(&mut lines, "Already up to date.");
        proof {
            assert(text::views(lines@) =~= found_lines(current@, tag@));
        }
        return Found { version: latest.to_owned(), lines, outcome: Ok(Offer::Done) };
    }
    let mut available: String = text::concat3("Update available: ", current, " -> ");
    available.append(latest);
    text::push_text(&mut lines, available.as_str());
    proof {
        assert(text::views(lines@) =~= found_lines(current@, tag@));
    }
    if check {
        return Found { version: latest.to_owned(), lines, outcome: Ok(Offer::Done) };
    }
    let outcome: Result<Offer, Error> = match asset_place(release.assets.as_slice(), arch) {
        Some(i) => Ok(Offer::Take(i)),
        None => Err(
            Problem::NoAsset {
                tag: tag.to_owned(),
                arch: arch.to_owned(),
                assets: asset_names(release.assets.as_slice()),
            },
        ),
    };
    Found { version: latest.to_owned(), lines, outcome }
}

/// What is left to do about an asset.
#[derive(Debug)]
pub enum Install {
    /// Print these lines, and stop.
    DryRun(Vec<String>),
    /// Print these lines, and install.
    Go(Vec<String>),
}

pub open spec fn install_lines(url: Seq<char>, exe: Seq<char>) -> Seq<Seq<char>> {
    seq!["Download:  "@ + url, "Install:   "@ + exe]
}

/// Whether to install an asset over the program at `exe`, which may belong to a
/// package.
pub fn plan_install(asset: &Asset, exe: &str, package: Option<&str>, dry_run: bool) -> (r: Result<
    Install,
    Error,
>)
    ensures
        match package {
            Some(package) => r is Err && r->Err_0@ == (Fault::PackageOwned {
                exe: exe@,
                package: package@,
            }),
            None => match r {
                Ok(Install::DryRun(lines)) => dry_run && text::views(lines@) == install_lines(
                    asset.browser_download_url@,
                    exe@,
                ) + seq![""@, "Dry run: nothing was downloaded or installed."@],
                Ok(Install::Go(lines)) => !dry_run && text::views(lines@) == install_lines(
                    asset.browser_download_url@,
                    exe@,
                ),
                Err(_) => false,
            },
        },
{
    if let Some(package) = package {
        return Err(
            Problem::PackageOwned { exe: exe.to_owned(), package: package.to_owned() },
        );
    }
    let mut download: String = "Download:  ".to_owned();
    download.append(asset.browser_download_url.as_str());
    let mut install: String = "Install:   ".to_owned();
    install.append(exe);
    let mut lines: Vec<String> = Vec::new();
    text::push_text(&mut lines, download.as_str());
    text::push_text(&mut lines, install.as_str());
    let ghost both = install_lines(asset.browser_download_url@, exe@);
    proof {
        assert(text::views(lines@) =~= both);
    }
    if dry_run {
        text::push_text(&mut lines, "");
        text::push_text(&mut lines, "Dry run: nothing was downloaded or installed.");
        proof {
            assert(text::views(lines@) =~= both + seq![
                ""@,
                "Dry run: nothing was downloaded or installed."@,
            ]);
        }
        Ok(Install::DryRun(lines))
    } else {
        Ok(Install::Go(lines))
    }
}

/// Fails with a useful message when the install directory cannot be written,
/// which in practice means the update needs `sudo`.
pub fn ensure_writable(dir: &str, failure: Option<&str>) -> (r: Result<(), Error>)
    ensures
        sysfs::reports(
            r,
            match failure {
                Some(cause) => Some(Fault::NotWritable { dir: dir@, cause: cause@ }),
                None => None,
            },
        ),
{
    match failure {
        Some(cause) => Err(
            Problem::NotWritable { dir: dir.to_owned(), cause: cause.to_owned() },
        ),
        None => Ok(()),
    }
}

/// Whether the tarball held the program.
pub fn require_binary(asset: &Asset, present: bool) -> (r: Result<(), Error>)
    ensures
        sysfs::reports(
            r,
            if present {
                None
            } else {
                Some(Fault::NoBinary { asset: asset.name@ })
            },
        ),
{
    if present {
        Ok(())
    } else {
        Err(Problem::NoBinary { asset: asset.name.clone() })
    }
}

/// Whether the download ran and reports the version that was asked for. A
/// truncated or wrong-arch binary should fail here rather than after it has
/// replaced a working install.
pub fn check_download(reported: Option<&str>, version: &str) -> (r: Result<(), Error>)
    ensures
        sysfs::reports(
            r,
            match reported {
                None => Some(Fault::DidNotRun),
                Some(out) => if text::includes(out@, version@) {
                    None
                } else {
                    Some(Fault::WrongVersion { reported: out@, version: version@ })
                },
            },
        ),
{
    match reported {
        None => Err(Problem::DidNotRun),
        Some(out) => {
            if text::contains(out, version) {
                Ok(())
            } else {
                Err(
                    Problem::WrongVersion {
                        reported: out.to_owned(),
                        version: version.to_owned(),
                    },
                )
            }
        },
    }
}

/// Whether a line of a unit starts the program at `exe`.
pub open spec fn starts_program(line: Seq<char>, exe: Seq<char>) -> bool {
    let entry = text::trimmed(line);
    &&& text::begins(entry, "ExecStart="@)
    &&& text::words_of(entry.skip("ExecStart="@.len() as int)).len() > 0
    &&& text::words_of(entry.skip("ExecStart="@.len() as int))[0] == exe
}

fn line_starts(line: &str, exe: &str) -> (r: bool)
    ensures
        r == starts_program(line@, exe@),
{
    match text::strip_prefix(text::trim(line), "ExecStart=") {
        Some(command) => {
            let words: Vec<String> = text::words(command);
            proof {
                assert(text::views(words@).len() == words@.len());
            }
            words.len() > 0 && text::same(words[0].as_str(), exe)
        },
        None => false,
    }
}

/// Whether the installed unit, if there is one, starts this exact binary.
pub fn service_runs(unit: Option<&str>, exe: &str) -> (r: bool)
    ensures
        r == match unit {
            Some(unit) => exists|i: int|
                0 <= i < text::lines_of(unit@).len() && starts_program(
                    #[trigger] text::lines_of(unit@)[i],
                    exe@,
                ),
            None => false,
        },
{
    match unit {
        Some(contents) => {
            let lines: Vec<String> = text::lines(contents);
            let ghost all = text::lines_of(contents@);
            let mut i: usize = 0;
            while i < lines.len()
                invariant
                    i <= lines@.len(),
                    unit is Some,
                    all == text::lines_of(unit->0@),
                    text::views(lines@) == all,
                    forall|j: int| 0 <= j < i ==> !starts_program(#[trigger] all[j], exe@),
                decreases lines@.len() - i,
            {
                proof {
                    assert(all[i as int] == lines@[i as int]@);
                }
                if line_starts(lines[i].as_str(), exe) {
                    return true;
                }
                i = i + 1;
            }
            proof {
                assert(all.len() == lines@.len());
            }
            false
        },
        None => false,
    }
}

/// Whether `systemctl is-active` says so.
pub fn service_is_active(state: Option<&str>) -> (r: bool)
    ensures
        r == match state {
            Some(state) => state@ == "active"@,
            None => false,
        },
{
    match state {
        Some(state) => text::same(state, "active"),
        None => false,
    }
}

// --- Uninstalling ---

/// What there is to remove.
#[derive(Debug)]
pub struct Installed {
    pub exe: String,
    /// The package that owns it, if one does.
    pub package: Option<String>,
    pub service: bool,
    /// Directories of ours that are there, in order.
    pub dirs: Vec<String>,
    /// Shell completions that are there, in order.
    pub files: Vec<String>,
    pub keep_config: bool,
}

pub open spec fn bulleted(list: Seq<Seq<char>>) -> Seq<Seq<char>> {
    list.map_values(|path: Seq<char>| "  - "@ + path)
}

impl Installed {
    /// Whether the directories and files that were found are listed, each once;
    /// none of them where they are to be kept.
    pub open spec fn lists(self, dirs: Seq<Seq<char>>, files: Seq<Seq<char>>) -> bool {
        if self.keep_config {
            self.dirs@.len() == 0 && self.files@.len() == 0
        } else {
            &&& path::settles(dirs, text::views(self.dirs@))
            &&& path::settles(files, text::views(self.files@))
        }
    }

    /// What there is to remove, given the directories and the files that were
    /// found.
    pub fn gather(
        exe: String,
        package: Option<String>,
        service: bool,
        dirs: &[String],
        files: &[String],
        keep_config: bool,
    ) -> (r: Self)
        ensures
            r.exe == exe,
            r.package == package,
            r.service == service,
            r.keep_config == keep_config,
            r.lists(text::views(dirs@), text::views(files@)),
    {
        if keep_config {
            Installed { exe, package, service, dirs: Vec::new(), files: Vec::new(), keep_config }
        } else {
            Installed {
                exe,
                package,
                service,
                dirs: path::sorted_paths(dirs),
                files: path::sorted_paths(files),
                keep_config,
            }
        }
    }

    /// What is announced.
    pub open spec fn plan(self) -> Seq<Seq<char>> {
        seq!["This will remove gigabytectl from this machine:"@] + (if self.service {
            seq!["  - disable and remove "@ + SERVICE_PATH@]
        } else {
            Seq::empty()
        }) + bulleted(text::views(self.dirs@)) + bulleted(text::views(self.files@)) + seq![
            match self.package {
                Some(package) => "  - keep "@ + self.exe@ + " (owned by the package '"@ + package@
                    + "' — remove it with your package manager)"@,
                None => "  - "@ + self.exe@,
            },
        ] + (if self.keep_config {
            seq!["  (configuration and profiles are kept: --keep-config)"@]
        } else {
            Seq::empty()
        })
    }

    /// What is removed, in order.
    pub open spec fn removals(self) -> Seq<RemovalView> {
        (if self.service {
            seq![RemovalView::Service]
        } else {
            Seq::empty()
        }) + text::views(self.dirs@).map_values(|dir: Seq<char>| RemovalView::Dir(dir))
            + text::views(self.files@).map_values(|file: Seq<char>| RemovalView::File(file)) + (
        if self.package is None {
            seq![RemovalView::Program(self.exe@)]
        } else {
            Seq::empty()
        })
    }
}

/// Something to remove.
#[derive(Debug)]
pub enum Removal {
    Service,
    /// One of our own directories; see [`remove_data_dir`].
    Dir(String),
    File(String),
    Program(String),
}

#[verifier::ext_equal]
pub enum RemovalView {
    Service,
    Dir(Seq<char>),
    File(Seq<char>),
    Program(Seq<char>),
}

impl View for Removal {
    type V = RemovalView;

    open spec fn view(&self) -> RemovalView {
        match *self {
            Removal::Service => RemovalView::Service,
            Removal::Dir(path) => RemovalView::Dir(path@),
            Removal::File(path) => RemovalView::File(path@),
            Removal::Program(path) => RemovalView::Program(path@),
        }
    }
}

pub open spec fn removal_views(list: Seq<Removal>) -> Seq<RemovalView> {
    list.map_values(|r: Removal| r@)
}

fn push_bullets(lines: &mut Vec<String>, list: &Vec<String>)
    ensures
        text::views(final(lines)@) == text::views(old(lines)@) + bulleted(text::views(list@)),
{
    let ghost start = text::views(lines@);
    let ghost all = bulleted(text::views(list@));
    let mut i: usize = 0;
    proof {
        assert(start + all.take(0) =~= start);
    }
    while i < list.len()
        invariant
            i <= list@.len(),
            all == bulleted(text::views(list@)),
            text::views(lines@) == start + all.take(i as int),
        decreases list@.len() - i,
    {
        let mut line: String = "  - ".to_owned();
        line.append(list[i].as_str());
        proof {
            assert(text::views(list@)[i as int] == list@[i as int]@);
            assert(line@ == all[i as int]);
        }
        text::push_text(lines, line.as_str());
        i = i + 1;
        proof {
            assert(start + all.take(i as int) =~= (start + all.take(i - 1)).push(all[i - 1]));
        }
    }
    proof {
        assert(all.take(i as int) =~= all);
    }
}

/// What to do once the plan has been printed.
#[derive(Clone, Copy, Debug, PartialEq, Eq, Structural)]
pub enum Uninstall {
    /// Nothing: it was only to be looked at.
    DryRun,
    /// Ask; see [`confirm`].
    Ask,
    /// Remove everything.
    Remove,
}

/// The lines that announce what will be removed.
pub fn uninstall_plan(installed: &Installed) -> (r: Vec<String>)
    ensures
        text::views(r@) == installed.plan(),
{
    let mut lines: Vec<String> = Vec::new();
    text::push_text(&mut lines, "This will remove gigabytectl from this machine:");
    if installed.service {
        let mut line: String = "  - disable and remove ".to_owned();
        line.append(SERVICE_PATH);
        text::push_text(&mut lines, line.as_str());
    }
    push_bullets(&mut lines, &installed.dirs);
    push_bullets(&mut lines, &installed.files);
    match &installed.package {
        Some(package) => {
            let line: String = text::concat5(
                "  - keep ",
                installed.exe.as_str(),
                " (owned by the package '",
                package.as_str(),
                "' — remove it with your package manager)",
            );
            text::push_text(&mut lines, line.as_str());
        },
        None => {
            let mut line: String = "  - ".to_owned();
            line.append(installed.exe.as_str());
            text::push_text(&mut lines, line.as_str());
        },
    }
    if installed.keep_config {
        text::push_text(&mut lines, "  (configuration and profiles are kept: --keep-config)");
    }
    proof {
        assert(text::views(lines@) =~= installed.plan());
    }
    lines
}

/// Whether to remove, once the plan has been printed.
pub fn uninstall(yes: bool, dry_run: bool, is_root: bool) -> (r: Result<Uninstall, Error>)
    ensures
        if dry_run {
            r == Ok::<Uninstall, Error>(Uninstall::DryRun)
        } else if !is_root {
            r is Err && r->Err_0@ == Fault::UninstallNeedsRoot
        } else if yes {
            r == Ok::<Uninstall, Error>(Uninstall::Remove)
        } else {
            r == Ok::<Uninstall, Error>(Uninstall::Ask)
        },
{
    if dry_run {
        return Ok(Uninstall::DryRun);
    }
    if !is_root {
        return Err(Problem::UninstallNeedsRoot);
    }
    if yes {
        Ok(Uninstall::Remove)
    } else {
        Ok(Uninstall::Ask)
    }
}

/// What the answer to the question means; only a typed `yes` goes ahead. `None`
/// where nobody can be asked.
pub fn confirm(answer: Option<&str>) -> (r: Result<(), Error>)
    ensures
        sysfs::reports(
            r,
            match answer {
                None => Some(Fault::NotInteractive),
                Some(answer) => if text::alike(text::trimmed(answer@), "yes"@) {
                    None
                } else {
                    Some(Fault::Aborted)
                },
            },
        ),
{
    match answer {
        None => Err(Problem::NotInteractive),
        Some(answer) => {
            if text::same_ignoring_case(text::trim(answer), "yes") {
                Ok(())
            } else {
                Err(Problem::Aborted)
            }
        },
    }
}

/// What is removed, in order. The binary goes last, so a failure earlier still
/// leaves a working tool.
pub fn removals(installed: &Installed) -> (r: Vec<Removal>)
    ensures
        removal_views(r@) == installed.removals(),
{
    let mut r: Vec<Removal> = Vec::new();
    if installed.service {
        r.push(Removal::Service);
    }
    let ghost head = removal_views(r@);
    proof {
        assert(head =~= if installed.service {
            seq![RemovalView::Service]
        } else {
            Seq::empty()
        });
    }
    let ghost dirs = text::views(installed.dirs@).map_values(
        |dir: Seq<char>| RemovalView::Dir(dir),
    );
    let ghost files = text::views(installed.files@).map_values(
        |file: Seq<char>| RemovalView::File(file),
    );
    let mut i: usize = 0;
    proof {
        assert(head + dirs.take(0) =~= head);
    }
    while i < installed.dirs.len()
        invariant
            i <= installed.dirs@.len(),
            dirs == text::views(installed.dirs@).map_values(
                |dir: Seq<char>| RemovalView::Dir(dir),
            ),
            removal_views(r@) == head + dirs.take(i as int),
        decreases installed.dirs@.len() - i,
    {
        let ghost before = r@;
        r.push(Removal::Dir(installed.dirs[i].clone()));
        i = i + 1;
        proof {
            assert(dirs[i - 1] == RemovalView::Dir(installed.dirs@[i - 1]@));
            assert(removal_views(r@) =~= removal_views(before).push(dirs[i - 1]));
            assert(head + dirs.take(i as int) =~= (head + dirs.take(i - 1)).push(dirs[i - 1]));
        }
    }
    proof {
        assert(dirs.take(i as int) =~= dirs);
    }
    let ghost middle = removal_views(r@);
    let mut j: usize = 0;
    proof {
        assert(middle + files.take(0) =~= middle);
    }
    while j < installed.files.len()
        invariant
            j <= installed.files@.len(),
            files == text::views(installed.files@).map_values(
                |file: Seq<char>| RemovalView::File(file),
            ),
            removal_views(r@) == middle + files.take(j as int),
        decreases installed.files@.len() - j,
    {
        let ghost before = r@;
        r.push(Removal::File(installed.files[j].clone()));
        j = j + 1;
        proof {
            assert(files[j - 1] == RemovalView::File(installed.files@[j - 1]@));
            assert(removal_views(r@) =~= removal_views(before).push(files[j - 1]));
            assert(middle + files.take(j as int) =~= (middle + files.take(j - 1)).push(
                files[j - 1],
            ));
        }
    }
    proof {
        assert(files.take(j as int) =~= files);
    }
    let ghost most = removal_views(r@);
    if installed.package.is_none() {
        r.push(Removal::Program(installed.exe.clone()));
        proof {
            assert(removal_views(r@) =~= most.push(RemovalView::Program(installed.exe@)));
        }
    }
    proof {
        assert(removal_views(r@) =~= installed.removals());
    }
    r
}

/// The note about a program that `cargo install` put there.
pub fn cargo_note(exe: &str) -> (r: Option<&'static str>)
    ensures
        sysfs::str_view(r) == if text::includes(exe@, "/.cargo/"@) {
            Some(
                "Note: this looked like a `cargo install`; run `cargo uninstall gigabytectl` to tidy its metadata."@,
            )
        } else {
            None
        },
{
    if text::contains(exe, "/.cargo/") {
        Some(
            "Note: this looked like a `cargo install`; run `cargo uninstall gigabytectl` to tidy its metadata.",
        )
    } else {
        None
    }
}

/// Whether a directory is one of our own. The name is checked so a misresolved
/// path can never turn the removal into a recursive delete of something else;
/// otherwise the warning to print.
pub fn remove_data_dir(dir: &str) -> (r: Result<(), String>)
    ensures
        match r {
            Ok(_) => path::ends_in(dir@, DATA_DIR_NAME@),
            Err(warning) => !path::ends_in(dir@, DATA_DIR_NAME@) && warning@
                == "Warning: refusing to remove "@ + dir@ + " (not a gigabytectl directory)"@,
        },
{
    if path::is_named(dir, DATA_DIR_NAME) {
        Ok(())
    } else {
        Err(
            text::concat3(
                "Warning: refusing to remove ",
                dir,
                " (not a gigabytectl directory)",
            ),
        )
    }
}

/// Whether a field of the passwd database is a home that may hold our files.
pub open spec fn is_home(home: Seq<char>) -> bool {
    text::begins(home, "/home/"@) || home == "/root"@
}

/// The homes in the passwd database.
pub open spec fn homes_in(lines: Seq<Seq<char>>) -> Seq<Seq<char>>
    decreases lines.len(),
{
    if lines.len() == 0 {
        Seq::empty()
    } else {
        let before = homes_in(lines.drop_last());
        match text::piece_of(lines.last(), Cut::At(':'), 5) {
            Some(home) => if is_home(home) {
                before.push(home)
            } else {
                before
            },
            None => before,
        }
    }
}

/// The homes that are looked into: root's, and those in the passwd database.
pub open spec fn all_homes(passwd: Option<Seq<char>>) -> Seq<Seq<char>> {
    seq!["/root"@] + match passwd {
        Some(passwd) => homes_in(text::lines_of(passwd)),
        None => Seq::empty(),
    }
}

/// Home directories from the passwd database, plus root's: in order, each once.
pub fn home_dirs(passwd: Option<&str>) -> (r: Vec<String>)
    ensures
        path::settles(all_homes(sysfs::str_view(passwd)), text::views(r@)),
{
    let mut homes: Vec<String> = Vec::new();
    text::push_text(&mut homes, "/root");
    let ghost head = text::views(homes@);
    proof {
        assert(head =~= seq!["/root"@]);
        assert(head + Seq::<Seq<char>>::empty() =~= head);
    }
    match passwd {
        Some(passwd) => {
            let lines: Vec<String> = text::lines(passwd);
            let ghost all = text::lines_of(passwd@);
            let mut i: usize = 0;
            proof {
                assert(homes_in(all.take(0)) =~= Seq::<Seq<char>>::empty());
            }
            while i < lines.len()
                invariant
                    i <= lines@.len(),
                    text::views(lines@) == all,
                    text::views(homes@) == head + homes_in(all.take(i as int)),
                decreases lines@.len() - i,
            {
                proof {
                    assert(all[i as int] == lines@[i as int]@);
                    assert(all.take(i + 1).drop_last() =~= all.take(i as int));
                }
                match text::piece(lines[i].as_str(), Cut::At(':'), 5) {
                    Some(home) => {
                        if text::starts_with(home.as_str(), "/home/") || text::same(
                            home.as_str(),
                            "/root",
                        ) {
                            text::push_text(&mut homes, home.as_str());
                            proof {
                                assert((head + homes_in(all.take(i as int))).push(home@) =~= head
                                    + homes_in(all.take(i as int)).push(home@));
                            }
                        }
                    },
                    None => {},
                }
                i = i + 1;
            }
            proof {
                assert(all.len() == lines@.len());
                assert(all.take(i as int) =~= all);
            }
        },
        None => {},
    }
    path::sorted_paths(homes.as_slice())
}

/// Where data may lie, in the order of the homes.
pub open spec fn data_places(config_dir: Seq<char>, homes: Seq<Seq<char>>) -> Seq<Seq<char>> {
    seq![SYSTEM_CONFIG_DIR@, config_dir] + homes.map_values(
        |home: Seq<char>| path::joined_path(path::joined_path(home, ".config"@), DATA_DIR_NAME@),
    )
}

/// Every place where gigabytectl may keep data on this machine: the system-wide
/// one, the invoking user's, and any other user's, since the tool is normally
/// used through `sudo` and can leave state in more than one home. Of these, the
/// directories that are there go to [`Installed::gather`].
pub fn data_dirs(config_dir: &str, homes: &[String]) -> (r: Vec<String>)
    ensures
        text::views(r@) == data_places(config_dir@, text::views(homes@)),
{
    let mut dirs: Vec<String> = Vec::new();
    text::push_text(&mut dirs, SYSTEM_CONFIG_DIR);
    text::push_text(&mut dirs, config_dir);
    let ghost head = text::views(dirs@);
    let ghost all = text::views(homes@).map_values(
        |home: Seq<char>| path::joined_path(path::joined_path(home, ".config"@), DATA_DIR_NAME@),
    );
    let mut i: usize = 0;
    proof {
        assert(head =~= seq![SYSTEM_CONFIG_DIR@, config_dir@]);
        assert(head + all.take(0) =~= head);
    }
    while i < homes.len()
        invariant
            i <= homes@.len(),
            all == text::views(homes@).map_values(
                |home: Seq<char>|
                    path::joined_path(path::joined_path(home, ".config"@), DATA_DIR_NAME@),
            ),
            text::views(dirs@) == head + all.take(i as int),
        decreases homes@.len() - i,
    {
        let dir: String = path::join(
            path::join(homes[i].as_str(), ".config").as_str(),
            DATA_DIR_NAME,
        );
        proof {
            assert(text::views(homes@)[i as int] == homes@[i as int]@);
            assert(dir@ == all[i as int]);
        }
        text::push_text(&mut dirs, dir.as_str());
        i = i + 1;
        proof {
            assert(head + all.take(i as int) =~= (head + all.take(i - 1)).push(all[i - 1]));
        }
    }
    proof {
        assert(all.take(i as int) =~= all);
    }
    dirs
}

/// Where completions may lie.
pub open spec fn completion_places(homes: Seq<Seq<char>>) -> Seq<Seq<char>>
    decreases homes.len(),
{
    if homes.len() == 0 {
        seq!["/etc/bash_completion.d/gigabytectl"@]
    } else {
        completion_places(homes.drop_last()).push(
            path::joined_path(homes.last(), ".zsh/completions/_gigabytectl"@),
        ).push(path::joined_path(homes.last(), ".config/fish/completions/gigabytectl.fish"@))
    }
}

/// Documented completion locations, which are the only ones that can be found
/// without guessing. Of these, the files that are there go to
/// [`Installed::gather`].
pub fn completion_files(homes: &[String]) -> (r: Vec<String>)
    ensures
        text::views(r@) == completion_places(text::views(homes@)),
{
    let mut files: Vec<String> = Vec::new();
    text::push_text(&mut files, "/etc/bash_completion.d/gigabytectl");
    let ghost all = text::views(homes@);
    let mut i: usize = 0;
    proof {
        assert(text::views(files@) =~= completion_places(all.take(0)));
    }
    while i < homes.len()
        invariant
            i <= homes@.len(),
            all == text::views(homes@),
            text::views(files@) == completion_places(all.take(i as int)),
        decreases homes@.len() - i,
    {
        proof {
            assert(all[i as int] == homes@[i as int]@);
            assert(all.take(i + 1).drop_last() =~= all.take(i as int));
        }
        text::push_text(
            &mut files,
            path::join(homes[i].as_str(), ".zsh/completions/_gigabytectl").as_str(),
        );
        text::push_text(
            &mut files,
            path::join(homes[i].as_str(), ".config/fish/completions/gigabytectl.fish").as_str(),
        );
        i = i + 1;
    }
    proof {
        assert(all.take(i as int) =~= all);
    }
    files
}

/// The package that `pacman`, or else `dpkg`, named.
pub open spec fn owner(pacman: Option<Seq<char>>, dpkg: Option<Seq<char>>) -> Option<Seq<char>> {
    match pacman {
        Some(out) => if text::lines_of(out).len() > 0 {
            system::filled(Some(text::trimmed(text::lines_of(out)[0])))
        } else {
            None
        },
        None => match dpkg {
            Some(out) => system::filled(
                Some(text::trimmed(text::pieces(out, Cut::At(':'))[0])),
            ),
            None => None,
        },
    }
}

/// The package that owns the program, if the distribution's package manager
/// claims it: from the output of `pacman -Qoq`, or else of `dpkg -S`. Anything
/// it owns must be left to it rather than edited underneath it.
pub fn owning_package(pacman: Option<&str>, dpkg: Option<&str>) -> (r: Option<String>)
    ensures
        sysfs::text_view(r) == owner(sysfs::str_view(pacman), sysfs::str_view(dpkg)),
{
    match pacman {
        Some(out) => {
            let lines: Vec<String> = text::lines(out);
            proof {
                assert(text::views(lines@).len() == lines@.len());
            }
            if lines.len() > 0 {
                proof {
                    assert(text::lines_of(out@)[0] == lines@[0]@);
                }
                system::non_empty(Some(text::trim(lines[0].as_str()).to_owned()))
            } else {
                None
            }
        },
        None => match dpkg {
            Some(out) => {
                let pieces: Vec<String> = text::split(out, Cut::At(':'));
                proof {
                    assert(text::pieces(out@, Cut::At(':'))[0] == pieces@[0]@);
                }
                system::non_empty(Some(text::trim(pieces[0].as_str()).to_owned()))
            },
            None => None,
        },
    }
}

/// What a removal says: nothing where there was nothing to remove.
pub fn removed_line(path: &str) -> (r: String)
    ensures
        r@ == "Removed "@ + path@,
{
    let mut r: String = "Removed ".to_owned();
    r.append(path);
    r
}

/// What a failed removal says.
pub fn not_removed_line(path: &str, cause: &str) -> (r: String)
    ensures
        r@ == "Warning: could not remove "@ + path@ + ": "@ + cause@,
{
    let mut r: String = text::concat3("Warning: could not remove ", path, ": ");
    r.append(cause);
    r
}

/// What is said after the service was restarted, or could not be.
pub fn restarted_line(failure: Option<&str>) -> (r: String)
    ensures
        r@ == match failure {
            None => "Restarted "@ + SERVICE_NAME@ + "."@,
            Some(cause) => "Warning: could not restart "@ + SERVICE_NAME@ + (": "@ + cause@),
        },
{
    match failure {
        None => text::concat3("Restarted ", SERVICE_NAME, "."),
        Some(cause) => {
            let mut tail: String = ": ".to_owned();
            tail.append(cause);
            text::concat3("Warning: could not restart ", SERVICE_NAME, tail.as_str())
        },
    }
}

// --- Laws ---

/// Being newer is a strict order on versions: none is newer than itself, no two
/// are newer than each other, and newer than newer is newer.
pub proof fn law_newer_is_a_strict_order(a: Seq<char>, b: Seq<char>, c: Seq<char>)
    ensures
        !newer(a, a),
        newer(a, b) ==> !newer(b, a),
        newer(a, b) && newer(b, c) ==> newer(a, c),
{
}

/// A tag that cannot be read never looks like an update, and neither does
/// anything to a program whose own version cannot be read.
pub proof fn law_unreadable_tags_are_never_newer(tag: Seq<char>, current: Seq<char>)
    ensures
        version_of(tag) is None ==> !newer(tag, current),
        version_of(current) is None ==> !newer(tag, current),
{
}

/// The asset that is picked suits the machine, and none before it does; one is
/// picked whenever any suits.
pub proof fn law_the_picked_asset_is_the_first_that_suits(assets: Seq<Asset>, arch: Seq<char>)
    ensures
        match choice(assets, arch) {
            Some(i) => {
                &&& 0 <= i < assets.len()
                &&& suits(assets[i], arch)
                &&& forall|j: int| 0 <= j < i ==> !suits(#[trigger] assets[j], arch)
            },
            None => forall|j: int| 0 <= j < assets.len() ==> !suits(#[trigger] assets[j], arch),
        },
    decreases assets.len(),
{
    if assets.len() > 0 {
        let front = assets.drop_last();
        law_the_picked_asset_is_the_first_that_suits(front, arch);
        match choice(front, arch) {
            Some(i) => {
                assert(assets[i] == front[i]);
                assert forall|j: int| 0 <= j < i implies !suits(#[trigger] assets[j], arch) by {
                    assert(assets[j] == front[j]);
                }
            },
            None => {
                assert forall|j: int| 0 <= j < front.len() implies !suits(
                    #[trigger] assets[j],
                    arch,
                ) by {
                    assert(assets[j] == front[j]);
                }
            },
        }
    }
}

/// The program itself goes last, once, and not at all while a package owns it.
pub proof fn law_the_program_goes_last(installed: Installed)
    ensures
        ({
            let list = installed.removals();
            &&& installed.package is None ==> list.len() > 0 && list.last()
                == RemovalView::Program(installed.exe@)
            &&& forall|i: int|
                0 <= i < list.len() && (#[trigger] list[i]) is Program ==> installed.package is None
                    && i == list.len() - 1
        }),
{
}

/// With `--keep-config` only the service and the program are touched, whatever
/// directories and files were found.
pub proof fn law_kept_configuration_is_not_touched(
    installed: Installed,
    dirs: Seq<Seq<char>>,
    files: Seq<Seq<char>>,
)
    requires
        installed.keep_config,
        installed.lists(dirs, files),
    ensures
        forall|i: int|
            0 <= i < installed.removals().len() ==> {
                ||| (#[trigger] installed.removals()[i]) is Service
                ||| installed.removals()[i] is Program
            },
{
}

/// The places looked into are the system-wide one, the invoking user's, and one
/// in every home.
pub proof fn law_every_home_may_hold_data(
    config_dir: Seq<char>,
    homes: Seq<Seq<char>>,
    i: int,
)
    requires
        0 <= i < homes.len(),
    ensures
        data_places(config_dir, homes).contains(
            path::joined_path(path::joined_path(homes[i], ".config"@), DATA_DIR_NAME@),
        ),
        data_places(config_dir, homes).contains(SYSTEM_CONFIG_DIR@),
        data_places(config_dir, homes).contains(config_dir),
{
    let places = data_places(config_dir, homes);
    assert(places[0] == SYSTEM_CONFIG_DIR@);
    assert(places[1] == config_dir);
    assert(places[2 + i] == path::joined_path(
        path::joined_path(homes[i], ".config"@),
        DATA_DIR_NAME@,
    ));
}

/// Every place where data is looked for is a directory of ours, so that none of
/// them is refused when it is to be removed.
pub proof fn law_only_our_directories_are_listed(
    env: Environment,
    homes: Seq<Seq<char>>,
    i: int,
)
    requires
        0 <= i < data_places(config::config_home(env), homes).len(),
    ensures
        path::ends_in(data_places(config::config_home(env), homes)[i], DATA_DIR_NAME@),
{
    config::law_the_settings_lie_in_our_directory(env);
    if i >= 2 {
        reveal_strlit("gigabytectl");
        reveal_strlit(".");
        assert(!DATA_DIR_NAME@.contains('/'));
        path::law_joined_paths_end_in_the_name(
            path::joined_path(homes[i - 2], ".config"@),
            DATA_DIR_NAME@,
        );
    }
}

/// The unit that is installed for a program is recognised as running it, where
/// the path of the program holds no white space.
pub proof fn law_the_installed_unit_runs_the_program(exe: Seq<char>)
    requires
        exe.len() > 0,
        forall|i: int| 0 <= i < exe.len() ==> !text::is_space(#[trigger] exe[i]),
    ensures
        exists|i: int|
            0 <= i < text::lines_of(cli::unit_text(exe)).len() && starts_program(
                #[trigger] text::lines_of(cli::unit_text(exe))[i],
                exe,
            ),
{
    reveal_strlit("\nExecStart=");
    reveal_strlit("ExecStart=");
    reveal_strlit(" sync\n");
    reveal_strlit(" sync");
    reveal_strlit("sync");
    let line = "ExecStart="@ + exe + " sync"@;
    let unit = cli::unit_text(exe);
    assert forall|i: int| 0 <= i < line.len() implies line[i] != '\n' && line[i] != '\r' by {
        if 10 <= i < 10 + exe.len() {
            assert(!text::is_space(exe[i - 10]));
        }
    }
    assert(unit =~= cli::UNIT_HEAD@.push('\n') + line.push('\n') + cli::UNIT_TAIL@);
    text::law_a_line_is_among_the_lines(cli::UNIT_HEAD@, line, cli::UNIT_TAIL@);
    let lines = text::lines_of(unit);
    let i = choose|i: int| 0 <= i < lines.len() && lines[i] == line;
    assert(text::trimmed(line) == line);
    assert(line.take(10) =~= "ExecStart="@);
    let command = exe + " sync"@;
    assert(line.skip(10) =~= command);
    lemma_first_word(exe, "sync"@);
    assert(command =~= exe.push(' ') + "sync"@);
    assert(starts_program(lines[i], exe));
}

proof fn lemma_first_word(word: Seq<char>, rest: Seq<char>)
    requires
        word.len() > 0,
        forall|i: int| 0 <= i < word.len() ==> !text::is_space(#[trigger] word[i]),
        forall|i: int| 0 <= i < rest.len() ==> !text::is_space(#[trigger] rest[i]),
    ensures
        text::words_of(word.push(' ') + rest).len() > 0,
        text::words_of(word.push(' ') + rest)[0] == word,
{
    let cut = Cut::Space;
    let none = Seq::<char>::empty();
    text::lemma_pieces_extend(none, word, cut);
    assert(none + word =~= word);
    assert(text::pieces(none, cut) =~= seq![none]);
    assert(text::pieces(word, cut) =~= seq![word]);
    text::lemma_pieces_cut(word, ' ', cut);
    text::lemma_pieces_extend(word.push(' '), rest, cut);
    assert(none + rest =~= rest);
    let all = seq![word, rest];
    assert(text::pieces(word.push(' ') + rest, cut) =~= all);
    reveal(Seq::filter);
    assert(all.drop_last() =~= seq![word]);
    assert(seq![word].drop_last() =~= Seq::<Seq<char>>::empty());
    let keep = |p: Seq<char>| p.len() > 0;
    assert(Seq::<Seq<char>>::empty().filter(keep) =~= Seq::<Seq<char>>::empty());
    assert(seq![word].filter(keep) =~= seq![word]);
}

/// Of two versions that can be read the one with the greater major number is
/// newer; under the same major number the one with the greater minor, whatever
/// the patch numbers are; under the same minor the one with the greater patch.
/// The same numbers are not newer.
pub proof fn law_the_first_number_that_differs_decides(
    candidate: &str,
    current: &str,
    a: (u64, u64, u64),
    b: (u64, u64, u64),
    r: bool,
)
    requires
        call_ensures(is_newer, (candidate, current), r),
        call_ensures(parse_version, (candidate,), Some(a)),
        call_ensures(parse_version, (current,), Some(b)),
    ensures
        a.0 > b.0 ==> r,
        a.0 < b.0 ==> !r,
        a.0 == b.0 && a.1 > b.1 ==> r,
        a.0 == b.0 && a.1 < b.1 ==> !r,
        a.0 == b.0 && a.1 == b.1 && a.2 > b.2 ==> r,
        a.0 == b.0 && a.1 == b.1 && a.2 < b.2 ==> !r,
        a == b ==> !r,
{
}

/// Of two versions with different numbers exactly one is newer than the other.
pub proof fn law_different_versions_can_be_told_apart(
    a: Seq<char>,
    b: Seq<char>,
    x: (u64, u64, u64),
    y: (u64, u64, u64),
)
    requires
        version_of(a) == Some(x),
        version_of(b) == Some(y),
        x != y,
    ensures
        newer(a, b) != newer(b, a),
{
}

/// A version as it is written.
pub open spec fn release_text(major: u64, minor: u64, patch: u64) -> Seq<char> {
    text::decimal(major as nat) + "."@ + text::decimal(minor as nat) + "."@ + text::decimal(
        patch as nat,
    )
}

/// The numbers of a version are read as they are written, with or without the
/// letter of a tag before them, and whatever stands behind a dash or a plus.
#[verifier::spinoff_prover]
#[verifier::rlimit(50)]
pub proof fn law_written_versions_read_back(
    major: u64,
    minor: u64,
    patch: u64,
    suffix: Seq<char>,
)
    requires
        suffix.len() > 0 ==> !text::is_space(suffix.last()),
    ensures
        version_of(release_text(major, minor, patch)) == Some((major, minor, patch)),
        version_of("v"@ + release_text(major, minor, patch)) == Some((major, minor, patch)),
        version_of(release_text(major, minor, patch) + "-"@ + suffix) == Some(
            (major, minor, patch),
        ),
        version_of(release_text(major, minor, patch) + "+"@ + suffix) == Some(
            (major, minor, patch),
        ),
{
    reveal_strlit(".");
    reveal_strlit("v");
    reveal_strlit("-");
    reveal_strlit("+");
    let a = text::decimal(major as nat);
    let b = text::decimal(minor as nat);
    let c = text::decimal(patch as nat);
    let full = release_text(major, minor, patch);
    text::lemma_decimal_shape(major as nat);
    text::lemma_decimal_shape(minor as nat);
    text::lemma_decimal_shape(patch as nat);
    let list = seq![a, b, c];
    assert forall|i: int, j: int|
        0 <= i < list.len() && 0 <= j < list[i].len() implies #[trigger] list[i][j] != '.' by {
        assert(text::is_digit(list[i][j]));
    }
    text::law_joined_texts_split_again(list, '.');
    assert(list.drop_last() =~= seq![a, b]);
    assert(seq![a, b].drop_last() =~= seq![a]);
    assert("."@ =~= seq!['.']);
    reveal_with_fuel(text::joined, 4);
    assert(text::joined(list, seq!['.']) =~= full);
    text::law_decimal_reads_back(major as nat, u64::MAX as nat);
    text::law_decimal_reads_back(minor as nat, u64::MAX as nat);
    text::law_decimal_reads_back(patch as nat, u64::MAX as nat);
    let cut = Cut::Either('-', '+');
    assert forall|i: int| 0 <= i < full.len() implies !cut.cuts(#[trigger] full[i])
        && !text::is_space(full[i]) && full[i] != 'v' by {
        if i < a.len() {
            assert(text::is_digit(a[i]));
        } else if a.len() < i < a.len() + 1 + b.len() {
            assert(text::is_digit(b[i - a.len() - 1]));
        } else if i > a.len() + 1 + b.len() {
            assert(text::is_digit(c[i - a.len() - b.len() - 2]));
        }
    }
    assert(full.len() > 0);
    assert(!text::is_space(full[0]) && full[0] != 'v');
    assert(!text::is_space(full[full.len() - 1]));
    assert(text::trimmed(full) == full);
    assert(text::without_leading(full, 'v') == full);
    text::law_the_first_piece_ends_at_the_first_cut(full, '-', suffix, cut);
    text::law_the_first_piece_ends_at_the_first_cut(full, '+', suffix, cut);
    let tag = "v"@ + full;
    assert(text::trimmed(tag) == tag) by {
        assert(tag[0] == 'v');
        assert(tag[tag.len() - 1] == full[full.len() - 1]);
    }
    assert(tag.drop_first() =~= full);
    assert(text::without_leading(tag, 'v') == full);
    lemma_suffixed_version(full, '-', suffix);
    lemma_suffixed_version(full, '+', suffix);
    assert(full + "-"@ + suffix =~= full.push('-') + suffix);
    assert(full + "+"@ + suffix =~= full.push('+') + suffix);
}

proof fn lemma_suffixed_version(full: Seq<char>, c: char, suffix: Seq<char>)
    requires
        full.len() > 0,
        c == '-' || c == '+',
        !text::is_space(full[0]),
        full[0] != 'v',
        suffix.len() > 0 ==> !text::is_space(suffix.last()),
    ensures
        text::without_leading(text::trimmed(full.push(c) + suffix), 'v') == full.push(c) + suffix,
{
    let long = full.push(c) + suffix;
    assert(long[0] == full[0]);
    if suffix.len() > 0 {
        assert(long[long.len() - 1] == suffix[suffix.len() - 1]);
    } else {
        assert(long[long.len() - 1] == c);
    }
    assert(text::trimmed(long) == long);
}

/// An asset is taken only from a release that is newer, and not when the user
/// only asked to look; it is then one for this machine. The version that is
/// announced is that of the tag.
pub proof fn law_only_updates_are_taken(
    current: &str,
    release: Release,
    check: bool,
    arch: &str,
    found: Found,
    version: Seq<char>,
)
    requires
        call_ensures(update, (current, &release, check, arch), found),
    ensures
        found.outcome matches Ok(Offer::Take(i)) ==> {
            &&& !check
            &&& newer(found.version@, current@)
            &&& i < release.assets@.len()
            &&& text::includes(release.assets@[i as int].name@, arch@)
            &&& text::includes(release.assets@[i as int].name@, "linux"@)
            &&& text::finishes(release.assets@[i as int].name@, ".tar.gz"@)
        },
        newer(found.version@, current@) && !check && choice(release.assets@, arch@) is Some
            ==> found.outcome matches Ok(Offer::Take(_)),
        newer(found.version@, current@) && !check && choice(release.assets@, arch@) is None
            ==> found.outcome is Err,
        !newer(found.version@, current@) || check ==> found.outcome matches Ok(Offer::Done),
        release.tag_name@ == "v"@ + version && !(version.len() > 0 && version[0] == 'v')
            ==> found.version@ == version,
        found.lines@.len() == 3,
        found.lines@[2]@ == if newer(found.version@, current@) {
            "Update available: "@ + current@ + " -> "@ + found.version@
        } else {
            "Already up to date."@
        },
{
    let lines = text::views(found.lines@);
    assert(lines.len() == 3);
    assert(lines[2] == found.lines@[2]@);
    law_the_picked_asset_is_the_first_that_suits(release.assets@, arch@);
    assert(release.assets.len() == release.assets@.len());
    reveal_strlit("v");
    if release.tag_name@ == "v"@ + version && !(version.len() > 0 && version[0] == 'v') {
        assert(release.tag_name@.drop_first() =~= version);
        assert(text::without_leading(version, 'v') == version);
    }
}

/// The asset that is picked is a Linux tarball for the architecture; one is
/// picked whenever there is such an asset, and then the first.
pub proof fn law_the_asset_is_for_this_machine<'a>(
    assets: &'a [Asset],
    arch: &str,
    r: Option<&'a Asset>,
    i: int,
)
    requires
        call_ensures(pick_asset, (assets, arch), r),
    ensures
        r matches Some(asset) ==> {
            &&& text::includes(asset.name@, arch@)
            &&& text::includes(asset.name@, "linux"@)
            &&& text::finishes(asset.name@, ".tar.gz"@)
        },
        0 <= i < assets@.len() && text::includes(assets@[i].name@, arch@) && text::includes(
            assets@[i].name@,
            "linux"@,
        ) && text::finishes(assets@[i].name@, ".tar.gz"@) ==> (r matches Some(asset) && exists|
            k: int,
        |
            0 <= k <= i && #[trigger] assets@[k] == *asset),
{
    law_the_picked_asset_is_the_first_that_suits(assets@, arch@);
}

/// Everything that was found goes, each thing once: the service first, then the
/// directories, then the files, and the program last unless a package owns it.
pub proof fn law_everything_found_is_removed(installed: Installed, r: Vec<Removal>, i: int)
    requires
        call_ensures(removals, (&installed,), r),
    ensures
        ({
            let s: int = if installed.service {
                1
            } else {
                0
            };
            let d = installed.dirs@.len();
            let f = installed.files@.len();
            let p: int = if installed.package is None {
                1
            } else {
                0
            };
            &&& r@.len() == s + d + f + p
            &&& installed.service ==> r@[0] is Service
            &&& 0 <= i < d ==> (r@[s + i] matches Removal::Dir(path) && path@
                == installed.dirs@[i]@)
            &&& 0 <= i < f ==> (r@[s + d + i] matches Removal::File(path) && path@
                == installed.files@[i]@)
            &&& installed.package is None ==> (r@[s + d + f] matches Removal::Program(path)
                && path@ == installed.exe@)
        }),
{
    let list = removal_views(r@);
    assert(list.len() == r@.len());
    let s: int = if installed.service {
        1
    } else {
        0
    };
    let d = installed.dirs@.len() as int;
    let f = installed.files@.len() as int;
    if installed.service {
        assert(list[0] == r@[0]@);
    }
    if 0 <= i < d {
        assert(list[s + i] == r@[s + i]@);
        assert(list[s + i] == RemovalView::Dir(text::views(installed.dirs@)[i]));
    }
    if 0 <= i < f {
        assert(list[s + d + i] == r@[s + d + i]@);
        assert(list[s + d + i] == RemovalView::File(text::views(installed.files@)[i]));
    }
    if installed.package is None {
        assert(list[s + d + f] == r@[s + d + f]@);
    }
}

/// What goes is announced before: the service, every directory, every file, and
/// the program, or that the package keeps it.
pub proof fn law_everything_that_goes_is_announced(installed: Installed, r: Vec<String>, i: int)
    requires
        call_ensures(uninstall_plan, (&installed,), r),
    ensures
        ({
            let s: int = if installed.service {
                1
            } else {
                0
            };
            let d = installed.dirs@.len();
            let f = installed.files@.len();
            let k: int = if installed.keep_config {
                1
            } else {
                0
            };
            &&& r@.len() == 1 + s + d + f + 1 + k
            &&& installed.service ==> r@[1]@ == "  - disable and remove "@ + SERVICE_PATH@
            &&& 0 <= i < d ==> r@[1 + s + i]@ == "  - "@ + installed.dirs@[i]@
            &&& 0 <= i < f ==> r@[1 + s + d + i]@ == "  - "@ + installed.files@[i]@
            &&& installed.package is None ==> r@[1 + s + d + f]@ == "  - "@ + installed.exe@
            &&& installed.package is Some ==> text::begins(
                r@[1 + s + d + f]@,
                "  - keep "@ + installed.exe@,
            )
        }),
{
    let lines = text::views(r@);
    assert(lines.len() == r@.len());
    let s: int = if installed.service {
        1
    } else {
        0
    };
    let d = installed.dirs@.len() as int;
    let f = installed.files@.len() as int;
    if installed.service {
        assert(lines[1] == r@[1]@);
    }
    if 0 <= i < d {
        assert(lines[1 + s + i] == r@[1 + s + i]@);
        assert(lines[1 + s + i] == bulleted(text::views(installed.dirs@))[i]);
    }
    if 0 <= i < f {
        assert(lines[1 + s + d + i] == r@[1 + s + d + i]@);
        assert(lines[1 + s + d + i] == bulleted(text::views(installed.files@))[i]);
    }
    let at = 1 + s + d + f;
    assert(lines[at] == r@[at]@);
    if installed.package is Some {
        let start = "  - keep "@ + installed.exe@;
        assert(r@[at]@.take(start.len() as int) =~= start);
    }
}

/// Nothing is removed on a dry run, nor without root, nor before the user said
/// yes.
pub proof fn law_removing_takes_root_and_consent(
    yes: bool,
    dry_run: bool,
    is_root: bool,
    r: Result<Uninstall, Error>,
    answer: &str,
    go: Result<(), Error>,
)
    requires
        call_ensures(uninstall, (yes, dry_run, is_root), r),
        call_ensures(confirm, (Some(answer),), go),
    ensures
        r == Ok::<Uninstall, Error>(Uninstall::Remove) <==> yes && !dry_run && is_root,
        r == Ok::<Uninstall, Error>(Uninstall::Ask) <==> !yes && !dry_run && is_root,
        r == Ok::<Uninstall, Error>(Uninstall::DryRun) <==> dry_run,
        go is Ok <==> text::lowered(text::trimmed(answer@)) == text::lowered("yes"@),
{
}

/// Nothing is installed over a program that a package owns, nor on a dry run;
/// what is announced is the asset's address and the program's path.
pub proof fn law_installing_respects_packages(
    asset: Asset,
    exe: &str,
    package: Option<&str>,
    dry_run: bool,
    r: Result<Install, Error>,
)
    requires
        call_ensures(plan_install, (&asset, exe, package, dry_run), r),
    ensures
        r is Err <==> package is Some,
        r matches Ok(Install::DryRun(_)) <==> package is None && dry_run,
        r matches Ok(Install::Go(_)) <==> package is None && !dry_run,
        r matches Ok(Install::Go(lines)) ==> {
            &&& lines@.len() == 2
            &&& lines@[0]@ == "Download:  "@ + asset.browser_download_url@
            &&& lines@[1]@ == "Install:   "@ + exe@
        },
{
    if let Ok(Install::Go(lines)) = r {
        let shown = text::views(lines@);
        assert(shown.len() == 2);
        assert(shown[0] == lines@[0]@);
        assert(shown[1] == lines@[1]@);
    }
}

/// A download is trusted only when it ran and its output holds the version that
/// was asked for.
pub proof fn law_a_download_has_to_prove_itself(
    reported: Option<&str>,
    version: &str,
    r: Result<(), Error>,
)
    requires
        call_ensures(check_download, (reported, version), r),
    ensures
        reported is None ==> r is Err,
        r is Ok ==> exists|i: int|
            {
                &&& 0 <= i
                &&& i + version@.len() <= reported->0@.len()
                &&& #[trigger] reported->0@.subrange(i, i + version@.len()) == version@
            },
        reported is Some && reported->0@ == version@ ==> r is Ok,
{
    if r is Ok {
        let out = reported->0@;
        let i = choose|i: int| text::occurs_at(out, version@, i);
        assert(out.subrange(i, i + version@.len()) == version@);
    }
    if reported is Some && reported->0@ == version@ {
        assert(version@.subrange(0, version@.len() as int) =~= version@);
        assert(text::occurs_at(reported->0@, version@, 0));
    }
}

/// A home that an entry of the passwd database names is looked into when it lies
/// under `/home/` or is root's; root's always is. No other directory is.
pub proof fn law_homes_are_those_of_users(passwd: &str, r: Vec<String>, i: int, home: Seq<char>)
    requires
        call_ensures(home_dirs, (Some(passwd),), r),
    ensures
        exists|k: int| 0 <= k < r@.len() && path::parts((#[trigger] r@[k])@) == path::parts("/root"@),
        0 <= i < text::lines_of(passwd@).len() && text::piece_of(
            text::lines_of(passwd@)[i],
            Cut::At(':'),
            5,
        ) == Some("/home/"@ + home) ==> exists|k: int|
            0 <= k < r@.len() && path::parts((#[trigger] r@[k])@) == path::parts("/home/"@ + home),
        forall|k: int|
            0 <= k < r@.len() ==> (#[trigger] r@[k])@ == "/root"@ || text::begins(
                r@[k]@,
                "/home/"@,
            ),
{
    let lines = text::lines_of(passwd@);
    let all = all_homes(Some(passwd@));
    let list = text::views(r@);
    assert(list.len() == r@.len());
    assert(all[0] == "/root"@);
    assert(path::listed(list, all[0]));
    let a = choose|a: int| 0 <= a < list.len() && path::parts(#[trigger] list[a]) == path::parts(
        all[0],
    );
    assert(path::parts(r@[a]@) == path::parts("/root"@));
    if 0 <= i < lines.len() && text::piece_of(lines[i], Cut::At(':'), 5) == Some("/home/"@ + home) {
        let named = "/home/"@ + home;
        assert(named.take("/home/"@.len() as int) =~= "/home/"@);
        lemma_home_is_in(lines, i, named);
        let inner = homes_in(lines);
        let n = choose|n: int| 0 <= n < inner.len() && inner[n] == named;
        assert(all[n + 1] == named);
        assert(path::listed(list, all[n + 1]));
        let b = choose|b: int|
            0 <= b < list.len() && path::parts(#[trigger] list[b]) == path::parts(named);
        assert(path::parts(r@[b]@) == path::parts(named));
    }
    assert forall|k: int| 0 <= k < r@.len() implies (#[trigger] r@[k])@ == "/root"@ || text::begins(
        r@[k]@,
        "/home/"@,
    ) by {
        assert(list[k] == r@[k]@);
        assert(path::first_of(all, list[k]));
        assert(all.contains(list[k]));
        let n = choose|n: int| 0 <= n < all.len() && all[n] == list[k];
        if n > 0 {
            assert(homes_in(lines)[n - 1] == list[k]);
            lemma_homes_are_homes(lines, n - 1);
        }
    }
}

proof fn lemma_home_is_in(lines: Seq<Seq<char>>, i: int, home: Seq<char>)
    requires
        0 <= i < lines.len(),
        text::piece_of(lines[i], Cut::At(':'), 5) == Some(home),
        is_home(home),
    ensures
        homes_in(lines).contains(home),
    decreases lines.len(),
{
    let all = homes_in(lines);
    let front = homes_in(lines.drop_last());
    if i == lines.len() - 1 {
        assert(all[all.len() - 1] == home);
    } else {
        lemma_home_is_in(lines.drop_last(), i, home);
        let k = choose|k: int| 0 <= k < front.len() && front[k] == home;
        assert(all[k] == home);
    }
}

proof fn lemma_homes_are_homes(lines: Seq<Seq<char>>, k: int)
    requires
        0 <= k < homes_in(lines).len(),
    ensures
        is_home(homes_in(lines)[k]),
    decreases lines.len(),
{
    if lines.len() > 0 {
        let front = homes_in(lines.drop_last());
        if k < front.len() {
            lemma_homes_are_homes(lines.drop_last(), k);
        }
    }
}

/// Completions are looked for system-wide, and in every home at the two places
/// where the shells look for them.
pub proof fn law_completions_are_looked_for_in_every_home(homes: Seq<Seq<char>>, i: int)
    requires
        0 <= i < homes.len(),
    ensures
        completion_places(homes).len() == 1 + 2 * homes.len(),
        completion_places(homes)[0] == "/etc/bash_completion.d/gigabytectl"@,
        completion_places(homes)[1 + 2 * i] == path::joined_path(
            homes[i],
            ".zsh/completions/_gigabytectl"@,
        ),
        completion_places(homes)[2 + 2 * i] == path::joined_path(
            homes[i],
            ".config/fish/completions/gigabytectl.fish"@,
        ),
    decreases homes.len(),
{
    let front = homes.drop_last();
    if front.len() > 0 {
        law_completions_are_looked_for_in_every_home(
            front,
            if i < front.len() {
                i
            } else {
                0
            },
        );
    } else {
        assert(completion_places(front) =~= seq!["/etc/bash_completion.d/gigabytectl"@]);
    }
}

/// The program belongs to the package that `pacman` names on its first line; only
/// where `pacman` gave no answer to the one that `dpkg` names before the colon.
pub proof fn law_the_owner_is_what_the_manager_names(
    pacman: Option<&str>,
    dpkg: Option<&str>,
    name: Seq<char>,
    rest: Seq<char>,
    r: Option<String>,
)
    requires
        call_ensures(owning_package, (pacman, dpkg), r),
        name.len() > 0,
        text::trimmed(name) == name,
        !name.contains('\n'),
        !name.contains('\r'),
        !name.contains(':'),
    ensures
        pacman is Some && pacman->0@ == name.push('\n') + rest ==> sysfs::text_view(r) == Some(name),
        pacman is None && dpkg is Some && dpkg->0@ == name.push(':') + rest ==> sysfs::text_view(r)
            == Some(name),
        pacman is None && dpkg is None ==> r is None,
        pacman is Some && pacman->0@.len() == 0 ==> r is None,
{
    let colon = Cut::At(':');
    let feed = Cut::At('\n');
    assert forall|i: int| 0 <= i < name.len() implies !colon.cuts(#[trigger] name[i])
        && !feed.cuts(name[i]) by {
        assert(name.contains(name[i]));
    }
    text::law_the_first_piece_ends_at_the_first_cut(name, ':', rest, colon);
    text::law_the_first_piece_ends_at_the_first_cut(name, '\n', rest, feed);
    text::lemma_first_line(name, rest);
}

/// A release is described by the names of all its assets.
pub proof fn law_the_assets_are_named(assets: &[Asset], r: String, i: int)
    requires
        call_ensures(asset_names, (assets,), r),
    ensures
        assets@.len() == 0 ==> r@ == "none"@,
        0 <= i < assets@.len() ==> text::includes(r@, assets@[i].name@),
{
    if 0 <= i < assets@.len() {
        let names = Seq::new(assets@.len(), |k: int| assets@[k].name@);
        assert(r@ == text::joined(names, ", "@));
        text::law_joined_texts_are_all_there(names, ", "@, i);
    }
}

} // verus!
