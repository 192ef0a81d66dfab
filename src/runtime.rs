//! The supported runtimes: how each names its versions, where its releases
//! are downloaded from, and the decisions of the install and prune pipeline.
use vstd::prelude::*;
use crate::error::RvmError;
use crate::order::{insert_text_desc, sort_by, text_desc};
use crate::resolve::{resolve, resolve_spec, same_text, Release};
use crate::text::{
    concat, ends_with, has_prefix, has_suffix, starts_with, strip_prefix, strip_prefix_or_self,
    views,
};
use crate::gofeed::{go_div_ids, go_feed, go_releases_from_page, releases_view};
use crate::grouping::{group_versions_by_channel, grouped, info_view, infos_view, InfoView};
use crate::version::{channel_spec, detect_channel, extract_major_minor, lower_of, major_minor_spec, VersionInfo};

verus! {

/// Node.js: versions are written `v20.11.0`.
pub struct NodeRuntime;

/// Go: versions are written `go1.23.1` upstream and stored as `v1.23.1`.
pub struct GoRuntime;

/// The standalone Tailwind CSS binary: versions are written `v3.4.0`.
pub struct TailwindCssRuntime;

/// The supported runtimes, looked up by name.
#[derive(Debug, Clone, Copy, PartialEq, Eq)]
pub enum RuntimeKind {
    Node,
    Go,
    TailwindCss,
}

/// The container an archive comes in, known by the end of its URL.
#[derive(Debug, Clone, Copy, PartialEq, Eq)]
pub enum ArchiveKind {
    TarXz,
    TarGz,
}

/// The runtime that `name` names.
pub open spec fn kind_named(name: Seq<char>) -> Option<RuntimeKind> {
    if name == "node"@ {
        Some(RuntimeKind::Node)
    } else if name == "go"@ {
        Some(RuntimeKind::Go)
    } else if name == "tailwindcss"@ {
        Some(RuntimeKind::TailwindCss)
    } else {
        None
    }
}

/// The runtime of that name, or `UnsupportedRuntime` naming it.
pub fn get_runtime(name: &str) -> (r: Result<RuntimeKind, RvmError>)
    ensures
        match kind_named(name@) {
            Some(k) => r == Ok::<RuntimeKind, RvmError>(k),
            None => r is Err && r->Err_0 is UnsupportedRuntime && r->Err_0->UnsupportedRuntime_0@
                == name@,
        },
{
    proof {
        reveal_strlit("node");
        reveal_strlit("go");
        reveal_strlit("tailwindcss");
    }
    if same_text(name, "node") {
        Ok(RuntimeKind::Node)
    } else if same_text(name, "go") {
        Ok(RuntimeKind::Go)
    } else if same_text(name, "tailwindcss") {
        Ok(RuntimeKind::TailwindCss)
    } else {
        Err(RvmError::UnsupportedRuntime(name.to_owned()))
    }
}

/// The names of the supported runtimes, in ascending order.
pub fn list_supported_runtimes() -> (r: Vec<String>)
    ensures
        views(r@) == seq!["go"@, "node"@, "tailwindcss"@],
{
    proof {
        reveal_strlit("go");
        reveal_strlit("node");
        reveal_strlit("tailwindcss");
    }
    let r = vec!["go".to_owned(), "node".to_owned(), "tailwindcss".to_owned()];
    assert(views(r@) =~= seq!["go"@, "node"@, "tailwindcss"@]);
    r
}

/// The name of each runtime.
pub open spec fn name_of(k: RuntimeKind) -> Seq<char> {
    match k {
        RuntimeKind::Node => "node"@,
        RuntimeKind::Go => "go"@,
        RuntimeKind::TailwindCss => "tailwindcss"@,
    }
}

/// The paths, under a version's directory, of the binaries to mark executable.
pub open spec fn executables_of(k: RuntimeKind) -> Seq<Seq<char>> {
    match k {
        RuntimeKind::Node => seq!["bin/node"@, "bin/npm"@],
        RuntimeKind::Go => seq!["bin/go"@, "bin/gofmt"@],
        RuntimeKind::TailwindCss => seq!["bin/tailwindcss"@],
    }
}

impl RuntimeKind {
    /// The runtime's name, which is also its binary's name.
    pub fn name(&self) -> (r: String)
        ensures
            r@ == name_of(*self),
    {
        proof {
            reveal_strlit("node");
            reveal_strlit("go");
            reveal_strlit("tailwindcss");
        }
        match self {
            RuntimeKind::Node => "node".to_owned(),
            RuntimeKind::Go => "go".to_owned(),
            RuntimeKind::TailwindCss => "tailwindcss".to_owned(),
        }
    }

    /// The binaries of an installed version to mark executable.
    pub fn executables(&self) -> (r: Vec<String>)
        ensures
            views(r@) == executables_of(*self),
    {
        proof {
            reveal_strlit("bin/node");
            reveal_strlit("bin/npm");
            reveal_strlit("bin/go");
            reveal_strlit("bin/gofmt");
            reveal_strlit("bin/tailwindcss");
        }
        let r = match self {
            RuntimeKind::Node => vec!["bin/node".to_owned(), "bin/npm".to_owned()],
            RuntimeKind::Go => vec!["bin/go".to_owned(), "bin/gofmt".to_owned()],
            RuntimeKind::TailwindCss => vec!["bin/tailwindcss".to_owned()],
        };
        assert(views(r@) =~= executables_of(*self));
        r
    }
}

/// The architecture name that upstream builds use for a machine
/// architecture: `x64` for `x86_64`, `arm64` for `aarch64`.
pub fn get_architecture(machine_arch: &str) -> (r: Result<String, RvmError>)
    ensures
        machine_arch@ == "x86_64"@ ==> r is Ok && r->Ok_0@ == "x64"@,
        machine_arch@ == "aarch64"@ ==> r is Ok && r->Ok_0@ == "arm64"@,
        machine_arch@ != "x86_64"@ && machine_arch@ != "aarch64"@ ==> r is Err && r->Err_0 is UnsupportedArchitecture
            && r->Err_0->UnsupportedArchitecture_0@ == machine_arch@,
{
    proof {
        reveal_strlit("x86_64");
        reveal_strlit("aarch64");
        reveal_strlit("x64");
        reveal_strlit("arm64");
        assert("aarch64"@[0] != "x86_64"@[0]);
    }
    if same_text(machine_arch, "x86_64") {
        Ok("x64".to_owned())
    } else if same_text(machine_arch, "aarch64") {
        Ok("arm64".to_owned())
    } else {
        Err(RvmError::UnsupportedArchitecture(machine_arch.to_owned()))
    }
}

/// The container of the archive at `url`, by its suffix: `.tar.xz` or
/// `.tar.gz`; any other is `ExtractionFailed`.
pub fn archive_kind(url: &str) -> (r: Result<ArchiveKind, RvmError>)
    ensures
        has_suffix(url@, ".tar.xz"@) ==> r == Ok::<ArchiveKind, RvmError>(ArchiveKind::TarXz),
        !has_suffix(url@, ".tar.xz"@) && has_suffix(url@, ".tar.gz"@) ==> r == Ok::<ArchiveKind, RvmError>(ArchiveKind::TarGz),
        !has_suffix(url@, ".tar.xz"@) && !has_suffix(url@, ".tar.gz"@) ==> r is Err && r->Err_0 is ExtractionFailed,
{
    if ends_with(url, ".tar.xz") {
        Ok(ArchiveKind::TarXz)
    } else if ends_with(url, ".tar.gz") {
        Ok(ArchiveKind::TarGz)
    } else {
        Err(RvmError::ExtractionFailed("Unsupported archive format".to_owned()))
    }
}

/// The installed versions other than `keep`, in their order.
pub open spec fn pruned(installed: Seq<Seq<char>>, keep: Seq<char>) -> Seq<Seq<char>>
    decreases installed.len(),
{
    if installed.len() == 0 {
        installed
    } else if installed.last() == keep {
        pruned(installed.drop_last(), keep)
    } else {
        pruned(installed.drop_last(), keep).push(installed.last())
    }
}

/// The versions that a prune removes: every installed one but `keep`.
pub fn versions_to_prune(installed: &Vec<String>, keep: &str) -> (r: Vec<String>)
    ensures
        views(r@) == pruned(views(installed@), keep@),
{
    let mut out: Vec<String> = Vec::new();
    let mut i: usize = 0;
    while i < installed.len()
        invariant
            i <= installed@.len(),
            views(out@) == pruned(views(installed@).subrange(0, i as int), keep@),
        decreases installed@.len() - i,
    {
        let ghost pre = views(installed@).subrange(0, i + 1);
        assert(pre.drop_last() =~= views(installed@).subrange(0, i as int));
        assert(pre.last() == installed@[i as int]@);
        let ghost o = views(out@);
        if !same_text(&installed[i], keep) {
            out.push(installed[i].clone());
            assert(views(out@) =~= o.push(installed@[i as int]@));
        }
        i = i + 1;
    }
    assert(views(installed@).subrange(0, installed@.len() as int) =~= views(installed@));
    out
}

/// Installed version names in descending text order (not by version
/// semantics: `v9.0.0` comes before `v10.0.0`).
pub fn order_installed(names: &Vec<String>) -> (r: Vec<String>)
    ensures
        views(r@) == sort_by(views(names@), text_desc()),
{
    let mut out: Vec<String> = Vec::new();
    let mut i: usize = 0;
    while i < names.len()
        invariant
            i <= names@.len(),
            views(out@) == sort_by(views(names@).subrange(0, i as int), text_desc()),
        decreases names@.len() - i,
    {
        let ghost pre = views(names@).subrange(0, i + 1);
        assert(pre.drop_last() =~= views(names@).subrange(0, i as int));
        assert(pre.last() == names@[i as int]@);
        insert_text_desc(&mut out, names[i].clone());
        i = i + 1;
    }
    assert(views(names@).subrange(0, names@.len() as int) =~= views(names@));
    out
}

/// The form a version is listed in: a Go release `go1.24.5` as `v1.24.5`,
/// any other as it is.
pub open spec fn listed_form(go_style: bool, v: Seq<char>) -> Seq<char> {
    if go_style && has_prefix(v, "go"@) {
        "v"@ + v.subrange(2, v.len() as int)
    } else {
        v
    }
}

/// The releases as the listing reads them: each whose listed form has a
/// `major.minor`, with the channel of that form (`LTS` when flagged so).
pub open spec fn listing_entries(go_style: bool, rs: Seq<Release>) -> Seq<InfoView>
    decreases rs.len(),
{
    if rs.len() == 0 {
        Seq::empty()
    } else {
        let acc = listing_entries(go_style, rs.drop_last());
        let dv = listed_form(go_style, rs.last().version@);
        match major_minor_spec(dv) {
            Some(mm) => acc.push((dv, channel_spec(lower_of(dv), rs.last().lts), mm)),
            None => acc,
        }
    }
}

/// The listing of a release feed, grouped by channel.
pub fn listing(go_style: bool, releases: &Vec<Release>) -> (r: Vec<String>)
    ensures
        views(r@) == grouped(listing_entries(go_style, releases@)),
{
    let mut infos: Vec<VersionInfo> = Vec::new();
    let mut i: usize = 0;
    while i < releases.len()
        invariant
            i <= releases@.len(),
            infos_view(infos@) == listing_entries(go_style, releases@.subrange(0, i as int)),
        decreases releases@.len() - i,
    {
        let ghost pre = releases@.subrange(0, i + 1);
        assert(pre.drop_last() =~= releases@.subrange(0, i as int));
        assert(pre.last() == releases@[i as int]);
        let rel = &releases[i];
        proof {
            reveal_strlit("go");
            reveal_strlit("v");
        }
        let version = if go_style && starts_with(&rel.version, "go") {
            let bare = strip_prefix(&rel.version, "go");
            concat("v", &bare)
        } else {
            rel.version.clone()
        };
        assert(version@ == listed_form(go_style, rel.version@));
        if let Some(major_minor) = extract_major_minor(&version) {
            let channel = detect_channel(&version, rel.lts);
            let ghost o = infos_view(infos@);
            let info = VersionInfo { version, channel, major_minor };
            let ghost iv = info_view(info);
            infos.push(info);
            assert(infos_view(infos@) =~= o.push(iv));
        }
        i = i + 1;
    }
    assert(releases@.subrange(0, releases@.len() as int) =~= releases@);
    group_versions_by_channel(infos)
}

impl NodeRuntime {
    /// A Node.js release from its feed entry: stable when its version carries
    /// no pre-release marker (alpha, beta, rc, nightly); its `lts` field is
    /// `false` or the LTS codename, given here as the boolean it holds (`None`
    /// when it holds something else).
    pub fn release_of(&self, version: String, lts_field: Option<bool>) -> (r: Release)
        ensures
            r.version == version,
            r.stable == (channel_spec(lower_of(version@), false) == "Stable"@),
            r.lts == (lts_field != Some(false)),
    {
        proof {
            reveal_strlit("Stable");
        }
        let channel = detect_channel(&version, false);
        let stable = same_text(&channel, "Stable");
        let lts = match lts_field {
            Some(b) => b,
            None => true,
        };
        Release { version, stable, lts }
    }

    /// The Node.js releases grouped for display.
    pub fn list_available(&self, releases: &Vec<Release>) -> (r: Vec<String>)
        ensures
            views(r@) == grouped(listing_entries(false, releases@)),
    {
        listing(false, releases)
    }

    /// Resolves a specifier against the Node.js release feed (versions `v…`).
    pub fn resolve_version(&self, releases: &Vec<Release>, version_input: &str) -> (r: Result<String, RvmError>)
        ensures
            match resolve_spec("v"@, version_input@, releases@) {
                Some(v) => r is Ok && r->Ok_0@ == v,
                None => r is Err && r->Err_0 is VersionNotFound && r->Err_0->VersionNotFound_0@
                    == version_input@,
            },
    {
        resolve("v", version_input, releases)
    }

    /// `https://nodejs.org/dist/<v>/node-<v>-linux-<arch>.tar.xz`.
    pub fn download_url(&self, version: &str, arch: &str) -> (r: String)
        ensures
            r@ == "https://nodejs.org/dist/"@ + version@ + "/node-"@ + version@ + "-linux-"@ + arch@
                + ".tar.xz"@,
    {
        let a = concat("https://nodejs.org/dist/", version);
        let b = concat(&a, "/node-");
        let c = concat(&b, version);
        let d = concat(&c, "-linux-");
        let e = concat(&d, arch);
        concat(&e, ".tar.xz")
    }
}

impl GoRuntime {
    /// The Go feed read from the download page's HTML.
    pub fn releases_from_page(&self, html: &str) -> (r: Vec<Release>)
        ensures
            releases_view(r@) == go_feed(go_div_ids(html@)),
    {
        go_releases_from_page(html)
    }

    /// The Go releases grouped for display, each written `v…`.
    pub fn list_available(&self, releases: &Vec<Release>) -> (r: Vec<String>)
        ensures
            views(r@) == grouped(listing_entries(true, releases@)),
    {
        listing(true, releases)
    }

    /// Resolves a specifier against the Go release feed (versions `go…`).
    pub fn resolve_version(&self, releases: &Vec<Release>, version_input: &str) -> (r: Result<String, RvmError>)
        ensures
            match resolve_spec("go"@, version_input@, releases@) {
                Some(v) => r is Ok && r->Ok_0@ == v,
                None => r is Err && r->Err_0 is VersionNotFound && r->Err_0->VersionNotFound_0@
                    == version_input@,
            },
    {
        resolve("go", version_input, releases)
    }

    /// The name a Go release is stored under: `go1.23.1` becomes `v1.23.1`.
    pub fn storage_version(&self, resolved: &str) -> (r: String)
        ensures
            r@ == "v"@ + strip_prefix_or_self(resolved@, "go"@),
    {
        let bare = strip_prefix(resolved, "go");
        concat("v", &bare)
    }

    /// `https://go.dev/dl/<v>.linux-<arch>.tar.gz`, with Go's names for the
    /// architectures (`amd64` for `x64`, `arm64`); any other architecture is
    /// `UnsupportedArchitecture`.
    pub fn download_url(&self, version: &str, arch: &str) -> (r: Result<String, RvmError>)
        ensures
            arch@ == "x64"@ ==> r is Ok && r->Ok_0@ == "https://go.dev/dl/"@ + version@ + ".linux-amd64.tar.gz"@,
            arch@ == "arm64"@ ==> r is Ok && r->Ok_0@ == "https://go.dev/dl/"@ + version@ + ".linux-arm64.tar.gz"@,
            arch@ != "x64"@ && arch@ != "arm64"@ ==> r is Err && r->Err_0 is UnsupportedArchitecture
                && r->Err_0->UnsupportedArchitecture_0@ == arch@,
    {
        proof {
            reveal_strlit("x64");
            reveal_strlit("arm64");
            assert("arm64"@.len() != "x64"@.len());
        }
        let tail = if same_text(arch, "x64") {
            ".linux-amd64.tar.gz"
        } else if same_text(arch, "arm64") {
            ".linux-arm64.tar.gz"
        } else {
            return Err(RvmError::UnsupportedArchitecture(arch.to_owned()));
        };
        let a = concat("https://go.dev/dl/", version);
        Ok(concat(&a, tail))
    }
}

impl TailwindCssRuntime {
    /// A Tailwind CSS release from a GitHub release: stable unless marked a
    /// pre-release.
    pub fn release_of(&self, tag_name: String, prerelease: bool) -> (r: Release)
        ensures
            r.version == tag_name,
            r.stable == !prerelease,
            !r.lts,
    {
        Release { version: tag_name, stable: !prerelease, lts: false }
    }

    /// The Tailwind CSS releases grouped for display.
    pub fn list_available(&self, releases: &Vec<Release>) -> (r: Vec<String>)
        ensures
            views(r@) == grouped(listing_entries(false, releases@)),
    {
        listing(false, releases)
    }

    /// Resolves a specifier against the Tailwind CSS releases (tags `v…`).
    pub fn resolve_version(&self, releases: &Vec<Release>, version_input: &str) -> (r: Result<String, RvmError>)
        ensures
            match resolve_spec("v"@, version_input@, releases@) {
                Some(v) => r is Ok && r->Ok_0@ == v,
                None => r is Err && r->Err_0 is VersionNotFound && r->Err_0->VersionNotFound_0@
                    == version_input@,
            },
    {
        resolve("v", version_input, releases)
    }

    /// The name of the release asset for an architecture:
    /// `tailwindcss-linux-x64` or `tailwindcss-linux-arm64`; any other
    /// architecture is `UnsupportedArchitecture`.
    pub fn get_executable_filename(&self, arch: &str) -> (r: Result<String, RvmError>)
        ensures
            arch@ == "x64"@ ==> r is Ok && r->Ok_0@ == "tailwindcss-linux-x64"@,
            arch@ == "arm64"@ ==> r is Ok && r->Ok_0@ == "tailwindcss-linux-arm64"@,
            arch@ != "x64"@ && arch@ != "arm64"@ ==> r is Err && r->Err_0 is UnsupportedArchitecture
                && r->Err_0->UnsupportedArchitecture_0@ == arch@,
    {
        proof {
            reveal_strlit("x64");
            reveal_strlit("arm64");
            reveal_strlit("linux-x64");
            reveal_strlit("linux-arm64");
            reveal_strlit("tailwindcss-");
            reveal_strlit("tailwindcss-linux-x64");
            reveal_strlit("tailwindcss-linux-arm64");
            assert("arm64"@.len() != "x64"@.len());
            assert("tailwindcss-"@ + "linux-x64"@ =~= "tailwindcss-linux-x64"@);
            assert("tailwindcss-"@ + "linux-arm64"@ =~= "tailwindcss-linux-arm64"@);
        }
        let tailwind_arch = if same_text(arch, "x64") {
            "linux-x64"
        } else if same_text(arch, "arm64") {
            "linux-arm64"
        } else {
            return Err(RvmError::UnsupportedArchitecture(arch.to_owned()));
        };
        Ok(concat("tailwindcss-", tailwind_arch))
    }

    /// `https://github.com/tailwindlabs/tailwindcss/releases/download/<v>/<file>`.
    pub fn download_url(&self, version: &str, filename: &str) -> (r: String)
        ensures
            r@ == "https://github.com/tailwindlabs/tailwindcss/releases/download/"@ + version@ + "/"@
                + filename@,
    {
        let a = concat("https://github.com/tailwindlabs/tailwindcss/releases/download/", version);
        let b = concat(&a, "/");
        concat(&b, filename)
    }
}

} // verus!
