//! Planning for packaging an application: which build to run, what the
//! outputs are called and where they lie. Nothing here touches the disk or
//! starts a process; the caller does that with what these functions decide.

use std::path::PathBuf;
use vstd::prelude::*;
use vstd::string::*;

verus! {

/// `std::path::PathBuf`. The configurations carry paths for their caller and
/// never look inside one.
#[verifier::external_type_specification]
#[verifier::external_body]
pub struct ExPathBuf(std::path::PathBuf);

/// How to package an application as a bundle in an archive.
#[derive(Debug)]
pub struct PackageConfig {
    /// Root of the application's source; the working directory if absent.
    pub app_root: Option<PathBuf>,
    /// Name of the application; the package's name if absent.
    pub app_name: Option<String>,
    pub output_dir: PathBuf,
    /// Icon image; `icon.png` under the root if absent.
    pub icon_path: Option<PathBuf>,
    /// Features to build with.
    pub features: Vec<String>,
}

/// How to build an application for the web.
#[derive(Debug)]
pub struct WebBuildConfig {
    /// Root of the application's source; the working directory if absent.
    pub app_root: Option<PathBuf>,
    /// Name of the application; the package's name if absent.
    pub app_name: Option<String>,
    /// Binary to build; the package's own if absent.
    pub bin_name: Option<String>,
    pub output_dir: PathBuf,
    /// Features to build with.
    pub features: Vec<String>,
    /// Leave the shader cross-compiler out of the page.
    pub bypass_spirv_cross: bool,
    /// Build the debug profile instead of the release profile.
    pub debug: bool,
}

/// How to package an application, always for release and with its default
/// features.
#[derive(Debug)]
pub struct Configuration {
    /// Root of the application's source; the working directory if absent.
    pub app_root: Option<PathBuf>,
    /// Name of the application; the package's name if absent.
    pub app_name: Option<String>,
    pub output_dir: PathBuf,
    /// Icon image; `icon.png` under the root if absent.
    pub icon_path: Option<PathBuf>,
}

/// One image of an icon set: its size in pixels and its file name.
#[derive(Debug, Clone, PartialEq, Eq)]
pub struct IconSize {
    pub width: u32,
    pub height: u32,
    pub file_name: String,
}

/// The arguments that select features: none without features, else
/// `--features` and then each feature in turn.
pub open spec fn feature_args(features: Seq<Seq<char>>) -> Seq<Seq<char>> {
    if features.len() == 0 {
        seq![]
    } else {
        seq!["--features"@] + features
    }
}

/// The arguments of a release build with `features`.
pub open spec fn release_build_args(features: Seq<Seq<char>>) -> Seq<Seq<char>> {
    seq!["build"@, "--release"@] + feature_args(features)
}

/// The name of a build profile.
pub open spec fn profile_name(debug: bool) -> Seq<char> {
    if debug {
        "debug"@
    } else {
        "release"@
    }
}

/// The arguments that select a binary: none without one, else `--bin` and
/// its name.
pub open spec fn bin_args(bin_name: Option<Seq<char>>) -> Seq<Seq<char>> {
    match bin_name {
        Some(name) => seq!["--bin"@, name],
        None => seq![],
    }
}

/// The arguments of a build for the web. In place of `--release` a debug
/// build has an empty argument.
pub open spec fn web_build_args(
    debug: bool,
    bin_name: Option<Seq<char>>,
    features: Seq<Seq<char>>,
) -> Seq<Seq<char>> {
    seq![
        "build"@,
        if debug {
            ""@
        } else {
            "--release"@
        },
        "--target"@,
        "wasm32-unknown-unknown"@,
    ] + bin_args(bin_name) + feature_args(features)
}

/// `chosen` if there is one, else `fallback`.
pub open spec fn name_or(chosen: Option<String>, fallback: Seq<char>) -> Seq<char> {
    match chosen {
        Some(name) => name@,
        None => fallback,
    }
}

/// The images of an icon set, smallest first; each size comes once plain and
/// once as the double-density image of half its size.
pub open spec fn icon_set_entries() -> Seq<(u32, u32, Seq<char>)> {
    seq![
        (16u32, 16u32, "icon_16x16.png"@),
        (32u32, 32u32, "icon_16x16@2x.png"@),
        (32u32, 32u32, "icon_32x32.png"@),
        (64u32, 64u32, "icon_32x32@2x.png"@),
        (128u32, 128u32, "icon_128x128.png"@),
        (256u32, 256u32, "icon_128x128@2x.png"@),
        (256u32, 256u32, "icon_256x256.png"@),
        (512u32, 512u32, "icon_256x256@2x.png"@),
        (512u32, 512u32, "icon_512x512.png"@),
        (1024u32, 1024u32, "icon_512x512@2x.png"@),
    ]
}

/// What an icon image is as mathematics.
pub open spec fn icon_entry(icon: IconSize) -> (u32, u32, Seq<char>) {
    (icon.width, icon.height, icon.file_name@)
}

fn text(s: &str) -> (r: String)
    ensures
        r@ == s@,
{
    String::from_str(s)
}

fn chosen_or(chosen: &Option<String>, fallback: &str) -> (name: String)
    ensures
        name@ == name_or(*chosen, fallback@),
{
    match chosen {
        Some(name) => name.clone(),
        None => text(fallback),
    }
}

/// Appends to `args` the arguments that select `features`.
fn push_feature_args(args: &mut Vec<String>, features: &Vec<String>)
    ensures
        final(args).deep_view() == old(args).deep_view() + feature_args(features.deep_view()),
{
    let ghost before = args.deep_view();
    if features.len() > 0 {
        args.push(text("--features"));
        let mut i: usize = 0;
        while i < features.len()
            invariant
                i <= features.len(),
                args.deep_view() == before + seq!["--features"@] + features.deep_view().take(i as int),
            decreases features.len() - i,
        {
            let ghost so_far = args.deep_view();
            args.push(features[i].clone());
            assert(args.deep_view() =~= so_far.push(features@[i as int]@));
            assert(features.deep_view().take(i as int + 1) =~= features.deep_view().take(
                i as int,
            ).push(features@[i as int]@));
            i += 1;
        }
        assert(features.deep_view().take(i as int) =~= features.deep_view());
        assert(args.deep_view() =~= before + feature_args(features.deep_view()));
    } else {
        assert(args.deep_view() =~= before + feature_args(features.deep_view()));
    }
}

fn icon(width: u32, height: u32, file_name: &str) -> (r: IconSize)
    ensures
        icon_entry(r) == (width, height, file_name@),
{
    IconSize { width, height, file_name: text(file_name) }
}

/// The images that make up an icon set, in the order they are written.
pub fn icon_set() -> (icons: Vec<IconSize>)
    ensures
        icons@.map_values(|icon: IconSize| icon_entry(icon)) == icon_set_entries(),
{
    let mut icons: Vec<IconSize> = Vec::new();
    icons.push(icon(16, 16, "icon_16x16.png"));
    icons.push(icon(32, 32, "icon_16x16@2x.png"));
    icons.push(icon(32, 32, "icon_32x32.png"));
    icons.push(icon(64, 64, "icon_32x32@2x.png"));
    icons.push(icon(128, 128, "icon_128x128.png"));
    icons.push(icon(256, 256, "icon_128x128@2x.png"));
    icons.push(icon(256, 256, "icon_256x256.png"));
    icons.push(icon(512, 512, "icon_256x256@2x.png"));
    icons.push(icon(512, 512, "icon_512x512.png"));
    icons.push(icon(1024, 1024, "icon_512x512@2x.png"));
    assert(icons@.map_values(|icon: IconSize| icon_entry(icon)) =~= icon_set_entries());
    icons
}

/// The name of the archive a package is written to:
/// `<app>_<platform>_<version>.zip`.
pub fn archive_file_name(app_name: &str, platform: &str, version: &str) -> (name: String)
    ensures
        name@ == app_name@ + "_"@ + platform@ + "_"@ + version@ + ".zip"@,
{
    let mut name = text(app_name);
    name.append("_");
    name.append(platform);
    name.append("_");
    name.append(version);
    name.append(".zip");
    name
}

/// The name of the directory that is the application bundle: `<app>.app`.
pub fn bundle_dir_name(app_name: &str) -> (name: String)
    ensures
        name@ == app_name@ + ".app"@,
{
    let mut name = text(app_name);
    name.append(".app");
    name
}

/// The name of the directory the icon images are gathered in:
/// `<app>.iconset`.
pub fn iconset_dir_name(app_name: &str) -> (name: String)
    ensures
        name@ == app_name@ + ".iconset"@,
{
    let mut name = text(app_name);
    name.append(".iconset");
    name
}

/// Where, below the application's root, a release build leaves the
/// executable `exe_name`: the path's components in order.
pub fn release_executable(exe_name: &str) -> (path: Vec<String>)
    ensures
        path.deep_view() == seq!["target"@, "release"@, exe_name@],
{
    let mut path: Vec<String> = Vec::new();
    path.push(text("target"));
    path.push(text("release"));
    path.push(text(exe_name));
    assert(path.deep_view() =~= seq!["target"@, "release"@, exe_name@]);
    path
}

impl PackageConfig {
    /// The arguments of the build that comes before packaging: a release
    /// build, with the configured features if there are any.
    pub fn build_args(&self) -> (args: Vec<String>)
        ensures
            args.deep_view() == release_build_args(self.features.deep_view()),
    {
        let mut args: Vec<String> = Vec::new();
        args.push(text("build"));
        args.push(text("--release"));
        assert(args.deep_view() =~= seq!["build"@, "--release"@]);
        push_feature_args(&mut args, &self.features);
        args
    }

    /// The application's name: the configured one, else the package's.
    pub fn app_name_for(&self, package_name: &str) -> (name: String)
        ensures
            name@ == name_or(self.app_name, package_name@),
    {
        chosen_or(&self.app_name, package_name)
    }
}

impl Configuration {
    /// The arguments of the build that comes before packaging: a release
    /// build.
    pub fn build_args(&self) -> (args: Vec<String>)
        ensures
            args.deep_view() == release_build_args(Seq::empty()),
    {
        let mut args: Vec<String> = Vec::new();
        args.push(text("build"));
        args.push(text("--release"));
        assert(args.deep_view() =~= release_build_args(Seq::empty()));
        args
    }

    /// The application's name: the configured one, else the package's.
    pub fn app_name_for(&self, package_name: &str) -> (name: String)
        ensures
            name@ == name_or(self.app_name, package_name@),
    {
        chosen_or(&self.app_name, package_name)
    }

    /// The name of the archive the package is written to:
    /// `<app>_<version>.zip`.
    pub fn archive_file_name(app_name: &str, version: &str) -> (name: String)
        ensures
            name@ == app_name@ + "_"@ + version@ + ".zip"@,
    {
        let mut name = text(app_name);
        name.append("_");
        name.append(version);
        name.append(".zip");
        name
    }
}

impl WebBuildConfig {
    /// The build profile: `debug` or `release`.
    pub fn profile(&self) -> (name: &'static str)
        ensures
            name@ == profile_name(self.debug),
    {
        if self.debug {
            "debug"
        } else {
            "release"
        }
    }

    /// The arguments of the build for the web: the profile, the target, the
    /// configured binary if there is one, the configured features if there are
    /// any.
    pub fn build_args(&self) -> (args: Vec<String>)
        ensures
            args.deep_view() == web_build_args(
                self.debug,
                match self.bin_name {
                    Some(name) => Some(name@),
                    None => None,
                },
                self.features.deep_view(),
            ),
    {
        let mut args: Vec<String> = Vec::new();
        args.push(text("build"));
        args.push(
            text(
                if self.debug {
                    ""
                } else {
                    "--release"
                },
            ),
        );
        args.push(text("--target"));
        args.push(text("wasm32-unknown-unknown"));
        if let Some(bin_name) = &self.bin_name {
            args.push(text("--bin"));
            args.push(bin_name.clone());
        }
        assert(args.deep_view() =~= seq![
            "build"@,
            if self.debug {
                ""@
            } else {
                "--release"@
            },
            "--target"@,
            "wasm32-unknown-unknown"@,
        ] + bin_args(
            match self.bin_name {
                Some(name) => Some(name@),
                None => None,
            },
        ));
        push_feature_args(&mut args, &self.features);
        args
    }

    /// The application's name: the configured one, else the package's.
    pub fn app_name_for(&self, package_name: &str) -> (name: String)
        ensures
            name@ == name_or(self.app_name, package_name@),
    {
        chosen_or(&self.app_name, package_name)
    }

    /// The name of the binary that is built: the configured one, else the
    /// package's.
    pub fn bin_name_for(&self, package_name: &str) -> (name: String)
        ensures
            name@ == name_or(self.bin_name, package_name@),
    {
        chosen_or(&self.bin_name, package_name)
    }

    /// Where, below the application's root, the build leaves the module of
    /// the binary `bin_name`: the path's components in order.
    pub fn wasm_artifact(&self, bin_name: &str) -> (path: Vec<String>)
        ensures
            path.deep_view() == seq![
                "target"@,
                "wasm32-unknown-unknown"@,
                profile_name(self.debug),
                bin_name@ + ".wasm"@,
            ],
    {
        let mut file = text(bin_name);
        file.append(".wasm");
        let mut path: Vec<String> = Vec::new();
        path.push(text("target"));
        path.push(text("wasm32-unknown-unknown"));
        path.push(text(self.profile()));
        path.push(file);
        assert(path.deep_view() =~= seq![
            "target"@,
            "wasm32-unknown-unknown"@,
            profile_name(self.debug),
            bin_name@ + ".wasm"@,
        ]);
        path
    }
}

} // verus!
