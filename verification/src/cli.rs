//! The command-line surface of the build tool: the command grammar as
//! plain data, and a verified parser for it.
//!
//! The grammar takes the subcommand and its positional arguments first,
//! then flags in any order; every accepted invocation and every default
//! value is pinned by the parse specs below.
use vstd::prelude::*;

use vstd::string::StrSliceExecFns;
use vstd::string::StringExecFns;

use crate::state::Backend;

verus! {

broadcast use vstd::string::group_string_axioms;

/// A parsed invocation: the chosen command, if any was given.
#[derive(Debug, Clone)]
pub struct Cli {
    pub command: Option<Command>,
}

#[derive(Debug, Clone)]
pub enum Command {
    /// Initialize a new project.
    Init { name: String, engine_dev: bool, repo_url: String },
    /// Generate new project files.
    New { kind: NewKind },
    /// Run a scene script.
    Run { file: String },
    /// Build targets (backends, desktop, web, mobile).
    Build { target: BuildTarget },
    /// Export a scene to a portable format.
    Export {
        scene: String,
        output: String,
        format: ExportFormat,
        physics: bool,
        compress_textures: bool,
    },
    /// Package a built application for distribution.
    Package { target: PackageTarget },
    /// Run the engine test suite.
    Test,
}

#[derive(Debug, Clone)]
pub enum NewKind {
    /// Generate a new scene file.
    Scene { name: String },
}

#[derive(Debug, Clone)]
pub enum BuildTarget {
    /// Build a GPU backend library.
    Backend { name: String },
    /// Build a standalone desktop executable.
    Desktop { entry: String, platform: Option<DesktopPlatform>, output: String, release: bool },
    /// Build for web deployment.
    Web { scene: String, output: String, release: bool },
    /// Build for mobile via a WebView shell.
    Mobile { scene: String, platform: MobilePlatform, output: String },
}

#[derive(Debug, Clone)]
pub enum PackageTarget {
    /// Package a desktop build into a distributable archive.
    Desktop { build_dir: String, output: String, platform: Option<DesktopPlatform> },
    /// Package a web build for deployment.
    Web { build_dir: String, output: String },
}

#[derive(Debug, Clone, Copy, PartialEq, Eq, Structural)]
pub enum ExportFormat {
    /// Binary scene bundle for the WASM runtime.
    Orsb,
    /// glTF 2.0.
    Gltf,
}

#[derive(Debug, Clone, Copy, PartialEq, Eq, Structural)]
pub enum DesktopPlatform {
    Linux,
    Macos,
    Windows,
}

impl DesktopPlatform {
    /// Platform this library was built for; this build targets Linux.
    pub fn detect() -> (r: Self)
        ensures
            r == DesktopPlatform::Linux,
    {
        DesktopPlatform::Linux
    }

    /// What `label` returns for each platform.
    pub open spec fn label_spec(&self) -> Seq<char> {
        match self {
            DesktopPlatform::Linux => "linux"@,
            DesktopPlatform::Macos => "macos"@,
            DesktopPlatform::Windows => "windows"@,
        }
    }

    pub fn label(&self) -> (r: &'static str)
        ensures
            r@ == self.label_spec(),
    {
        match self {
            DesktopPlatform::Linux => "linux",
            DesktopPlatform::Macos => "macos",
            DesktopPlatform::Windows => "windows",
        }
    }
}

#[derive(Debug, Clone, Copy, PartialEq, Eq, Structural)]
pub enum MobilePlatform {
    Android,
    Ios,
}

impl MobilePlatform {
    /// What `label` returns for each platform.
    pub open spec fn label_spec(&self) -> Seq<char> {
        match self {
            MobilePlatform::Android => "android"@,
            MobilePlatform::Ios => "ios"@,
        }
    }

    pub fn label(&self) -> (r: &'static str)
        ensures
            r@ == self.label_spec(),
    {
        match self {
            MobilePlatform::Android => "android",
            MobilePlatform::Ios => "ios",
        }
    }
}

/// Whether a string equals a literal.
fn is_lit(s: &String, lit: &str) -> (r: bool)
    ensures
        r == (s@ == lit@),
{
    let owned = String::from_str(lit);
    *s == owned
}

/// Lower-cased code point of a character, folding only ASCII letters.
pub open spec fn lower_code_spec(c: char) -> int {
    if 'A' <= c && c <= 'Z' {
        c as int + 32
    } else {
        c as int
    }
}

/// Case-insensitive equality of two character sequences, folding ASCII
/// letters only.
pub open spec fn eq_ignore_case_spec(a: Seq<char>, b: Seq<char>) -> bool {
    a.len() == b.len() && forall|i: int|
        0 <= i < a.len() ==> lower_code_spec(a[i]) == lower_code_spec(b[i])
}

/// Compare a string against a literal, ignoring ASCII case.
fn eq_ignore_case(sref: &str, lit: &str) -> (r: bool)
    ensures
        r == eq_ignore_case_spec(sref@, lit@),
{
    let n = sref.unicode_len();
    let m = lit.unicode_len();
    if n != m {
        return false;
    }
    let mut i: usize = 0;
    while i < n
        invariant
            n == sref@.len(),
            n == lit@.len(),
            i <= n,
            forall|j: int| 0 <= j < i ==> lower_code_spec(sref@[j]) == lower_code_spec(lit@[j]),
        decreases n - i,
    {
        let ca = sref.get_char(i);
        let cb = lit.get_char(i);
        let code_a = ca as u32;
        let code_b = cb as u32;
        let la = if 65 <= code_a && code_a <= 90 {
            code_a + 32
        } else {
            code_a
        };
        let lb = if 65 <= code_b && code_b <= 90 {
            code_b + 32
        } else {
            code_b
        };
        if la != lb {
            return false;
        }
        i = i + 1;
    }
    true
}

/// Parse a backend name, ignoring case; several aliases are accepted.
pub open spec fn parse_backend_spec(s: Seq<char>) -> Option<Backend> {
    if eq_ignore_case_spec(s, "metal"@) {
        Some(Backend::Metal)
    } else if eq_ignore_case_spec(s, "webgpu"@) || eq_ignore_case_spec(s, "wgpu"@) {
        Some(Backend::WebGPU)
    } else if eq_ignore_case_spec(s, "wasm"@) || eq_ignore_case_spec(s, "wasm-export"@) {
        Some(Backend::WasmExport)
    } else if eq_ignore_case_spec(s, "opengl"@) || eq_ignore_case_spec(s, "gl"@) {
        Some(Backend::OpenGL)
    } else if eq_ignore_case_spec(s, "vulkan"@) || eq_ignore_case_spec(s, "vk"@) {
        Some(Backend::Vulkan)
    } else {
        None
    }
}

/// Parse a backend name; unknown names are rejected with a message that
/// names the offending input.
pub fn parse_backend(s: &str) -> (r: Result<Backend, String>)
    ensures
        (r is Ok) == (parse_backend_spec(s@) is Some),
        r matches Ok(b) ==> Some(b) == parse_backend_spec(s@),
{
    if eq_ignore_case(s, "metal") {
        Ok(Backend::Metal)
    } else if eq_ignore_case(s, "webgpu") || eq_ignore_case(s, "wgpu") {
        Ok(Backend::WebGPU)
    } else if eq_ignore_case(s, "wasm") || eq_ignore_case(s, "wasm-export") {
        Ok(Backend::WasmExport)
    } else if eq_ignore_case(s, "opengl") || eq_ignore_case(s, "gl") {
        Ok(Backend::OpenGL)
    } else if eq_ignore_case(s, "vulkan") || eq_ignore_case(s, "vk") {
        Ok(Backend::Vulkan)
    } else {
        let msg = String::from_str("Unknown backend: ").concat(s).concat(
            ". Options: opengl, metal, vulkan, webgpu, wasm",
        );
        Err(msg)
    }
}

/// Parse a desktop platform name.
pub open spec fn desktop_platform_spec(s: Seq<char>) -> Option<DesktopPlatform> {
    if s == "linux"@ {
        Some(DesktopPlatform::Linux)
    } else if s == "macos"@ {
        Some(DesktopPlatform::Macos)
    } else if s == "windows"@ {
        Some(DesktopPlatform::Windows)
    } else {
        None
    }
}

fn parse_desktop_platform(s: &String) -> (r: Option<DesktopPlatform>)
    ensures
        r == desktop_platform_spec(s@),
{
    if is_lit(s, "linux") {
        Some(DesktopPlatform::Linux)
    } else if is_lit(s, "macos") {
        Some(DesktopPlatform::Macos)
    } else if is_lit(s, "windows") {
        Some(DesktopPlatform::Windows)
    } else {
        None
    }
}

/// Parse a mobile platform name.
pub open spec fn mobile_platform_spec(s: Seq<char>) -> Option<MobilePlatform> {
    if s == "android"@ {
        Some(MobilePlatform::Android)
    } else if s == "ios"@ {
        Some(MobilePlatform::Ios)
    } else {
        None
    }
}

fn parse_mobile_platform(s: &String) -> (r: Option<MobilePlatform>)
    ensures
        r == mobile_platform_spec(s@),
{
    if is_lit(s, "android") {
        Some(MobilePlatform::Android)
    } else if is_lit(s, "ios") {
        Some(MobilePlatform::Ios)
    } else {
        None
    }
}

/// Remaining flags of `init`, from position `i`.
pub open spec fn init_flags_spec(
    args: Seq<String>,
    i: int,
    name: String,
    engine_dev: bool,
    repo_url: String,
) -> Option<Command>
    decreases args.len() - i,
{
    if i >= args.len() {
        Some(Command::Init { name, engine_dev, repo_url })
    } else if args[i]@ == "--engine-dev"@ {
        init_flags_spec(args, i + 1, name, true, repo_url)
    } else if args[i]@ == "--repo-url"@ {
        if i + 1 < args.len() {
            init_flags_spec(args, i + 2, name, engine_dev, args[i + 1])
        } else {
            None
        }
    } else {
        None
    }
}

fn parse_init_flags(
    args: &Vec<String>,
    i: usize,
    name: String,
    engine_dev: bool,
    repo_url: String,
) -> (r: Option<Command>)
    ensures
        r == init_flags_spec(args@, i as int, name, engine_dev, repo_url),
    decreases args@.len() - i,
{
    if i >= args.len() {
        Some(Command::Init { name, engine_dev, repo_url })
    } else if is_lit(&args[i], "--engine-dev") {
        parse_init_flags(args, i + 1, name, true, repo_url)
    } else if is_lit(&args[i], "--repo-url") {
        if i + 1 < args.len() {
            let url = args[i + 1].clone();
            parse_init_flags(args, i + 2, name, engine_dev, url)
        } else {
            None
        }
    } else {
        None
    }
}

/// Remaining flags of `build desktop`, from position `i`.
pub open spec fn build_desktop_flags_spec(
    args: Seq<String>,
    i: int,
    entry: String,
    platform: Option<DesktopPlatform>,
    output: String,
    release: bool,
) -> Option<Command>
    decreases args.len() - i,
{
    if i >= args.len() {
        Some(Command::Build { target: BuildTarget::Desktop { entry, platform, output, release } })
    } else if args[i]@ == "--release"@ {
        build_desktop_flags_spec(args, i + 1, entry, platform, output, true)
    } else if args[i]@ == "-p"@ || args[i]@ == "--platform"@ {
        if i + 1 < args.len() && desktop_platform_spec(args[i + 1]@) is Some {
            build_desktop_flags_spec(
                args,
                i + 2,
                entry,
                desktop_platform_spec(args[i + 1]@),
                output,
                release,
            )
        } else {
            None
        }
    } else if args[i]@ == "-o"@ || args[i]@ == "--output"@ {
        if i + 1 < args.len() {
            build_desktop_flags_spec(args, i + 2, entry, platform, args[i + 1], release)
        } else {
            None
        }
    } else {
        None
    }
}

fn parse_build_desktop_flags(
    args: &Vec<String>,
    i: usize,
    entry: String,
    platform: Option<DesktopPlatform>,
    output: String,
    release: bool,
) -> (r: Option<Command>)
    ensures
        r == build_desktop_flags_spec(args@, i as int, entry, platform, output, release),
    decreases args@.len() - i,
{
    if i >= args.len() {
        Some(Command::Build { target: BuildTarget::Desktop { entry, platform, output, release } })
    } else if is_lit(&args[i], "--release") {
        parse_build_desktop_flags(args, i + 1, entry, platform, output, true)
    } else if is_lit(&args[i], "-p") || is_lit(&args[i], "--platform") {
        if i + 1 < args.len() {
            let p = parse_desktop_platform(&args[i + 1]);
            if p.is_some() {
                parse_build_desktop_flags(args, i + 2, entry, p, output, release)
            } else {
                None
            }
        } else {
            None
        }
    } else if is_lit(&args[i], "-o") || is_lit(&args[i], "--output") {
        if i + 1 < args.len() {
            let o = args[i + 1].clone();
            parse_build_desktop_flags(args, i + 2, entry, platform, o, release)
        } else {
            None
        }
    } else {
        None
    }
}

/// Remaining flags of `build web`, from position `i`.
pub open spec fn build_web_flags_spec(
    args: Seq<String>,
    i: int,
    scene: String,
    output: String,
    release: bool,
) -> Option<Command>
    decreases args.len() - i,
{
    if i >= args.len() {
        Some(Command::Build { target: BuildTarget::Web { scene, output, release } })
    } else if args[i]@ == "--release"@ {
        build_web_flags_spec(args, i + 1, scene, output, true)
    } else if args[i]@ == "-o"@ || args[i]@ == "--output"@ {
        if i + 1 < args.len() {
            build_web_flags_spec(args, i + 2, scene, args[i + 1], release)
        } else {
            None
        }
    } else {
        None
    }
}

fn parse_build_web_flags(
    args: &Vec<String>,
    i: usize,
    scene: String,
    output: String,
    release: bool,
) -> (r: Option<Command>)
    ensures
        r == build_web_flags_spec(args@, i as int, scene, output, release),
    decreases args@.len() - i,
{
    if i >= args.len() {
        Some(Command::Build { target: BuildTarget::Web { scene, output, release } })
    } else if is_lit(&args[i], "--release") {
        parse_build_web_flags(args, i + 1, scene, output, true)
    } else if is_lit(&args[i], "-o") || is_lit(&args[i], "--output") {
        if i + 1 < args.len() {
            let o = args[i + 1].clone();
            parse_build_web_flags(args, i + 2, scene, o, release)
        } else {
            None
        }
    } else {
        None
    }
}

/// Remaining flags of `build mobile`, from position `i`; the platform
/// flag is mandatory.
pub open spec fn build_mobile_flags_spec(
    args: Seq<String>,
    i: int,
    scene: String,
    platform: Option<MobilePlatform>,
    output: String,
) -> Option<Command>
    decreases args.len() - i,
{
    if i >= args.len() {
        match platform {
            Some(p) => Some(
                Command::Build { target: BuildTarget::Mobile { scene, platform: p, output } },
            ),
            None => None,
        }
    } else if args[i]@ == "-p"@ || args[i]@ == "--platform"@ {
        if i + 1 < args.len() && mobile_platform_spec(args[i + 1]@) is Some {
            build_mobile_flags_spec(args, i + 2, scene, mobile_platform_spec(args[i + 1]@), output)
        } else {
            None
        }
    } else if args[i]@ == "-o"@ || args[i]@ == "--output"@ {
        if i + 1 < args.len() {
            build_mobile_flags_spec(args, i + 2, scene, platform, args[i + 1])
        } else {
            None
        }
    } else {
        None
    }
}

fn parse_build_mobile_flags(
    args: &Vec<String>,
    i: usize,
    scene: String,
    platform: Option<MobilePlatform>,
    output: String,
) -> (r: Option<Command>)
    ensures
        r == build_mobile_flags_spec(args@, i as int, scene, platform, output),
    decreases args@.len() - i,
{
    if i >= args.len() {
        match platform {
            Some(p) => Some(
                Command::Build { target: BuildTarget::Mobile { scene, platform: p, output } },
            ),
            None => None,
        }
    } else if is_lit(&args[i], "-p") || is_lit(&args[i], "--platform") {
        if i + 1 < args.len() {
            let p = parse_mobile_platform(&args[i + 1]);
            if p.is_some() {
                parse_build_mobile_flags(args, i + 2, scene, p, output)
            } else {
                None
            }
        } else {
            None
        }
    } else if is_lit(&args[i], "-o") || is_lit(&args[i], "--output") {
        if i + 1 < args.len() {
            let o = args[i + 1].clone();
            parse_build_mobile_flags(args, i + 2, scene, platform, o)
        } else {
            None
        }
    } else {
        None
    }
}

/// Remaining flags of `export`, from position `i`; the output flag is
/// mandatory.
pub open spec fn export_flags_spec(
    args: Seq<String>,
    i: int,
    scene: String,
    output: Option<String>,
    format: ExportFormat,
    physics: bool,
    compress_textures: bool,
) -> Option<Command>
    decreases args.len() - i,
{
    if i >= args.len() {
        match output {
            Some(o) => Some(
                Command::Export { scene, output: o, format, physics, compress_textures },
            ),
            None => None,
        }
    } else if args[i]@ == "--physics"@ {
        export_flags_spec(args, i + 1, scene, output, format, true, compress_textures)
    } else if args[i]@ == "--compress-textures"@ {
        export_flags_spec(args, i + 1, scene, output, format, physics, true)
    } else if args[i]@ == "-o"@ || args[i]@ == "--output"@ {
        if i + 1 < args.len() {
            export_flags_spec(
                args,
                i + 2,
                scene,
                Some(args[i + 1]),
                format,
                physics,
                compress_textures,
            )
        } else {
            None
        }
    } else if args[i]@ == "-f"@ || args[i]@ == "--format"@ {
        if i + 1 < args.len() && (args[i + 1]@ == "orsb"@ || args[i + 1]@ == "gltf"@) {
            let f = if args[i + 1]@ == "gltf"@ {
                ExportFormat::Gltf
            } else {
                ExportFormat::Orsb
            };
            export_flags_spec(args, i + 2, scene, output, f, physics, compress_textures)
        } else {
            None
        }
    } else {
        None
    }
}

fn parse_export_flags(
    args: &Vec<String>,
    i: usize,
    scene: String,
    output: Option<String>,
    format: ExportFormat,
    physics: bool,
    compress_textures: bool,
) -> (r: Option<Command>)
    ensures
        r == export_flags_spec(args@, i as int, scene, output, format, physics, compress_textures),
    decreases args@.len() - i,
{
    if i >= args.len() {
        match output {
            Some(o) => Some(
                Command::Export { scene, output: o, format, physics, compress_textures },
            ),
            None => None,
        }
    } else if is_lit(&args[i], "--physics") {
        parse_export_flags(args, i + 1, scene, output, format, true, compress_textures)
    } else if is_lit(&args[i], "--compress-textures") {
        parse_export_flags(args, i + 1, scene, output, format, physics, true)
    } else if is_lit(&args[i], "-o") || is_lit(&args[i], "--output") {
        if i + 1 < args.len() {
            let o = args[i + 1].clone();
            parse_export_flags(args, i + 2, scene, Some(o), format, physics, compress_textures)
        } else {
            None
        }
    } else if is_lit(&args[i], "-f") || is_lit(&args[i], "--format") {
        if i + 1 < args.len() && (is_lit(&args[i + 1], "orsb") || is_lit(&args[i + 1], "gltf")) {
            let f = if is_lit(&args[i + 1], "gltf") {
                ExportFormat::Gltf
            } else {
                ExportFormat::Orsb
            };
            parse_export_flags(args, i + 2, scene, output, f, physics, compress_textures)
        } else {
            None
        }
    } else {
        None
    }
}

/// Remaining flags of `package desktop`, from position `i`.
pub open spec fn package_desktop_flags_spec(
    args: Seq<String>,
    i: int,
    build_dir: String,
    output: String,
    platform: Option<DesktopPlatform>,
) -> Option<Command>
    decreases args.len() - i,
{
    if i >= args.len() {
        Some(Command::Package { target: PackageTarget::Desktop { build_dir, output, platform } })
    } else if args[i]@ == "-b"@ || args[i]@ == "--build-dir"@ {
        if i + 1 < args.len() {
            package_desktop_flags_spec(args, i + 2, args[i + 1], output, platform)
        } else {
            None
        }
    } else if args[i]@ == "-o"@ || args[i]@ == "--output"@ {
        if i + 1 < args.len() {
            package_desktop_flags_spec(args, i + 2, build_dir, args[i + 1], platform)
        } else {
            None
        }
    } else if args[i]@ == "-p"@ || args[i]@ == "--platform"@ {
        if i + 1 < args.len() && desktop_platform_spec(args[i + 1]@) is Some {
            package_desktop_flags_spec(
                args,
                i + 2,
                build_dir,
                output,
                desktop_platform_spec(args[i + 1]@),
            )
        } else {
            None
        }
    } else {
        None
    }
}

fn parse_package_desktop_flags(
    args: &Vec<String>,
    i: usize,
    build_dir: String,
    output: String,
    platform: Option<DesktopPlatform>,
) -> (r: Option<Command>)
    ensures
        r == package_desktop_flags_spec(args@, i as int, build_dir, output, platform),
    decreases args@.len() - i,
{
    if i >= args.len() {
        Some(Command::Package { target: PackageTarget::Desktop { build_dir, output, platform } })
    } else if is_lit(&args[i], "-b") || is_lit(&args[i], "--build-dir") {
        if i + 1 < args.len() {
            let b = args[i + 1].clone();
            parse_package_desktop_flags(args, i + 2, b, output, platform)
        } else {
            None
        }
    } else if is_lit(&args[i], "-o") || is_lit(&args[i], "--output") {
        if i + 1 < args.len() {
            let o = args[i + 1].clone();
            parse_package_desktop_flags(args, i + 2, build_dir, o, platform)
        } else {
            None
        }
    } else if is_lit(&args[i], "-p") || is_lit(&args[i], "--platform") {
        if i + 1 < args.len() {
            let p = parse_desktop_platform(&args[i + 1]);
            if p.is_some() {
                parse_package_desktop_flags(args, i + 2, build_dir, output, p)
            } else {
                None
            }
        } else {
            None
        }
    } else {
        None
    }
}

/// Remaining flags of `package web`, from position `i`.
pub open spec fn package_web_flags_spec(
    args: Seq<String>,
    i: int,
    build_dir: String,
    output: String,
) -> Option<Command>
    decreases args.len() - i,
{
    if i >= args.len() {
        Some(Command::Package { target: PackageTarget::Web { build_dir, output } })
    } else if args[i]@ == "-b"@ || args[i]@ == "--build-dir"@ {
        if i + 1 < args.len() {
            package_web_flags_spec(args, i + 2, args[i + 1], output)
        } else {
            None
        }
    } else if args[i]@ == "-o"@ || args[i]@ == "--output"@ {
        if i + 1 < args.len() {
            package_web_flags_spec(args, i + 2, build_dir, args[i + 1])
        } else {
            None
        }
    } else {
        None
    }
}

fn parse_package_web_flags(
    args: &Vec<String>,
    i: usize,
    build_dir: String,
    output: String,
) -> (r: Option<Command>)
    ensures
        r == package_web_flags_spec(args@, i as int, build_dir, output),
    decreases args@.len() - i,
{
    if i >= args.len() {
        Some(Command::Package { target: PackageTarget::Web { build_dir, output } })
    } else if is_lit(&args[i], "-b") || is_lit(&args[i], "--build-dir") {
        if i + 1 < args.len() {
            let b = args[i + 1].clone();
            parse_package_web_flags(args, i + 2, b, output)
        } else {
            None
        }
    } else if is_lit(&args[i], "-o") || is_lit(&args[i], "--output") {
        if i + 1 < args.len() {
            let o = args[i + 1].clone();
            parse_package_web_flags(args, i + 2, build_dir, o)
        } else {
            None
        }
    } else {
        None
    }
}

/// What an argument vector parses to: the program name alone means "no
/// command"; otherwise the second argument selects the command and the
/// rest follows its grammar.
pub open spec fn cli_parse_spec(args: Seq<String>) -> Option<Cli> {
    if args.len() <= 1 {
        Some(Cli { command: None })
    } else {
        let cmd = args[1];
        let sub = if cmd@ == "init"@ {
            if args.len() >= 3 {
                init_flags_spec(
                    args,
                    3,
                    args[2],
                    false,
                    default_repo_url_spec(),
                )
            } else {
                None
            }
        } else if cmd@ == "new"@ {
            if args.len() == 4 && args[2]@ == "scene"@ {
                Some(Command::New { kind: NewKind::Scene { name: args[3] } })
            } else {
                None
            }
        } else if cmd@ == "run"@ {
            if args.len() == 3 {
                Some(Command::Run { file: args[2] })
            } else {
                None
            }
        } else if cmd@ == "build"@ {
            if args.len() >= 3 {
                if args[2]@ == "backend"@ {
                    if args.len() == 4 {
                        Some(Command::Build { target: BuildTarget::Backend { name: args[3] } })
                    } else {
                        None
                    }
                } else if args[2]@ == "desktop"@ {
                    if args.len() >= 4 {
                        build_desktop_flags_spec(
                            args,
                            4,
                            args[3],
                            None,
                            default_desktop_output_spec(),
                            false,
                        )
                    } else {
                        None
                    }
                } else if args[2]@ == "web"@ {
                    if args.len() >= 4 {
                        build_web_flags_spec(args, 4, args[3], default_web_output_spec(), false)
                    } else {
                        None
                    }
                } else if args[2]@ == "mobile"@ {
                    if args.len() >= 4 {
                        build_mobile_flags_spec(
                            args,
                            4,
                            args[3],
                            None,
                            default_mobile_output_spec(),
                        )
                    } else {
                        None
                    }
                } else {
                    None
                }
            } else {
                None
            }
        } else if cmd@ == "export"@ {
            if args.len() >= 3 {
                export_flags_spec(args, 3, args[2], None, ExportFormat::Orsb, false, true)
            } else {
                None
            }
        } else if cmd@ == "package"@ {
            if args.len() >= 3 {
                if args[2]@ == "desktop"@ {
                    package_desktop_flags_spec(
                        args,
                        3,
                        default_desktop_output_spec(),
                        default_dist_output_spec(),
                        None,
                    )
                } else if args[2]@ == "web"@ {
                    package_web_flags_spec(
                        args,
                        3,
                        default_web_output_spec(),
                        default_dist_web_output_spec(),
                    )
                } else {
                    None
                }
            } else {
                None
            }
        } else if cmd@ == "test"@ {
            if args.len() == 2 {
                Some(Command::Test)
            } else {
                None
            }
        } else {
            None
        };
        match sub {
            Some(c) => Some(Cli { command: Some(c) }),
            None => None,
        }
    }
}

/// Some string value whose characters spell the default repository URL.
pub open spec fn default_repo_url_spec() -> String {
    choose|s: String| #[trigger] s.view() == "https://github.com/sinisterMage/Open-Reality.git"@
}

/// Some string value spelling the default desktop build directory.
pub open spec fn default_desktop_output_spec() -> String {
    choose|s: String| #[trigger] s.view() == "build/desktop"@
}

/// Some string value spelling the default web build directory.
pub open spec fn default_web_output_spec() -> String {
    choose|s: String| #[trigger] s.view() == "build/web"@
}

/// Some string value spelling the default mobile build directory.
pub open spec fn default_mobile_output_spec() -> String {
    choose|s: String| #[trigger] s.view() == "build/mobile"@
}

/// Some string value spelling the default distribution directory.
pub open spec fn default_dist_output_spec() -> String {
    choose|s: String| #[trigger] s.view() == "dist"@
}

/// Some string value spelling the default web distribution directory.
pub open spec fn default_dist_web_output_spec() -> String {
    choose|s: String| #[trigger] s.view() == "dist/web"@
}


/// Whether `init` flag parsing succeeds depends only on the arguments,
/// not on the accumulated field values.
proof fn lemma_init_flags_shape(
    args: Seq<String>,
    i: int,
    n1: String,
    e1: bool,
    u1: String,
    n2: String,
    e2: bool,
    u2: String,
)
    ensures
        (init_flags_spec(args, i, n1, e1, u1) is Some) == (init_flags_spec(args, i, n2, e2, u2)
            is Some),
    decreases args.len() - i,
{
    if i < args.len() {
        if args[i]@ == "--engine-dev"@ {
            lemma_init_flags_shape(args, i + 1, n1, true, u1, n2, true, u2);
        } else if args[i]@ == "--repo-url"@ {
            if i + 1 < args.len() {
                lemma_init_flags_shape(args, i + 2, n1, e1, args[i + 1], n2, e2, args[i + 1]);
            }
        }
    }
}

/// Whether `build desktop` flag parsing succeeds depends only on the
/// arguments.
proof fn lemma_build_desktop_flags_shape(
    args: Seq<String>,
    i: int,
    e1: String,
    p1: Option<DesktopPlatform>,
    o1: String,
    r1: bool,
    e2: String,
    p2: Option<DesktopPlatform>,
    o2: String,
    r2: bool,
)
    ensures
        (build_desktop_flags_spec(args, i, e1, p1, o1, r1) is Some) == (build_desktop_flags_spec(
            args,
            i,
            e2,
            p2,
            o2,
            r2,
        ) is Some),
    decreases args.len() - i,
{
    if i < args.len() {
        if args[i]@ == "--release"@ {
            lemma_build_desktop_flags_shape(args, i + 1, e1, p1, o1, true, e2, p2, o2, true);
        } else if args[i]@ == "-p"@ || args[i]@ == "--platform"@ {
            if i + 1 < args.len() && desktop_platform_spec(args[i + 1]@) is Some {
                lemma_build_desktop_flags_shape(
                    args,
                    i + 2,
                    e1,
                    desktop_platform_spec(args[i + 1]@),
                    o1,
                    r1,
                    e2,
                    desktop_platform_spec(args[i + 1]@),
                    o2,
                    r2,
                );
            }
        } else if args[i]@ == "-o"@ || args[i]@ == "--output"@ {
            if i + 1 < args.len() {
                lemma_build_desktop_flags_shape(
                    args,
                    i + 2,
                    e1,
                    p1,
                    args[i + 1],
                    r1,
                    e2,
                    p2,
                    args[i + 1],
                    r2,
                );
            }
        }
    }
}

/// Whether `build web` flag parsing succeeds depends only on the
/// arguments.
proof fn lemma_build_web_flags_shape(
    args: Seq<String>,
    i: int,
    s1: String,
    o1: String,
    r1: bool,
    s2: String,
    o2: String,
    r2: bool,
)
    ensures
        (build_web_flags_spec(args, i, s1, o1, r1) is Some) == (build_web_flags_spec(
            args,
            i,
            s2,
            o2,
            r2,
        ) is Some),
    decreases args.len() - i,
{
    if i < args.len() {
        if args[i]@ == "--release"@ {
            lemma_build_web_flags_shape(args, i + 1, s1, o1, true, s2, o2, true);
        } else if args[i]@ == "-o"@ || args[i]@ == "--output"@ {
            if i + 1 < args.len() {
                lemma_build_web_flags_shape(args, i + 2, s1, args[i + 1], r1, s2, args[i + 1], r2);
            }
        }
    }
}

/// Whether `build mobile` flag parsing succeeds depends only on the
/// arguments and on whether a platform has been seen yet.
proof fn lemma_build_mobile_flags_shape(
    args: Seq<String>,
    i: int,
    s1: String,
    p1: Option<MobilePlatform>,
    o1: String,
    s2: String,
    p2: Option<MobilePlatform>,
    o2: String,
)
    requires
        (p1 is Some) == (p2 is Some),
    ensures
        (build_mobile_flags_spec(args, i, s1, p1, o1) is Some) == (build_mobile_flags_spec(
            args,
            i,
            s2,
            p2,
            o2,
        ) is Some),
    decreases args.len() - i,
{
    if i < args.len() {
        if args[i]@ == "-p"@ || args[i]@ == "--platform"@ {
            if i + 1 < args.len() && mobile_platform_spec(args[i + 1]@) is Some {
                lemma_build_mobile_flags_shape(
                    args,
                    i + 2,
                    s1,
                    mobile_platform_spec(args[i + 1]@),
                    o1,
                    s2,
                    mobile_platform_spec(args[i + 1]@),
                    o2,
                );
            }
        } else if args[i]@ == "-o"@ || args[i]@ == "--output"@ {
            if i + 1 < args.len() {
                lemma_build_mobile_flags_shape(args, i + 2, s1, p1, args[i + 1], s2, p2, args[i + 1]);
            }
        }
    }
}

/// Whether `export` flag parsing succeeds depends only on the arguments
/// and on whether an output has been seen yet.
proof fn lemma_export_flags_shape(
    args: Seq<String>,
    i: int,
    s1: String,
    o1: Option<String>,
    f1: ExportFormat,
    ph1: bool,
    c1: bool,
    s2: String,
    o2: Option<String>,
    f2: ExportFormat,
    ph2: bool,
    c2: bool,
)
    requires
        (o1 is Some) == (o2 is Some),
    ensures
        (export_flags_spec(args, i, s1, o1, f1, ph1, c1) is Some) == (export_flags_spec(
            args,
            i,
            s2,
            o2,
            f2,
            ph2,
            c2,
        ) is Some),
    decreases args.len() - i,
{
    if i < args.len() {
        if args[i]@ == "--physics"@ {
            lemma_export_flags_shape(args, i + 1, s1, o1, f1, true, c1, s2, o2, f2, true, c2);
        } else if args[i]@ == "--compress-textures"@ {
            lemma_export_flags_shape(args, i + 1, s1, o1, f1, ph1, true, s2, o2, f2, ph2, true);
        } else if args[i]@ == "-o"@ || args[i]@ == "--output"@ {
            if i + 1 < args.len() {
                lemma_export_flags_shape(
                    args,
                    i + 2,
                    s1,
                    Some(args[i + 1]),
                    f1,
                    ph1,
                    c1,
                    s2,
                    Some(args[i + 1]),
                    f2,
                    ph2,
                    c2,
                );
            }
        } else if args[i]@ == "-f"@ || args[i]@ == "--format"@ {
            if i + 1 < args.len() && (args[i + 1]@ == "orsb"@ || args[i + 1]@ == "gltf"@) {
                let g1 = if args[i + 1]@ == "gltf"@ {
                    ExportFormat::Gltf
                } else {
                    ExportFormat::Orsb
                };
                lemma_export_flags_shape(args, i + 2, s1, o1, g1, ph1, c1, s2, o2, g1, ph2, c2);
            }
        }
    }
}

/// Whether `package desktop` flag parsing succeeds depends only on the
/// arguments.
proof fn lemma_package_desktop_flags_shape(
    args: Seq<String>,
    i: int,
    b1: String,
    o1: String,
    p1: Option<DesktopPlatform>,
    b2: String,
    o2: String,
    p2: Option<DesktopPlatform>,
)
    ensures
        (package_desktop_flags_spec(args, i, b1, o1, p1) is Some) == (package_desktop_flags_spec(
            args,
            i,
            b2,
            o2,
            p2,
        ) is Some),
    decreases args.len() - i,
{
    if i < args.len() {
        if args[i]@ == "-b"@ || args[i]@ == "--build-dir"@ {
            if i + 1 < args.len() {
                lemma_package_desktop_flags_shape(
                    args,
                    i + 2,
                    args[i + 1],
                    o1,
                    p1,
                    args[i + 1],
                    o2,
                    p2,
                );
            }
        } else if args[i]@ == "-o"@ || args[i]@ == "--output"@ {
            if i + 1 < args.len() {
                lemma_package_desktop_flags_shape(
                    args,
                    i + 2,
                    b1,
                    args[i + 1],
                    p1,
                    b2,
                    args[i + 1],
                    p2,
                );
            }
        } else if args[i]@ == "-p"@ || args[i]@ == "--platform"@ {
            if i + 1 < args.len() && desktop_platform_spec(args[i + 1]@) is Some {
                lemma_package_desktop_flags_shape(
                    args,
                    i + 2,
                    b1,
                    o1,
                    desktop_platform_spec(args[i + 1]@),
                    b2,
                    o2,
                    desktop_platform_spec(args[i + 1]@),
                );
            }
        }
    }
}

/// Whether `package web` flag parsing succeeds depends only on the
/// arguments.
proof fn lemma_package_web_flags_shape(
    args: Seq<String>,
    i: int,
    b1: String,
    o1: String,
    b2: String,
    o2: String,
)
    ensures
        (package_web_flags_spec(args, i, b1, o1) is Some) == (package_web_flags_spec(
            args,
            i,
            b2,
            o2,
        ) is Some),
    decreases args.len() - i,
{
    if i < args.len() {
        if args[i]@ == "-b"@ || args[i]@ == "--build-dir"@ {
            if i + 1 < args.len() {
                lemma_package_web_flags_shape(args, i + 2, args[i + 1], o1, args[i + 1], o2);
            }
        } else if args[i]@ == "-o"@ || args[i]@ == "--output"@ {
            if i + 1 < args.len() {
                lemma_package_web_flags_shape(args, i + 2, b1, args[i + 1], b2, args[i + 1]);
            }
        }
    }
}


/// A successful `init` parse carries its name accumulator through.
proof fn lemma_init_flags_name(args: Seq<String>, i: int, name: String, e: bool, u: String)
    ensures
        init_flags_spec(args, i, name, e, u) matches Some(cmd) ==> (cmd matches Command::Init {
            name: n2,
            ..
        } && n2 == name),
    decreases args.len() - i,
{
    if i < args.len() {
        if args[i]@ == "--engine-dev"@ {
            lemma_init_flags_name(args, i + 1, name, true, u);
        } else if args[i]@ == "--repo-url"@ {
            if i + 1 < args.len() {
                lemma_init_flags_name(args, i + 2, name, e, args[i + 1]);
            }
        }
    }
}

impl Cli {
    /// Parse an argument vector (program name first). Exactly the
    /// invocations `cli_parse_spec` accepts parse successfully, to the
    /// command it gives, up to the character content of defaulted
    /// string fields.
    pub fn try_parse_from(args: &Vec<String>) -> (r: Result<Cli, String>)
        ensures
            (r is Ok) == (cli_parse_spec(args@) is Some),
            args@.len() <= 1 ==> (r matches Ok(c) && c.command is None),
            args@.len() == 3 && args@[1]@ == "run"@ ==> (r matches Ok(c) && c.command matches Some(
                cmd,
            ) && cmd matches Command::Run { file } && file == args@[2]),
            args@.len() == 2 && args@[1]@ == "test"@ ==> (r matches Ok(c) && c.command matches Some(
                cmd,
            ) && cmd is Test),
            args@.len() == 4 && args@[1]@ == "build"@ && args@[2]@ == "backend"@ ==> (r matches Ok(
                c,
            ) && c.command matches Some(cmd) && cmd matches Command::Build { target }
                && target matches BuildTarget::Backend { name } && name == args@[3]),
            args@.len() == 4 && args@[1]@ == "new"@ && args@[2]@ == "scene"@ ==> (r matches Ok(c)
                && c.command matches Some(cmd) && cmd matches Command::New { kind }
                && kind matches NewKind::Scene { name } && name == args@[3]),
            args@.len() >= 3 && args@[1]@ == "init"@ && (r matches Ok(_)) ==> (r matches Ok(c)
                && c.command matches Some(cmd) && cmd matches Command::Init { name, .. } && name
                == args@[2]),
    {
        proof {
            reveal_strlit("init");
            reveal_strlit("new");
            reveal_strlit("run");
            reveal_strlit("build");
            reveal_strlit("export");
            reveal_strlit("package");
            reveal_strlit("test");
            reveal_strlit("backend");
            reveal_strlit("desktop");
            reveal_strlit("web");
            reveal_strlit("mobile");
            reveal_strlit("scene");
            assert("run"@ != "new"@) by {
                assert("run"@[0] == 'r');
                assert("new"@[0] == 'n');
            }
            assert("test"@ != "init"@) by {
                assert("test"@[0] == 't');
                assert("init"@[0] == 'i');
            }
            assert("test"@.len() == 4);
            assert("run"@.len() == 3);
            assert("new"@.len() == 3);
            assert("init"@.len() == 4);
            assert("build"@.len() == 5);
            assert("export"@.len() == 6);
            assert("package"@.len() == 7);
            assert("scene"@.len() == 5);
            assert("backend"@.len() == 7);
        }
        if args.len() <= 1 {
            return Ok(Cli { command: None });
        }
        let cmd = &args[1];
        let sub: Option<Command> = if is_lit(cmd, "init") {
            if args.len() >= 3 {
                let name = args[2].clone();
                let repo = String::from_str("https://github.com/sinisterMage/Open-Reality.git");
                let sub0 = parse_init_flags(args, 3, name, false, repo);
                proof {
                    lemma_init_flags_shape(
                        args@,
                        3,
                        name,
                        false,
                        repo,
                        args@[2],
                        false,
                        default_repo_url_spec(),
                    );
                    lemma_init_flags_name(args@, 3, name, false, repo);
                }
                sub0
            } else {
                None
            }
        } else if is_lit(cmd, "new") {
            if args.len() == 4 && is_lit(&args[2], "scene") {
                Some(Command::New { kind: NewKind::Scene { name: args[3].clone() } })
            } else {
                None
            }
        } else if is_lit(cmd, "run") {
            if args.len() == 3 {
                Some(Command::Run { file: args[2].clone() })
            } else {
                None
            }
        } else if is_lit(cmd, "build") {
            if args.len() >= 3 {
                if is_lit(&args[2], "backend") {
                    if args.len() == 4 {
                        Some(Command::Build { target: BuildTarget::Backend { name: args[3].clone() } })
                    } else {
                        None
                    }
                } else if is_lit(&args[2], "desktop") {
                    if args.len() >= 4 {
                        let entry = args[3].clone();
                        let out = String::from_str("build/desktop");
                        let sub0 = parse_build_desktop_flags(args, 4, entry, None, out, false);
                        proof {
                            lemma_build_desktop_flags_shape(
                                args@,
                                4,
                                entry,
                                None,
                                out,
                                false,
                                args@[3],
                                None,
                                default_desktop_output_spec(),
                                false,
                            );
                        }
                        sub0
                    } else {
                        None
                    }
                } else if is_lit(&args[2], "web") {
                    if args.len() >= 4 {
                        let scene = args[3].clone();
                        let out = String::from_str("build/web");
                        let sub0 = parse_build_web_flags(args, 4, scene, out, false);
                        proof {
                            lemma_build_web_flags_shape(
                                args@,
                                4,
                                scene,
                                out,
                                false,
                                args@[3],
                                default_web_output_spec(),
                                false,
                            );
                        }
                        sub0
                    } else {
                        None
                    }
                } else if is_lit(&args[2], "mobile") {
                    if args.len() >= 4 {
                        let scene = args[3].clone();
                        let out = String::from_str("build/mobile");
                        let sub0 = parse_build_mobile_flags(args, 4, scene, None, out);
                        proof {
                            lemma_build_mobile_flags_shape(
                                args@,
                                4,
                                scene,
                                None,
                                out,
                                args@[3],
                                None,
                                default_mobile_output_spec(),
                            );
                        }
                        sub0
                    } else {
                        None
                    }
                } else {
                    None
                }
            } else {
                None
            }
        } else if is_lit(cmd, "export") {
            if args.len() >= 3 {
                let scene = args[2].clone();
                let sub0 = parse_export_flags(args, 3, scene, None, ExportFormat::Orsb, false, true);
                proof {
                    lemma_export_flags_shape(
                        args@,
                        3,
                        scene,
                        None,
                        ExportFormat::Orsb,
                        false,
                        true,
                        args@[2],
                        None,
                        ExportFormat::Orsb,
                        false,
                        true,
                    );
                }
                sub0
            } else {
                None
            }
        } else if is_lit(cmd, "package") {
            if args.len() >= 3 {
                if is_lit(&args[2], "desktop") {
                    let b = String::from_str("build/desktop");
                    let o = String::from_str("dist");
                    let sub0 = parse_package_desktop_flags(args, 3, b, o, None);
                    proof {
                        lemma_package_desktop_flags_shape(
                            args@,
                            3,
                            b,
                            o,
                            None,
                            default_desktop_output_spec(),
                            default_dist_output_spec(),
                            None,
                        );
                    }
                    sub0
                } else if is_lit(&args[2], "web") {
                    let b = String::from_str("build/web");
                    let o = String::from_str("dist/web");
                    let sub0 = parse_package_web_flags(args, 3, b, o);
                    proof {
                        lemma_package_web_flags_shape(
                            args@,
                            3,
                            b,
                            o,
                            default_web_output_spec(),
                            default_dist_web_output_spec(),
                        );
                    }
                    sub0
                } else {
                    None
                }
            } else {
                None
            }
        } else if is_lit(cmd, "test") {
            if args.len() == 2 {
                Some(Command::Test)
            } else {
                None
            }
        } else {
            None
        };
        match sub {
            Some(c) => Ok(Cli { command: Some(c) }),
            None => Err(String::from_str("unrecognized or malformed command line")),
        }
    }
}

} // verus!
