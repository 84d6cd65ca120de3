use openreality::cli::{BuildTarget, Cli, Command, DesktopPlatform, MobilePlatform, parse_backend};
use openreality::state::Backend;

fn args(parts: &[&str]) -> Vec<String> {
    parts.iter().map(|s| s.to_string()).collect()
}

#[test]
fn test_cli_no_args() {
    let cli = Cli::try_parse_from(&args(&["orcli"])).unwrap();
    assert!(cli.command.is_none());
}

#[test]
fn test_cli_init() {
    let cli = Cli::try_parse_from(&args(&["orcli", "init", "myproject"])).unwrap();
    match cli.command.unwrap() {
        Command::Init { name, engine_dev, .. } => {
            assert_eq!(name, "myproject");
            assert!(!engine_dev);
        }
        _ => panic!("Expected Init command"),
    }
}

#[test]
fn test_cli_init_engine_dev() {
    let cli = Cli::try_parse_from(&args(&["orcli", "init", "myproject", "--engine-dev"])).unwrap();
    match cli.command.unwrap() {
        Command::Init { engine_dev, .. } => assert!(engine_dev),
        _ => panic!("Expected Init command"),
    }
}

#[test]
fn test_cli_run() {
    let cli = Cli::try_parse_from(&args(&["orcli", "run", "scene.jl"])).unwrap();
    match cli.command.unwrap() {
        Command::Run { file } => assert_eq!(file, "scene.jl"),
        _ => panic!("Expected Run command"),
    }
}

#[test]
fn test_cli_build_backend() {
    let cli = Cli::try_parse_from(&args(&["orcli", "build", "backend", "metal"])).unwrap();
    match cli.command.unwrap() {
        Command::Build { target: BuildTarget::Backend { name } } => {
            assert_eq!(name, "metal");
        }
        _ => panic!("Expected Build Backend command"),
    }
}

#[test]
fn test_cli_export() {
    let cli = Cli::try_parse_from(&args(&["orcli", "export", "scene.jl", "-o", "out.orsb"])).unwrap();
    match cli.command.unwrap() {
        Command::Export { scene, output, .. } => {
            assert_eq!(scene, "scene.jl");
            assert_eq!(output, "out.orsb");
        }
        _ => panic!("Expected Export command"),
    }
}

#[test]
fn test_cli_test() {
    let cli = Cli::try_parse_from(&args(&["orcli", "test"])).unwrap();
    assert!(matches!(cli.command.unwrap(), Command::Test));
}

#[test]
fn test_cli_invalid_subcommand() {
    assert!(Cli::try_parse_from(&args(&["orcli", "invalid"])).is_err());
}

#[test]
fn test_cli_init_repo_url_default_and_override() {
    let cli = Cli::try_parse_from(&args(&["orcli", "init", "p"])).unwrap();
    match cli.command.unwrap() {
        Command::Init { repo_url, .. } => {
            assert_eq!(repo_url, "https://github.com/sinisterMage/Open-Reality.git");
        }
        _ => panic!("Expected Init command"),
    }
    let cli = Cli::try_parse_from(&args(&["orcli", "init", "p", "--repo-url", "x://y"])).unwrap();
    match cli.command.unwrap() {
        Command::Init { repo_url, .. } => assert_eq!(repo_url, "x://y"),
        _ => panic!("Expected Init command"),
    }
}

#[test]
fn test_cli_build_mobile_requires_platform() {
    assert!(Cli::try_parse_from(&args(&["orcli", "build", "mobile", "s.jl"])).is_err());
    let cli = Cli::try_parse_from(&args(&["orcli", "build", "mobile", "s.jl", "-p", "android"]))
        .unwrap();
    match cli.command.unwrap() {
        Command::Build { target: BuildTarget::Mobile { platform, .. } } => {
            assert_eq!(platform, MobilePlatform::Android);
        }
        _ => panic!("Expected Build Mobile command"),
    }
}

#[test]
fn test_cli_export_requires_output() {
    assert!(Cli::try_parse_from(&args(&["orcli", "export", "scene.jl"])).is_err());
}

#[test]
fn test_parse_backend_aliases_and_case() {
    assert_eq!(parse_backend("metal").unwrap(), Backend::Metal);
    assert_eq!(parse_backend("Metal").unwrap(), Backend::Metal);
    assert_eq!(parse_backend("wgpu").unwrap(), Backend::WebGPU);
    assert_eq!(parse_backend("WEBGPU").unwrap(), Backend::WebGPU);
    assert_eq!(parse_backend("gl").unwrap(), Backend::OpenGL);
    assert_eq!(parse_backend("vk").unwrap(), Backend::Vulkan);
    assert_eq!(parse_backend("wasm-export").unwrap(), Backend::WasmExport);
    let err = parse_backend("dx12").unwrap_err();
    assert!(err.contains("dx12"));
}

#[test]
fn test_desktop_platform_labels() {
    assert_eq!(DesktopPlatform::Linux.label(), "linux");
    assert_eq!(DesktopPlatform::Macos.label(), "macos");
    assert_eq!(DesktopPlatform::Windows.label(), "windows");
    assert_eq!(MobilePlatform::Ios.label(), "ios");
}
