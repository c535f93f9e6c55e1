use hybrid_version::compiler::build_model;
use hybrid_version::compiler::BuildModel;
use hybrid_version::compiler::CompilerEnv;

#[test]
fn test_build_model_default() {
    assert_eq!(BuildModel::default(), BuildModel::Unknown);
}

#[test]
fn test_build_model_display() {
    assert_eq!(BuildModel::Unknown.to_string(), "unknown");
    assert_eq!(BuildModel::Debug.to_string(), "debug");
    assert_eq!(BuildModel::Release.to_string(), "release");
}

#[test]
fn test_build_model_func() {
    assert_eq!(build_model(true), BuildModel::Debug);
    assert_eq!(build_model(false), BuildModel::Release);
}

#[test]
fn test_compiler_env_default() {
    let env = CompilerEnv::default();
    assert_eq!(env.build_type, BuildModel::Unknown);
    assert_eq!(env.rust_toolchain, "-");
    assert_eq!(env.rust_version, "-");
    assert_eq!(env.cargo_version, "-");
}

#[test]
fn test_compiler_env_debug() {
    let debug_str = format!("{:?}", CompilerEnv::default());
    assert!(debug_str.contains("build_type"));
    assert!(debug_str.contains("rust_toolchain"));
}

#[test]
fn compiler_env_from_tool_output_trims_versions() {
    let env = CompilerEnv::from_tool_output(
        BuildModel::Release,
        Some("x86_64-unknown-linux-gnu".to_string()),
        "rustc 1.75.0 (82e1608df 2023-12-21)\n",
        "  cargo 1.75.0 (1d8b05cdd 2023-11-20)\r\n",
    );
    assert_eq!(env.build_type, BuildModel::Release);
    assert_eq!(env.rust_toolchain, "x86_64-unknown-linux-gnu");
    assert_eq!(env.rust_version, "rustc 1.75.0 (82e1608df 2023-12-21)");
    assert_eq!(env.cargo_version, "cargo 1.75.0 (1d8b05cdd 2023-11-20)");
}

#[test]
fn compiler_env_without_target_uses_dash() {
    let env = CompilerEnv::from_tool_output(BuildModel::Debug, None, "rustc", "cargo");
    assert_eq!(env.rust_toolchain, "-");
    assert_eq!(env.build_type.to_string(), "debug");
}
