//! Build environment (toolchain, build type, compiler versions).
//!
//! Provides [`CompilerEnv`] for the Rust toolchain info of a build and
//! [`BuildModel`] for classifying debug/release builds.
use vstd::prelude::*;

use crate::text::string_of;
use crate::text::trim;
use crate::text::trim_str;

verus! {

broadcast use vstd::string::group_string_axioms;

/// 构建类型（Debug/Release）。
#[derive(Debug, Clone, Copy, PartialEq, Eq, Structural)]
pub enum BuildModel {
    /// Build type could not be determined.
    Unknown,
    /// Debug build (`cfg!(debug_assertions)` is true).
    Debug,
    /// Release build (`cfg!(debug_assertions)` is false).
    Release,
}

/// 根据是否开启 `debug_assertions` 返回当前构建类型。
///
/// `debug_assertions` is whether the build has `debug_assertions` on.
pub fn build_model(debug_assertions: bool) -> (r: BuildModel)
    ensures
        r == (if debug_assertions {
            BuildModel::Debug
        } else {
            BuildModel::Release
        }),
{
    if debug_assertions {
        BuildModel::Debug
    } else {
        BuildModel::Release
    }
}

impl BuildModel {
    /// The name of the build type, as it is displayed.
    pub open spec fn name(self) -> Seq<char> {
        match self {
            BuildModel::Unknown => "unknown"@,
            BuildModel::Debug => "debug"@,
            BuildModel::Release => "release"@,
        }
    }

    /// The name of the build type: `unknown`, `debug` or `release`.
    pub fn to_string(&self) -> (r: String)
        ensures
            r@ == self.name(),
    {
        match self {
            BuildModel::Unknown => string_of("unknown"),
            BuildModel::Debug => string_of("debug"),
            BuildModel::Release => string_of("release"),
        }
    }
}

impl Default for BuildModel {
    fn default() -> (r: Self)
        ensures
            r == BuildModel::Unknown,
    {
        BuildModel::Unknown
    }
}

/// 编译环境信息（工具链、rustc/cargo 版本等）。
#[derive(Debug)]
pub struct CompilerEnv {
    /// Current build type (debug/release/unknown).
    pub build_type: BuildModel,
    /// Target triple from `TARGET` environment variable.
    pub rust_toolchain: String,
    /// `rustc` version string (e.g., `"rustc 1.75.0 (82e1608df 2023-12-21)"`).
    pub rust_version: String,
    /// `cargo` version string (e.g., `"cargo 1.75.0 (1d8b05cdd 2023-11-20)"`).
    pub cargo_version: String,
}

impl CompilerEnv {
    /// The environment of a build of type `build_type` for the target
    /// `target` (`-` when unknown), from what `rustc -V` and `cargo -V`
    /// printed, each trimmed.
    pub fn from_tool_output(
        build_type: BuildModel,
        target: Option<String>,
        rustc_output: &str,
        cargo_output: &str,
    ) -> (r: CompilerEnv)
        ensures
            r.build_type == build_type,
            r.rust_toolchain@ == (match target {
                Some(t) => t@,
                None => "-"@,
            }),
            r.rust_version@ == trim(rustc_output@),
            r.cargo_version@ == trim(cargo_output@),
    {
        let rust_toolchain = match target {
            Some(t) => t,
            None => string_of("-"),
        };
        CompilerEnv {
            build_type,
            rust_toolchain,
            rust_version: string_of(trim_str(rustc_output)),
            cargo_version: string_of(trim_str(cargo_output)),
        }
    }
}

impl Default for CompilerEnv {
    fn default() -> (r: Self)
        ensures
            r.build_type == BuildModel::Unknown,
            r.rust_toolchain@ == "-"@,
            r.rust_version@ == "-"@,
            r.cargo_version@ == "-"@,
    {
        CompilerEnv {
            build_type: BuildModel::Unknown,
            rust_toolchain: string_of("-"),
            rust_version: string_of("-"),
            cargo_version: string_of("-"),
        }
    }
}

} // verus!
