//! Build configuration for compiling the native engine: which compiler
//! flags, preprocessor defines and build-system options are pushed for a
//! given platform and feature set.
//!
//! The decisions are pure functions of the platform facts handed in; the
//! actual accumulation into the C/C++ build objects goes through thin
//! trusted wrappers around the build crates, whose contracts state exactly
//! what each call appends.

use vstd::prelude::*;

verus! {

#[verifier::external_type_specification]
#[verifier::external_body]
/// The C/C++ build description of the `cc` crate.
pub struct ExCcBuild(cc::Build);

#[verifier::external_type_specification]
#[verifier::external_body]
/// The build-system configuration of the `cmake` crate.
pub struct ExCmakeConfig(cmake::Config);

/// The compiler flags a `cc::Build` holds, in order.
pub uninterp spec fn cc_flags(b: cc::Build) -> Seq<Seq<char>>;

/// The `-D` define names a `cc::Build` holds (each defined without a
/// value), in order.
pub uninterp spec fn cc_defines(b: cc::Build) -> Seq<Seq<char>>;

/// The source files a `cc::Build` holds, in order.
pub uninterp spec fn cc_files(b: cc::Build) -> Seq<Seq<char>>;

/// The language standard a `cc::Build` was last given.
pub uninterp spec fn cc_std(b: cc::Build) -> Seq<char>;

/// The `-D` key/value pairs a `cmake::Config` holds, in order.
pub uninterp spec fn cmake_defines(c: cmake::Config) -> Seq<(Seq<char>, Seq<char>)>;

/// The accumulated C-compiler flag text a `cmake::Config` holds (each flag
/// appended after one space).
pub uninterp spec fn cmake_cflags(c: cmake::Config) -> Seq<char>;

/// The accumulated C++-compiler flag text a `cmake::Config` holds.
pub uninterp spec fn cmake_cxxflags(c: cmake::Config) -> Seq<char>;

/// The generator a `cmake::Config` was last given.
pub uninterp spec fn cmake_generator(c: cmake::Config) -> Seq<char>;

/// Relies on cc::Build::flag: pushes one flag onto the build's flag list
/// and changes nothing else this crate reads.
#[verifier::external_body]
fn cc_flag(b: &mut cc::Build, flag: &str)
    ensures
        cc_flags(*final(b)) == cc_flags(*old(b)).push(flag@),
        cc_defines(*final(b)) == cc_defines(*old(b)),
        cc_files(*final(b)) == cc_files(*old(b)),
        cc_std(*final(b)) == cc_std(*old(b)),
{
    b.flag(flag);
}

/// Relies on cc::Build::define with no value: pushes one definition onto
/// the build's define list and changes nothing else this crate reads.
#[verifier::external_body]
fn cc_define(b: &mut cc::Build, var: &str)
    ensures
        cc_defines(*final(b)) == cc_defines(*old(b)).push(var@),
        cc_flags(*final(b)) == cc_flags(*old(b)),
        cc_files(*final(b)) == cc_files(*old(b)),
        cc_std(*final(b)) == cc_std(*old(b)),
{
    b.define(var, None);
}

/// Relies on cc::Build::file: pushes one source file and changes nothing
/// else this crate reads.
#[verifier::external_body]
fn cc_file(b: &mut cc::Build, path: &str)
    ensures
        cc_files(*final(b)) == cc_files(*old(b)).push(path@),
        cc_flags(*final(b)) == cc_flags(*old(b)),
        cc_defines(*final(b)) == cc_defines(*old(b)),
        cc_std(*final(b)) == cc_std(*old(b)),
{
    b.file(path);
}

/// Relies on cc::Build::std: records the language standard and changes
/// nothing else this crate reads.
#[verifier::external_body]
fn cc_set_std(b: &mut cc::Build, std_name: &str)
    ensures
        cc_std(*final(b)) == std_name@,
        cc_flags(*final(b)) == cc_flags(*old(b)),
        cc_defines(*final(b)) == cc_defines(*old(b)),
        cc_files(*final(b)) == cc_files(*old(b)),
{
    b.std(std_name);
}

/// Relies on cmake::Config::define: pushes one key/value define and
/// changes nothing else this crate reads.
#[verifier::external_body]
fn cmake_define(c: &mut cmake::Config, k: &str, v: &str)
    ensures
        cmake_defines(*final(c)) == cmake_defines(*old(c)).push((k@, v@)),
        cmake_cflags(*final(c)) == cmake_cflags(*old(c)),
        cmake_cxxflags(*final(c)) == cmake_cxxflags(*old(c)),
        cmake_generator(*final(c)) == cmake_generator(*old(c)),
{
    c.define(k, v);
}

/// Relies on cmake::Config::cflag: appends one space and the flag to the
/// C-compiler flag text and changes nothing else this crate reads.
#[verifier::external_body]
fn cmake_cflag(c: &mut cmake::Config, flag: &str)
    ensures
        cmake_cflags(*final(c)) == cmake_cflags(*old(c)) + seq![' '] + flag@,
        cmake_defines(*final(c)) == cmake_defines(*old(c)),
        cmake_cxxflags(*final(c)) == cmake_cxxflags(*old(c)),
        cmake_generator(*final(c)) == cmake_generator(*old(c)),
{
    c.cflag(flag);
}

/// Relies on cmake::Config::cxxflag: appends one space and the flag to the
/// C++-compiler flag text and changes nothing else this crate reads.
#[verifier::external_body]
fn cmake_cxxflag(c: &mut cmake::Config, flag: &str)
    ensures
        cmake_cxxflags(*final(c)) == cmake_cxxflags(*old(c)) + seq![' '] + flag@,
        cmake_defines(*final(c)) == cmake_defines(*old(c)),
        cmake_cflags(*final(c)) == cmake_cflags(*old(c)),
        cmake_generator(*final(c)) == cmake_generator(*old(c)),
{
    c.cxxflag(flag);
}

/// Relies on cmake::Config::generator: records the build-tool generator
/// and changes nothing else this crate reads.
#[verifier::external_body]
fn cmake_set_generator(c: &mut cmake::Config, generator: &str)
    ensures
        cmake_generator(*final(c)) == generator@,
        cmake_defines(*final(c)) == cmake_defines(*old(c)),
        cmake_cflags(*final(c)) == cmake_cflags(*old(c)),
        cmake_cxxflags(*final(c)) == cmake_cxxflags(*old(c)),
{
    c.generator(generator);
}

/// The platform facts and detected-or-forced CPU features that decide the
/// architecture flags.
#[derive(Copy, Clone, Debug, PartialEq, Eq, Structural)]
pub struct ArchOptions {
    /// Targeting a 32- or 64-bit x86 machine.
    pub x86: bool,
    /// The `native` build feature on a Linux target.
    pub linux_native: bool,
    /// Unix target family.
    pub unix: bool,
    /// Windows target family.
    pub windows: bool,
    /// Fused multiply-add available (applied on unix).
    pub fma: bool,
    /// Half-precision conversions available (applied on unix).
    pub f16c: bool,
    pub avx512f: bool,
    pub avx512bw: bool,
    pub avx512vbmi: bool,
    pub avx512vnni: bool,
    pub avx2: bool,
    pub avx: bool,
}

/// The always-first architecture flags: native tuning and the unix
/// FMA/F16C switches.
#[verifier::opaque]
pub open spec fn seg_base_flags(o: ArchOptions) -> Seq<Seq<char>> {
    (if o.linux_native {
        seq!["-march=native"@]
    } else {
        Seq::<Seq<char>>::empty()
    }) + (if o.fma && o.unix {
        seq!["-mfma"@]
    } else {
        Seq::<Seq<char>>::empty()
    }) + (if o.f16c && o.unix {
        seq!["-mf16c"@]
    } else {
        Seq::<Seq<char>>::empty()
    })
}

/// The unix AVX-family flags.
#[verifier::opaque]
pub open spec fn seg_unix_flags(o: ArchOptions) -> Seq<Seq<char>> {
    (if o.avx512f {
        seq!["-mavx512f"@] + (if o.avx512bw {
            seq!["-mavx512bw"@]
        } else {
            Seq::<Seq<char>>::empty()
        }) + (if o.avx512vbmi {
            seq!["-mavx512vbmi"@]
        } else {
            Seq::<Seq<char>>::empty()
        }) + (if o.avx512vnni {
            seq!["-mavx512vnni"@]
        } else {
            Seq::<Seq<char>>::empty()
        })
    } else {
        Seq::<Seq<char>>::empty()
    }) + (if o.avx2 {
        seq!["-mavx2"@]
    } else {
        Seq::<Seq<char>>::empty()
    }) + (if o.avx {
        seq!["-mavx"@]
    } else {
        Seq::<Seq<char>>::empty()
    })
}

/// The Windows architecture flag: the strongest available vector set.
#[verifier::opaque]
pub open spec fn seg_win_flags(o: ArchOptions) -> Seq<Seq<char>> {
    if o.avx512f {
        seq!["/arch:AVX512"@]
    } else if o.avx2 {
        seq!["/arch:AVX2"@]
    } else if o.avx {
        seq!["/arch:AVX"@]
    } else {
        Seq::<Seq<char>>::empty()
    }
}

/// The Windows AVX-512 sub-feature definitions.
#[verifier::opaque]
pub open spec fn seg_win_defines(o: ArchOptions) -> Seq<Seq<char>> {
    if o.avx512f {
        (if o.avx512vbmi {
            seq!["__AVX512VBMI__"@]
        } else {
            Seq::<Seq<char>>::empty()
        }) + (if o.avx512vnni {
            seq!["__AVX512VNNI__"@]
        } else {
            Seq::<Seq<char>>::empty()
        })
    } else {
        Seq::<Seq<char>>::empty()
    }
}

/// The compiler flags pushed for these architecture options, in order.
pub open spec fn spec_arch_flags(o: ArchOptions) -> Seq<Seq<char>> {
    if !o.x86 {
        Seq::<Seq<char>>::empty()
    } else {
        seg_base_flags(o) + (if o.unix {
            seg_unix_flags(o)
        } else if o.windows {
            seg_win_flags(o)
        } else {
            Seq::<Seq<char>>::empty()
        })
    }
}

/// The preprocessor defines pushed for these architecture options (the
/// AVX-512 sub-features are spelled as defines on Windows).
pub open spec fn spec_arch_defines(o: ArchOptions) -> Seq<Seq<char>> {
    if o.x86 && !o.unix && o.windows {
        seg_win_defines(o)
    } else {
        Seq::<Seq<char>>::empty()
    }
}

/// Push the base flags (executable twin of `seg_base_flags`).
fn push_base_flags(b: &mut cc::Build, o: &ArchOptions)
    ensures
        cc_flags(*final(b)) == cc_flags(*old(b)) + seg_base_flags(*o),
        cc_defines(*final(b)) == cc_defines(*old(b)),
        cc_files(*final(b)) == cc_files(*old(b)),
        cc_std(*final(b)) == cc_std(*old(b)),
{
    if o.linux_native {
        cc_flag(b, "-march=native");
    }
    if o.fma && o.unix {
        cc_flag(b, "-mfma");
    }
    if o.f16c && o.unix {
        cc_flag(b, "-mf16c");
    }
    proof {
        reveal(seg_base_flags);
        assert(cc_flags(*b) =~= cc_flags(*old(b)) + seg_base_flags(*o));
    }
}

/// Push the unix AVX-family flags (executable twin of `seg_unix_flags`).
fn push_unix_flags(b: &mut cc::Build, o: &ArchOptions)
    ensures
        cc_flags(*final(b)) == cc_flags(*old(b)) + seg_unix_flags(*o),
        cc_defines(*final(b)) == cc_defines(*old(b)),
        cc_files(*final(b)) == cc_files(*old(b)),
        cc_std(*final(b)) == cc_std(*old(b)),
{
    if o.avx512f {
        cc_flag(b, "-mavx512f");
        if o.avx512bw {
            cc_flag(b, "-mavx512bw");
        }
        if o.avx512vbmi {
            cc_flag(b, "-mavx512vbmi");
        }
        if o.avx512vnni {
            cc_flag(b, "-mavx512vnni");
        }
    }
    if o.avx2 {
        cc_flag(b, "-mavx2");
    }
    if o.avx {
        cc_flag(b, "-mavx");
    }
    proof {
        reveal(seg_unix_flags);
        assert(cc_flags(*b) =~= cc_flags(*old(b)) + seg_unix_flags(*o));
    }
}

/// Push the Windows architecture flag and defines (executable twin of
/// `seg_win_flags` and `seg_win_defines`).
fn push_win_flags(b: &mut cc::Build, o: &ArchOptions)
    ensures
        cc_flags(*final(b)) == cc_flags(*old(b)) + seg_win_flags(*o),
        cc_defines(*final(b)) == cc_defines(*old(b)) + seg_win_defines(*o),
        cc_files(*final(b)) == cc_files(*old(b)),
        cc_std(*final(b)) == cc_std(*old(b)),
{
    if o.avx512f {
        cc_flag(b, "/arch:AVX512");
        if o.avx512vbmi {
            cc_define(b, "__AVX512VBMI__");
        }
        if o.avx512vnni {
            cc_define(b, "__AVX512VNNI__");
        }
    } else if o.avx2 {
        cc_flag(b, "/arch:AVX2");
    } else if o.avx {
        cc_flag(b, "/arch:AVX");
    }
    proof {
        reveal(seg_win_flags);
        reveal(seg_win_defines);
        assert(cc_flags(*b) =~= cc_flags(*old(b)) + seg_win_flags(*o));
        assert(cc_defines(*b) =~= cc_defines(*old(b)) + seg_win_defines(*o));
    }
}

/// Push the architecture flags and definitions onto one compiler build,
/// exactly as `spec_arch_flags` and `spec_arch_defines` describe.
fn push_arch_flags_one(b: &mut cc::Build, o: &ArchOptions)
    ensures
        cc_flags(*final(b)) == cc_flags(*old(b)) + spec_arch_flags(*o),
        cc_defines(*final(b)) == cc_defines(*old(b)) + spec_arch_defines(*o),
        cc_files(*final(b)) == cc_files(*old(b)),
        cc_std(*final(b)) == cc_std(*old(b)),
{
    if o.x86 {
        push_base_flags(b, o);
        if o.unix {
            push_unix_flags(b, o);
        } else if o.windows {
            push_win_flags(b, o);
        }
    }
    proof {
        assert(cc_flags(*b) =~= cc_flags(*old(b)) + spec_arch_flags(*o));
        assert(cc_defines(*b) =~= cc_defines(*old(b)) + spec_arch_defines(*o));
    }
}

/// Push one define when the switch is on.
fn cmake_define_if(c: &mut cmake::Config, cond: bool, k: &str, v: &str)
    ensures
        cmake_defines(*final(c)) == app_def(cmake_defines(*old(c)), cond, k@, v@),
        cmake_cflags(*final(c)) == cmake_cflags(*old(c)),
        cmake_cxxflags(*final(c)) == cmake_cxxflags(*old(c)),
        cmake_generator(*final(c)) == cmake_generator(*old(c)),
{
    if cond {
        cmake_define(c, k, v);
    }
}

/// Push the platform-appropriate architecture flags and definitions onto
/// both compiler builds, exactly as `spec_arch_flags` and
/// `spec_arch_defines` describe.
pub fn push_feature_flags(cx: &mut cc::Build, cxx: &mut cc::Build, o: &ArchOptions)
    ensures
        cc_flags(*final(cx)) == cc_flags(*old(cx)) + spec_arch_flags(*o),
        cc_defines(*final(cx)) == cc_defines(*old(cx)) + spec_arch_defines(*o),
        cc_flags(*final(cxx)) == cc_flags(*old(cxx)) + spec_arch_flags(*o),
        cc_defines(*final(cxx)) == cc_defines(*old(cxx)) + spec_arch_defines(*o),
        cc_files(*final(cx)) == cc_files(*old(cx)),
        cc_std(*final(cx)) == cc_std(*old(cx)),
        cc_files(*final(cxx)) == cc_files(*old(cxx)),
        cc_std(*final(cxx)) == cc_std(*old(cxx)),
{
    push_arch_flags_one(cx, o);
    push_arch_flags_one(cxx, o);
}

/// The feature switches and platform facts that decide the build-system
/// configuration of the native engine.
#[derive(Copy, Clone, Debug, PartialEq, Eq, Structural)]
pub struct BuildOptions {
    /// Building on Windows.
    pub windows: bool,
    /// A release build (assertions disabled).
    pub release: bool,
    /// Building for x86-64 macOS.
    pub macos_x86_64: bool,
    pub kompute: bool,
    pub rpc: bool,
    pub opencl: bool,
    pub sycl_f16: bool,
    pub sycl_f32: bool,
    pub cpu_hbm: bool,
    pub cpu_aarch64: bool,
    pub avx: bool,
    pub avx_vnni: bool,
    pub avx2: bool,
    pub avx512: bool,
    pub avx512_vbmi: bool,
    pub avx512_vnni: bool,
    pub avx512_bf16: bool,
    pub fma: bool,
    pub f16c: bool,
    pub amx_tile: bool,
    pub amx_int8: bool,
    pub amx_bf16: bool,
    pub lasx: bool,
    pub lsx: bool,
    pub rvv: bool,
}

/// Whether the build uses the SYCL toolchain (Windows only).
pub open spec fn spec_uses_sycl(o: BuildOptions) -> bool {
    o.windows && (o.sycl_f16 || o.sycl_f32)
}

/// The defines extended by one entry when the switch is on.
pub open spec fn app_def(
    prior: Seq<(Seq<char>, Seq<char>)>,
    cond: bool,
    k: Seq<char>,
    v: Seq<char>,
) -> Seq<(Seq<char>, Seq<char>)> {
    if cond {
        prior.push((k, v))
    } else {
        prior
    }
}

/// A flag text extended by one space and one flag.
pub open spec fn app_flag(t: Seq<char>, f: Seq<char>) -> Seq<char> {
    t + seq![' '] + f
}

/// The leading build-system defines: example programs, platform back-end
/// switches, and the SYCL toolchain group.
#[verifier::opaque]
pub open spec fn spec_head_defines(prior: Seq<(Seq<char>, Seq<char>)>, o: BuildOptions) -> Seq<
    (Seq<char>, Seq<char>),
> {
    let d = app_def(prior, true, "LLAMA_BUILD_EXAMPLES"@, "ON"@);
    let d = app_def(d, o.macos_x86_64, "GGML_OPENMP"@, "OFF"@);
    let d = app_def(d, o.macos_x86_64, "GGML_METAL"@, "OFF"@);
    let d = app_def(d, o.macos_x86_64, "GGML_METAL_EMBED_LIBRARY"@, "OFF"@);
    let d = app_def(d, o.kompute, "GGML_KOMPUTE"@, "ON"@);
    let d = app_def(d, o.rpc, "GGML_RPC"@, "ON"@);
    let d = app_def(d, o.opencl, "GGML_OPENCL"@, "ON"@);
    let d = app_def(d, spec_uses_sycl(o), "GGML_SYCL"@, "ON"@);
    let d = app_def(d, spec_uses_sycl(o), "CMAKE_C_COMPILER"@, "cl"@);
    let d = app_def(d, spec_uses_sycl(o), "CMAKE_CXX_COMPILER"@, "icx"@);
    app_def(d, spec_uses_sycl(o) && o.sycl_f16, "GGML_SYCL_F16"@, "ON"@)
}

/// The trailing build-system defines: the CPU feature switches.
#[verifier::opaque]
pub open spec fn spec_cpu_defines(prior: Seq<(Seq<char>, Seq<char>)>, o: BuildOptions) -> Seq<
    (Seq<char>, Seq<char>),
> {
    let d = app_def(prior, o.cpu_hbm, "GGML_CPU_HBM"@, "ON"@);
    let d = app_def(d, o.cpu_aarch64, "GGML_CPU_AARCH64"@, "ON"@);
    let d = app_def(d, o.avx, "GGML_AVX"@, "ON"@);
    let d = app_def(d, o.avx_vnni, "GGML_AVX_VNNI"@, "ON"@);
    let d = app_def(d, o.avx2, "GGML_AVX2"@, "ON"@);
    let d = app_def(d, o.avx512, "GGML_AVX512"@, "ON"@);
    let d = app_def(d, o.avx512_vbmi, "GGML_AVX512_VBMI"@, "ON"@);
    let d = app_def(d, o.avx512_vnni, "GGML_AVX512_VNNI"@, "ON"@);
    let d = app_def(d, o.avx512_bf16, "GGML_AVX512_BF16"@, "ON"@);
    let d = app_def(d, o.fma, "GGML_FMA"@, "ON"@);
    let d = app_def(d, o.f16c, "GGML_F16C"@, "ON"@);
    let d = app_def(d, o.amx_tile, "GGML_AMX_TILE"@, "ON"@);
    let d = app_def(d, o.amx_int8, "GGML_AMX_INT8"@, "ON"@);
    let d = app_def(d, o.amx_bf16, "GGML_AMX_BF16"@, "ON"@);
    let d = app_def(d, o.lasx, "GGML_LASX"@, "ON"@);
    let d = app_def(d, o.lsx, "GGML_LSX"@, "ON"@);
    app_def(d, o.rvv, "GGML_RVV"@, "ON"@)
}

/// The build-system defines after configuration, in push order, starting
/// from whatever the configuration already held.
pub open spec fn spec_pre_defines(prior: Seq<(Seq<char>, Seq<char>)>, o: BuildOptions) -> Seq<
    (Seq<char>, Seq<char>),
> {
    spec_cpu_defines(spec_head_defines(prior, o), o)
}

/// Push the CPU feature defines (executable twin of `spec_cpu_defines`).
#[verifier::rlimit(100)]
fn push_cpu_defines(config: &mut cmake::Config, o: &BuildOptions)
    ensures
        cmake_defines(*final(config)) == spec_cpu_defines(cmake_defines(*old(config)), *o),
        cmake_cflags(*final(config)) == cmake_cflags(*old(config)),
        cmake_cxxflags(*final(config)) == cmake_cxxflags(*old(config)),
        cmake_generator(*final(config)) == cmake_generator(*old(config)),
{
    proof {
        reveal(spec_cpu_defines);
    }
    cmake_define_if(config, o.cpu_hbm, "GGML_CPU_HBM", "ON");
    cmake_define_if(config, o.cpu_aarch64, "GGML_CPU_AARCH64", "ON");
    cmake_define_if(config, o.avx, "GGML_AVX", "ON");
    cmake_define_if(config, o.avx_vnni, "GGML_AVX_VNNI", "ON");
    cmake_define_if(config, o.avx2, "GGML_AVX2", "ON");
    cmake_define_if(config, o.avx512, "GGML_AVX512", "ON");
    cmake_define_if(config, o.avx512_vbmi, "GGML_AVX512_VBMI", "ON");
    cmake_define_if(config, o.avx512_vnni, "GGML_AVX512_VNNI", "ON");
    cmake_define_if(config, o.avx512_bf16, "GGML_AVX512_BF16", "ON");
    cmake_define_if(config, o.fma, "GGML_FMA", "ON");
    cmake_define_if(config, o.f16c, "GGML_F16C", "ON");
    cmake_define_if(config, o.amx_tile, "GGML_AMX_TILE", "ON");
    cmake_define_if(config, o.amx_int8, "GGML_AMX_INT8", "ON");
    cmake_define_if(config, o.amx_bf16, "GGML_AMX_BF16", "ON");
    cmake_define_if(config, o.lasx, "GGML_LASX", "ON");
    cmake_define_if(config, o.lsx, "GGML_LSX", "ON");
    cmake_define_if(config, o.rvv, "GGML_RVV", "ON");
}

/// The C-compiler flag text after configuration: logging is compiled out
/// of Windows release builds.
pub open spec fn spec_pre_cflags(prior: Seq<char>, o: BuildOptions) -> Seq<char> {
    if o.windows && o.release {
        app_flag(app_flag(prior, "/D NDEBUG"@), "/D LLAVA_LOG_OFF"@)
    } else {
        prior
    }
}

/// The C++-compiler flag text after configuration: the same logging
/// switches, plus the exception, warning and run-time-type flags the SYCL
/// compiler needs.
pub open spec fn spec_pre_cxxflags(prior: Seq<char>, o: BuildOptions) -> Seq<char> {
    let t = if o.windows && o.release {
        app_flag(app_flag(prior, "/D NDEBUG"@), "/D LLAVA_LOG_OFF"@)
    } else {
        prior
    };
    if spec_uses_sycl(o) {
        app_flag(app_flag(app_flag(t, "/EHsc"@), "/W3"@), "/GR"@)
    } else {
        t
    }
}

/// Configure the build system for the native engine exactly as the spec
/// functions describe: example programs on, the x86-64 macOS back-ends
/// off, the optional back-ends and CPU features as switched, and the Ninja
/// generator with the SYCL compiler flags when SYCL is used. Enabling both
/// SYCL precisions at once is rejected before this point.
#[verifier::rlimit(100)]
pub fn pre_cmake_build(config: &mut cmake::Config, o: &BuildOptions)
    requires
        !(o.windows && o.sycl_f16 && o.sycl_f32),
    ensures
        cmake_defines(*final(config)) == spec_pre_defines(cmake_defines(*old(config)), *o),
        cmake_cflags(*final(config)) == spec_pre_cflags(cmake_cflags(*old(config)), *o),
        cmake_cxxflags(*final(config)) == spec_pre_cxxflags(cmake_cxxflags(*old(config)), *o),
        spec_uses_sycl(*o) ==> cmake_generator(*final(config)) == "Ninja"@,
        !spec_uses_sycl(*o) ==> cmake_generator(*final(config)) == cmake_generator(*old(config)),
{
    if o.windows && o.release {
        cmake_cflag(config, "/D NDEBUG");
        cmake_cflag(config, "/D LLAVA_LOG_OFF");
        cmake_cxxflag(config, "/D NDEBUG");
        cmake_cxxflag(config, "/D LLAVA_LOG_OFF");
    }
    let uses_sycl = o.windows && (o.sycl_f16 || o.sycl_f32);
    if uses_sycl {
        cmake_set_generator(config, "Ninja");
        cmake_cxxflag(config, "/EHsc");
        cmake_cxxflag(config, "/W3");
        cmake_cxxflag(config, "/GR");
    }
    cmake_define_if(config, true, "LLAMA_BUILD_EXAMPLES", "ON");
    cmake_define_if(config, o.macos_x86_64, "GGML_OPENMP", "OFF");
    cmake_define_if(config, o.macos_x86_64, "GGML_METAL", "OFF");
    cmake_define_if(config, o.macos_x86_64, "GGML_METAL_EMBED_LIBRARY", "OFF");
    cmake_define_if(config, o.kompute, "GGML_KOMPUTE", "ON");
    cmake_define_if(config, o.rpc, "GGML_RPC", "ON");
    cmake_define_if(config, o.opencl, "GGML_OPENCL", "ON");
    cmake_define_if(config, uses_sycl, "GGML_SYCL", "ON");
    cmake_define_if(config, uses_sycl, "CMAKE_C_COMPILER", "cl");
    cmake_define_if(config, uses_sycl, "CMAKE_CXX_COMPILER", "icx");
    cmake_define_if(config, uses_sycl && o.sycl_f16, "GGML_SYCL_F16", "ON");
    proof {
        reveal(spec_head_defines);
        assert(cmake_defines(*config) == spec_head_defines(cmake_defines(*old(config)), *o));
    }
    push_cpu_defines(config, o);
}

/// The source files of the multimodal build, in compile order.
pub open spec fn spec_llava_files(root: Seq<char>) -> Seq<Seq<char>> {
    seq![
        root + "/examples/llava/llava.cpp"@,
        root + "/examples/llava/clip.cpp"@,
        "src/llava_sampling.cpp"@,
        "src/build-info.cpp"@,
        root + "/common/sampling.cpp"@,
        root + "/common/grammar-parser.cpp"@,
        root + "/common/json-schema-to-grammar.cpp"@,
        root + "/common/common.cpp"@,
    ]
}

/// Configure the C++ build for the multimodal sources: the C++11 standard
/// and the source files, exactly as `spec_llava_files` describes. The
/// caller supplies the engine's header directories and runs the
/// compilation itself.
pub fn compile_llava(cxx: &mut cc::Build, llama_root: &str)
    ensures
        cc_std(*final(cxx)) == "c++11"@,
        cc_files(*final(cxx)) == cc_files(*old(cxx)) + spec_llava_files(llama_root@),
        cc_flags(*final(cxx)) == cc_flags(*old(cxx)),
        cc_defines(*final(cxx)) == cc_defines(*old(cxx)),
{
    let root: String = llama_root.to_owned();
    cc_set_std(cxx, "c++11");
    cc_file(cxx, root.clone().concat("/examples/llava/llava.cpp").as_str());
    cc_file(cxx, root.clone().concat("/examples/llava/clip.cpp").as_str());
    cc_file(cxx, "src/llava_sampling.cpp");
    cc_file(cxx, "src/build-info.cpp");
    cc_file(cxx, root.clone().concat("/common/sampling.cpp").as_str());
    cc_file(cxx, root.clone().concat("/common/grammar-parser.cpp").as_str());
    cc_file(cxx, root.clone().concat("/common/json-schema-to-grammar.cpp").as_str());
    cc_file(cxx, root.concat("/common/common.cpp").as_str());
    proof {
        assert(cc_files(*cxx) =~= cc_files(*old(cxx)) + spec_llava_files(llama_root@));
    }
}

/// What to do for one file that should become a hard link of another.
#[derive(Copy, Clone, Debug, PartialEq, Eq, Structural)]
pub enum LinkAction {
    /// The source file is missing: report it.
    ErrorMissingSource,
    /// No destination yet: link it.
    Link,
    /// The destination differs (size or modification time): remove and
    /// relink.
    Replace,
    /// The destination already matches: leave it alone.
    Keep,
}

/// Decide what a safe hard-link operation does, from the two files'
/// metadata: error on a missing source, link a missing destination,
/// replace a stale one, keep a matching one.
pub fn plan_hard_link(
    src_exists: bool,
    dst_exists: bool,
    src_len: u64,
    dst_len: u64,
    same_mtime: bool,
) -> (a: LinkAction)
    ensures
        a == (if !src_exists {
            LinkAction::ErrorMissingSource
        } else if !dst_exists {
            LinkAction::Link
        } else if src_len != dst_len || !same_mtime {
            LinkAction::Replace
        } else {
            LinkAction::Keep
        }),
{
    if !src_exists {
        LinkAction::ErrorMissingSource
    } else if !dst_exists {
        LinkAction::Link
    } else if src_len != dst_len || !same_mtime {
        LinkAction::Replace
    } else {
        LinkAction::Keep
    }
}

/// Whether a configured build can be skipped: exactly when the build
/// system's cache from a previous run is already present.
pub fn use_existing_cmake_build(cache_exists: bool) -> (skip: bool)
    ensures
        skip == cache_exists,
{
    cache_exists
}

/// The glob patterns for the multimodal libraries to copy out of the build
/// tree, decided by platform and linkage.
pub open spec fn spec_llava_lib_patterns(
    build_dir: Seq<char>,
    windows: bool,
    macos: bool,
    shared: bool,
) -> Seq<Seq<char>> {
    if windows {
        (if shared {
            seq![build_dir + "/*/*llava*.dll"@]
        } else {
            Seq::<Seq<char>>::empty()
        }) + seq![build_dir + "/*/*llava*.lib"@]
    } else if macos {
        if shared {
            seq![build_dir + "/*/*llava*.dylib"@]
        } else {
            seq![build_dir + "/*/*llava*.a"@]
        }
    } else {
        if shared {
            seq![build_dir + "/*/*llava*.so"@]
        } else {
            seq![build_dir + "/*/*llava*.a"@]
        }
    }
}

/// Build the glob patterns for the multimodal libraries (executable twin
/// of `spec_llava_lib_patterns`).
pub fn llava_lib_patterns(build_dir: &str, windows: bool, macos: bool, shared: bool) -> (v: Vec<
    String,
>)
    ensures
        v@.map_values(|s: String| s@) == spec_llava_lib_patterns(
            build_dir@,
            windows,
            macos,
            shared,
        ),
{
    let dir: String = build_dir.to_owned();
    let mut v: Vec<String> = Vec::new();
    if windows {
        if shared {
            v.push(dir.clone().concat("/*/*llava*.dll"));
        }
        v.push(dir.clone().concat("/*/*llava*.lib"));
    } else if macos {
        if shared {
            v.push(dir.clone().concat("/*/*llava*.dylib"));
        } else {
            v.push(dir.clone().concat("/*/*llava*.a"));
        }
    } else {
        if shared {
            v.push(dir.clone().concat("/*/*llava*.so"));
        } else {
            v.push(dir.clone().concat("/*/*llava*.a"));
        }
    }
    proof {
        assert(v@.map_values(|s: String| s@) =~= spec_llava_lib_patterns(
            build_dir@,
            windows,
            macos,
            shared,
        ));
    }
    v
}

/// The library name to link, from a file stem: a `lib` prefix is dropped.
pub fn strip_lib_prefix(stem: &str) -> (r: String)
    ensures
        (stem@.len() >= 3 && stem@.subrange(0, 3) == "lib"@) ==> r@ == stem@.subrange(
            3,
            stem@.len() as int,
        ),
        !(stem@.len() >= 3 && stem@.subrange(0, 3) == "lib"@) ==> r@ == stem@,
{
    let n = stem.unicode_len();
    if n >= 3 {
        let is_lib = stem.get_char(0) == 'l' && stem.get_char(1) == 'i' && stem.get_char(2) == 'b';
        proof {
            reveal_strlit("lib");
            if is_lib {
                assert(stem@.subrange(0, 3) =~= "lib"@);
            } else {
                assert(stem@.subrange(0, 3) != "lib"@) by {
                    if stem@.subrange(0, 3) == "lib"@ {
                        assert(stem@.subrange(0, 3)[0] == 'l' && stem@.subrange(0, 3)[1] == 'i'
                            && stem@.subrange(0, 3)[2] == 'b');
                        assert(stem@[0] == 'l' && stem@[1] == 'i' && stem@[2] == 'b');
                    }
                }
            }
        }
        if is_lib {
            return stem.substring_char(3, n).to_owned();
        }
    }
    stem.to_owned()
}

} // verus!
