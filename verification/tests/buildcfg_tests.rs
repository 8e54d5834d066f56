//! Build-configuration decisions: the flag pushers run against the real
//! build crates, and the pure decisions produce exactly the documented
//! values.

use llama_wrap::buildcfg::{
    compile_llava, llava_lib_patterns, plan_hard_link, pre_cmake_build, push_feature_flags,
    strip_lib_prefix, use_existing_cmake_build, ArchOptions, BuildOptions, LinkAction,
};

fn linux_arch() -> ArchOptions {
    ArchOptions {
        x86: true,
        linux_native: false,
        unix: true,
        windows: false,
        fma: true,
        f16c: true,
        avx512f: false,
        avx512bw: false,
        avx512vbmi: false,
        avx512vnni: false,
        avx2: true,
        avx: true,
    }
}

#[test]
fn feature_flags_apply_to_real_compiler_builds() {
    let mut cx = cc::Build::new();
    let mut cxx = cc::Build::new();
    push_feature_flags(&mut cx, &mut cxx, &linux_arch());
    let windows = ArchOptions {
        unix: false,
        windows: true,
        avx512f: true,
        avx512vbmi: true,
        avx512vnni: true,
        ..linux_arch()
    };
    push_feature_flags(&mut cx, &mut cxx, &windows);
    let off_target = ArchOptions { x86: false, ..linux_arch() };
    push_feature_flags(&mut cx, &mut cxx, &off_target);
}

#[test]
fn build_system_configuration_applies_to_a_real_config() {
    let mut config = cmake::Config::new(".");
    let o = BuildOptions {
        windows: false,
        release: true,
        macos_x86_64: false,
        kompute: false,
        rpc: true,
        opencl: false,
        sycl_f16: false,
        sycl_f32: false,
        cpu_hbm: false,
        cpu_aarch64: false,
        avx: true,
        avx_vnni: false,
        avx2: true,
        avx512: false,
        avx512_vbmi: false,
        avx512_vnni: false,
        avx512_bf16: false,
        fma: true,
        f16c: true,
        amx_tile: false,
        amx_int8: false,
        amx_bf16: false,
        lasx: false,
        lsx: false,
        rvv: false,
    };
    pre_cmake_build(&mut config, &o);
}

#[test]
fn multimodal_sources_apply_to_a_real_build() {
    let mut cxx = cc::Build::new();
    compile_llava(&mut cxx, "llama.cpp");
}

#[test]
fn library_patterns_follow_platform_and_linkage() {
    let p = llava_lib_patterns("out/build", false, false, true);
    assert_eq!(p, vec![String::from("out/build/*/*llava*.so")]);
    let p = llava_lib_patterns("out/build", false, false, false);
    assert_eq!(p, vec![String::from("out/build/*/*llava*.a")]);
    let p = llava_lib_patterns("out/build", false, true, true);
    assert_eq!(p, vec![String::from("out/build/*/*llava*.dylib")]);
    let p = llava_lib_patterns("out/build", true, false, true);
    assert_eq!(
        p,
        vec![
            String::from("out/build/*/*llava*.dll"),
            String::from("out/build/*/*llava*.lib"),
        ]
    );
    let p = llava_lib_patterns("out/build", true, false, false);
    assert_eq!(p, vec![String::from("out/build/*/*llava*.lib")]);
}

#[test]
fn library_names_drop_the_lib_prefix() {
    assert_eq!(strip_lib_prefix("libhwloc-15"), "hwloc-15");
    assert_eq!(strip_lib_prefix("tbb12"), "tbb12");
    assert_eq!(strip_lib_prefix("li"), "li");
    assert_eq!(strip_lib_prefix("lib"), "");
}

#[test]
fn hard_link_planning_covers_every_case() {
    assert_eq!(
        plan_hard_link(false, true, 1, 1, true),
        LinkAction::ErrorMissingSource
    );
    assert_eq!(plan_hard_link(true, false, 1, 1, true), LinkAction::Link);
    assert_eq!(plan_hard_link(true, true, 1, 2, true), LinkAction::Replace);
    assert_eq!(plan_hard_link(true, true, 1, 1, false), LinkAction::Replace);
    assert_eq!(plan_hard_link(true, true, 1, 1, true), LinkAction::Keep);
}

#[test]
fn cached_builds_are_skipped() {
    assert!(use_existing_cmake_build(true));
    assert!(!use_existing_cmake_build(false));
}
