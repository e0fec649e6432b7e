use twizzler_security::pathfinding::arch_of_triple;
use twizzler_security::pathfinding::get_bin_path;
use twizzler_security::pathfinding::get_builtin_headers;
use twizzler_security::pathfinding::get_compiler_rt_path;
use twizzler_security::pathfinding::get_lld_bin;
use twizzler_security::pathfinding::get_llvm_bin;
use twizzler_security::pathfinding::get_llvm_native_runtime;
use twizzler_security::pathfinding::get_llvm_native_runtime_install;
use twizzler_security::pathfinding::get_rust_lld;
use twizzler_security::pathfinding::get_rust_stage2_std;
use twizzler_security::pathfinding::get_rustc_path;
use twizzler_security::pathfinding::get_rustdoc_path;
use twizzler_security::pathfinding::get_rustlib_bin;
use twizzler_security::pathfinding::get_rustlib_lib;
use twizzler_security::pathfinding::get_toolchain_path;
use twizzler_security::pathfinding::is_toolchain_scoped;
use twizzler_security::pathfinding::join_path;
use twizzler_security::pathfinding::starts_with_str;
use twizzler_security::tagging::format_tag;
use twizzler_security::tagging::hash_triple;
use twizzler_security::tagging::short_commit_id;

const HOST: &str = "x86_64-unknown-linux-gnu";
const TARGET: &str = "aarch64-unknown-twizzler";

#[test]
fn join_inserts_separator_only_when_missing() {
    assert_eq!(join_path("/tc", "bin"), "/tc/bin");
    assert_eq!(join_path("/tc/", "bin"), "/tc/bin");
    assert_eq!(join_path("", "bin"), "bin");
}

#[test]
fn join_with_absolute_segment_replaces_base() {
    assert_eq!(join_path("/tc", "/etc/passwd"), "/etc/passwd");
}

#[test]
fn toolchain_path_layout() {
    assert_eq!(
        get_toolchain_path("/work", "toolchain_x86_64_Linux_abc"),
        "/work/toolchain/install/toolchain/toolchain_x86_64_Linux_abc"
    );
}

#[test]
fn rustc_and_bin_paths() {
    assert_eq!(get_rustc_path("/tc"), "/tc/bin/rustc");
    assert_eq!(get_bin_path("/tc"), "/tc/bin");
}

#[test]
fn rustdoc_segment_is_absolute() {
    // The segment starts with a separator, so the toolchain root is
    // discarded, as the platform's path semantics dictate.
    assert_eq!(get_rustdoc_path("/tc"), "/bin/rustdoc");
}

#[test]
fn build_tree_paths() {
    assert_eq!(get_lld_bin("/tc", HOST), format!("/tc/rust/build/{}/lld/bin", HOST));
    assert_eq!(get_llvm_bin("/tc", HOST), format!("/tc/rust/build/{}/llvm/bin", HOST));
    assert_eq!(
        get_rustlib_bin("/tc", HOST),
        format!("/tc/toolchain/install/lib/rustlib/{}/bin", HOST)
    );
    assert_eq!(get_rustlib_lib("/tc", HOST), format!("/tc/lib/rustlib/{}/lib", HOST));
    assert_eq!(get_compiler_rt_path("/tc"), "/tc/rust/src/llvm-project/compiler-rt");
    assert_eq!(
        get_rust_lld("/tc", HOST),
        format!("/tc/rust/build/{h}/stage1/lib/rustlib/{h}/bin/rust-lld", h = HOST)
    );
    assert_eq!(
        get_rust_stage2_std("/tc", HOST, TARGET),
        format!("/tc/rust/build/{}/stage2-std/{}/release", HOST, TARGET)
    );
}

#[test]
fn native_runtime_archive_names_the_architecture() {
    assert_eq!(
        get_llvm_native_runtime("/tc", TARGET),
        format!(
            "/tc/rust/build/{}/native/sanitizers/build/lib/twizzler/libclang_rt.builtins-aarch64.a",
            TARGET
        )
    );
    assert_eq!(
        get_llvm_native_runtime_install("/tc", TARGET),
        format!("/tc/lib/clang/20/lib/{}/libclang_rt.builtins.a", TARGET)
    );
}

#[test]
fn builtin_headers_path() {
    assert_eq!(get_builtin_headers("/tc"), "/tc/lib/clang/20/include/");
}

#[test]
fn arch_is_the_first_triple_field() {
    assert_eq!(arch_of_triple("x86_64-unknown-linux-gnu"), "x86_64");
    assert_eq!(arch_of_triple("aarch64"), "aarch64");
    assert_eq!(arch_of_triple("-odd"), "");
    assert_eq!(arch_of_triple(""), "");
}

#[test]
fn tag_and_hash_format() {
    assert_eq!(format_tag("x86_64", "Linux", "aaa-bbb-ccc"), "toolchain_x86_64_Linux_aaa-bbb-ccc");
    assert_eq!(hash_triple("aaaaaaa", "bbbbbbb", "ccccccc"), "aaaaaaa-bbbbbbb-ccccccc");
    assert_eq!(short_commit_id("0123456789abcdef"), "0123456");
    assert_eq!(short_commit_id("0123456"), "0123456");
}

#[test]
fn prune_paths_must_stay_inside_the_toolchain() {
    assert!(is_toolchain_scoped("./toolchain/install/bin"));
    assert!(is_toolchain_scoped("./toolchain"));
    assert!(!is_toolchain_scoped("./toolchai"));
    assert!(!is_toolchain_scoped("/etc"));
    assert!(!is_toolchain_scoped(""));
    assert!(starts_with_str("abcd", "ab"));
    assert!(!starts_with_str("ab", "abcd"));
    assert!(starts_with_str("ab", ""));
}
