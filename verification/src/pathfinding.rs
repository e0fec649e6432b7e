//! Path arithmetic for the toolchain tooling around the system: where the
//! installed toolchain's binaries, runtimes and sysroots live, relative to
//! a toolchain root the caller resolved.  Joining follows the platform
//! path rules: pushing an absolute segment replaces the whole path, and a
//! separator is inserted only where one is missing.

use vstd::prelude::*;
use vstd::string::StrSliceExecFns;
use vstd::string::StringExecFns;

verus! {

/// One path segment joined onto a base path: an absolute segment replaces
/// the base, and otherwise a separator is inserted unless the base is
/// empty or already ends with one.
pub open spec fn spec_path_join(base: Seq<char>, seg: Seq<char>) -> Seq<char> {
    if seg.len() > 0 && seg[0] == '/' {
        seg
    } else if base.len() == 0 {
        seg
    } else if base[base.len() - 1] == '/' {
        base + seg
    } else {
        base + seq!['/'] + seg
    }
}

/// Join one segment onto a base path.
pub fn join_path(base: &str, seg: &str) -> (r: String)
    ensures
        r@ == spec_path_join(base@, seg@),
{
    proof {
        reveal_strlit("/");
    }
    let seg_len = seg.unicode_len();
    if seg_len > 0 && seg.get_char(0) == '/' {
        return seg.to_owned();
    }
    let base_len = base.unicode_len();
    if base_len == 0 {
        return seg.to_owned();
    }
    let mut out = base.to_owned();
    if base.get_char(base_len - 1) != '/' {
        out.append("/");
        proof {
            assert(out@ =~= base@ + seq!['/']);
        }
    }
    out.append(seg);
    proof {
        assert(out@ =~= spec_path_join(base@, seg@));
    }
    out
}

/// Where the toolchain of the given tag is installed, under the given
/// working directory.
pub fn get_toolchain_path(current_dir: &str, tag: &str) -> (r: String)
    ensures
        r@ == spec_path_join(
            spec_path_join(spec_path_join(current_dir@, "toolchain/install"@), "toolchain"@),
            tag@,
        ),
{
    let a = join_path(current_dir, "toolchain/install");
    let b = join_path(a.as_str(), "toolchain");
    join_path(b.as_str(), tag)
}

/// The compiler binary under a toolchain root.
pub fn get_rustc_path(toolchain_path: &str) -> (r: String)
    ensures
        r@ == spec_path_join(toolchain_path@, "bin/rustc"@),
{
    join_path(toolchain_path, "bin/rustc")
}

/// The documentation tool under a toolchain root.  The segment is
/// absolute, so joining it replaces the whole path.
pub fn get_rustdoc_path(toolchain_path: &str) -> (r: String)
    ensures
        r@ == spec_path_join(toolchain_path@, "/bin/rustdoc"@),
{
    join_path(toolchain_path, "/bin/rustdoc")
}

/// The binary directory under a toolchain root.
pub fn get_bin_path(toolchain_path: &str) -> (r: String)
    ensures
        r@ == spec_path_join(toolchain_path@, "bin"@),
{
    join_path(toolchain_path, "bin")
}

/// The linker binaries built for the given host.
pub fn get_lld_bin(toolchain_path: &str, host_triple: &str) -> (r: String)
    ensures
        r@ == spec_path_join(
            spec_path_join(spec_path_join(toolchain_path@, "rust/build"@), host_triple@),
            "lld/bin"@,
        ),
{
    let a = join_path(toolchain_path, "rust/build");
    let b = join_path(a.as_str(), host_triple);
    join_path(b.as_str(), "lld/bin")
}

/// The compiler-infrastructure binaries built for the given host.
pub fn get_llvm_bin(toolchain_path: &str, host_triple: &str) -> (r: String)
    ensures
        r@ == spec_path_join(
            spec_path_join(spec_path_join(toolchain_path@, "rust/build"@), host_triple@),
            "llvm/bin"@,
        ),
{
    let a = join_path(toolchain_path, "rust/build");
    let b = join_path(a.as_str(), host_triple);
    join_path(b.as_str(), "llvm/bin")
}

/// The host's standard-library tool directory under a toolchain root.
pub fn get_rustlib_bin(toolchain_path: &str, host_triple: &str) -> (r: String)
    ensures
        r@ == spec_path_join(
            spec_path_join(
                spec_path_join(toolchain_path@, "toolchain/install/lib/rustlib"@),
                host_triple@,
            ),
            "bin"@,
        ),
{
    let a = join_path(toolchain_path, "toolchain/install/lib/rustlib");
    let b = join_path(a.as_str(), host_triple);
    join_path(b.as_str(), "bin")
}

/// The host's standard-library directory under a toolchain root.
pub fn get_rustlib_lib(toolchain_path: &str, host_triple: &str) -> (r: String)
    ensures
        r@ == spec_path_join(
            spec_path_join(spec_path_join(toolchain_path@, "lib/rustlib"@), host_triple@),
            "lib"@,
        ),
{
    let a = join_path(toolchain_path, "lib/rustlib");
    let b = join_path(a.as_str(), host_triple);
    join_path(b.as_str(), "lib")
}

/// The compiler runtime sources under a toolchain root.
pub fn get_compiler_rt_path(toolchain_path: &str) -> (r: String)
    ensures
        r@ == spec_path_join(toolchain_path@, "rust/src/llvm-project/compiler-rt"@),
{
    join_path(toolchain_path, "rust/src/llvm-project/compiler-rt")
}

/// The stage-one linker driver built for the given host.
pub fn get_rust_lld(toolchain_path: &str, host_triple: &str) -> (r: String)
    ensures
        r@ == spec_path_join(
            spec_path_join(
                spec_path_join(
                    spec_path_join(
                        spec_path_join(toolchain_path@, "rust/build"@),
                        host_triple@,
                    ),
                    "stage1/lib/rustlib"@,
                ),
                host_triple@,
            ),
            "bin/rust-lld"@,
        ),
{
    let a = join_path(toolchain_path, "rust/build");
    let b = join_path(a.as_str(), host_triple);
    let c = join_path(b.as_str(), "stage1/lib/rustlib");
    let d = join_path(c.as_str(), host_triple);
    join_path(d.as_str(), "bin/rust-lld")
}

/// The stage-two standard library built by the given host for the given
/// target.
pub fn get_rust_stage2_std(toolchain_path: &str, host_triple: &str, target_triple: &str) -> (r:
    String)
    ensures
        r@ == spec_path_join(
            spec_path_join(
                spec_path_join(
                    spec_path_join(
                        spec_path_join(toolchain_path@, "rust/build"@),
                        host_triple@,
                    ),
                    "stage2-std"@,
                ),
                target_triple@,
            ),
            "release"@,
        ),
{
    let a = join_path(toolchain_path, "rust/build");
    let b = join_path(a.as_str(), host_triple);
    let c = join_path(b.as_str(), "stage2-std");
    let d = join_path(c.as_str(), target_triple);
    join_path(d.as_str(), "release")
}

/// The index just past a triple's architecture field: the position of the
/// first separator at or after `i`, or the string's end.
pub open spec fn spec_dash_pos(s: Seq<char>, i: int) -> int
    recommends
        0 <= i <= s.len(),
    decreases s.len() - i,
{
    if i < 0 || i >= s.len() {
        i
    } else if s[i] == '-' {
        i
    } else {
        spec_dash_pos(s, i + 1)
    }
}

/// The architecture field of a target triple: everything before the first
/// dash, or the whole string when there is none.
pub open spec fn spec_arch_of(triple: Seq<char>) -> Seq<char> {
    triple.take(spec_dash_pos(triple, 0))
}

proof fn lemma_dash_pos(s: Seq<char>, j: int, i: int)
    requires
        0 <= j <= i <= s.len(),
        forall|k: int| j <= k < i ==> s[k] != '-',
        i == s.len() || s[i] == '-',
    ensures
        spec_dash_pos(s, j) == i,
    decreases i - j,
{
    if j < i {
        lemma_dash_pos(s, j + 1, i);
    }
}

/// The architecture field of a target triple.
pub fn arch_of_triple(triple: &str) -> (r: String)
    ensures
        r@ == spec_arch_of(triple@),
{
    let n = triple.unicode_len();
    let mut i: usize = 0;
    while i < n
        invariant
            n == triple@.len(),
            i <= n,
            forall|k: int| 0 <= k < i ==> triple@[k] != '-',
        decreases n - i,
    {
        if triple.get_char(i) == '-' {
            proof {
                lemma_dash_pos(triple@, 0, i as int);
            }
            return triple.substring_char(0, i).to_owned();
        }
        i = i + 1;
    }
    proof {
        lemma_dash_pos(triple@, 0, n as int);
        assert(triple@.take(n as int) =~= triple@);
    }
    triple.to_owned()
}

/// The name of the compiler runtime archive built for a target triple's
/// architecture.
pub open spec fn spec_builtins_archive_name(triple: Seq<char>) -> Seq<char> {
    "libclang_rt.builtins-"@ + spec_arch_of(triple) + ".a"@
}

/// The compiler runtime archive built for the given target, under the
/// build tree of a toolchain root.
pub fn get_llvm_native_runtime(toolchain_path: &str, target_triple: &str) -> (r: String)
    ensures
        r@ == spec_path_join(
            spec_path_join(
                spec_path_join(
                    spec_path_join(toolchain_path@, "rust/build"@),
                    target_triple@,
                ),
                "native/sanitizers/build/lib/twizzler"@,
            ),
            spec_builtins_archive_name(target_triple@),
        ),
{
    let arch = arch_of_triple(target_triple);
    let mut archive_name = "libclang_rt.builtins-".to_owned();
    archive_name.append(arch.as_str());
    archive_name.append(".a");
    let a = join_path(toolchain_path, "rust/build");
    let b = join_path(a.as_str(), target_triple);
    let c = join_path(b.as_str(), "native/sanitizers/build/lib/twizzler");
    join_path(c.as_str(), archive_name.as_str())
}

/// Where the compiler runtime archive for a target is installed under a
/// toolchain root.
pub fn get_llvm_native_runtime_install(toolchain_path: &str, target_triple: &str) -> (r: String)
    ensures
        r@ == spec_path_join(
            spec_path_join(
                spec_path_join(toolchain_path@, "lib/clang/20/lib"@),
                target_triple@,
            ),
            "libclang_rt.builtins.a"@,
        ),
{
    let a = join_path(toolchain_path, "lib/clang/20/lib");
    let b = join_path(a.as_str(), target_triple);
    join_path(b.as_str(), "libclang_rt.builtins.a")
}

/// The bundled compiler headers under a toolchain root.
pub fn get_builtin_headers(toolchain_path: &str) -> (r: String)
    ensures
        r@ == spec_path_join(toolchain_path@, "lib/clang/20/include/"@),
{
    join_path(toolchain_path, "lib/clang/20/include/")
}

/// Whether `s` begins with `prefix`.
pub fn starts_with_str(s: &str, prefix: &str) -> (r: bool)
    ensures
        r == (s@.len() >= prefix@.len() && s@.take(prefix@.len() as int) == prefix@),
{
    let n = prefix.unicode_len();
    if s.unicode_len() < n {
        return false;
    }
    let mut i: usize = 0;
    while i < n
        invariant
            n == prefix@.len(),
            n <= s@.len(),
            i <= n,
            forall|k: int| 0 <= k < i ==> s@[k] == prefix@[k],
        decreases n - i,
    {
        if s.get_char(i) != prefix.get_char(i) {
            proof {
                assert(s@.take(n as int)[i as int] != prefix@[i as int]);
            }
            return false;
        }
        i = i + 1;
    }
    proof {
        assert(s@.take(n as int) =~= prefix@);
    }
    true
}

/// Whether a path named by the prune list stays inside the toolchain
/// tree, so that deleting it is in bounds.
pub fn is_toolchain_scoped(path: &str) -> (r: bool)
    ensures
        r == (path@.len() >= "./toolchain"@.len() && path@.take("./toolchain"@.len() as int)
            == "./toolchain"@),
{
    starts_with_str(path, "./toolchain")
}

} // verus!
