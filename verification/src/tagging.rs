//! The naming rules for packaged toolchains: a tag built from the host's
//! architecture and operating system and a hash, and the hash built from
//! the shortened heads of the three source trees the toolchain is
//! compiled from.

use vstd::prelude::*;
use vstd::string::StrSliceExecFns;
use vstd::string::StringExecFns;

verus! {

/// The tag naming a packaged toolchain for one machine and source state.
pub open spec fn spec_tag(arch: Seq<char>, os: Seq<char>, hash: Seq<char>) -> Seq<char> {
    "toolchain_"@ + arch + "_"@ + os + "_"@ + hash
}

/// Format the tag naming a packaged toolchain.
pub fn format_tag(arch: &str, os: &str, hash: &str) -> (r: String)
    ensures
        r@ == spec_tag(arch@, os@, hash@),
{
    let mut out = "toolchain_".to_owned();
    out.append(arch);
    out.append("_");
    out.append(os);
    out.append("_");
    out.append(hash);
    out
}

/// Shorten a revision identifier to its first seven characters, the
/// customary abbreviation.
pub fn short_commit_id(oid: &str) -> (r: String)
    requires
        oid@.len() >= 7,
    ensures
        r@ == oid@.take(7),
{
    let r = oid.substring_char(0, 7);
    proof {
        assert(r@ =~= oid@.take(7));
    }
    r.to_owned()
}

/// The toolchain hash: the three shortened tree heads, dash-separated.
pub open spec fn spec_hash_triple(
    rust: Seq<char>,
    mlibc: Seq<char>,
    abi: Seq<char>,
) -> Seq<char> {
    rust + "-"@ + mlibc + "-"@ + abi
}

/// Format the toolchain hash from the three shortened tree heads.
pub fn hash_triple(rust: &str, mlibc: &str, abi: &str) -> (r: String)
    ensures
        r@ == spec_hash_triple(rust@, mlibc@, abi@),
{
    let mut out = rust.to_owned();
    out.append("-");
    out.append(mlibc);
    out.append("-");
    out.append(abi);
    out
}

} // verus!
