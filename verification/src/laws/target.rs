//! Laws of what a target system asks for.
use crate::link::target;
use crate::link::target::{
    extra_derives, frameworks, is_apple, static_libs, system_libs, vcpkg_arch, vcpkg_target,
};
use vstd::prelude::*;

verus! {

/// vcpkg's name of each architecture: four have one of their own, and every other is
/// taken to be a 32-bit ARM.
pub proof fn law_vcpkg_arch(target_arch: &str, arch: &str)
    requires
        call_ensures(vcpkg_arch, (target_arch,), arch),
    ensures
        arch@ == "x64"@ <==> target_arch@ == "x86_64"@,
        arch@ == "x86"@ <==> target_arch@ == "x86"@,
        arch@ == "loongarch64"@ <==> target_arch@ == "loongarch64"@,
        arch@ == "arm64"@ <==> target_arch@ == "aarch64"@,
        arch@ == "x64"@ || arch@ == "x86"@ || arch@ == "loongarch64"@ || arch@ == "arm64"@ || arch@
            == "arm"@,
{
    lemma_arch_names();
    reveal_strlit("x86_64");
    reveal_strlit("x86");
    reveal_strlit("loongarch64");
    reveal_strlit("aarch64");
    assert("x86_64"@.len() != "x86"@.len());
    assert("x86_64"@.len() != "loongarch64"@.len());
    assert("x86_64"@.len() != "aarch64"@.len());
    assert("x86"@.len() != "loongarch64"@.len());
    assert("x86"@.len() != "aarch64"@.len());
    assert("loongarch64"@.len() != "aarch64"@.len());
}

proof fn lemma_arch_names()
    ensures
        "x64"@ == seq!['x', '6', '4'],
        "x86"@ == seq!['x', '8', '6'],
        "arm64"@ == seq!['a', 'r', 'm', '6', '4'],
        "arm"@ == seq!['a', 'r', 'm'],
        "loongarch64"@.len() == 11,
        "loongarch64"@[0] == 'l',
        "-"@ == seq!['-'],
        "x64"@ != "x86"@,
        "x64"@ != "loongarch64"@,
        "x64"@ != "arm64"@,
        "x64"@ != "arm"@,
        "x86"@ != "loongarch64"@,
        "x86"@ != "arm64"@,
        "x86"@ != "arm"@,
        "loongarch64"@ != "arm64"@,
        "loongarch64"@ != "arm"@,
        "arm64"@ != "arm"@,
{
    reveal_strlit("x64");
    reveal_strlit("x86");
    reveal_strlit("arm64");
    reveal_strlit("arm");
    reveal_strlit("loongarch64");
    reveal_strlit("-");
    assert("x64"@ =~= seq!['x', '6', '4']);
    assert("x86"@ =~= seq!['x', '8', '6']);
    assert("arm64"@ =~= seq!['a', 'r', 'm', '6', '4']);
    assert("arm"@ =~= seq!['a', 'r', 'm']);
    assert("-"@ =~= seq!['-']);
    assert("x64"@[1] != "x86"@[1]);
    assert("x64"@[0] != "arm"@[0]);
    assert("x86"@[0] != "arm"@[0]);
    assert("x64"@.len() != "arm64"@.len());
    assert("x86"@.len() != "arm64"@.len());
    assert("arm"@.len() != "arm64"@.len());
}

/// `x64` stands in the text at `i`.
pub open spec fn x64_at(s: Seq<char>, i: int) -> bool {
    0 <= i && i + 3 <= s.len() && s[i] == 'x' && s[i + 1] == '6' && s[i + 2] == '4'
}

/// `res` is the text with each `x64` in it made an `x86`: the `6` becomes an `8`, the
/// `4` a `6`, and every other character stays where it is.
pub open spec fn is_with_x86(s: Seq<char>, res: Seq<char>) -> bool {
    &&& res.len() == s.len()
    &&& forall|i: int|
        0 <= i < s.len() ==> #[trigger] res[i] == (if x64_at(s, i - 1) {
            '8'
        } else if x64_at(s, i - 2) {
            '6'
        } else {
            s[i]
        })
}

/// Making every `x64` an `x86` changes those characters and no others.
pub proof fn law_with_x86(s: Seq<char>)
    ensures
        is_with_x86(s, target::with_x86(s)),
    decreases s.len(),
{
    lemma_arch_names();
    let res = target::with_x86(s);
    if s.len() >= 3 {
        let head = s.take(3);
        if head == "x64"@ {
            assert(head[0] == 'x' && head[1] == '6' && head[2] == '4');
            let rest = s.skip(3);
            law_with_x86(rest);
            assert(x64_at(s, 0));
            assert forall|i: int| 0 <= i < s.len() implies #[trigger] res[i] == (if x64_at(
                s,
                i - 1,
            ) {
                '8'
            } else if x64_at(s, i - 2) {
                '6'
            } else {
                s[i]
            }) by {
                if i >= 3 {
                    assert(res[i] == target::with_x86(rest)[i - 3]);
                    assert(rest[i - 3] == s[i]);
                    assert(x64_at(rest, i - 4) == (i >= 4 && x64_at(s, i - 1)));
                    assert(x64_at(rest, i - 5) == (i >= 5 && x64_at(s, i - 2)));
                }
            }
        } else {
            assert(!x64_at(s, 0)) by {
                if x64_at(s, 0) {
                    assert(head =~= "x64"@);
                }
            }
            let rest = s.skip(1);
            law_with_x86(rest);
            assert forall|i: int| 0 <= i < s.len() implies #[trigger] res[i] == (if x64_at(
                s,
                i - 1,
            ) {
                '8'
            } else if x64_at(s, i - 2) {
                '6'
            } else {
                s[i]
            }) by {
                if i >= 1 {
                    assert(res[i] == target::with_x86(rest)[i - 1]);
                    assert(rest[i - 1] == s[i]);
                    assert(x64_at(rest, i - 2) == (i >= 2 && x64_at(s, i - 1)));
                    assert(x64_at(rest, i - 3) == (i >= 3 && x64_at(s, i - 2)));
                }
            }
        }
    }
}

/// The triplet of every system other than macOS and Windows is vcpkg's name of the
/// architecture, a dash, and the name of the system. Only on an x86 is an `x64` in the
/// name of the system made an `x86`; the name stays as long as it is.
pub proof fn law_vcpkg_target(target_os: &str, target_arch: &str, arch: &str, res: String)
    requires
        call_ensures(vcpkg_arch, (target_arch,), arch),
        call_ensures(vcpkg_target, (target_os, target_arch), res),
        target_os@ != "macos"@,
        target_os@ != "windows"@,
    ensures
        res@.len() == arch@.len() + 1 + target_os@.len(),
        res@.take(arch@.len() as int) == arch@,
        res@[arch@.len() as int] == '-',
        target_arch@ != "x86"@ || (forall|i: int| !#[trigger] x64_at(target_os@, i)) ==> res@
            == arch@ + "-"@ + target_os@,
        target_arch@ == "x86"@ ==> is_with_x86(target_os@, res@.skip(arch@.len() as int + 1)),
{
    lemma_arch_names();
    law_vcpkg_arch(target_arch, arch);
    let os = target_os@;
    let plain = arch@ + "-"@ + os;
    if arch@ == "x86"@ {
        law_with_x86(plain);
        assert(plain[0] == 'x' && plain[1] == '8' && plain[2] == '6' && plain[3] == '-');
        assert forall|i: int| 0 <= i < 4 implies #[trigger] res@[i] == plain[i] by {
            assert(!x64_at(plain, i - 1));
            assert(!x64_at(plain, i - 2));
        }
        assert(res@.take(3) =~= arch@);
        let tail = res@.skip(4);
        assert forall|i: int| 0 <= i < os.len() implies #[trigger] tail[i] == (if x64_at(
            os,
            i - 1,
        ) {
            '8'
        } else if x64_at(os, i - 2) {
            '6'
        } else {
            os[i]
        }) by {
            assert(tail[i] == res@[i + 4]);
            assert(plain[i + 4] == os[i]);
            assert(x64_at(plain, i + 3) == x64_at(os, i - 1));
            assert(x64_at(plain, i + 2) == x64_at(os, i - 2));
        }
        if forall|i: int| !#[trigger] x64_at(os, i) {
            assert(tail =~= os);
            assert(res@ =~= plain);
        }
    } else {
        assert(res@ == plain);
        assert(res@.take(arch@.len() as int) =~= arch@);
    }
}

/// On every system other than macOS and Windows, architectures to which vcpkg gives
/// different names have different triplets, and those with one name have the same.
pub proof fn law_triplets_tell_architectures_apart(
    target_os: &str,
    target_a: &str,
    target_b: &str,
    arch_a: &str,
    arch_b: &str,
    a: String,
    b: String,
)
    requires
        call_ensures(vcpkg_arch, (target_a,), arch_a),
        call_ensures(vcpkg_arch, (target_b,), arch_b),
        call_ensures(vcpkg_target, (target_os, target_a), a),
        call_ensures(vcpkg_target, (target_os, target_b), b),
        target_os@ != "macos"@,
        target_os@ != "windows"@,
    ensures
        a@ == b@ <==> arch_a@ == arch_b@,
{
    lemma_arch_names();
    law_vcpkg_arch(target_a, arch_a);
    law_vcpkg_arch(target_b, arch_b);
    law_vcpkg_target(target_os, target_a, arch_a, a);
    law_vcpkg_target(target_os, target_b, arch_b, b);
    if a@ == b@ {
        if arch_a@.len() == arch_b@.len() {
            assert(arch_a@ == arch_b@);
        }
    }
}

/// On one architecture, systems other than macOS and Windows with different names have
/// different triplets, unless the architecture is x86, where `x64` in a name counts as
/// `x86`.
pub proof fn law_triplets_tell_systems_apart(
    os_a: &str,
    os_b: &str,
    target_arch: &str,
    arch: &str,
    a: String,
    b: String,
)
    requires
        call_ensures(vcpkg_arch, (target_arch,), arch),
        call_ensures(vcpkg_target, (os_a, target_arch), a),
        call_ensures(vcpkg_target, (os_b, target_arch), b),
        target_arch@ != "x86"@,
        os_a@ != "macos"@,
        os_a@ != "windows"@,
        os_b@ != "macos"@,
        os_b@ != "windows"@,
    ensures
        a@ == b@ <==> os_a@ == os_b@,
{
    law_vcpkg_arch(target_arch, arch);
    law_vcpkg_target(os_a, target_arch, arch, a);
    law_vcpkg_target(os_b, target_arch, arch, b);
    let n: int = arch@.len() + "-"@.len() as int;
    assert((arch@ + "-"@ + os_a@).skip(n) =~= os_a@);
    assert((arch@ + "-"@ + os_b@).skip(n) =~= os_b@);
}

/// The triplets of Windows: the static libraries, of 32 bits on x86, of 64 bits
/// everywhere else.
pub proof fn law_vcpkg_target_windows(target_os: &str, target_arch: &str, res: String)
    requires
        call_ensures(vcpkg_target, (target_os, target_arch), res),
        target_os@ == "windows"@,
    ensures
        target_arch@ != "x86"@ ==> res@ == "x64-windows-static"@,
        target_arch@ == "x86"@ ==> res@ == "x86-windows-static"@,
{
    lemma_arch_names();
    lemma_systems();
    reveal_strlit("x64-windows-static");
    reveal_strlit("x86-windows-static");
    reveal_strlit("x86_64");
    if target_arch@ == "x86"@ {
        assert("x86"@.len() != "x86_64"@.len());
        let s = "x64-windows-static"@;
        law_with_x86(s);
        assert(x64_at(s, 0));
        assert forall|i: int| 0 <= i < s.len() implies #[trigger] res@[i]
            == "x86-windows-static"@[i] by {}
        assert(res@ =~= "x86-windows-static"@);
    }
}

/// The triplets of macOS: vcpkg calls it `osx` on the architectures that it knows
/// it on, and by its own name on any other.
pub proof fn law_vcpkg_target_macos(target_os: &str, target_arch: &str, arch: &str, res: String)
    requires
        call_ensures(vcpkg_arch, (target_arch,), arch),
        call_ensures(vcpkg_target, (target_os, target_arch), res),
        target_os@ == "macos"@,
    ensures
        target_arch@ == "x86_64"@ ==> res@ == "x64-osx"@,
        target_arch@ == "aarch64"@ ==> res@ == "arm64-osx"@,
        target_arch@ != "x86_64"@ && target_arch@ != "aarch64"@ ==> res@ == arch@ + "-macos"@,
{
    lemma_arch_names();
    lemma_systems();
    law_vcpkg_arch(target_arch, arch);
    reveal_strlit("-macos");
    let plain = arch@ + "-"@ + "macos"@;
    assert(plain =~= arch@ + "-macos"@);
    if arch@ == "x86"@ {
        law_with_x86(plain);
        assert forall|i: int| 0 <= i < plain.len() implies !#[trigger] x64_at(plain, i) by {}
        assert(res@ =~= plain);
    }
}

proof fn lemma_systems()
    ensures
        "macos"@ == seq!['m', 'a', 'c', 'o', 's'],
        "windows"@ != "macos"@,
        "windows"@ != "linux"@,
        "windows"@ != "ios"@,
        "windows"@ != "android"@,
        "linux"@ != "macos"@,
        "linux"@ != "ios"@,
        "linux"@ != "android"@,
        "macos"@ != "ios"@,
        "macos"@ != "android"@,
        "ios"@ != "android"@,
{
    reveal_strlit("macos");
    reveal_strlit("windows");
    reveal_strlit("linux");
    reveal_strlit("ios");
    reveal_strlit("android");
    assert("macos"@ =~= seq!['m', 'a', 'c', 'o', 's']);
    assert("windows"@[0] == 'w');
    assert("android"@[0] == 'a');
    assert("linux"@[0] == 'l');
    assert("ios"@[0] == 'i');
}

/// The names are these texts, in this order.
pub open spec fn reads(names: Seq<&str>, wanted: Seq<Seq<char>>) -> bool {
    &&& names.len() == wanted.len()
    &&& forall|i: int| 0 <= i < names.len() ==> (#[trigger] names[i])@ == wanted[i]
}

/// Names with these texts read as them.
pub(crate) proof fn lemma_reads(names: Seq<&str>, wanted: Seq<Seq<char>>)
    ensures
        target::texts(names) == wanted <==> reads(names, wanted),
{
    let texts = target::texts(names);
    if texts == wanted {
        assert forall|i: int| 0 <= i < names.len() implies (#[trigger] names[i])@ == wanted[i] by {
            assert(texts[i] == names[i]@);
        }
    }
    if reads(names, wanted) {
        assert(texts =~= wanted);
    }
}

/// Three libraries of FFmpeg are linked on every system, and the Media SDK's behind
/// them on Windows alone.
pub proof fn law_static_libs(target_os: &str, res: Vec<&'static str>)
    requires
        call_ensures(static_libs, (target_os,), res),
    ensures
        target_os@ == "windows"@ <==> res@.len() == 4,
        target_os@ != "windows"@ <==> res@.len() == 3,
        reads(res@.take(3), seq!["avcodec"@, "avutil"@, "avformat"@]),
        target_os@ == "windows"@ ==> res@[3]@ == "libmfx"@,
{
    let texts = target::texts(res@);
    assert(texts.len() == res@.len());
    assert(texts[0] == res@[0]@);
    assert(texts[1] == res@[1]@);
    assert(texts[2] == res@[2]@);
    if target_os@ == "windows"@ {
        assert(texts[3] == res@[3]@);
    }
}

/// The libraries of each system that is supported; there is no answer for any other
/// system, and the architecture matters on Linux alone, where an x86-64 has `z` as
/// one more.
pub proof fn law_system_libs(target_os: &str, target_arch: &str, res: Option<Vec<&'static str>>)
    requires
        call_ensures(system_libs, (target_os, target_arch), res),
    ensures
        res is Some <==> target_os@ == "windows"@ || target_os@ == "linux"@ || target_os@
            == "macos"@ || target_os@ == "ios"@ || target_os@ == "android"@,
        target_os@ == "windows"@ ==> reads(
            res->0@,
            seq![
                "User32"@,
                "bcrypt"@,
                "ole32"@,
                "oleaut32"@,
                "advapi32"@,
                "uuid"@,
                "mf"@,
                "mfplat"@,
                "mfuuid"@,
                "strmiids"@,
            ],
        ),
        target_os@ == "linux"@ && target_arch@ != "x86_64"@ ==> reads(
            res->0@,
            seq!["drm"@, "X11"@, "stdc++"@],
        ),
        target_os@ == "linux"@ && target_arch@ == "x86_64"@ ==> reads(
            res->0@,
            seq!["drm"@, "X11"@, "stdc++"@, "z"@],
        ),
        target_os@ == "macos"@ || target_os@ == "ios"@ ==> reads(res->0@, seq!["c++"@, "m"@]),
        target_os@ == "android"@ ==> reads(
            res->0@,
            seq!["z"@, "m"@, "android"@, "atomic"@, "mediandk"@],
        ),
{
    lemma_systems();
    if let Some(libs) = res {
        lemma_reads(libs@, target::system_lib_texts(target_os@, target_arch@)->0);
    }
}

/// What is Apple's, and what follows from it: exactly on macOS and iOS frameworks are
/// linked, the same five on both.
pub proof fn law_apple(target_os: &str, apple: bool, res: Vec<&'static str>)
    requires
        call_ensures(is_apple, (target_os,), apple),
        call_ensures(frameworks, (target_os,), res),
    ensures
        apple <==> target_os@ == "macos"@ || target_os@ == "ios"@,
        !apple ==> res@.len() == 0,
        apple ==> reads(
            res@,
            seq!["CoreFoundation"@, "CoreVideo"@, "CoreMedia"@, "VideoToolbox"@, "AVFoundation"@],
        ),
{
    lemma_reads(res@, target::framework_texts(target_os@));
}

/// Both traits of serialisation are derived for three enumerations, and none for any
/// other.
pub proof fn law_extra_derives(name: &str, res: Vec<&'static str>)
    requires
        call_ensures(extra_derives, (name,), res),
    ensures
        name@ == "DataFormat"@ || name@ == "SurfaceFormat"@ || name@ == "API"@ ==> reads(
            res@,
            seq!["Serialize"@, "Deserialize"@],
        ),
        name@ != "DataFormat"@ && name@ != "SurfaceFormat"@ && name@ != "API"@ ==> res@.len() == 0,
{
    lemma_reads(res@, target::extra_derive_texts(name@));
}

} // verus!
