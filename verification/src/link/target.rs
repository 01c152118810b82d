//! What a target system asks for: where vcpkg keeps its libraries, and which
//! libraries of the system itself are linked.
use crate::link::names::equal;
use vstd::prelude::*;

verus! {

/// The texts of a list of names.
pub open spec fn texts(names: Seq<&str>) -> Seq<Seq<char>> {
    names.map_values(|name: &str| name@)
}

/// vcpkg's name of a processor architecture.
pub open spec fn vcpkg_arch_text(target_arch: Seq<char>) -> Seq<char> {
    if target_arch == "x86_64"@ {
        "x64"@
    } else if target_arch == "x86"@ {
        "x86"@
    } else if target_arch == "loongarch64"@ {
        "loongarch64"@
    } else if target_arch == "aarch64"@ {
        "arm64"@
    } else {
        "arm"@
    }
}

/// vcpkg's name of a processor architecture.
pub fn vcpkg_arch(target_arch: &str) -> (res: &'static str)
    ensures
        res@ == vcpkg_arch_text(target_arch@),
{
    if equal(target_arch, "x86_64") {
        "x64"
    } else if equal(target_arch, "x86") {
        "x86"
    } else if equal(target_arch, "loongarch64") {
        "loongarch64"
    } else if equal(target_arch, "aarch64") {
        "arm64"
    } else {
        "arm"
    }
}

/// The text with each `x64` in it, from the left, made an `x86`.
pub open spec fn with_x86(s: Seq<char>) -> Seq<char>
    decreases s.len(),
{
    if s.len() < 3 {
        s
    } else if s.take(3) == "x64"@ {
        "x86"@ + with_x86(s.skip(3))
    } else {
        s.take(1) + with_x86(s.skip(1))
    }
}

/// vcpkg's name of a target system, the triplet.
pub open spec fn vcpkg_target_text(target_os: Seq<char>, target_arch: Seq<char>) -> Seq<char> {
    let arch = vcpkg_arch_text(target_arch);
    let target = if target_os == "macos"@ && arch == "x64"@ {
        "x64-osx"@
    } else if target_os == "macos"@ && arch == "arm64"@ {
        "arm64-osx"@
    } else if target_os == "windows"@ {
        "x64-windows-static"@
    } else {
        arch + "-"@ + target_os
    };
    if arch == "x86"@ {
        with_x86(target)
    } else {
        target
    }
}

fn replace_x64(s: &str) -> (res: String)
    ensures
        res@ == with_x86(s@),
{
    let len: usize = s.unicode_len();
    let mut res: String = String::new();
    let mut i: usize = 0;
    assert(s@.skip(0) =~= s@);
    assert(res@ + with_x86(s@) =~= with_x86(s@));
    while len - i >= 3
        invariant
            i <= len,
            len == s@.len(),
            with_x86(s@) == res@ + with_x86(s@.skip(i as int)),
        decreases len - i,
    {
        let ghost rest = s@.skip(i as int);
        let ghost before = res@;
        let part: &str = s.substring_char(i, i + 3);
        assert(part@ =~= rest.take(3));
        if equal(part, "x64") {
            res.append("x86");
            assert(rest.skip(3) =~= s@.skip(i + 3));
            assert(res@ + with_x86(rest.skip(3)) =~= before + ("x86"@ + with_x86(rest.skip(3))));
            i = i + 3;
        } else {
            res.append(s.substring_char(i, i + 1));
            assert(rest.take(1) =~= s@.subrange(i as int, i + 1));
            assert(rest.skip(1) =~= s@.skip(i + 1));
            assert(res@ + with_x86(rest.skip(1)) =~= before + (rest.take(1) + with_x86(
                rest.skip(1),
            )));
            i = i + 1;
        }
    }
    assert(s@.subrange(i as int, len as int) =~= s@.skip(i as int));
    res.append(s.substring_char(i, len));
    res
}

/// vcpkg's name of a target system, the triplet.
pub fn vcpkg_target(target_os: &str, target_arch: &str) -> (res: String)
    ensures
        res@ == vcpkg_target_text(target_os@, target_arch@),
{
    let arch: &str = vcpkg_arch(target_arch);
    let macos: bool = equal(target_os, "macos");
    let target: String = if macos && equal(arch, "x64") {
        "x64-osx".to_owned()
    } else if macos && equal(arch, "arm64") {
        "arm64-osx".to_owned()
    } else if equal(target_os, "windows") {
        "x64-windows-static".to_owned()
    } else {
        let mut target: String = arch.to_owned();
        target.append("-");
        target.append(target_os);
        target
    };
    if equal(arch, "x86") {
        replace_x64(target.as_str())
    } else {
        target
    }
}

/// The libraries of vcpkg that are linked into the program.
pub open spec fn static_lib_texts(target_os: Seq<char>) -> Seq<Seq<char>> {
    if target_os == "windows"@ {
        seq!["avcodec"@, "avutil"@, "avformat"@, "libmfx"@]
    } else {
        seq!["avcodec"@, "avutil"@, "avformat"@]
    }
}

/// The libraries of vcpkg that are linked into the program.
pub fn static_libs(target_os: &str) -> (res: Vec<&'static str>)
    ensures
        texts(res@) == static_lib_texts(target_os@),
{
    let mut libs: Vec<&'static str> = vec!["avcodec", "avutil", "avformat"];
    if equal(target_os, "windows") {
        libs.push("libmfx");
    }
    assert(texts(libs@) =~= static_lib_texts(target_os@));
    libs
}

/// The libraries of the system that are linked; `None` for a system that is not
/// supported.
pub open spec fn system_lib_texts(target_os: Seq<char>, target_arch: Seq<char>) -> Option<
    Seq<Seq<char>>,
> {
    if target_os == "windows"@ {
        Some(
            seq![
                "User32"@,
                "bcrypt"@,
                "ole32"@,
                "oleaut32"@,
                "advapi32"@,
                "uuid"@,
                "mf"@,
                "mfplat"@,
                "mfuuid"@,
                "strmiids"@,
            ],
        )
    } else if target_os == "linux"@ {
        if target_arch == "x86_64"@ {
            Some(seq!["drm"@, "X11"@, "stdc++"@, "z"@])
        } else {
            Some(seq!["drm"@, "X11"@, "stdc++"@])
        }
    } else if target_os == "macos"@ || target_os == "ios"@ {
        Some(seq!["c++"@, "m"@])
    } else if target_os == "android"@ {
        Some(seq!["z"@, "m"@, "android"@, "atomic"@, "mediandk"@])
    } else {
        None
    }
}

/// The libraries of the system that are linked; `None` for a system that is not
/// supported.
pub fn system_libs(target_os: &str, target_arch: &str) -> (res: Option<Vec<&'static str>>)
    ensures
        match res {
            Some(libs) => system_lib_texts(target_os@, target_arch@) == Some(texts(libs@)),
            None => system_lib_texts(target_os@, target_arch@) is None,
        },
{
    let libs: Vec<&'static str> = if equal(target_os, "windows") {
        vec![
            "User32",
            "bcrypt",
            "ole32",
            "oleaut32",
            "advapi32",
            "uuid",
            "mf",
            "mfplat",
            "mfuuid",
            "strmiids",
        ]
    } else if equal(target_os, "linux") {
        let mut libs: Vec<&'static str> = vec!["drm", "X11", "stdc++"];
        if equal(target_arch, "x86_64") {
            libs.push("z");
        }
        libs
    } else if equal(target_os, "macos") || equal(target_os, "ios") {
        vec!["c++", "m"]
    } else if equal(target_os, "android") {
        // FFmpeg links to mediandk directly since 7.1.
        vec!["z", "m", "android", "atomic", "mediandk"]
    } else {
        return None;
    };
    assert(system_lib_texts(target_os@, target_arch@) is Some);
    assert(texts(libs@) =~= system_lib_texts(target_os@, target_arch@)->0);
    Some(libs)
}

/// The system is one of Apple's.
pub open spec fn is_apple_text(target_os: Seq<char>) -> bool {
    target_os == "macos"@ || target_os == "ios"@
}

/// The system is one of Apple's: its frameworks are linked, and C++ sources are
/// compiled as C++11.
pub fn is_apple(target_os: &str) -> (res: bool)
    ensures
        res == is_apple_text(target_os@),
{
    equal(target_os, "macos") || equal(target_os, "ios")
}

/// The frameworks of the system that are linked.
pub open spec fn framework_texts(target_os: Seq<char>) -> Seq<Seq<char>> {
    if is_apple_text(target_os) {
        seq!["CoreFoundation"@, "CoreVideo"@, "CoreMedia"@, "VideoToolbox"@, "AVFoundation"@]
    } else {
        Seq::empty()
    }
}

/// The frameworks of the system that are linked.
pub fn frameworks(target_os: &str) -> (res: Vec<&'static str>)
    ensures
        texts(res@) == framework_texts(target_os@),
{
    let names: Vec<&'static str> = if is_apple(target_os) {
        vec!["CoreFoundation", "CoreVideo", "CoreMedia", "VideoToolbox", "AVFoundation"]
    } else {
        Vec::new()
    };
    assert(texts(names@) =~= framework_texts(target_os@));
    names
}

/// The traits that are derived for a C enumeration, besides the usual ones.
pub open spec fn extra_derive_texts(name: Seq<char>) -> Seq<Seq<char>> {
    if name == "DataFormat"@ || name == "SurfaceFormat"@ || name == "API"@ {
        seq!["Serialize"@, "Deserialize"@]
    } else {
        Seq::empty()
    }
}

/// The traits that are derived for a C enumeration, besides the usual ones.
pub fn extra_derives(name: &str) -> (res: Vec<&'static str>)
    ensures
        texts(res@) == extra_derive_texts(name@),
{
    let traits: Vec<&'static str> = if equal(name, "DataFormat") || equal(name, "SurfaceFormat")
        || equal(name, "API") {
        vec!["Serialize", "Deserialize"]
    } else {
        Vec::new()
    };
    assert(texts(traits@) =~= extra_derive_texts(name@));
    traits
}

} // verus!
