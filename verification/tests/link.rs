use hwcodec::link::local::{
    any_linked, ffmpeg_headers, find_ffmpeg, find_library, find_mfx, library_files, link_summary,
    push_unique, select_trees, static_ffmpeg_deps, LocalLinkKind, LocalLinkMode,
};
use hwcodec::link::names::{equal, equal_folded, is_runtime_dll, strip_lib, trim};
use hwcodec::link::target::{
    extra_derives, frameworks, is_apple, static_libs, system_libs, vcpkg_arch, vcpkg_target,
};
use std::cell::RefCell;

#[test]
fn vcpkg_triplets() {
    assert_eq!(vcpkg_target("linux", "x86_64"), "x64-linux");
    assert_eq!(vcpkg_target("linux", "aarch64"), "arm64-linux");
    assert_eq!(vcpkg_target("linux", "loongarch64"), "loongarch64-linux");
    assert_eq!(vcpkg_target("android", "arm"), "arm-android");
    assert_eq!(vcpkg_target("macos", "x86_64"), "x64-osx");
    assert_eq!(vcpkg_target("macos", "aarch64"), "arm64-osx");
    assert_eq!(vcpkg_target("macos", "x86"), "x86-macos");
    assert_eq!(vcpkg_target("ios", "aarch64"), "arm64-ios");
    assert_eq!(vcpkg_target("windows", "x86_64"), "x64-windows-static");
    assert_eq!(vcpkg_target("windows", "aarch64"), "x64-windows-static");
    assert_eq!(vcpkg_target("windows", "x86"), "x86-windows-static");
    assert_eq!(vcpkg_target("x64x64ax", "x86"), "x86-x86x86ax");
    assert_eq!(vcpkg_arch("riscv64"), "arm");
}

#[test]
fn libraries_of_systems() {
    assert_eq!(static_libs("linux"), ["avcodec", "avutil", "avformat"]);
    assert_eq!(static_libs("windows"), ["avcodec", "avutil", "avformat", "libmfx"]);
    assert_eq!(system_libs("linux", "x86_64"), Some(vec!["drm", "X11", "stdc++", "z"]));
    assert_eq!(system_libs("linux", "aarch64"), Some(vec!["drm", "X11", "stdc++"]));
    assert_eq!(system_libs("ios", "aarch64"), Some(vec!["c++", "m"]));
    assert_eq!(
        system_libs("android", "arm"),
        Some(vec!["z", "m", "android", "atomic", "mediandk"])
    );
    assert_eq!(system_libs("windows", "x86_64").map(|libs| libs.len()), Some(10));
    assert_eq!(system_libs("freebsd", "x86_64"), None);
    assert!(is_apple("macos") && is_apple("ios") && !is_apple("linux"));
    assert_eq!(frameworks("macos").len(), 5);
    assert_eq!(frameworks("ios")[3], "VideoToolbox");
    assert!(frameworks("linux").is_empty());
}

#[test]
fn derives_for_enumerations() {
    assert_eq!(extra_derives("DataFormat"), ["Serialize", "Deserialize"]);
    assert_eq!(extra_derives("SurfaceFormat"), ["Serialize", "Deserialize"]);
    assert_eq!(extra_derives("API"), ["Serialize", "Deserialize"]);
    assert!(extra_derives("Api").is_empty());
}

#[test]
fn link_modes() {
    assert_eq!(LocalLinkMode::of(None), Some(LocalLinkMode::Auto));
    assert_eq!(LocalLinkMode::of(Some("")), Some(LocalLinkMode::Auto));
    assert_eq!(LocalLinkMode::of(Some(" \tAuto\n")), Some(LocalLinkMode::Auto));
    assert_eq!(LocalLinkMode::of(Some("STATIC")), Some(LocalLinkMode::Static));
    assert_eq!(LocalLinkMode::of(Some("dynamic")), Some(LocalLinkMode::Dynamic));
    assert_eq!(LocalLinkMode::of(Some("\u{3000}Dylib")), Some(LocalLinkMode::Dynamic));
    assert_eq!(LocalLinkMode::parse("shared "), Some(LocalLinkMode::Dynamic));
    assert_eq!(LocalLinkMode::parse("sta tic"), None);
    assert_eq!(LocalLinkMode::parse("statics"), None);
}

#[test]
fn link_kinds() {
    let (fixed, dynamic) = (LocalLinkKind::Static, LocalLinkKind::Dynamic);
    assert_eq!(LocalLinkMode::Static.kind(dynamic, true), fixed);
    assert_eq!(LocalLinkMode::Dynamic.kind(fixed, false), dynamic);
    assert_eq!(LocalLinkMode::Auto.kind(fixed, false), fixed);
    assert_eq!(LocalLinkMode::Auto.kind(fixed, true), dynamic);
    assert_eq!(LocalLinkMode::Auto.kind(dynamic, false), dynamic);
    assert_eq!(link_summary(&[fixed, dynamic]), Some("mixed"));
    assert_eq!(link_summary(&[fixed, fixed]), Some("static"));
    assert_eq!(link_summary(&[dynamic]), Some("dynamic"));
    assert_eq!(link_summary(&[]), None);
    assert!(any_linked(&[dynamic, fixed], fixed));
    assert!(!any_linked(&[dynamic], fixed));
    assert_eq!(static_ffmpeg_deps(), ["secur32", "ncrypt", "crypt32", "ws2_32"]);
}

#[test]
fn names_and_dlls() {
    assert!(equal("a", "a") && !equal("a", "A") && !equal("a", "ab"));
    assert!(equal_folded("aZ", "Az") && !equal_folded("\u{c4}", "\u{e4}"));
    assert_eq!(trim("\u{a0} a b\u{2028}"), "a b");
    assert_eq!(trim(" \n"), "");
    assert_eq!(strip_lib("liblibz"), "z");
    assert_eq!(strip_lib("Libz"), "Libz");
    assert!(is_runtime_dll("AVCODEC-61.DLL", "avcodec"));
    assert!(is_runtime_dll("libavcodec.dll", "avcodec"));
    assert!(is_runtime_dll("mfx.dll", "libmfx"));
    assert!(is_runtime_dll("LibMfx-1.dll", "libmfx"));
    assert!(!is_runtime_dll("avcodec.lib", "avcodec"));
    assert!(!is_runtime_dll("xavcodec.dll", "avcodec"));
    assert!(!is_runtime_dll("dll", "avcodec"));
}

#[test]
fn library_files_in_order() {
    let auto: Vec<String> = library_files(&["z"], LocalLinkMode::Auto)
        .iter()
        .map(|file| format!("{}/{}", file.lib_dir, file.file_name))
        .collect();
    assert_eq!(
        auto,
        [
            "lib/libz.dll.a",
            "lib/z.dll.a",
            "lib/z.lib",
            "lib/libz.a",
            "lib/z.a",
            "lib64/libz.dll.a",
            "lib64/z.dll.a",
            "lib64/z.lib",
            "lib64/libz.a",
            "lib64/z.a",
        ]
    );
    let fixed = library_files(&["a", "b"], LocalLinkMode::Static);
    assert_eq!(fixed.len(), 12);
    assert!(fixed.iter().all(|file| file.suggested == LocalLinkKind::Static));
    assert_eq!(fixed[3].link_name, "b");
    assert_eq!(fixed[3].file_name, "b.lib");
}

#[test]
fn the_first_file_that_is_there_is_taken() {
    let asked = RefCell::new(0);
    let is_there = |dir: &str, file: &str| {
        *asked.borrow_mut() += 1;
        (dir, file) == ("lib64", "mfx.lib") || (dir, file) == ("lib64", "mfx.a")
    };
    let found = find_mfx(LocalLinkMode::Dynamic, &is_there).unwrap();
    assert_eq!((found.lib_dir, found.file_name.as_str()), ("lib64", "mfx.lib"));
    assert_eq!((found.link_name.as_str(), found.suggested), ("mfx", LocalLinkKind::Static));
    assert_eq!(*asked.borrow(), 18);
    assert!(find_library(&["x"], LocalLinkMode::Auto, &is_there).is_none());
}

#[test]
fn ffmpeg_needs_headers_and_all_libraries() {
    let headers = |_: &str, file: &str| file.ends_with(".h");
    let complete = |dir: &str, file: &str| dir == "lib" && file.ends_with(".lib");
    let files = find_ffmpeg(LocalLinkMode::Auto, &headers, &complete).unwrap();
    let names: Vec<&str> = files.iter().map(|file| file.link_name.as_str()).collect();
    assert_eq!(names, ["avcodec", "avutil", "avformat", "swresample", "zlib"]);
    let without = |dir: &str, file: &str| complete(dir, file) && file != "avutil.lib";
    assert!(find_ffmpeg(LocalLinkMode::Auto, &headers, &without).is_none());
    let one_header = |dir: &str, _: &str| dir != "libavutil";
    assert!(find_ffmpeg(LocalLinkMode::Auto, &one_header, &complete).is_none());
    assert_eq!(ffmpeg_headers()[1], ("libavformat", "avformat.h"));
}

#[test]
fn each_part_comes_from_the_first_tree_that_has_it() {
    let found = select_trees(
        3,
        |i: usize| if i >= 1 { Some(10 * i) } else { None },
        |i: usize| if i != 1 { Some("mfx") } else { None },
    );
    assert_eq!(found, Some(((1, 10), (0, "mfx"))));
    let searched = RefCell::new(vec![]);
    let first = select_trees(
        3,
        |i: usize| {
            searched.borrow_mut().push(i);
            Some(i)
        },
        |i: usize| if i == 2 { Some(i) } else { None },
    );
    assert_eq!(first, Some(((0, 0), (2, 2))));
    assert_eq!(searched.into_inner(), [0]);
    let none = select_trees(3, |i: usize| Some(i), |_: usize| None::<u8>);
    assert_eq!(none, None);
    let empty = select_trees(0, |i: usize| Some(i), |i: usize| Some(i));
    assert_eq!(empty, None);
}

#[test]
fn lists_stay_without_repetition() {
    let mut items = vec![];
    assert!(push_unique(&mut items, "a"));
    assert!(push_unique(&mut items, "b"));
    assert!(!push_unique(&mut items, "a"));
    assert_eq!(items, ["a", "b"]);
}
