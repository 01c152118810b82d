//! Laws of libraries that were built on this machine.
use crate::laws::names::{lemma_same_word, same_word};
use crate::laws::target::{lemma_reads, reads};
use crate::link::local;
use crate::link::local::{
    any_linked, ffmpeg_headers, find_ffmpeg, find_library, find_mfx, library_files, link_summary,
    push_unique, select_trees, static_ffmpeg_deps, LibraryFile, LibraryFileView, LocalLinkKind,
    LocalLinkMode,
};
use crate::link::names::trim;
use crate::link::{names, target};
use vstd::prelude::*;
use vstd::std_specs::cmp::PartialEqSpec;

verus! {

/// The mode that a setting asks for is said by the word that is left of it when it is
/// trimmed, whichever letters are capitals.
pub proof fn law_parse(setting: &str, word: &str, res: Option<LocalLinkMode>)
    requires
        call_ensures(trim, (setting,), word),
        call_ensures(LocalLinkMode::parse, (setting,), res),
    ensures
        res == Some(LocalLinkMode::Auto) <==> word@.len() == 0 || same_word(word@, "auto"@),
        res == Some(LocalLinkMode::Static) <==> same_word(word@, "static"@),
        res == Some(LocalLinkMode::Dynamic) <==> same_word(word@, "dynamic"@) || same_word(
            word@,
            "dylib"@,
        ) || same_word(word@, "shared"@),
{
    reveal_strlit("");
    reveal_strlit("auto");
    reveal_strlit("static");
    reveal_strlit("dynamic");
    reveal_strlit("dylib");
    reveal_strlit("shared");
    let low = names::lower(word@);
    assert(low.len() == word@.len());
    if low.len() == 0 {
        assert(low =~= ""@);
    }
    lemma_same_word(word@, "auto"@);
    lemma_same_word(word@, "static"@);
    lemma_same_word(word@, "dynamic"@);
    lemma_same_word(word@, "dylib"@);
    lemma_same_word(word@, "shared"@);
    assert(names::lower("auto"@) =~= "auto"@);
    assert(names::lower("static"@) =~= "static"@);
    assert(names::lower("dynamic"@) =~= "dynamic"@);
    assert(names::lower("dylib"@) =~= "dylib"@);
    assert(names::lower("shared"@) =~= "shared"@);
    assert("static"@[1] != "shared"@[1]);
}

/// An absent setting leaves the choice open, as an empty one does; any other asks for
/// what it says.
pub proof fn law_of(
    setting: Option<&str>,
    res: Option<LocalLinkMode>,
    parsed: Option<LocalLinkMode>,
)
    requires
        call_ensures(LocalLinkMode::of, (setting,), res),
        setting matches Some(text) ==> call_ensures(LocalLinkMode::parse, (text,), parsed),
    ensures
        setting is None ==> res == Some(LocalLinkMode::Auto),
        setting is Some ==> res == parsed,
{
}

/// A library is linked as the mode asks. Left to choose, it is linked dynamically
/// exactly if its file suggests that or DLLs come with it.
pub proof fn law_kind(
    mode: LocalLinkMode,
    suggested: LocalLinkKind,
    has_runtime: bool,
    res: LocalLinkKind,
)
    requires
        call_ensures(LocalLinkMode::kind, (mode, suggested, has_runtime), res),
    ensures
        mode == LocalLinkMode::Static ==> res == LocalLinkKind::Static,
        mode == LocalLinkMode::Dynamic ==> res == LocalLinkKind::Dynamic,
        mode == LocalLinkMode::Auto && has_runtime ==> res == LocalLinkKind::Dynamic,
        mode == LocalLinkMode::Auto && !has_runtime ==> res == suggested,
{
}

/// How many files are looked for under one name in one directory.
pub open spec fn file_count(mode: LocalLinkMode) -> int {
    if mode == LocalLinkMode::Static {
        3
    } else {
        5
    }
}

/// `file` is the one looked for in the given place among the files of one name: first
/// the two import libraries, where they are looked for at all, then `.lib`, then the
/// two forms of `.a`.
pub open spec fn is_file_of_name(
    file: LibraryFileView,
    lib_dir: Seq<char>,
    name: Seq<char>,
    mode: LocalLinkMode,
    f: int,
) -> bool {
    let place = if mode == LocalLinkMode::Static {
        f + 2
    } else {
        f
    };
    &&& file.lib_dir == lib_dir
    &&& file.link_name == name
    &&& file.suggested == LocalLinkKind::Dynamic <==> place < 2
    &&& place == 0 ==> file.file_name == "lib"@ + name + ".dll.a"@
    &&& place == 1 ==> file.file_name == name + ".dll.a"@
    &&& place == 2 ==> file.file_name == name + ".lib"@
    &&& place == 3 ==> file.file_name == "lib"@ + name + ".a"@
    &&& place == 4 ==> file.file_name == name + ".a"@
}

proof fn lemma_files_of_name(lib_dir: Seq<char>, name: Seq<char>, mode: LocalLinkMode, f: int)
    requires
        0 <= f < file_count(mode),
    ensures
        local::files_of_name(lib_dir, name, mode).len() == file_count(mode),
        is_file_of_name(local::files_of_name(lib_dir, name, mode)[f], lib_dir, name, mode, f),
{
    reveal_strlit("");
    assert(""@ + name =~= name);
}

proof fn lemma_file_count(lib_dir: Seq<char>, names: Seq<Seq<char>>, mode: LocalLinkMode)
    ensures
        local::files_in_dir(lib_dir, names, mode).len() == names.len() * file_count(mode),
    decreases names.len(),
{
    let count = file_count(mode);
    let n: int = names.len() as int;
    if n > 0 {
        lemma_file_count(lib_dir, names.drop_last(), mode);
        lemma_files_of_name(lib_dir, names.last(), mode, 0);
        assert((n - 1) * count + count == n * count) by (nonlinear_arith);
    } else {
        assert(n * count == 0) by (nonlinear_arith)
            requires
                n == 0,
        ;
    }
}

proof fn lemma_files_in_dir(
    lib_dir: Seq<char>,
    names: Seq<Seq<char>>,
    mode: LocalLinkMode,
    i: int,
    f: int,
)
    requires
        0 <= i < names.len(),
        0 <= f < file_count(mode),
    ensures
        0 <= i * file_count(mode) + f < names.len() * file_count(mode),
        is_file_of_name(
            local::files_in_dir(lib_dir, names, mode)[i * file_count(mode) + f],
            lib_dir,
            names[i],
            mode,
            f,
        ),
    decreases names.len(),
{
    let count = file_count(mode);
    let n: int = names.len() as int;
    let front = names.drop_last();
    let before = local::files_in_dir(lib_dir, front, mode);
    let more = local::files_of_name(lib_dir, names.last(), mode);
    let all = local::files_in_dir(lib_dir, names, mode);
    assert(all == before + more);
    lemma_file_count(lib_dir, front, mode);
    lemma_files_of_name(lib_dir, names.last(), mode, f);
    assert((n - 1) * count + count == n * count) by (nonlinear_arith);
    assert(0 <= i * count) by (nonlinear_arith)
        requires
            0 <= i,
            0 <= count,
    ;
    if i < n - 1 {
        lemma_files_in_dir(lib_dir, front, mode, i, f);
        assert(front[i] == names[i]);
        assert(all[i * count + f] == before[i * count + f]);
    } else {
        assert(i * count == (n - 1) * count);
        assert(all[i * count + f] == more[f]);
    }
}

/// The files of a tree: those in `lib`, then those in `lib64`; in each those of the
/// first name, then those of the next; under each name in the order of the forms of a
/// file name.
pub proof fn law_files_in_tree(names: Seq<Seq<char>>, mode: LocalLinkMode, d: int, i: int, f: int)
    requires
        0 <= d < 2,
        0 <= i < names.len(),
        0 <= f < file_count(mode),
    ensures
        local::files_in_tree(names, mode).len() == 2 * names.len() * file_count(mode),
        is_file_of_name(
            local::files_in_tree(names, mode)[(d * names.len() + i) * file_count(mode) + f],
            if d == 0 {
                "lib"@
            } else {
                "lib64"@
            },
            names[i],
            mode,
            f,
        ),
{
    let count = file_count(mode);
    let n: int = names.len() as int;
    lemma_file_count("lib"@, names, mode);
    lemma_file_count("lib64"@, names, mode);
    lemma_files_in_dir("lib"@, names, mode, i, f);
    lemma_files_in_dir("lib64"@, names, mode, i, f);
    let first = local::files_in_dir("lib"@, names, mode);
    let second = local::files_in_dir("lib64"@, names, mode);
    let all = local::files_in_tree(names, mode);
    assert(2 * n * count == n * count + n * count) by (nonlinear_arith);
    if d == 0 {
        assert((d * n + i) * count == i * count) by (nonlinear_arith)
            requires
                d == 0,
        ;
        assert(all[i * count + f] == first[i * count + f]);
    } else {
        assert((d * n + i) * count == n * count + i * count) by (nonlinear_arith)
            requires
                d == 1,
        ;
        assert(all[n * count + i * count + f] == second[i * count + f]);
    }
}

/// The files to look for, in the order in which they are looked for: see the law of
/// the files of a tree. There are no others.
pub proof fn law_library_files(
    names: &[&str],
    mode: LocalLinkMode,
    res: Vec<LibraryFile>,
    d: int,
    i: int,
    f: int,
)
    requires
        call_ensures(library_files, (names, mode), res),
        0 <= d < 2,
        0 <= i < names@.len(),
        0 <= f < file_count(mode),
    ensures
        res@.len() == 2 * names@.len() * file_count(mode),
        ({
            let file = res@[(d * names@.len() + i) * file_count(mode) + f];
            let place = if mode == LocalLinkMode::Static {
                f + 2
            } else {
                f
            };
            &&& file.lib_dir@ == (if d == 0 {
                "lib"@
            } else {
                "lib64"@
            })
            &&& file.link_name@ == names@[i]@
            &&& file.suggested == LocalLinkKind::Dynamic <==> place < 2
            &&& place == 0 ==> file.file_name@ == "lib"@ + names@[i]@ + ".dll.a"@
            &&& place == 1 ==> file.file_name@ == names@[i]@ + ".dll.a"@
            &&& place == 2 ==> file.file_name@ == names@[i]@ + ".lib"@
            &&& place == 3 ==> file.file_name@ == "lib"@ + names@[i]@ + ".a"@
            &&& place == 4 ==> file.file_name@ == names@[i]@ + ".a"@
        }),
{
    let texts = target::texts(names@);
    lemma_reads(names@, texts);
    law_files_in_tree(texts, mode, d, i, f);
    let count = file_count(mode);
    let n: int = names@.len() as int;
    let k: int = (d * n + i) * count + f;
    assert(0 <= k < 2 * n * count) by (nonlinear_arith)
        requires
            0 <= d < 2,
            0 <= i < n,
            0 <= f < count,
            k == (d * n + i) * count + f,
    ;
    assert(local::file_views(res@).len() == res@.len());
    assert(local::file_views(res@)[k] == res@[k]@);
}

/// A file's view has what the file has, and a list of views one for each file.
pub proof fn law_file_views(files: Seq<LibraryFile>, i: int)
    requires
        0 <= i < files.len(),
    ensures
        local::file_views(files).len() == files.len(),
        local::file_views(files)[i].lib_dir == files[i].lib_dir@,
        local::file_views(files)[i].file_name == files[i].file_name@,
        local::file_views(files)[i].link_name == files[i].link_name@,
        local::file_views(files)[i].suggested == files[i].suggested,
{
}

/// The answer can be given when it is asked whether the file is in the directory.
pub open spec fn said<E: Fn(&str, &str) -> bool>(
    asked: &E,
    dir: Seq<char>,
    file_name: Seq<char>,
    there: bool,
) -> bool {
    exists|d: &str, f: &str|
        d@ == dir && f@ == file_name && #[trigger] call_ensures(*asked, (d, f), there)
}

proof fn lemma_said<E: Fn(&str, &str) -> bool>(asked: &E)
    ensures
        forall|dir: Seq<char>, file: Seq<char>, there: bool| #[trigger]
            said(asked, dir, file, there) == local::answered(asked, dir, file, there),
{
    assert forall|dir: Seq<char>, file: Seq<char>, there: bool| #[trigger]
        said(asked, dir, file, there) == local::answered(asked, dir, file, there) by {
        if said(asked, dir, file, there) {
            let (d, f) = choose|d: &str, f: &str|
                d@ == dir && f@ == file && #[trigger] call_ensures(*asked, (d, f), there);
            assert(call_ensures(*asked, (d, f), there));
        }
        if local::answered(asked, dir, file, there) {
            let (d, f) = choose|d: &str, f: &str|
                d@ == dir && f@ == file && #[trigger] call_ensures(*asked, (d, f), there);
            assert(call_ensures(*asked, (d, f), there));
        }
    }
}

/// The file at `k` is there, and none of those before it is.
pub open spec fn is_first<E: Fn(&str, &str) -> bool>(
    asked: &E,
    files: Seq<LibraryFileView>,
    k: int,
) -> bool {
    &&& 0 <= k < files.len()
    &&& said(asked, files[k].lib_dir, files[k].file_name, true)
    &&& forall|j: int|
        0 <= j < k ==> said(asked, (#[trigger] files[j]).lib_dir, files[j].file_name, false)
}

/// The file is the first of the list that is there.
pub open spec fn is_first_file<E: Fn(&str, &str) -> bool>(
    asked: &E,
    files: Seq<LibraryFileView>,
    file: LibraryFileView,
) -> bool {
    exists|k: int| #[trigger] is_first(asked, files, k) && files[k] == file
}

/// Nothing is found exactly if every file was said not to be there; what is found was
/// said to be there, and everything before it not to be.
pub proof fn law_first_there<E: Fn(&str, &str) -> bool>(
    is_there: &E,
    files: Seq<LibraryFileView>,
    found: Option<LibraryFileView>,
)
    ensures
        local::first_there(is_there, files, found) <==> match found {
            Some(file) => is_first_file(is_there, files, file),
            None => forall|j: int|
                0 <= j < files.len() ==> said(
                    is_there,
                    (#[trigger] files[j]).lib_dir,
                    files[j].file_name,
                    false,
                ),
        },
{
    lemma_said(is_there);
    match found {
        Some(file) => {
            if local::first_there(is_there, files, found) {
                let k = choose|k: int|
                    0 <= k < files.len() && file == #[trigger] files[k] && local::answered(
                        is_there,
                        file.lib_dir,
                        file.file_name,
                        true,
                    ) && local::none_there(is_there, files.take(k));
                assert(said(is_there, files[k].lib_dir, files[k].file_name, true));
                assert forall|j: int| 0 <= j < k implies said(
                    is_there,
                    (#[trigger] files[j]).lib_dir,
                    files[j].file_name,
                    false,
                ) by {
                    assert(files.take(k)[j] == files[j]);
                }
                assert(is_first(is_there, files, k));
            }
            if exists|k: int| #[trigger] is_first(is_there, files, k) && files[k] == file {
                let k = choose|k: int| #[trigger] is_first(is_there, files, k) && files[k] == file;
                assert(said(is_there, files[k].lib_dir, files[k].file_name, true));
                assert forall|j: int| 0 <= j < files.take(k).len() implies local::answered(
                    is_there,
                    (#[trigger] files.take(k)[j]).lib_dir,
                    files.take(k)[j].file_name,
                    false,
                ) by {
                    assert(said(is_there, files[j].lib_dir, files[j].file_name, false));
                }
                assert(local::none_there(is_there, files.take(k)));
            }
        },
        None => {
            if local::first_there(is_there, files, found) {
                assert forall|j: int| 0 <= j < files.len() implies said(
                    is_there,
                    (#[trigger] files[j]).lib_dir,
                    files[j].file_name,
                    false,
                ) by {
                    assert(local::answered(is_there, files[j].lib_dir, files[j].file_name, false));
                }
            }
            if forall|j: int|
                0 <= j < files.len() ==> said(
                    is_there,
                    (#[trigger] files[j]).lib_dir,
                    files[j].file_name,
                    false,
                ) {
                assert forall|j: int| 0 <= j < files.len() implies local::answered(
                    is_there,
                    (#[trigger] files[j]).lib_dir,
                    files[j].file_name,
                    false,
                ) by {
                    assert(said(is_there, files[j].lib_dir, files[j].file_name, false));
                }
            }
        },
    }
}

/// A list of files may be looked for exactly if each may be asked for once all those
/// before it were said not to be there.
pub proof fn law_can_look_for<E: Fn(&str, &str) -> bool>(
    is_there: &E,
    files: Seq<LibraryFileView>,
)
    ensures
        local::can_look_for(is_there, files) <==> forall|i: int, dir: &str, file: &str|
            {
                &&& 0 <= i < files.len()
                &&& forall|j: int|
                    0 <= j < i ==> said(
                        is_there,
                        (#[trigger] files[j]).lib_dir,
                        files[j].file_name,
                        false,
                    )
                &&& dir@ == (#[trigger] files[i]).lib_dir
                &&& file@ == files[i].file_name
            } ==> #[trigger] call_requires(*is_there, (dir, file)),
{
    lemma_said(is_there);
    assert forall|i: int| 0 <= i < files.len() implies (local::none_there(
        is_there,
        #[trigger] files.take(i),
    ) <==> forall|j: int|
        0 <= j < i ==> said(
            is_there,
            (#[trigger] files[j]).lib_dir,
            files[j].file_name,
            false,
        )) by {
        let front = files.take(i);
        law_first_there(is_there, front, None);
        if local::none_there(is_there, front) {
            assert forall|j: int| 0 <= j < i implies said(
                is_there,
                (#[trigger] files[j]).lib_dir,
                files[j].file_name,
                false,
            ) by {
                assert(front[j] == files[j]);
            }
        }
    }
    if local::can_look_for(is_there, files) {
        assert forall|i: int, dir: &str, file: &str|
            {
                &&& 0 <= i < files.len()
                &&& forall|j: int|
                    0 <= j < i ==> said(
                        is_there,
                        (#[trigger] files[j]).lib_dir,
                        files[j].file_name,
                        false,
                    )
                &&& dir@ == (#[trigger] files[i]).lib_dir
                &&& file@ == files[i].file_name
            } implies #[trigger] call_requires(*is_there, (dir, file)) by {
            assert(local::none_there(is_there, files.take(i)));
        }
    } else {
        let (i, dir, file) = choose|i: int, dir: &str, file: &str|
            0 <= i < files.len() && local::none_there(is_there, files.take(i)) && dir@
                == (#[trigger] files[i]).lib_dir && file@ == files[i].file_name
                && !#[trigger] call_requires(*is_there, (dir, file));
        assert(local::none_there(is_there, files.take(i)));
    }
}

/// Looking for a library finds the first file of those to look for that is said to be
/// there, with its directory, name and kind, and nothing only if none is.
pub proof fn law_find_library<E: Fn(&str, &str) -> bool>(
    names: &[&str],
    mode: LocalLinkMode,
    is_there: &E,
    files: Vec<LibraryFile>,
    res: Option<LibraryFile>,
)
    requires
        call_ensures(library_files, (names, mode), files),
        call_ensures(find_library::<E>, (names, mode, is_there), res),
    ensures
        res matches Some(found) ==> exists|k: int|
            {
                &&& #[trigger] is_first(is_there, local::file_views(files@), k)
                &&& found.lib_dir@ == files@[k].lib_dir@
                &&& found.file_name@ == files@[k].file_name@
                &&& found.link_name@ == files@[k].link_name@
                &&& found.suggested == files@[k].suggested
            },
        res is None ==> forall|k: int|
            0 <= k < files@.len() ==> said(
                is_there,
                (#[trigger] files@[k]).lib_dir@,
                files@[k].file_name@,
                false,
            ),
{
    let views = local::file_views(files@);
    law_first_there(is_there, views, local::found_view(res));
    assert(views.len() == files@.len());
    if let Some(found) = res {
        let k = choose|k: int| #[trigger] is_first(is_there, views, k) && views[k] == found@;
        assert(views[k] == files@[k]@);
    } else {
        assert forall|k: int| 0 <= k < files@.len() implies said(
            is_there,
            (#[trigger] files@[k]).lib_dir@,
            files@[k].file_name@,
            false,
        ) by {
            assert(views[k] == files@[k]@);
        }
    }
}

/// Looking for the Media SDK is looking for a library by its two names.
pub proof fn law_find_mfx<E: Fn(&str, &str) -> bool>(
    names: &[&str],
    mode: LocalLinkMode,
    is_there: &E,
    files: Vec<LibraryFile>,
    res: Option<LibraryFile>,
)
    requires
        reads(names@, seq!["libmfx"@, "mfx"@]),
        call_ensures(library_files, (names, mode), files),
        call_ensures(find_mfx::<E>, (mode, is_there), res),
    ensures
        res matches Some(found) ==> exists|k: int|
            {
                &&& #[trigger] is_first(is_there, local::file_views(files@), k)
                &&& found.lib_dir@ == files@[k].lib_dir@
                &&& found.file_name@ == files@[k].file_name@
                &&& found.link_name@ == files@[k].link_name@
                &&& found.suggested == files@[k].suggested
            },
        res is None ==> forall|k: int|
            0 <= k < files@.len() ==> said(
                is_there,
                (#[trigger] files@[k]).lib_dir@,
                files@[k].file_name@,
                false,
            ),
{
    let views = local::file_views(files@);
    lemma_reads(names@, seq!["libmfx"@, "mfx"@]);
    law_first_there(is_there, views, local::found_view(res));
    assert(views.len() == files@.len());
    if let Some(found) = res {
        let k = choose|k: int| #[trigger] is_first(is_there, views, k) && views[k] == found@;
        assert(views[k] == files@[k]@);
    } else {
        assert forall|k: int| 0 <= k < files@.len() implies said(
            is_there,
            (#[trigger] files@[k]).lib_dir@,
            files@[k].file_name@,
            false,
        ) by {
            assert(views[k] == files@[k]@);
        }
    }
}

/// FFmpeg's headers: one for each of three libraries, in the directory of that library.
pub proof fn law_ffmpeg_headers(res: Vec<(&'static str, &'static str)>)
    requires
        call_ensures(ffmpeg_headers, (), res),
    ensures
        res@.len() == 3,
        res@[0].0@ == "libavcodec"@ && res@[0].1@ == "avcodec.h"@,
        res@[1].0@ == "libavformat"@ && res@[1].1@ == "avformat.h"@,
        res@[2].0@ == "libavutil"@ && res@[2].1@ == "avutil.h"@,
{
    let views = res@.map_values(|header: (&str, &str)| (header.0@, header.1@));
    assert(views.len() == res@.len());
    assert(views[0] == (res@[0].0@, res@[0].1@));
    assert(views[1] == (res@[1].0@, res@[1].1@));
    assert(views[2] == (res@[2].0@, res@[2].1@));
}

/// The names that each of FFmpeg's five libraries may have.
pub open spec fn ffmpeg_names(i: int) -> Seq<Seq<char>> {
    if i == 0 {
        seq!["avcodec"@]
    } else if i == 1 {
        seq!["avutil"@]
    } else if i == 2 {
        seq!["avformat"@]
    } else if i == 3 {
        seq!["swresample"@]
    } else {
        seq!["zlib"@, "zlibstatic"@, "libz"@, "z"@]
    }
}

/// What is found of FFmpeg are five files, the first that is there of each of its
/// libraries, and then all three headers are there. Nothing is found only if a header
/// is missing, or every file of one of the libraries.
pub proof fn law_find_ffmpeg<H: Fn(&str, &str) -> bool, E: Fn(&str, &str) -> bool>(
    mode: LocalLinkMode,
    has_header: &H,
    is_there: &E,
    res: Option<Vec<LibraryFile>>,
)
    requires
        call_ensures(find_ffmpeg::<H, E>, (mode, has_header, is_there), res),
    ensures
        res matches Some(found) ==> {
            &&& said(has_header, "libavcodec"@, "avcodec.h"@, true)
            &&& said(has_header, "libavformat"@, "avformat.h"@, true)
            &&& said(has_header, "libavutil"@, "avutil.h"@, true)
            &&& found@.len() == 5
            &&& forall|i: int|
                0 <= i < 5 ==> is_first_file(
                    is_there,
                    local::files_in_tree(ffmpeg_names(i), mode),
                    (#[trigger] found@[i])@,
                )
        },
        res is None ==> {
            ||| said(has_header, "libavcodec"@, "avcodec.h"@, false)
            ||| said(has_header, "libavformat"@, "avformat.h"@, false)
            ||| said(has_header, "libavutil"@, "avutil.h"@, false)
            ||| exists|i: int|
                0 <= i < 5 && forall|j: int|
                    0 <= j < local::files_in_tree(#[trigger] ffmpeg_names(i), mode).len() ==> said(
                        is_there,
                        (#[trigger] local::files_in_tree(ffmpeg_names(i), mode)[j]).lib_dir,
                        local::files_in_tree(ffmpeg_names(i), mode)[j].file_name,
                        false,
                    )
        },
{
    let headers = local::ffmpeg_header_texts();
    let libraries = local::ffmpeg_library_texts();
    assert forall|i: int| 0 <= i < 5 implies #[trigger] libraries[i] == ffmpeg_names(i) by {
        assert(libraries[i] =~= ffmpeg_names(i));
    }
    lemma_said(has_header);
    if let Some(found) = res {
        let views = local::file_views(found@);
        assert(views.len() == found@.len());
        assert(local::answered(has_header, headers[0].0, headers[0].1, true));
        assert(local::answered(has_header, headers[1].0, headers[1].1, true));
        assert(local::answered(has_header, headers[2].0, headers[2].1, true));
        assert(said(has_header, "libavcodec"@, "avcodec.h"@, true));
        assert(said(has_header, "libavformat"@, "avformat.h"@, true));
        assert(said(has_header, "libavutil"@, "avutil.h"@, true));
        assert forall|i: int| 0 <= i < 5 implies is_first_file(
            is_there,
            local::files_in_tree(ffmpeg_names(i), mode),
            (#[trigger] found@[i])@,
        ) by {
            assert(views[i] == found@[i]@);
            assert(local::first_there(
                is_there,
                local::files_in_tree(libraries[i], mode),
                Some(views[i]),
            ));
            law_first_there(
                is_there,
                local::files_in_tree(ffmpeg_names(i), mode),
                Some(found@[i]@),
            );
        }
    } else {
        if exists|i: int|
            0 <= i < headers.len() && local::answered(
                has_header,
                (#[trigger] headers[i]).0,
                headers[i].1,
                false,
            ) {
            let i = choose|i: int|
                0 <= i < headers.len() && local::answered(
                    has_header,
                    (#[trigger] headers[i]).0,
                    headers[i].1,
                    false,
                );
            assert(said(has_header, headers[i].0, headers[i].1, false));
            assert(i == 0 || i == 1 || i == 2);
        } else {
            let i = choose|i: int|
                0 <= i < libraries.len() && local::first_there(
                    is_there,
                    local::files_in_tree(#[trigger] libraries[i], mode),
                    None,
                );
            assert(libraries[i] == ffmpeg_names(i));
            law_first_there(is_there, local::files_in_tree(ffmpeg_names(i), mode), None);
        }
    }
}

/// FFmpeg and the Media SDK are each taken from the first tree that has them, and
/// nothing is taken if no tree has the one or no tree has the other.
pub proof fn law_select_trees<L, M, F: Fn(usize) -> Option<L>, G: Fn(usize) -> Option<M>>(
    count: usize,
    ffmpeg: F,
    mfx: G,
    res: Option<((usize, L), (usize, M))>,
)
    requires
        call_ensures(select_trees::<L, M, F, G>, (count, ffmpeg, mfx), res),
    ensures
        res matches Some(((i, libs), (j, lib))) ==> {
            &&& i < count
            &&& j < count
            &&& call_ensures(ffmpeg, (i,), Some(libs))
            &&& call_ensures(mfx, (j,), Some(lib))
            &&& forall|k: usize| k < i ==> #[trigger] call_ensures(ffmpeg, (k,), None)
            &&& forall|k: usize| k < j ==> #[trigger] call_ensures(mfx, (k,), None)
        },
        res is None ==> {
            ||| forall|k: usize| k < count ==> #[trigger] call_ensures(ffmpeg, (k,), None)
            ||| forall|k: usize| k < count ==> #[trigger] call_ensures(mfx, (k,), None)
        },
{
}

/// An item is appended exactly if `==` finds it nowhere in the list; nothing else
/// changes, and the list holds the item afterwards.
pub proof fn law_push_unique<T: PartialEq>(items: &mut Vec<T>, item: T, res: bool)
    requires
        call_ensures(push_unique::<T>, (items, item), res),
        T::obeys_eq_spec(),
    ensures
        res <==> forall|i: int|
            0 <= i < old(items)@.len() ==> !PartialEqSpec::eq_spec(
                &#[trigger] old(items)@[i],
                &item,
            ),
        !res ==> final(items)@ == old(items)@,
        res ==> {
            &&& final(items)@.len() == old(items)@.len() + 1
            &&& final(items)@.last() == item
            &&& forall|i: int|
                0 <= i < old(items)@.len() ==> #[trigger] final(items)@[i] == old(items)@[i]
        },
{
    let before = old(items)@;
    if !res {
        let i = choose|i: int|
            0 <= i < before.len() && PartialEqSpec::eq_spec(#[trigger] &before[i], &item);
        assert(PartialEqSpec::eq_spec(&before[i], &item));
    }
}

/// A way of linking is in the list exactly if some entry is that way.
pub proof fn law_any_linked(kinds: &[LocalLinkKind], kind: LocalLinkKind, res: bool)
    requires
        call_ensures(any_linked, (kinds, kind), res),
    ensures
        res <==> exists|i: int| 0 <= i < kinds@.len() && #[trigger] kinds@[i] == kind,
{
}

/// One word says whether all libraries are linked in one way, and in which, or some in
/// each; there is none exactly where there are no libraries.
pub proof fn law_link_summary(kinds: &[LocalLinkKind], res: Option<&'static str>)
    requires
        call_ensures(link_summary, (kinds,), res),
    ensures
        res is None <==> kinds@.len() == 0,
        res matches Some(word) ==> {
            &&& word@ == "static"@ <==> forall|i: int|
                0 <= i < kinds@.len() ==> #[trigger] kinds@[i] == LocalLinkKind::Static
            &&& word@ == "dynamic"@ <==> forall|i: int|
                0 <= i < kinds@.len() ==> #[trigger] kinds@[i] == LocalLinkKind::Dynamic
            &&& word@ == "static"@ || word@ == "dynamic"@ || word@ == "mixed"@
        },
{
    reveal_strlit("static");
    reveal_strlit("dynamic");
    reveal_strlit("mixed");
    assert("static"@.len() == 6 && "dynamic"@.len() == 7 && "mixed"@.len() == 5);
    if let Some(word) = res {
        assert(kinds@[0] == LocalLinkKind::Static || kinds@[0] == LocalLinkKind::Dynamic);
        assert(kinds@.contains(kinds@[0]));
        if !kinds@.contains(LocalLinkKind::Dynamic) {
            assert forall|i: int| 0 <= i < kinds@.len() implies #[trigger] kinds@[i]
                == LocalLinkKind::Static by {
                assert(kinds@.contains(kinds@[i]));
            }
        } else if !kinds@.contains(LocalLinkKind::Static) {
            assert forall|i: int| 0 <= i < kinds@.len() implies #[trigger] kinds@[i]
                == LocalLinkKind::Dynamic by {
                assert(kinds@.contains(kinds@[i]));
            }
        }
    }
}

/// What FFmpeg needs of Windows when it is linked statically.
pub proof fn law_static_ffmpeg_deps(res: Vec<&'static str>)
    requires
        call_ensures(static_ffmpeg_deps, (), res),
    ensures
        reads(res@, seq!["secur32"@, "ncrypt"@, "crypt32"@, "ws2_32"@]),
{
    lemma_reads(res@, seq!["secur32"@, "ncrypt"@, "crypt32"@, "ws2_32"@]);
}

} // verus!
