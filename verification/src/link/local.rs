//! Libraries that were built on this machine: which files to look for under a
//! directory tree, which of them to take, and how to link what was found.
use crate::link::names::{equal_folded, trim};
use crate::link::{names, target};
use vstd::prelude::*;
use vstd::std_specs::cmp::PartialEqSpec;

verus! {

/// How a library is linked.
#[derive(Clone, Copy, Debug, PartialEq, Eq, Structural)]
pub enum LocalLinkKind {
    Static,
    Dynamic,
}

/// How libraries are asked to be linked.
#[derive(Clone, Copy, Debug, PartialEq, Eq, Structural)]
pub enum LocalLinkMode {
    Auto,
    Static,
    Dynamic,
}

impl LocalLinkMode {
    /// The mode that a setting asks for; `None` if it is not a known one.
    pub open spec fn spec_parse(setting: Seq<char>) -> Option<LocalLinkMode> {
        let word = names::lower(names::trimmed(setting));
        if word == ""@ || word == "auto"@ {
            Some(LocalLinkMode::Auto)
        } else if word == "static"@ {
            Some(LocalLinkMode::Static)
        } else if word == "dynamic"@ || word == "dylib"@ || word == "shared"@ {
            Some(LocalLinkMode::Dynamic)
        } else {
            None
        }
    }

    /// The mode that a setting asks for, capitals, small letters and the white
    /// space around it ignored; `None` if it is not a known one.
    pub fn parse(setting: &str) -> (res: Option<LocalLinkMode>)
        ensures
            res == Self::spec_parse(setting@),
    {
        let word: &str = trim(setting);
        proof {
            reveal_strlit("");
            reveal_strlit("auto");
            reveal_strlit("static");
            reveal_strlit("dynamic");
            reveal_strlit("dylib");
            reveal_strlit("shared");
            assert(names::lower(""@) =~= ""@);
            assert(names::lower("auto"@) =~= "auto"@);
            assert(names::lower("static"@) =~= "static"@);
            assert(names::lower("dynamic"@) =~= "dynamic"@);
            assert(names::lower("dylib"@) =~= "dylib"@);
            assert(names::lower("shared"@) =~= "shared"@);
        }
        if equal_folded(word, "") || equal_folded(word, "auto") {
            Some(LocalLinkMode::Auto)
        } else if equal_folded(word, "static") {
            Some(LocalLinkMode::Static)
        } else if equal_folded(word, "dynamic") || equal_folded(word, "dylib") || equal_folded(
            word,
            "shared",
        ) {
            Some(LocalLinkMode::Dynamic)
        } else {
            None
        }
    }

    /// The mode for a setting that may be absent.
    pub open spec fn spec_of(setting: Option<Seq<char>>) -> Option<LocalLinkMode> {
        match setting {
            Some(setting) => Self::spec_parse(setting),
            None => Some(LocalLinkMode::Auto),
        }
    }

    /// The mode for a setting that may be absent; `None` if it is there and not a
    /// known one.
    pub fn of(setting: Option<&str>) -> (res: Option<LocalLinkMode>)
        ensures
            res == Self::spec_of(
                match setting {
                    Some(setting) => Some(setting@),
                    None => None,
                },
            ),
    {
        match setting {
            Some(setting) => Self::parse(setting),
            None => Some(LocalLinkMode::Auto),
        }
    }

    /// How a library is linked whose file suggests `suggested`. Left to choose,
    /// a library that comes with DLLs is linked dynamically.
    pub open spec fn spec_kind(
        self,
        suggested: LocalLinkKind,
        has_runtime: bool,
    ) -> LocalLinkKind {
        match self {
            LocalLinkMode::Static => LocalLinkKind::Static,
            LocalLinkMode::Dynamic => LocalLinkKind::Dynamic,
            LocalLinkMode::Auto => if has_runtime {
                LocalLinkKind::Dynamic
            } else {
                suggested
            },
        }
    }

    /// How a library is linked whose file suggests `suggested`. Left to choose,
    /// a library that comes with DLLs is linked dynamically.
    pub fn kind(self, suggested: LocalLinkKind, has_runtime: bool) -> (res: LocalLinkKind)
        ensures
            res == self.spec_kind(suggested, has_runtime),
    {
        match self {
            LocalLinkMode::Static => LocalLinkKind::Static,
            LocalLinkMode::Dynamic => LocalLinkKind::Dynamic,
            LocalLinkMode::Auto => {
                if suggested == LocalLinkKind::Dynamic || has_runtime {
                    LocalLinkKind::Dynamic
                } else {
                    LocalLinkKind::Static
                }
            },
        }
    }
}

/// A file that would be the library `link_name`, in the directory `lib_dir` of a
/// tree.
pub struct LibraryFile {
    pub lib_dir: &'static str,
    pub file_name: String,
    pub link_name: String,
    pub suggested: LocalLinkKind,
}

/// A [`LibraryFile`] with its strings as sequences of characters.
pub struct LibraryFileView {
    pub lib_dir: Seq<char>,
    pub file_name: Seq<char>,
    pub link_name: Seq<char>,
    pub suggested: LocalLinkKind,
}

impl View for LibraryFile {
    type V = LibraryFileView;

    open spec fn view(&self) -> LibraryFileView {
        LibraryFileView {
            lib_dir: self.lib_dir@,
            file_name: self.file_name@,
            link_name: self.link_name@,
            suggested: self.suggested,
        }
    }
}

/// The files of a list, each by its view.
pub open spec fn file_views(files: Seq<LibraryFile>) -> Seq<LibraryFileView> {
    files.map_values(|file: LibraryFile| file@)
}

/// The file `before`, name, `after` for the library `name`.
pub open spec fn file_for(
    lib_dir: Seq<char>,
    before: Seq<char>,
    name: Seq<char>,
    after: Seq<char>,
    suggested: LocalLinkKind,
) -> LibraryFileView {
    LibraryFileView { lib_dir, file_name: before + name + after, link_name: name, suggested }
}

/// The files that would be the library `name` in a directory, in the order in which
/// they are looked for: import libraries, unless only static ones are asked for,
/// then static libraries.
pub open spec fn files_of_name(
    lib_dir: Seq<char>,
    name: Seq<char>,
    mode: LocalLinkMode,
) -> Seq<LibraryFileView> {
    let dynamic = seq![
        file_for(lib_dir, "lib"@, name, ".dll.a"@, LocalLinkKind::Dynamic),
        file_for(lib_dir, ""@, name, ".dll.a"@, LocalLinkKind::Dynamic),
    ];
    let fixed = seq![
        file_for(lib_dir, ""@, name, ".lib"@, LocalLinkKind::Static),
        file_for(lib_dir, "lib"@, name, ".a"@, LocalLinkKind::Static),
        file_for(lib_dir, ""@, name, ".a"@, LocalLinkKind::Static),
    ];
    if mode == LocalLinkMode::Static {
        fixed
    } else {
        dynamic + fixed
    }
}

/// The files that would be a library with one of the names in a directory.
pub open spec fn files_in_dir(
    lib_dir: Seq<char>,
    names: Seq<Seq<char>>,
    mode: LocalLinkMode,
) -> Seq<LibraryFileView>
    decreases names.len(),
{
    if names.len() == 0 {
        Seq::empty()
    } else {
        files_in_dir(lib_dir, names.drop_last(), mode) + files_of_name(
            lib_dir,
            names.last(),
            mode,
        )
    }
}

/// The files that would be a library with one of the names in a tree, in the order
/// in which they are looked for.
pub open spec fn files_in_tree(names: Seq<Seq<char>>, mode: LocalLinkMode) -> Seq<
    LibraryFileView,
> {
    files_in_dir("lib"@, names, mode) + files_in_dir("lib64"@, names, mode)
}

fn push_file(
    files: &mut Vec<LibraryFile>,
    lib_dir: &'static str,
    before: &str,
    name: &str,
    after: &str,
    suggested: LocalLinkKind,
)
    ensures
        file_views(final(files)@) == file_views(old(files)@).push(
            file_for(lib_dir@, before@, name@, after@, suggested),
        ),
{
    let ghost earlier = file_views(files@);
    let mut file_name: String = before.to_owned();
    file_name.append(name);
    file_name.append(after);
    let file = LibraryFile { lib_dir, file_name, link_name: name.to_owned(), suggested };
    files.push(file);
    assert(file_views(files@) =~= earlier.push(file@));
}

fn push_files_of_name(
    files: &mut Vec<LibraryFile>,
    lib_dir: &'static str,
    name: &str,
    mode: LocalLinkMode,
)
    ensures
        file_views(final(files)@) == file_views(old(files)@) + files_of_name(
            lib_dir@,
            name@,
            mode,
        ),
{
    if mode != LocalLinkMode::Static {
        push_file(files, lib_dir, "lib", name, ".dll.a", LocalLinkKind::Dynamic);
        push_file(files, lib_dir, "", name, ".dll.a", LocalLinkKind::Dynamic);
    }
    push_file(files, lib_dir, "", name, ".lib", LocalLinkKind::Static);
    push_file(files, lib_dir, "lib", name, ".a", LocalLinkKind::Static);
    push_file(files, lib_dir, "", name, ".a", LocalLinkKind::Static);
}

fn push_files_in_dir(
    files: &mut Vec<LibraryFile>,
    lib_dir: &'static str,
    names: &[&str],
    mode: LocalLinkMode,
)
    ensures
        file_views(final(files)@) == file_views(old(files)@) + files_in_dir(
            lib_dir@,
            target::texts(names@),
            mode,
        ),
{
    let ghost earlier = file_views(files@);
    let ghost texts = target::texts(names@);
    assert(texts.take(0) =~= Seq::empty());
    let mut i: usize = 0;
    while i < names.len()
        invariant
            i <= names@.len(),
            texts == target::texts(names@),
            file_views(files@) == earlier + files_in_dir(lib_dir@, texts.take(i as int), mode),
        decreases names@.len() - i,
    {
        push_files_of_name(files, lib_dir, names[i], mode);
        assert(texts.take(i + 1).drop_last() =~= texts.take(i as int));
        assert(file_views(files@) =~= earlier + files_in_dir(lib_dir@, texts.take(i + 1), mode));
        i = i + 1;
    }
    assert(texts.take(i as int) =~= texts);
}

/// The files that would be a library with one of the names in a tree, in the order
/// in which they are looked for.
pub fn library_files(names: &[&str], mode: LocalLinkMode) -> (res: Vec<LibraryFile>)
    ensures
        file_views(res@) == files_in_tree(target::texts(names@), mode),
{
    let mut files: Vec<LibraryFile> = Vec::new();
    assert(file_views(files@) =~= Seq::empty());
    push_files_in_dir(&mut files, "lib", names, mode);
    push_files_in_dir(&mut files, "lib64", names, mode);
    files
}

/// `is_there` says of the file, when asked, that it is there, or that it is not.
pub open spec fn answered<E: Fn(&str, &str) -> bool>(
    is_there: &E,
    dir: Seq<char>,
    file_name: Seq<char>,
    there: bool,
) -> bool {
    exists|d: &str, f: &str|
        d@ == dir && f@ == file_name && #[trigger] call_ensures(*is_there, (d, f), there)
}

/// `found` is the first of the files that is there, `None` if none is.
pub open spec fn first_there<E: Fn(&str, &str) -> bool>(
    is_there: &E,
    files: Seq<LibraryFileView>,
    found: Option<LibraryFileView>,
) -> bool {
    match found {
        Some(file) => exists|i: int|
            0 <= i < files.len() && file == #[trigger] files[i] && answered(
                is_there,
                file.lib_dir,
                file.file_name,
                true,
            ) && none_there(is_there, files.take(i)),
        None => none_there(is_there, files),
    }
}

/// None of the files is there.
pub open spec fn none_there<E: Fn(&str, &str) -> bool>(
    is_there: &E,
    files: Seq<LibraryFileView>,
) -> bool {
    forall|i: int|
        0 <= i < files.len() ==> answered(
            is_there,
            (#[trigger] files[i]).lib_dir,
            files[i].file_name,
            false,
        )
}

/// `is_there` takes each of the files, as long as none before it is there.
pub open spec fn can_look_for<E: Fn(&str, &str) -> bool>(
    is_there: &E,
    files: Seq<LibraryFileView>,
) -> bool {
    forall|i: int, dir: &str, file: &str|
        0 <= i < files.len() && none_there(is_there, files.take(i)) && dir@
            == (#[trigger] files[i]).lib_dir && file@ == files[i].file_name
            ==> #[trigger] call_requires(*is_there, (dir, file))
}

/// The view of what was found.
pub open spec fn found_view(found: Option<LibraryFile>) -> Option<LibraryFileView> {
    match found {
        Some(file) => Some(file@),
        None => None,
    }
}

/// Looks for a library with one of the names in a tree, up to the first file that is
/// there. `is_there` says whether there is a file of a name in one of the tree's
/// directories.
pub fn find_library<E: Fn(&str, &str) -> bool>(
    names: &[&str],
    mode: LocalLinkMode,
    is_there: &E,
) -> (res: Option<LibraryFile>)
    requires
        can_look_for(is_there, files_in_tree(target::texts(names@), mode)),
    ensures
        first_there(
            is_there,
            files_in_tree(target::texts(names@), mode),
            found_view(res),
        ),
{
    let files: Vec<LibraryFile> = library_files(names, mode);
    let ghost all = files@;
    let ghost views = file_views(all);
    for file in it: files
        invariant
            it.seq() == all,
            views == file_views(all),
            views == files_in_tree(target::texts(names@), mode),
            can_look_for(is_there, views),
            none_there(is_there, views.take(it.index())),
    {
        let ghost n = it.index();
        assert(file@ == views[n]);
        let there: bool = is_there(file.lib_dir, file.file_name.as_str());
        assert(answered(is_there, file@.lib_dir, file@.file_name, there));
        if there {
            return Some(file);
        }
        assert forall|i: int| 0 <= i < views.take(n + 1).len() implies answered(
            is_there,
            (#[trigger] views.take(n + 1)[i]).lib_dir,
            views.take(n + 1)[i].file_name,
            false,
        ) by {
            if i < n {
                assert(views.take(n + 1)[i] == views.take(n)[i]);
            }
        }
    }
    assert(views.take(all.len() as int) =~= views);
    None
}

/// The header files, each with its directory, that FFmpeg's libraries come with.
pub open spec fn ffmpeg_header_texts() -> Seq<(Seq<char>, Seq<char>)> {
    seq![
        ("libavcodec"@, "avcodec.h"@),
        ("libavformat"@, "avformat.h"@),
        ("libavutil"@, "avutil.h"@),
    ]
}

/// The header files, each with its directory, that FFmpeg's libraries come with.
pub fn ffmpeg_headers() -> (res: Vec<(&'static str, &'static str)>)
    ensures
        res@.map_values(|header: (&str, &str)| (header.0@, header.1@)) == ffmpeg_header_texts(),
{
    let headers: Vec<(&'static str, &'static str)> = vec![
        ("libavcodec", "avcodec.h"),
        ("libavformat", "avformat.h"),
        ("libavutil", "avutil.h"),
    ];
    assert(headers@.map_values(|header: (&str, &str)| (header.0@, header.1@))
        =~= ffmpeg_header_texts());
    headers
}

/// The libraries of FFmpeg, each by the names it may have, in the order in which
/// they are linked.
pub open spec fn ffmpeg_library_texts() -> Seq<Seq<Seq<char>>> {
    seq![
        seq!["avcodec"@],
        seq!["avutil"@],
        seq!["avformat"@],
        seq!["swresample"@],
        seq!["zlib"@, "zlibstatic"@, "libz"@, "z"@],
    ]
}

/// The names that the Media SDK's library may have.
pub open spec fn mfx_texts() -> Seq<Seq<char>> {
    seq!["libmfx"@, "mfx"@]
}

/// The first `n` of FFmpeg's headers are there.
pub open spec fn headers_there<H: Fn(&str, &str) -> bool>(has_header: &H, n: int) -> bool {
    forall|i: int|
        0 <= i < n ==> answered(
            has_header,
            (#[trigger] ffmpeg_header_texts()[i]).0,
            ffmpeg_header_texts()[i].1,
            true,
        )
}

/// `has_header` takes each of FFmpeg's headers, as long as those before it are there.
pub open spec fn can_look_for_headers<H: Fn(&str, &str) -> bool>(has_header: &H) -> bool {
    forall|i: int, dir: &str, file: &str|
        0 <= i < ffmpeg_header_texts().len() && headers_there(has_header, i) && dir@
            == (#[trigger] ffmpeg_header_texts()[i]).0 && file@ == ffmpeg_header_texts()[i].1
            ==> #[trigger] call_requires(*has_header, (dir, file))
}

/// `found` is what there is of FFmpeg in a tree: all its libraries, provided that
/// all its headers are there, or nothing.
pub open spec fn ffmpeg_there<H: Fn(&str, &str) -> bool, E: Fn(&str, &str) -> bool>(
    has_header: &H,
    is_there: &E,
    mode: LocalLinkMode,
    found: Option<Seq<LibraryFileView>>,
) -> bool {
    match found {
        Some(files) => {
            &&& headers_there(has_header, ffmpeg_header_texts().len() as int)
            &&& files.len() == ffmpeg_library_texts().len()
            &&& forall|i: int|
                0 <= i < files.len() ==> first_there(
                    is_there,
                    files_in_tree(ffmpeg_library_texts()[i], mode),
                    Some(#[trigger] files[i]),
                )
        },
        None => {
            ||| exists|i: int|
                0 <= i < ffmpeg_header_texts().len() && answered(
                    has_header,
                    (#[trigger] ffmpeg_header_texts()[i]).0,
                    ffmpeg_header_texts()[i].1,
                    false,
                )
            ||| exists|i: int|
                0 <= i < ffmpeg_library_texts().len() && first_there(
                    is_there,
                    files_in_tree(#[trigger] ffmpeg_library_texts()[i], mode),
                    None,
                )
        },
    }
}

fn has_headers<H: Fn(&str, &str) -> bool>(has_header: &H) -> (res: bool)
    requires
        can_look_for_headers(has_header),
    ensures
        res ==> headers_there(has_header, ffmpeg_header_texts().len() as int),
        !res ==> exists|i: int|
            0 <= i < ffmpeg_header_texts().len() && answered(
                has_header,
                (#[trigger] ffmpeg_header_texts()[i]).0,
                ffmpeg_header_texts()[i].1,
                false,
            ),
{
    let headers: Vec<(&'static str, &'static str)> = ffmpeg_headers();
    let ghost views = headers@.map_values(|header: (&str, &str)| (header.0@, header.1@));
    let mut i: usize = 0;
    while i < headers.len()
        invariant
            i <= headers@.len(),
            views == headers@.map_values(|header: (&str, &str)| (header.0@, header.1@)),
            views == ffmpeg_header_texts(),
            can_look_for_headers(has_header),
            headers_there(has_header, i as int),
        decreases headers@.len() - i,
    {
        assert(views[i as int] == (headers@[i as int].0@, headers@[i as int].1@));
        let there: bool = has_header(headers[i].0, headers[i].1);
        assert(answered(has_header, views[i as int].0, views[i as int].1, there));
        if !there {
            return false;
        }
        i = i + 1;
    }
    true
}

/// Looks for FFmpeg in a tree: for all its headers, and if they are there for each of
/// its libraries.
/// `has_header` says whether there is a header file in a directory of the tree's
/// headers, `is_there` the same of the tree's library directories.
pub fn find_ffmpeg<H: Fn(&str, &str) -> bool, E: Fn(&str, &str) -> bool>(
    mode: LocalLinkMode,
    has_header: &H,
    is_there: &E,
) -> (res: Option<Vec<LibraryFile>>)
    requires
        can_look_for_headers(has_header),
        headers_there(has_header, ffmpeg_header_texts().len() as int) ==> forall|i: int|
            0 <= i < ffmpeg_library_texts().len() ==> can_look_for(
                is_there,
                files_in_tree(#[trigger] ffmpeg_library_texts()[i], mode),
            ),
    ensures
        ffmpeg_there(
            has_header,
            is_there,
            mode,
            match res {
                Some(files) => Some(file_views(files@)),
                None => None,
            },
        ),
{
    if !has_headers(has_header) {
        return None;
    }
    let wanted: Vec<Vec<&'static str>> = vec![
        vec!["avcodec"],
        vec!["avutil"],
        vec!["avformat"],
        vec!["swresample"],
        vec!["zlib", "zlibstatic", "libz", "z"],
    ];
    assert forall|i: int| 0 <= i < wanted@.len() implies target::texts(#[trigger] wanted@[i]@)
        == ffmpeg_library_texts()[i] by {
        assert(target::texts(wanted@[i]@) =~= ffmpeg_library_texts()[i]);
    }
    let mut files: Vec<LibraryFile> = Vec::new();
    let mut i: usize = 0;
    while i < wanted.len()
        invariant
            i <= wanted@.len(),
            wanted@.len() == ffmpeg_library_texts().len(),
            forall|j: int|
                0 <= j < wanted@.len() ==> target::texts(#[trigger] wanted@[j]@)
                    == ffmpeg_library_texts()[j],
            forall|j: int|
                0 <= j < ffmpeg_library_texts().len() ==> can_look_for(
                    is_there,
                    files_in_tree(#[trigger] ffmpeg_library_texts()[j], mode),
                ),
            files@.len() == i,
            forall|j: int|
                0 <= j < i ==> first_there(
                    is_there,
                    files_in_tree(ffmpeg_library_texts()[j], mode),
                    Some((#[trigger] files@[j])@),
                ),
        decreases wanted@.len() - i,
    {
        match find_library(wanted[i].as_slice(), mode, is_there) {
            Some(file) => {
                files.push(file);
            },
            None => {
                assert(first_there(
                    is_there,
                    files_in_tree(ffmpeg_library_texts()[i as int], mode),
                    None,
                ));
                return None;
            },
        }
        i = i + 1;
    }
    assert forall|j: int| 0 <= j < file_views(files@).len() implies first_there(
        is_there,
        files_in_tree(ffmpeg_library_texts()[j], mode),
        Some(#[trigger] file_views(files@)[j]),
    ) by {
        assert(file_views(files@)[j] == files@[j]@);
    }
    Some(files)
}

/// Looks for the Media SDK's library in a tree.
pub fn find_mfx<E: Fn(&str, &str) -> bool>(mode: LocalLinkMode, is_there: &E) -> (res: Option<
    LibraryFile,
>)
    requires
        can_look_for(is_there, files_in_tree(mfx_texts(), mode)),
    ensures
        first_there(is_there, files_in_tree(mfx_texts(), mode), found_view(res)),
{
    let names: Vec<&'static str> = vec!["libmfx", "mfx"];
    assert(target::texts(names@) =~= mfx_texts());
    find_library(names.as_slice(), mode, is_there)
}

/// `found` is what the first of `count` trees holds that holds anything, with the
/// number of that tree.
pub open spec fn first_tree<T, F: Fn(usize) -> Option<T>>(
    search: &F,
    count: usize,
    found: Option<(usize, T)>,
) -> bool {
    match found {
        Some((i, value)) => {
            &&& i < count
            &&& call_ensures(*search, (i,), Some(value))
            &&& forall|j: usize| j < i ==> #[trigger] call_ensures(*search, (j,), None)
        },
        None => forall|j: usize| j < count ==> #[trigger] call_ensures(*search, (j,), None),
    }
}

/// Goes through `count` trees for FFmpeg and for the Media SDK, each to be taken
/// from the first tree that has it, and not looked for in the trees behind that.
/// Both have to be found; they come with the numbers of their trees.
pub fn select_trees<
    L,
    M,
    F: Fn(usize) -> Option<L>,
    G: Fn(usize) -> Option<M>,
>(count: usize, ffmpeg: F, mfx: G) -> (res: Option<((usize, L), (usize, M))>)
    requires
        forall|i: usize|
            i < count && first_tree(&ffmpeg, i, None) ==> #[trigger] call_requires(ffmpeg, (i,)),
        forall|i: usize|
            i < count && first_tree(&mfx, i, None) ==> #[trigger] call_requires(mfx, (i,)),
    ensures
        match res {
            Some((libs, lib)) => first_tree(&ffmpeg, count, Some(libs)) && first_tree(
                &mfx,
                count,
                Some(lib),
            ),
            None => first_tree(&ffmpeg, count, None) || first_tree(&mfx, count, None),
        },
{
    let mut libs: Option<(usize, L)> = None;
    let mut lib: Option<(usize, M)> = None;
    let mut i: usize = 0;
    while i < count
        invariant
            i <= count,
            forall|j: usize|
                j < count && first_tree(&ffmpeg, j, None) ==> #[trigger] call_requires(
                    ffmpeg,
                    (j,),
                ),
            forall|j: usize|
                j < count && first_tree(&mfx, j, None) ==> #[trigger] call_requires(mfx, (j,)),
            first_tree(&ffmpeg, i, libs),
            first_tree(&mfx, i, lib),
        decreases count - i,
    {
        if libs.is_none() {
            if let Some(value) = ffmpeg(i) {
                libs = Some((i, value));
            }
        }
        if lib.is_none() {
            if let Some(value) = mfx(i) {
                lib = Some((i, value));
            }
        }
        i = i + 1;
    }
    match (libs, lib) {
        (Some(libs), Some(lib)) => Some((libs, lib)),
        _ => None,
    }
}

/// The list holds something that `==` takes to be `item`.
pub open spec fn holds<T: PartialEq>(items: Seq<T>, item: T) -> bool {
    exists|i: int|
        0 <= i < items.len() && PartialEqSpec::eq_spec(
            #[trigger] &items[i],
            &item,
        )
}

/// Appends `item` unless the list holds it, and says whether it did. What `==`
/// finds is known of types whose `==` has a specification.
pub fn push_unique<T: PartialEq>(items: &mut Vec<T>, item: T) -> (res: bool)
    ensures
        res ==> final(items)@ == old(items)@.push(item),
        !res ==> final(items)@ == old(items)@,
        T::obeys_eq_spec() ==> res == !holds(
            old(items)@,
            item,
        ),
{
    let mut i: usize = 0;
    while i < items.len()
        invariant
            i <= items@.len(),
            items@ == old(items)@,
            T::obeys_eq_spec() ==> forall|j: int|
                0 <= j < i ==> !PartialEqSpec::eq_spec(
                    #[trigger] &items@[j],
                    &item,
                ),
        decreases items@.len() - i,
    {
        if items[i] == item {
            return false;
        }
        i = i + 1;
    }
    items.push(item);
    true
}

/// No two items of the list are the same to `==`, the earlier one on the left.
pub open spec fn all_distinct<T: PartialEq>(items: Seq<T>) -> bool {
    forall|i: int, j: int|
        0 <= i < j < items.len() ==> !PartialEqSpec::eq_spec(
            &#[trigger] items[i],
            &#[trigger] items[j],
        )
}

/// A list of distinct items stays one when what it does not hold is appended.
pub proof fn law_appending_keeps_distinct<T: PartialEq>(items: Seq<T>, item: T)
    requires
        all_distinct(items),
        !holds(items, item),
    ensures
        all_distinct(items.push(item)),
{
    assert forall|i: int, j: int| 0 <= i < j < items.push(item).len() implies
        !PartialEqSpec::eq_spec(&#[trigger] items.push(item)[i], &#[trigger] items.push(item)[j]) by {
        assert(items.push(item)[i] == items[i]);
        if j < items.len() {
            assert(items.push(item)[j] == items[j]);
        } else {
            assert(!PartialEqSpec::eq_spec(&items[i], &item));
        }
    }
}

/// Some library of the list is linked in this way.
pub open spec fn some_linked(kinds: Seq<LocalLinkKind>, kind: LocalLinkKind) -> bool {
    kinds.contains(kind)
}

/// Some library of the list is linked in this way.
pub fn any_linked(kinds: &[LocalLinkKind], kind: LocalLinkKind) -> (res: bool)
    ensures
        res == some_linked(kinds@, kind),
{
    let mut i: usize = 0;
    while i < kinds.len()
        invariant
            i <= kinds@.len(),
            forall|j: int| 0 <= j < i ==> kinds@[j] != kind,
        decreases kinds@.len() - i,
    {
        if kinds[i] == kind {
            return true;
        }
        i = i + 1;
    }
    false
}

/// One word for how the libraries are linked; `None` if there are none.
pub fn link_summary(kinds: &[LocalLinkKind]) -> (res: Option<&'static str>)
    ensures
        res is None <==> kinds@.len() == 0,
        res matches Some(word) ==> word@ == if !some_linked(kinds@, LocalLinkKind::Dynamic) {
            "static"@
        } else if !some_linked(kinds@, LocalLinkKind::Static) {
            "dynamic"@
        } else {
            "mixed"@
        },
{
    let fixed: bool = any_linked(kinds, LocalLinkKind::Static);
    let dynamic: bool = any_linked(kinds, LocalLinkKind::Dynamic);
    proof {
        if kinds@.len() > 0 {
            assert(kinds@.contains(kinds@[0]));
        }
    }
    if fixed && dynamic {
        Some("mixed")
    } else if fixed {
        Some("static")
    } else if dynamic {
        Some("dynamic")
    } else {
        None
    }
}

/// The libraries of Windows that FFmpeg needs when it is linked statically.
pub fn static_ffmpeg_deps() -> (res: Vec<&'static str>)
    ensures
        target::texts(res@) == seq!["secur32"@, "ncrypt"@, "crypt32"@, "ws2_32"@],
{
    let libs: Vec<&'static str> = vec!["secur32", "ncrypt", "crypt32", "ws2_32"];
    assert(target::texts(libs@) =~= seq!["secur32"@, "ncrypt"@, "crypt32"@, "ws2_32"@]);
    libs
}

/// A library is linked statically if that is asked for, never if dynamic linking is
/// asked for; left to choose, only a library whose file suggests static linking and that comes
/// without DLLs is linked statically.
pub proof fn law_link_kind(mode: LocalLinkMode, suggested: LocalLinkKind, has_runtime: bool)
    ensures
        mode.spec_kind(suggested, has_runtime) == LocalLinkKind::Static <==> {
            ||| mode == LocalLinkMode::Static
            ||| mode == LocalLinkMode::Auto && suggested == LocalLinkKind::Static && !has_runtime
        },
{
}

/// Where static libraries are asked for, no other file is looked for.
pub proof fn law_static_mode_looks_for_static_files(names: Seq<Seq<char>>, i: int)
    requires
        0 <= i < files_in_tree(names, LocalLinkMode::Static).len(),
    ensures
        files_in_tree(names, LocalLinkMode::Static)[i].suggested == LocalLinkKind::Static,
{
    lemma_static_files("lib"@, names);
    lemma_static_files("lib64"@, names);
    let first = files_in_dir("lib"@, names, LocalLinkMode::Static);
    if i >= first.len() {
        assert(files_in_tree(names, LocalLinkMode::Static)[i] == files_in_dir(
            "lib64"@,
            names,
            LocalLinkMode::Static,
        )[i - first.len()]);
    }
}

proof fn lemma_static_files(lib_dir: Seq<char>, names: Seq<Seq<char>>)
    ensures
        forall|i: int|
            0 <= i < files_in_dir(lib_dir, names, LocalLinkMode::Static).len() ==> (
            #[trigger] files_in_dir(lib_dir, names, LocalLinkMode::Static)[i]).suggested
                == LocalLinkKind::Static,
    decreases names.len(),
{
    if names.len() > 0 {
        lemma_static_files(lib_dir, names.drop_last());
    }
}

} // verus!
