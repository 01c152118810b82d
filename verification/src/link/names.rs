//! Tests and changes on names, character by character.
use vstd::prelude::*;

verus! {

/// The characters that Unicode counts as white space.
pub open spec fn is_space(c: char) -> bool {
    let n = c as int;
    ||| 0x09 <= n <= 0x0d
    ||| n == 0x20
    ||| n == 0x85
    ||| n == 0xa0
    ||| n == 0x1680
    ||| 0x2000 <= n <= 0x200a
    ||| n == 0x2028
    ||| n == 0x2029
    ||| n == 0x202f
    ||| n == 0x205f
    ||| n == 0x3000
}

fn space(c: char) -> (res: bool)
    ensures
        res == is_space(c),
{
    let n: u32 = c as u32;
    (0x09 <= n && n <= 0x0d) || n == 0x20 || n == 0x85 || n == 0xa0 || n == 0x1680 || (0x2000 <= n
        && n <= 0x200a) || n == 0x2028 || n == 0x2029 || n == 0x202f || n == 0x205f || n == 0x3000
}

/// The text without the white space at its start.
pub open spec fn trim_start(s: Seq<char>) -> Seq<char>
    decreases s.len(),
{
    if s.len() > 0 && is_space(s[0]) {
        trim_start(s.skip(1))
    } else {
        s
    }
}

/// The text without the white space at its end.
pub open spec fn trim_end(s: Seq<char>) -> Seq<char>
    decreases s.len(),
{
    if s.len() > 0 && is_space(s.last()) {
        trim_end(s.drop_last())
    } else {
        s
    }
}

/// The text without the white space at its start and end.
pub open spec fn trimmed(s: Seq<char>) -> Seq<char> {
    trim_end(trim_start(s))
}

/// The text without the white space at its start and end.
pub fn trim(s: &str) -> (res: &str)
    ensures
        res@ == trimmed(s@),
{
    let len: usize = s.unicode_len();
    let mut from: usize = 0;
    assert(s@.skip(0) =~= s@);
    while from < len && space(s.get_char(from))
        invariant
            from <= len,
            len == s@.len(),
            trim_start(s@) == trim_start(s@.skip(from as int)),
        decreases len - from,
    {
        assert(s@.skip(from as int).skip(1) =~= s@.skip(from + 1));
        from = from + 1;
    }
    assert(trim_start(s@) == s@.skip(from as int));
    let mut to: usize = len;
    assert(s@.subrange(from as int, len as int) =~= s@.skip(from as int));
    while from < to && space(s.get_char(to - 1))
        invariant
            from <= to <= len,
            len == s@.len(),
            trimmed(s@) == trim_end(s@.subrange(from as int, to as int)),
        decreases to - from,
    {
        assert(s@.subrange(from as int, to as int).drop_last() =~= s@.subrange(
            from as int,
            to - 1,
        ));
        to = to - 1;
    }
    s.substring_char(from, to)
}

/// The two texts are the same.
pub fn equal(a: &str, b: &str) -> (res: bool)
    ensures
        res <==> a@ == b@,
{
    let len: usize = a.unicode_len();
    if len != b.unicode_len() {
        return false;
    }
    let mut i: usize = 0;
    while i < len
        invariant
            i <= len,
            len == a@.len(),
            len == b@.len(),
            forall|j: int| 0 <= j < i ==> a@[j] == b@[j],
        decreases len - i,
    {
        if a.get_char(i) != b.get_char(i) {
            return false;
        }
        i = i + 1;
    }
    assert(a@ =~= b@);
    true
}

/// The small letter of an ASCII capital; any other character as it is.
pub open spec fn lower_char(c: char) -> char {
    if 'A' as int <= c as int <= 'Z' as int {
        (c as int + 32) as char
    } else {
        c
    }
}

/// The text with small letters for ASCII capitals.
pub open spec fn lower(s: Seq<char>) -> Seq<char> {
    s.map_values(|c: char| lower_char(c))
}

fn lower_code(c: char) -> (res: u32)
    ensures
        res == lower_char(c) as u32,
{
    let n: u32 = c as u32;
    if 65 <= n && n <= 90 {
        n + 32
    } else {
        n
    }
}

/// The part of `s` that begins at `at` is `part`, capitals and small letters taken
/// alike.
fn is_at(s: &str, at: usize, part: &str) -> (res: bool)
    requires
        at <= s@.len(),
    ensures
        res <==> at + part@.len() <= s@.len() && lower(s@).subrange(at as int, at + part@.len())
            == lower(part@),
{
    let len: usize = s.unicode_len();
    let part_len: usize = part.unicode_len();
    if len - at < part_len {
        return false;
    }
    let mut i: usize = 0;
    while i < part_len
        invariant
            i <= part_len,
            part_len == part@.len(),
            at + part_len <= s@.len(),
            at + part_len <= len,
            forall|j: int| 0 <= j < i ==> lower(s@)[at + j] == #[trigger] lower(part@)[j],
        decreases part_len - i,
    {
        if lower_code(s.get_char(at + i)) != lower_code(part.get_char(i)) {
            assert(lower(s@).subrange(at as int, at + part@.len())[i as int] != lower(
                part@,
            )[i as int]);
            return false;
        }
        i = i + 1;
    }
    assert(lower(s@).subrange(at as int, at + part@.len()) =~= lower(part@));
    true
}

/// The two texts are the same, capitals and small letters taken alike.
pub fn equal_folded(a: &str, b: &str) -> (res: bool)
    ensures
        res <==> lower(a@) == lower(b@),
{
    assert(lower(a@).subrange(0, lower(a@).len() as int) =~= lower(a@));
    assert(lower(a@).len() == a@.len());
    assert(lower(b@).len() == b@.len());
    a.unicode_len() == b.unicode_len() && is_at(a, 0, b)
}

/// The text without as many copies of `lib` as it begins with.
pub open spec fn without_lib(s: Seq<char>) -> Seq<char>
    decreases s.len(),
{
    if s.len() >= 3 && s.take(3) == seq!['l', 'i', 'b'] {
        without_lib(s.skip(3))
    } else {
        s
    }
}

/// The text without as many copies of `lib` as it begins with.
pub fn strip_lib(s: &str) -> (res: &str)
    ensures
        res@ == without_lib(s@),
{
    let len: usize = s.unicode_len();
    let mut from: usize = 0;
    assert(s@.skip(0) =~= s@);
    while len - from >= 3 && s.get_char(from) == 'l' && s.get_char(from + 1) == 'i' && s.get_char(
        from + 2,
    ) == 'b'
        invariant
            from <= len,
            len == s@.len(),
            without_lib(s@) == without_lib(s@.skip(from as int)),
        decreases len - from,
    {
        assert(s@.skip(from as int).take(3) =~= seq!['l', 'i', 'b']);
        assert(s@.skip(from as int).skip(3) =~= s@.skip(from + 3));
        from = from + 3;
    }
    proof {
        let rest = s@.skip(from as int);
        if rest.len() >= 3 && rest.take(3) == seq!['l', 'i', 'b'] {
            assert(rest.take(3)[0] == 'l' && rest.take(3)[1] == 'i' && rest.take(3)[2] == 'b');
        }
    }
    let res: &str = s.substring_char(from, len);
    assert(res@ =~= s@.skip(from as int));
    res
}

/// A file of this name is a DLL of the library: it ends in `.dll` and begins with
/// the library's name, with or without `lib`. Capitals and small letters are taken
/// alike.
pub open spec fn names_runtime_dll(file_name: Seq<char>, library: Seq<char>) -> bool {
    let file = lower(file_name);
    let needle = lower(without_lib(library));
    &&& ".dll"@.is_suffix_of(file)
    &&& needle.is_prefix_of(file) || ("lib"@ + needle).is_prefix_of(file)
}

/// A file of this name is a DLL of the library.
pub fn is_runtime_dll(file_name: &str, library: &str) -> (res: bool)
    ensures
        res == names_runtime_dll(file_name@, library@),
{
    let needle: &str = strip_lib(library);
    let len: usize = file_name.unicode_len();
    let ghost file = lower(file_name@);
    let ghost wanted = lower(needle@);
    proof {
        reveal_strlit(".dll");
        reveal_strlit("lib");
        assert(lower(".dll"@) =~= ".dll"@);
        assert(lower("lib"@) =~= "lib"@);
        assert(file.len() == file_name@.len());
        assert(wanted.len() == needle@.len());
    }
    if len < 4 || !is_at(file_name, len - 4, ".dll") {
        return false;
    }
    if is_at(file_name, 0, needle) {
        assert(wanted.is_prefix_of(file));
        return true;
    }
    assert(!wanted.is_prefix_of(file)) by {
        if wanted.is_prefix_of(file) {
            assert(file.subrange(0, wanted.len() as int) =~= wanted);
        }
    }
    let both: bool = is_at(file_name, 0, "lib") && len >= 3 && is_at(file_name, 3, needle);
    let ghost long = "lib"@ + wanted;
    proof {
        if both {
            assert forall|j: int| 0 <= j < long.len() implies long[j] == #[trigger] file[j] by {
                if j < 3 {
                    assert(file.subrange(0, 3)[j] == "lib"@[j]);
                } else {
                    assert(file.subrange(3, 3 + wanted.len() as int)[j - 3] == wanted[j - 3]);
                }
            }
            assert(long =~= file.subrange(0, long.len() as int));
        }
        if long.is_prefix_of(file) {
            assert(long =~= file.subrange(0, long.len() as int));
            assert(file.subrange(0, 3) =~= "lib"@) by {
                assert forall|j: int| 0 <= j < 3 implies file[j] == #[trigger] "lib"@[j] by {
                    assert(long[j] == file.subrange(0, long.len() as int)[j]);
                }
            }
            assert(file.subrange(3, 3 + wanted.len() as int) =~= wanted) by {
                assert forall|j: int| 0 <= j < wanted.len() implies file[3 + j]
                    == #[trigger] wanted[j] by {
                    assert(long[3 + j] == file.subrange(0, long.len() as int)[3 + j]);
                }
            }
        }
    }
    both
}

} // verus!
