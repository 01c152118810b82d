//! Laws of comparing and cutting names.
use crate::link::names;
use crate::link::names::{equal, equal_folded, is_runtime_dll, strip_lib, trim};
use vstd::prelude::*;

verus! {

/// One of the characters with Unicode's property `White_Space`.
pub open spec fn is_white(c: char) -> bool {
    ||| c == '\t' || c == '\n' || c == '\u{b}' || c == '\u{c}' || c == '\r' || c == ' '
    ||| c == '\u{85}' || c == '\u{a0}' || c == '\u{1680}'
    ||| c == '\u{2000}' || c == '\u{2001}' || c == '\u{2002}' || c == '\u{2003}'
    ||| c == '\u{2004}' || c == '\u{2005}' || c == '\u{2006}' || c == '\u{2007}'
    ||| c == '\u{2008}' || c == '\u{2009}' || c == '\u{200a}'
    ||| c == '\u{2028}' || c == '\u{2029}' || c == '\u{202f}' || c == '\u{205f}'
    ||| c == '\u{3000}'
}

proof fn lemma_white(c: char)
    ensures
        names::is_space(c) == is_white(c),
{
}

/// The text is cut at `from` and `to`: all that is cut off is white space, and what is
/// left neither begins nor ends with it.
pub open spec fn is_trimmed_at(s: Seq<char>, res: Seq<char>, from: int, to: int) -> bool {
    &&& 0 <= from <= to <= s.len()
    &&& res == s.subrange(from, to)
    &&& forall|i: int| 0 <= i < from ==> is_white(#[trigger] s[i])
    &&& forall|i: int| to <= i < s.len() ==> is_white(#[trigger] s[i])
    &&& from < to ==> !is_white(s[from]) && !is_white(s[to - 1])
}

/// Trimming cuts white space off at both ends of a text, all of it, and nothing else.
pub proof fn law_trim(s: &str, res: &str)
    requires
        call_ensures(trim, (s,), res),
    ensures
        exists|from: int, to: int| is_trimmed_at(s@, res@, from, to),
{
    lemma_trimmed(s@);
}

proof fn lemma_trimmed(s: Seq<char>)
    ensures
        exists|from: int, to: int| is_trimmed_at(s, names::trimmed(s), from, to),
{
    let from = lemma_trim_start(s);
    let rest = s.skip(from);
    let len = lemma_trim_end(rest);
    let to = from + len;
    assert(names::trimmed(s) == rest.take(len));
    assert(rest.take(len) =~= s.subrange(from, to));
    assert forall|i: int| to <= i < s.len() implies is_white(#[trigger] s[i]) by {
        assert(rest[i - from] == s[i]);
    }
    if from < to {
        assert(rest[0] == s[from]);
        assert(rest[len - 1] == s[to - 1]);
    }
    assert(is_trimmed_at(s, names::trimmed(s), from, to));
}

proof fn lemma_trim_start(s: Seq<char>) -> (from: int)
    ensures
        0 <= from <= s.len(),
        names::trim_start(s) == s.skip(from),
        forall|i: int| 0 <= i < from ==> is_white(#[trigger] s[i]),
        from < s.len() ==> !is_white(s[from]),
    decreases s.len(),
{
    if s.len() > 0 {
        lemma_white(s[0]);
    }
    if s.len() > 0 && names::is_space(s[0]) {
        let rest = s.skip(1);
        let more = lemma_trim_start(rest);
        assert(rest.skip(more) =~= s.skip(more + 1));
        assert forall|i: int| 0 <= i < more + 1 implies is_white(#[trigger] s[i]) by {
            if i > 0 {
                assert(rest[i - 1] == s[i]);
            }
        }
        more + 1
    } else {
        assert(s.skip(0) =~= s);
        0
    }
}

proof fn lemma_trim_end(s: Seq<char>) -> (to: int)
    ensures
        0 <= to <= s.len(),
        names::trim_end(s) == s.take(to),
        forall|i: int| to <= i < s.len() ==> is_white(#[trigger] s[i]),
        to > 0 ==> !is_white(s[to - 1]),
    decreases s.len(),
{
    if s.len() > 0 {
        lemma_white(s.last());
    }
    if s.len() > 0 && names::is_space(s.last()) {
        let rest = s.drop_last();
        let to = lemma_trim_end(rest);
        assert(rest.take(to) =~= s.take(to));
        assert forall|i: int| to <= i < s.len() implies is_white(#[trigger] s[i]) by {
            if i < rest.len() {
                assert(rest[i] == s[i]);
            }
        }
        to
    } else {
        assert(s.take(s.len() as int) =~= s);
        s.len() as int
    }
}

/// Two texts are equal exactly if they have the same characters in the same places.
pub proof fn law_equal(a: &str, b: &str, res: bool)
    requires
        call_ensures(equal, (a, b), res),
    ensures
        res <==> a@.len() == b@.len() && forall|i: int|
            0 <= i < a@.len() ==> #[trigger] a@[i] == b@[i],
{
    if a@.len() == b@.len() && forall|i: int| 0 <= i < a@.len() ==> #[trigger] a@[i] == b@[i] {
        assert(a@ =~= b@);
    }
}

/// The two are one character, or one letter from A to Z, once as a capital.
pub open spec fn same_letter(a: char, b: char) -> bool {
    ||| a == b
    ||| 'A' as int <= a as int <= 'Z' as int && b as int - 'a' as int == a as int - 'A' as int
    ||| 'A' as int <= b as int <= 'Z' as int && a as int - 'a' as int == b as int - 'A' as int
}

/// `part` stands in the text at `at`, capitals and small letters taken alike.
pub open spec fn stands_at(s: Seq<char>, at: int, part: Seq<char>) -> bool {
    &&& 0 <= at
    &&& at + part.len() <= s.len()
    &&& forall|i: int| 0 <= i < part.len() ==> same_letter(s[at + i], #[trigger] part[i])
}

/// The two texts are the same, capitals and small letters taken alike.
pub open spec fn same_word(a: Seq<char>, b: Seq<char>) -> bool {
    a.len() == b.len() && stands_at(a, 0, b)
}

proof fn lemma_same_letter(a: char, b: char)
    ensures
        names::lower_char(a) == names::lower_char(b) <==> same_letter(a, b),
{
}

proof fn lemma_stands_at(s: Seq<char>, at: int, part: Seq<char>)
    requires
        0 <= at,
        at + part.len() <= s.len(),
    ensures
        names::lower(s).subrange(at, at + part.len()) == names::lower(part) <==> stands_at(
            s,
            at,
            part,
        ),
{
    let low = names::lower(s).subrange(at, at + part.len());
    let low_part = names::lower(part);
    assert forall|i: int| 0 <= i < part.len() implies (#[trigger] low_part[i] == low[i])
        == same_letter(s[at + i], part[i]) by {
        lemma_same_letter(s[at + i], part[i]);
    }
    if low == low_part {
        assert forall|i: int| 0 <= i < part.len() implies same_letter(
            s[at + i],
            #[trigger] part[i],
        ) by {
            assert(low_part[i] == low[i]);
        }
    }
    if stands_at(s, at, part) {
        assert forall|i: int| 0 <= i < part.len() implies low[i] == low_part[i] by {
            assert(same_letter(s[at + i], part[i]));
        }
        assert(low =~= low_part);
    }
}

/// Texts that fold to one text are the same word.
pub(crate) proof fn lemma_same_word(a: Seq<char>, b: Seq<char>)
    ensures
        names::lower(a) == names::lower(b) <==> same_word(a, b),
{
    assert(names::lower(a).len() == a.len());
    assert(names::lower(b).len() == b.len());
    if a.len() == b.len() {
        assert(names::lower(a).subrange(0, b.len() as int) =~= names::lower(a));
        lemma_stands_at(a, 0, b);
    }
}

/// Two texts are equal up to capitals exactly if they have the same letters and other
/// characters in the same places.
pub proof fn law_equal_folded(a: &str, b: &str, res: bool)
    requires
        call_ensures(equal_folded, (a, b), res),
    ensures
        res <==> a@.len() == b@.len() && forall|i: int|
            0 <= i < a@.len() ==> same_letter(#[trigger] a@[i], b@[i]),
{
    lemma_same_word(a@, b@);
    if a@.len() == b@.len() && forall|i: int|
        0 <= i < a@.len() ==> same_letter(#[trigger] a@[i], b@[i]) {
        assert forall|i: int| 0 <= i < b@.len() implies same_letter(
            a@[0 + i],
            #[trigger] b@[i],
        ) by {
            assert(same_letter(a@[i], b@[i]));
        }
        assert(same_word(a@, b@));
    }
    if same_word(a@, b@) {
        assert forall|i: int| 0 <= i < a@.len() implies same_letter(#[trigger] a@[i], b@[i]) by {
            let other = b@[i];
            assert(same_letter(a@[0 + i], b@[i]));
        }
    }
}

/// The text begins with `lib`.
pub open spec fn begins_with_lib(s: Seq<char>) -> bool {
    s.len() >= 3 && s[0] == 'l' && s[1] == 'i' && s[2] == 'b'
}

/// `n` copies of `lib` stand before the rest, which does not begin with another.
pub open spec fn is_without_lib(s: Seq<char>, res: Seq<char>, n: int) -> bool {
    &&& 0 <= n
    &&& s.len() == 3 * n + res.len()
    &&& forall|i: int| 0 <= i < res.len() ==> #[trigger] res[i] == s[3 * n + i]
    &&& forall|k: int|
        0 <= k < n ==> #[trigger] s[3 * k] == 'l' && s[3 * k + 1] == 'i' && s[3 * k + 2] == 'b'
    &&& !begins_with_lib(res)
}

/// Every copy of `lib` at the start of a name is cut off, and nothing else.
pub proof fn law_strip_lib(s: &str, res: &str)
    requires
        call_ensures(strip_lib, (s,), res),
    ensures
        exists|n: int| is_without_lib(s@, res@, n),
{
    lemma_without_lib(s@);
}

proof fn lemma_without_lib(s: Seq<char>)
    ensures
        exists|n: int| is_without_lib(s, names::without_lib(s), n),
    decreases s.len(),
{
    let res = names::without_lib(s);
    if s.len() >= 3 {
        let head = s.take(3);
        if head == seq!['l', 'i', 'b'] {
            assert(head[0] == 'l' && head[1] == 'i' && head[2] == 'b');
        }
        if begins_with_lib(s) {
            assert(head =~= seq!['l', 'i', 'b']);
        }
    }
    if begins_with_lib(s) {
        let rest = s.skip(3);
        lemma_without_lib(rest);
        let n = choose|n: int| is_without_lib(rest, names::without_lib(rest), n);
        assert forall|i: int| 0 <= i < res.len() implies #[trigger] res[i]
            == s[3 * (n + 1) + i] by {
            assert(res[i] == rest[3 * n + i]);
        }
        assert forall|k: int| 0 <= k < n + 1 implies #[trigger] s[3 * k] == 'l' && s[3 * k + 1]
            == 'i' && s[3 * k + 2] == 'b' by {
            if k > 0 {
                let m = k - 1;
                assert(rest[3 * m] == 'l');
                assert(rest[3 * m] == s[3 * k]);
                assert(rest[3 * m + 1] == s[3 * k + 1]);
                assert(rest[3 * m + 2] == s[3 * k + 2]);
            }
        }
        assert(is_without_lib(s, res, n + 1));
    } else {
        assert(is_without_lib(s, res, 0));
    }
}

/// A file is a DLL of a library exactly if its name ends in `.dll` and begins with the
/// library's name, which may have `lib` before it; copies of `lib` at the start of the
/// library's name do not count, nor does it matter which letters are capitals.
pub proof fn law_is_runtime_dll(file_name: &str, library: &str, bare: &str, res: bool)
    requires
        call_ensures(is_runtime_dll, (file_name, library), res),
        call_ensures(strip_lib, (library,), bare),
    ensures
        res <==> {
            &&& stands_at(file_name@, file_name@.len() - 4, seq!['.', 'd', 'l', 'l'])
            &&& {
                ||| stands_at(file_name@, 0, bare@)
                ||| stands_at(file_name@, 0, seq!['l', 'i', 'b']) && stands_at(
                    file_name@,
                    3,
                    bare@,
                )
            }
        },
{
    let s = file_name@;
    let file = names::lower(s);
    let needle = names::lower(bare@);
    reveal_strlit(".dll");
    reveal_strlit("lib");
    assert(".dll"@ =~= seq!['.', 'd', 'l', 'l']);
    assert("lib"@ =~= seq!['l', 'i', 'b']);
    assert(names::lower(".dll"@) =~= ".dll"@);
    assert(names::lower("lib"@) =~= "lib"@);
    assert(file.len() == s.len());
    assert(needle.len() == bare@.len());
    if s.len() >= 4 {
        lemma_stands_at(s, s.len() - 4, ".dll"@);
        if ".dll"@.is_suffix_of(file) {
            assert(file.subrange(s.len() - 4, s.len() as int) =~= ".dll"@);
        }
        if file.subrange(s.len() - 4, s.len() as int) == ".dll"@ {
            assert(".dll"@.is_suffix_of(file));
        }
    }
    if bare@.len() <= s.len() {
        lemma_stands_at(s, 0, bare@);
        let head = file.subrange(0, needle.len() as int);
        if needle.is_prefix_of(file) {
            assert(head =~= needle);
        }
        if head == needle {
            assert(needle.is_prefix_of(file));
        }
    }
    let long = "lib"@ + needle;
    if bare@.len() + 3 <= s.len() {
        lemma_stands_at(s, 0, "lib"@);
        lemma_stands_at(s, 3, bare@);
        let first = file.subrange(0, 3);
        let second = file.subrange(3, 3 + needle.len() as int);
        let both = file.subrange(0, long.len() as int);
        assert(first + second =~= both);
        if long.is_prefix_of(file) {
            assert(both =~= long);
            assert(first =~= both.take(3));
            assert(long.take(3) =~= "lib"@);
            assert(second =~= both.skip(3));
            assert(long.skip(3) =~= needle);
        }
        if first == "lib"@ && second == needle {
            assert(both == long);
            assert(long.is_prefix_of(file));
        }
    }
}

} // verus!
