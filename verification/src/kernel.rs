//! Detecting the version of a kernel image from what `file -b` or
//! `strings` print about it.

use vstd::prelude::*;

use crate::text::str_chars;

verus! {

/// Index of the first space of `s`, or its length if it has none.
pub open spec fn first_space(s: Seq<char>) -> nat
    decreases s.len(),
{
    if s.len() == 0 {
        0
    } else if s[0] == ' ' {
        0
    } else {
        1 + first_space(s.drop_first())
    }
}

/// `first_space` is the first space, or the end.
pub proof fn lemma_first_space(s: Seq<char>)
    ensures
        first_space(s) <= s.len(),
        first_space(s) < s.len() ==> s[first_space(s) as int] == ' ',
        forall|j: int| 0 <= j < first_space(s) ==> s[j] != ' ',
    decreases s.len(),
{
    if s.len() > 0 && s[0] != ' ' {
        lemma_first_space(s.drop_first());
        assert forall|j: int| 0 <= j < first_space(s) implies s[j] != ' ' by {
            if j > 0 {
                assert(s[j] == s.drop_first()[j - 1]);
            }
        }
    }
}

/// An index with no space before it that is a space or the end is the
/// first space.
pub proof fn lemma_first_space_unique(s: Seq<char>, k: int)
    requires
        0 <= k <= s.len(),
        k < s.len() ==> s[k] == ' ',
        forall|j: int| 0 <= j < k ==> s[j] != ' ',
    ensures
        first_space(s) == k,
    decreases s.len(),
{
    if s.len() > 0 && k > 0 {
        assert(s[0] != ' ');
        assert forall|j: int| 0 <= j < k - 1 implies s.drop_first()[j] != ' ' by {
            assert(s.drop_first()[j] == s[j + 1]);
        }
        if k - 1 < s.len() - 1 {
            assert(s.drop_first()[k - 1] == s[k]);
        }
        lemma_first_space_unique(s.drop_first(), k - 1);
    }
}

/// The first space-separated word of `s`.
pub open spec fn first_word(s: Seq<char>) -> Seq<char> {
    s.subrange(0, first_space(s) as int)
}

/// The word that follows the first word `version` among the words of `s`
/// separated by single spaces (the words may be empty), if there is one.
pub open spec fn version_after(s: Seq<char>) -> Option<Seq<char>>
    decreases s.len(),
{
    if first_space(s) >= s.len() {
        None
    } else if first_word(s) == "version"@ {
        Some(first_word(s.subrange(first_space(s) + 1int, s.len() as int)))
    } else {
        proof {
            lemma_first_space(s);
        }
        version_after(s.subrange(first_space(s) + 1int, s.len() as int))
    }
}

/// Index of the first space at or after `start`, or the length.
fn scan_space(c: &Vec<char>, start: usize) -> (end: usize)
    requires
        start <= c@.len(),
    ensures
        start <= end <= c@.len(),
        end - start == first_space(c@.subrange(start as int, c@.len() as int)),
{
    let mut end = start;
    while end < c.len() && c[end] != ' '
        invariant
            start <= end <= c@.len(),
            forall|j: int| start <= j < end ==> c@[j] != ' ',
        decreases c@.len() - end,
    {
        end = end + 1;
    }
    proof {
        let s = c@.subrange(start as int, c@.len() as int);
        assert forall|j: int| 0 <= j < end - start implies s[j] != ' ' by {
            assert(s[j] == c@[start + j]);
        }
        if end < c@.len() {
            assert(s[end - start] == c@[end as int]);
        }
        lemma_first_space_unique(s, end - start);
    }
    end
}

/// `c[start..end]` spells `version`.
fn is_version(c: &Vec<char>, start: usize, end: usize) -> (r: bool)
    requires
        start <= end <= c@.len(),
    ensures
        r == (c@.subrange(start as int, end as int) == "version"@),
{
    let v = str_chars("version");
    if end - start != v.len() {
        return false;
    }
    let mut i: usize = 0;
    while i < v.len()
        invariant
            v@ == "version"@,
            end - start == v@.len(),
            start <= end <= c@.len(),
            i <= v@.len(),
            forall|k: int| 0 <= k < i ==> c@[start + k] == v@[k],
        decreases v@.len() - i,
    {
        if c[start + i] != v[i] {
            assert(c@.subrange(start as int, end as int)[i as int] != v@[i as int]);
            return false;
        }
        i = i + 1;
    }
    assert(c@.subrange(start as int, end as int) =~= v@);
    true
}

/// The characters `c[start..end]` as a string.
fn collect(c: &Vec<char>, start: usize, end: usize) -> (s: String)
    requires
        start <= end <= c@.len(),
    ensures
        s@ == c@.subrange(start as int, end as int),
{
    let mut s = String::new();
    let mut i = start;
    while i < end
        invariant
            start <= i <= end <= c@.len(),
            s@ == c@.subrange(start as int, i as int),
        decreases end - i,
    {
        crate::text::push_char(&mut s, c[i]);
        assert(s@ =~= c@.subrange(start as int, i + 1));
        i = i + 1;
    }
    s
}

/// The word following the first word `version` in `text` (words are
/// separated by single spaces), if there is one.
pub fn extract_version(text: &str) -> (r: Option<String>)
    ensures
        match version_after(text@) {
            Some(w) => r matches Some(v) && v@ == w,
            None => r is None,
        },
{
    let c = str_chars(text);
    let mut start: usize = 0;
    assert(c@.subrange(0, c@.len() as int) =~= c@);
    loop
        invariant
            c@ == text@,
            start <= c@.len(),
            version_after(text@) == version_after(c@.subrange(start as int, c@.len() as int)),
        decreases c@.len() - start,
    {
        let ghost s = c@.subrange(start as int, c@.len() as int);
        let end = scan_space(&c, start);
        proof {
            lemma_first_space(s);
        }
        if end >= c.len() {
            return None;
        }
        assert(s.subrange(first_space(s) + 1int, s.len() as int) =~= c@.subrange(end + 1, c@.len() as int));
        assert(first_word(s) =~= c@.subrange(start as int, end as int));
        if is_version(&c, start, end) {
            let e2 = scan_space(&c, end + 1);
            let w = collect(&c, end + 1, e2);
            assert(first_word(c@.subrange(end + 1, c@.len() as int)) =~= c@.subrange(end + 1, e2 as int));
            return Some(w);
        }
        start = end + 1;
    }
}

/// What `file -b` says an image is.
#[derive(Clone, Copy, Debug, PartialEq, Eq, Structural)]
pub enum KernelFileKind {
    /// A Linux kernel image: the version is in the description
    LinuxKernel,
    /// An ELF binary: the version is among its strings
    Elf,
    /// Anything else: no version can be found
    Other,
}

/// `s` begins with `prefix`.
pub fn starts_with(s: &str, prefix: &str) -> (r: bool)
    ensures
        r == (prefix@.len() <= s@.len() && s@.subrange(0, prefix@.len() as int) == prefix@),
{
    let a = str_chars(s);
    let b = str_chars(prefix);
    if b.len() > a.len() {
        return false;
    }
    let mut i: usize = 0;
    while i < b.len()
        invariant
            a@ == s@,
            b@ == prefix@,
            b@.len() <= a@.len(),
            i <= b@.len(),
            forall|k: int| 0 <= k < i ==> a@[k] == b@[k],
        decreases b@.len() - i,
    {
        if a[i] != b[i] {
            assert(s@.subrange(0, prefix@.len() as int)[i as int] != prefix@[i as int]);
            return false;
        }
        i = i + 1;
    }
    assert(s@.subrange(0, prefix@.len() as int) =~= prefix@);
    true
}

/// `s` begins with `prefix` (as `str::starts_with`).
pub open spec fn has_prefix(s: Seq<char>, prefix: Seq<char>) -> bool {
    prefix.len() <= s.len() && s.subrange(0, prefix.len() as int) == prefix
}

/// Classifies the output of `file -b` for an image.
pub fn kernel_file_kind(file_output: &str) -> (k: KernelFileKind)
    ensures
        k == (if has_prefix(file_output@, "Linux kernel"@) {
            KernelFileKind::LinuxKernel
        } else if has_prefix(file_output@, "ELF"@) {
            KernelFileKind::Elf
        } else {
            KernelFileKind::Other
        }),
{
    if starts_with(file_output, "Linux kernel") {
        KernelFileKind::LinuxKernel
    } else if starts_with(file_output, "ELF") {
        KernelFileKind::Elf
    } else {
        KernelFileKind::Other
    }
}

/// The index of the first line beginning with `Linux version`, if any.
pub open spec fn first_version_line(lines: Seq<Seq<char>>) -> Option<int> {
    if exists|i: int| 0 <= i < lines.len() && has_prefix(#[trigger] lines[i], "Linux version"@) {
        Some(
            choose|i: int|
                0 <= i < lines.len() && has_prefix(#[trigger] lines[i], "Linux version"@) && forall|
                    j: int,
                | 0 <= j < i ==> !has_prefix(#[trigger] lines[j], "Linux version"@),
        )
    } else {
        None
    }
}

/// The version read from the strings of an ELF image: the word after
/// `version` on the first line that begins with `Linux version`.
pub fn version_from_strings(lines: &[String]) -> (r: Option<String>)
    ensures
        match first_version_line(lines@.map_values(|l: String| l@)) {
            Some(i) => match version_after(lines@[i]@) {
                Some(w) => r matches Some(v) && v@ == w,
                None => r is None,
            },
            None => r is None,
        },
{
    let ghost ls = lines@.map_values(|l: String| l@);
    let mut i: usize = 0;
    while i < lines.len()
        invariant
            i <= lines@.len(),
            ls == lines@.map_values(|l: String| l@),
            forall|j: int| 0 <= j < i ==> !has_prefix(#[trigger] ls[j], "Linux version"@),
        decreases lines@.len() - i,
    {
        if starts_with(lines[i].as_str(), "Linux version") {
            assert(ls[i as int] == lines@[i as int]@);
            assert(first_version_line(ls) == Some(i as int)) by {
                let w = choose|k: int|
                    0 <= k < ls.len() && has_prefix(#[trigger] ls[k], "Linux version"@) && forall|
                        j: int,
                    | 0 <= j < k ==> !has_prefix(#[trigger] ls[j], "Linux version"@);
                assert(has_prefix(ls[i as int], "Linux version"@));
                if w < i {
                    assert(!has_prefix(ls[w], "Linux version"@));
                } else if w > i {
                    assert(!has_prefix(ls[i as int], "Linux version"@));
                }
            }
            return extract_version(lines[i].as_str());
        }
        assert(ls[i as int] == lines@[i as int]@);
        i = i + 1;
    }
    assert(first_version_line(ls) is None);
    None
}

} // verus!
