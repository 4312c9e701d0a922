//! Archive entries as the library sees them, and the path rules applied to
//! entry names (final component, stem and extension, as `std::path::Path`
//! computes them for `/`-separated paths).

use vstd::prelude::*;

use crate::text::{owned, sub_string};

verus! {

/// A single entry of a ZIP archive.
#[derive(Debug, Clone, PartialEq, Eq)]
pub struct ZipEntry {
    /// Full path name within the archive.
    pub name: String,
    /// Whether the entry is a directory.
    pub is_dir: bool,
    /// Uncompressed size in bytes.
    pub size: u64,
    pub crc: u32,
}

impl ZipEntry {
    /// A file entry with the given name (size and checksum zero).
    pub fn file(name: &str) -> (r: Self)
        ensures
            r.name@ == name@,
            !r.is_dir,
            r.size == 0,
            r.crc == 0,
    {
        ZipEntry { name: owned(name), is_dir: false, size: 0, crc: 0 }
    }
}

/// The names of a sequence of entries.
pub open spec fn entry_names(v: Seq<ZipEntry>) -> Seq<Seq<char>> {
    v.map_values(|e: ZipEntry| e.name@)
}

/// The position of the last `c` in `s`, or -1 when there is none.
pub open spec fn last_index(s: Seq<char>, c: char) -> int
    decreases s.len(),
{
    if s.len() == 0 {
        -1
    } else if s.last() == c {
        s.len() - 1
    } else {
        last_index(s.drop_last(), c)
    }
}

/// `s` without its trailing slashes.
pub open spec fn strip_slashes(s: Seq<char>) -> Seq<char>
    decreases s.len(),
{
    if s.len() > 0 && s.last() == '/' {
        strip_slashes(s.drop_last())
    } else {
        s
    }
}

proof fn lemma_strip_slashes_len(s: Seq<char>)
    ensures
        strip_slashes(s).len() <= s.len(),
        strip_slashes(s) == s.take(strip_slashes(s).len() as int),
    decreases s.len(),
{
    if s.len() > 0 && s.last() == '/' {
        lemma_strip_slashes_len(s.drop_last());
        assert(s.drop_last().take(strip_slashes(s).len() as int) =~= s.take(
            strip_slashes(s).len() as int,
        ));
    } else {
        assert(s.take(s.len() as int) =~= s);
    }
}

proof fn lemma_last_index_bound(s: Seq<char>, c: char)
    ensures
        -1 <= last_index(s, c) < s.len(),
        last_index(s, c) >= 0 ==> s[last_index(s, c)] == c,
        forall|j: int| last_index(s, c) < j < s.len() ==> s[j] != c,
    decreases s.len(),
{
    if s.len() > 0 && s.last() != c {
        lemma_last_index_bound(s.drop_last(), c);
        assert forall|j: int| last_index(s, c) < j < s.len() implies s[j] != c by {
            if j < s.len() - 1 {
                assert(s.drop_last()[j] == s[j]);
            }
        }
    }
}

/// The final component of a `/`-separated path (`Path::file_name`):
/// empty and `.` components are skipped, and a final `..` has no name.
pub open spec fn file_name(s: Seq<char>) -> Option<Seq<char>>
    decreases s.len(),
{
    let e = strip_slashes(s);
    if e.len() == 0 || e.len() > s.len() {
        None
    } else {
        let k = last_index(e, '/');
        let seg = e.skip(k + 1);
        if seg == seq!['.'] {
            if k + 1 < 0 || k + 1 >= e.len() {
                None
            } else {
                file_name(e.take(k + 1))
            }
        } else if seg == seq!['.', '.'] {
            None
        } else {
            Some(seg)
        }
    }
}

/// The stem and extension of a file name (`Path::file_stem`, `Path::extension`):
/// the split happens at the last dot, unless that dot starts the name.
pub open spec fn split_at_dot(f: Seq<char>) -> (Seq<char>, Option<Seq<char>>) {
    let k = last_index(f, '.');
    if k <= 0 {
        (f, None)
    } else {
        (f.take(k), Some(f.skip(k + 1)))
    }
}

/// The extension of a path, if it has one.
pub open spec fn extension(s: Seq<char>) -> Option<Seq<char>> {
    match file_name(s) {
        Some(f) => split_at_dot(f).1,
        None => None,
    }
}

/// The stem of a path, or the empty text when the path has no file name.
pub open spec fn stem(s: Seq<char>) -> Seq<char> {
    match file_name(s) {
        Some(f) => split_at_dot(f).0,
        None => Seq::empty(),
    }
}

/// Whether `s` equals `lower` when ASCII letters are compared case-insensitively;
/// `upper` is `lower` in upper case.
pub open spec fn eq_ignore_case(s: Seq<char>, lower: Seq<char>, upper: Seq<char>) -> bool {
    s.len() == lower.len() && forall|i: int|
        0 <= i < s.len() ==> #[trigger] s[i] == lower[i] || s[i] == upper[i]
}

/// Whether the path's extension is `lower`/`upper` ignoring ASCII case.
pub open spec fn has_extension(s: Seq<char>, lower: Seq<char>, upper: Seq<char>) -> bool {
    match extension(s) {
        Some(e) => eq_ignore_case(e, lower, upper),
        None => false,
    }
}

/// The bounds of the final component of `s`, or `None` when it has none.
pub fn file_name_bounds(s: &[char]) -> (r: Option<(usize, usize)>)
    ensures
        match r {
            Some((a, b)) => a <= b <= s@.len() && file_name(s@) == Some(
                s@.subrange(a as int, b as int),
            ),
            None => file_name(s@) is None,
        },
{
    let mut end: usize = s.len();
    proof {
        assert(s@.take(end as int) =~= s@);
    }
    loop
        invariant
            end <= s@.len(),
            file_name(s@) == file_name(s@.take(end as int)),
        decreases end,
    {
        let ghost t = s@.take(end as int);
        let mut e = end;
        while e > 0 && s[e - 1] == '/'
            invariant
                e <= end <= s@.len(),
                t == s@.take(end as int),
                strip_slashes(t) == strip_slashes(s@.take(e as int)),
            decreases e,
        {
            proof {
                assert(s@.take(e as int).drop_last() =~= s@.take(e - 1));
            }
            e = e - 1;
        }
        proof {
            assert(strip_slashes(s@.take(e as int)) == s@.take(e as int));
            lemma_strip_slashes_len(t);
        }
        if e == 0 {
            return None;
        }
        let mut st = e;
        while st > 0 && s[st - 1] != '/'
            invariant
                st <= e <= s@.len(),
                forall|j: int| st <= j < e ==> s@[j] != '/',
            decreases st,
        {
            st = st - 1;
        }
        let ghost et = s@.take(e as int);
        proof {
            lemma_last_index_bound(et, '/');
            if st > 0 {
                assert(et[st - 1] == '/');
            }
            assert(last_index(et, '/') == st - 1);
            assert(et.skip(st as int) =~= s@.subrange(st as int, e as int));
        }
        let len = e - st;
        if len == 1 && s[st] == '.' {
            proof {
                assert(s@.subrange(st as int, e as int) =~= seq!['.']);
                assert(et.take(st as int) =~= s@.take(st as int));
            }
            if st == 0 {
                proof {
                    assert(et.take(0) =~= Seq::<char>::empty());
                    assert(file_name(Seq::<char>::empty()) is None);
                }
                return None;
            }
            end = st;
        } else if len == 2 && s[st] == '.' && s[st + 1] == '.' {
            proof {
                assert(s@.subrange(st as int, e as int) =~= seq!['.', '.']);
            }
            return None;
        } else {
            proof {
                if s@.subrange(st as int, e as int) == seq!['.'] {
                    assert(s@.subrange(st as int, e as int)[0] == '.');
                }
                if s@.subrange(st as int, e as int) == seq!['.', '.'] {
                    assert(s@.subrange(st as int, e as int)[1] == '.');
                }
            }
            return Some((st, e));
        }
    }
}

/// The position of the last `c` in `s`, if any.
pub fn rfind_char(s: &[char], c: char) -> (r: Option<usize>)
    ensures
        match r {
            Some(k) => last_index(s@, c) == k,
            None => last_index(s@, c) == -1,
        },
{
    let mut i: usize = s.len();
    proof {
        assert(s@.take(i as int) =~= s@);
    }
    while i > 0
        invariant
            i <= s@.len(),
            last_index(s@, c) == last_index(s@.take(i as int), c),
        decreases i,
    {
        if s[i - 1] == c {
            return Some(i - 1);
        }
        proof {
            assert(s@.take(i as int).drop_last() =~= s@.take(i - 1));
        }
        i = i - 1;
    }
    None
}

/// The bounds of the stem and of the extension of the file name at `s[a..b]`.
pub fn split_bounds(s: &[char], a: usize, b: usize) -> (r: (usize, Option<usize>))
    requires
        a <= b <= s@.len(),
    ensures
        r.0 <= b,
        a <= r.0,
        split_at_dot(s@.subrange(a as int, b as int)).0 == s@.subrange(a as int, r.0 as int),
        match r.1 {
            Some(x) => r.0 < x <= b && split_at_dot(s@.subrange(a as int, b as int)).1 == Some(
                s@.subrange(x as int, b as int),
            ),
            None => split_at_dot(s@.subrange(a as int, b as int)).1 is None && r.0 == b,
        },
{
    let f = &s[a..b];
    match rfind_char(f, '.') {
        Some(k) => {
            if k == 0 {
                (b, None)
            } else {
                proof {
                    lemma_last_index_bound(f@, '.');
                    assert(f@.take(k as int) =~= s@.subrange(a as int, a + k));
                    assert(f@.skip(k + 1) =~= s@.subrange(a + k + 1, b as int));
                }
                (a + k, Some(a + k + 1))
            }
        },
        None => (b, None),
    }
}

/// The extension of a path name, if any.
pub fn extension_of(name: &[char]) -> (r: Option<Vec<char>>)
    ensures
        match r {
            Some(e) => extension(name@) == Some(e@),
            None => extension(name@) is None,
        },
{
    match file_name_bounds(name) {
        Some((a, b)) => {
            let (_, x) = split_bounds(name, a, b);
            match x {
                Some(x) => Some(crate::text::slice_chars(name, x, b)),
                None => None,
            }
        },
        None => None,
    }
}

/// The stem of a path name (empty when it has no file name).
pub fn stem_of(name: &[char]) -> (r: Vec<char>)
    ensures
        r@ == stem(name@),
{
    match file_name_bounds(name) {
        Some((a, b)) => {
            let (st, _) = split_bounds(name, a, b);
            crate::text::slice_chars(name, a, st)
        },
        None => Vec::new(),
    }
}

/// The final component of a path name as a string, if any.
pub fn file_name_of(name: &[char]) -> (r: Option<String>)
    ensures
        match r {
            Some(f) => file_name(name@) == Some(f@),
            None => file_name(name@) is None,
        },
{
    match file_name_bounds(name) {
        Some((a, b)) => Some(sub_string(name, a, b)),
        None => None,
    }
}

/// Whether `s` equals `lower`/`upper` ignoring ASCII case.
pub fn eq_ci(s: &[char], lower: &[char], upper: &[char]) -> (r: bool)
    requires
        lower@.len() == upper@.len(),
    ensures
        r == eq_ignore_case(s@, lower@, upper@),
{
    if s.len() != lower.len() {
        return false;
    }
    let mut i: usize = 0;
    while i < s.len()
        invariant
            s@.len() == lower@.len() == upper@.len(),
            i <= s@.len(),
            forall|j: int| 0 <= j < i ==> #[trigger] s@[j] == lower@[j] || s@[j] == upper@[j],
        decreases s@.len() - i,
    {
        if s[i] != lower[i] && s[i] != upper[i] {
            return false;
        }
        i = i + 1;
    }
    true
}

/// Whether the path's extension is `lower`/`upper`, ignoring ASCII case.
pub fn has_extension_ci(name: &str, lower: &[char], upper: &[char]) -> (r: bool)
    requires
        lower@.len() == upper@.len(),
    ensures
        r == has_extension(name@, lower@, upper@),
{
    let chars = crate::text::chars_of(name);
    match extension_of(chars.as_slice()) {
        Some(e) => eq_ci(e.as_slice(), lower, upper),
        None => false,
    }
}

} // verus!
