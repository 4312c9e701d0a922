//! How deeply the element values of an annotation table nest.
//!
//! An annotation table is a count and that many annotations; an annotation
//! is a type index, a count and that many (name index, element value)
//! pairs; an element value is a tag followed by a constant index (`B`, `C`,
//! `D`, `F`, `I`, `J`, `S`, `Z`, `s`, `c`), two indices (`e`), an
//! annotation (`@`) or a count and that many element values (`[`). Reading
//! stops at the first value that cannot be read. The depth of what is read
//! is the most `@` and `[` values met along one path, counted also on the
//! path where reading stops.

use vstd::prelude::*;

verus! {

/// The big-endian `u16` at `pos`.
pub open spec fn be_u16_at(s: Seq<u8>, pos: int) -> int {
    s[pos] as int * 256 + s[pos + 1] as int
}

/// A byte count moved on by `k`, if there is one.
pub open spec fn shifted(r: Option<int>, k: int) -> Option<int> {
    match r {
        Some(e) => Some(e + k),
        None => None,
    }
}

/// The larger of two depths.
pub open spec fn deeper(a: nat, b: nat) -> nat {
    if a >= b {
        a
    } else {
        b
    }
}

/// Whether an element value with this tag is a tag and one `u16`.
pub open spec fn is_index_tag(t: u8) -> bool {
    t == 0x42 || t == 0x43 || t == 0x44 || t == 0x46 || t == 0x49 || t == 0x4A || t == 0x53 || t == 0x5A
        || t == 0x73 || t == 0x63
}

/// Reading an element value at `pos`: the bytes it takes when it can be
/// read, and how deeply the values read nest.
pub open spec fn value_read(s: Seq<u8>, pos: int) -> (Option<int>, nat)
    decreases s.len() - pos, 0int,
{
    if pos < 0 || pos >= s.len() {
        (None, 0)
    } else if is_index_tag(s[pos]) {
        if pos + 3 <= s.len() {
            (Some(3), 0)
        } else {
            (None, 0)
        }
    } else if s[pos] == 0x65 {
        if pos + 5 <= s.len() {
            (Some(5), 0)
        } else {
            (None, 0)
        }
    } else if s[pos] == 0x40 {
        let (r, d) = annotation_read(s, pos + 1);
        (shifted(r, 1), d + 1)
    } else if s[pos] == 0x5B {
        if pos + 3 <= s.len() {
            let (r, d) = values_read(s, pos + 3, be_u16_at(s, pos + 1));
            (shifted(r, 3), d + 1)
        } else {
            (None, 1)
        }
    } else {
        (None, 0)
    }
}

/// Reading `n` element values in turn from `pos`.
pub open spec fn values_read(s: Seq<u8>, pos: int, n: int) -> (Option<int>, nat)
    decreases s.len() - pos, 1int,
{
    if n <= 0 {
        (Some(0), 0)
    } else {
        let (r1, d1) = value_read(s, pos);
        match r1 {
            Some(e) => if 1 <= e && pos + e <= s.len() {
                let (r2, d2) = values_read(s, pos + e, n - 1);
                (shifted(r2, e), deeper(d1, d2))
            } else {
                (None, d1)
            },
            None => (None, d1),
        }
    }
}

/// Reading `n` (name index, element value) pairs in turn from `pos`.
pub open spec fn pairs_read(s: Seq<u8>, pos: int, n: int) -> (Option<int>, nat)
    decreases s.len() - pos, 0int,
{
    if n <= 0 {
        (Some(0), 0)
    } else if pos < 0 || pos + 2 > s.len() {
        (None, 0)
    } else {
        let (r1, d1) = value_read(s, pos + 2);
        match r1 {
            Some(e) => if 1 <= e && pos + 2 + e <= s.len() {
                let (r2, d2) = pairs_read(s, pos + 2 + e, n - 1);
                (shifted(r2, 2 + e), deeper(d1, d2))
            } else {
                (None, d1)
            },
            None => (None, d1),
        }
    }
}

/// Reading an annotation at `pos`.
pub open spec fn annotation_read(s: Seq<u8>, pos: int) -> (Option<int>, nat)
    decreases s.len() - pos, 0int,
{
    if pos < 0 || pos + 4 > s.len() {
        (None, 0)
    } else {
        let (r, d) = pairs_read(s, pos + 4, be_u16_at(s, pos + 2));
        (shifted(r, 4), d)
    }
}

/// Reading `n` annotations in turn from `pos`.
pub open spec fn annotations_read(s: Seq<u8>, pos: int, n: int) -> (Option<int>, nat)
    decreases s.len() - pos, 1int,
{
    if n <= 0 {
        (Some(0), 0)
    } else {
        let (r1, d1) = annotation_read(s, pos);
        match r1 {
            Some(e) => if 1 <= e && pos + e <= s.len() {
                let (r2, d2) = annotations_read(s, pos + e, n - 1);
                (shifted(r2, e), deeper(d1, d2))
            } else {
                (None, d1)
            },
            None => (None, d1),
        }
    }
}

/// How deeply the element values of the annotation table `info` nest, as
/// far as it can be read.
pub open spec fn annotation_nesting(info: Seq<u8>) -> nat {
    if info.len() < 2 {
        0
    } else {
        annotations_read(info, 2, be_u16_at(info, 0)).1
    }
}

/// The deepest nesting of element values an annotation table may have to
/// be read: the outside reader recurses once per level, and no compiler
/// nests annotation values anywhere near this deep.
pub const MAX_NESTING: usize = 256;

/// A byte count of the executable code, as the specs count it.
pub open spec fn opt_int(r: Option<usize>) -> Option<int> {
    match r {
        Some(e) => Some(e as int),
        None => None,
    }
}

/// Whether an element value with tag `t` is a tag and one `u16`.
fn index_tag(t: u8) -> (r: bool)
    ensures
        r == is_index_tag(t),
{
    t == 0x42 || t == 0x43 || t == 0x44 || t == 0x46 || t == 0x49 || t == 0x4A || t == 0x53 || t == 0x5A
        || t == 0x73 || t == 0x63
}

/// Reads an element value at `pos`, going at most `budget` levels deeper:
/// whether its values nest deeper than `budget`, and otherwise the bytes it
/// takes.
fn value_depth(s: &[u8], pos: usize, budget: usize) -> (r: (Option<usize>, bool))
    requires
        pos <= s@.len(),
    ensures
        r.1 == (value_read(s@, pos as int).1 > budget),
        !r.1 ==> opt_int(r.0) == value_read(s@, pos as int).0,
        !r.1 ==> (r.0 matches Some(e) ==> e <= s@.len() - pos),
    decreases s@.len() - pos, 0int,
{
    if pos >= s.len() {
        return (None, false);
    }
    let t = s[pos];
    if index_tag(t) {
        if s.len() - pos >= 3 {
            (Some(3), false)
        } else {
            (None, false)
        }
    } else if t == 0x65 {
        if s.len() - pos >= 5 {
            (Some(5), false)
        } else {
            (None, false)
        }
    } else if t == 0x40 {
        if budget == 0 {
            return (None, true);
        }
        let (r, deep) = annotation_depth(s, pos + 1, budget - 1);
        if deep {
            (None, true)
        } else {
            match r {
                Some(e) => (Some(e + 1), false),
                None => (None, false),
            }
        }
    } else if t == 0x5B {
        if budget == 0 {
            return (None, true);
        }
        if s.len() - pos < 3 {
            return (None, false);
        }
        let n: usize = (s[pos + 1] as usize) * 256 + (s[pos + 2] as usize);
        let (r, deep) = values_depth(s, pos + 3, n, budget - 1);
        if deep {
            (None, true)
        } else {
            match r {
                Some(e) => (Some(e + 3), false),
                None => (None, false),
            }
        }
    } else {
        (None, false)
    }
}

/// Reads `n` element values in turn from `pos`, going at most `budget`
/// levels deeper.
fn values_depth(s: &[u8], pos: usize, n: usize, budget: usize) -> (r: (Option<usize>, bool))
    requires
        pos <= s@.len(),
    ensures
        r.1 == (values_read(s@, pos as int, n as int).1 > budget),
        !r.1 ==> opt_int(r.0) == values_read(s@, pos as int, n as int).0,
        !r.1 ==> (r.0 matches Some(e) ==> e <= s@.len() - pos),
    decreases s@.len() - pos, 1int,
{
    let mut p: usize = pos;
    let mut k: usize = n;
    let ghost mut m: nat = 0;
    while k > 0
        invariant
            pos <= p <= s@.len(),
            m <= budget,
            values_read(s@, pos as int, n as int) == (
                shifted(values_read(s@, p as int, k as int).0, p - pos),
                deeper(m, values_read(s@, p as int, k as int).1),
            ),
        decreases k,
    {
        let (r, deep) = value_depth(s, p, budget);
        if deep {
            return (None, true);
        }
        match r {
            Some(e) => {
                if e >= 1 && e <= s.len() - p {
                    proof {
                        m = deeper(m, value_read(s@, p as int).1);
                    }
                    p = p + e;
                    k = k - 1;
                } else {
                    return (None, false);
                }
            },
            None => {
                return (None, false);
            },
        }
    }
    (Some(p - pos), false)
}

/// Reads `n` (name index, element value) pairs in turn from `pos`, going
/// at most `budget` levels deeper.
fn pairs_depth(s: &[u8], pos: usize, n: usize, budget: usize) -> (r: (Option<usize>, bool))
    requires
        pos <= s@.len(),
    ensures
        r.1 == (pairs_read(s@, pos as int, n as int).1 > budget),
        !r.1 ==> opt_int(r.0) == pairs_read(s@, pos as int, n as int).0,
        !r.1 ==> (r.0 matches Some(e) ==> e <= s@.len() - pos),
    decreases s@.len() - pos, 0int,
{
    let mut p: usize = pos;
    let mut k: usize = n;
    let ghost mut m: nat = 0;
    while k > 0
        invariant
            pos <= p <= s@.len(),
            m <= budget,
            pairs_read(s@, pos as int, n as int) == (
                shifted(pairs_read(s@, p as int, k as int).0, p - pos),
                deeper(m, pairs_read(s@, p as int, k as int).1),
            ),
        decreases k,
    {
        if s.len() - p < 2 {
            return (None, false);
        }
        let (r, deep) = value_depth(s, p + 2, budget);
        if deep {
            return (None, true);
        }
        match r {
            Some(e) => {
                if e >= 1 && e <= s.len() - p - 2 {
                    proof {
                        m = deeper(m, value_read(s@, p + 2).1);
                    }
                    p = p + 2 + e;
                    k = k - 1;
                } else {
                    return (None, false);
                }
            },
            None => {
                return (None, false);
            },
        }
    }
    (Some(p - pos), false)
}

/// Reads an annotation at `pos`, going at most `budget` levels deeper.
fn annotation_depth(s: &[u8], pos: usize, budget: usize) -> (r: (Option<usize>, bool))
    requires
        pos <= s@.len(),
    ensures
        r.1 == (annotation_read(s@, pos as int).1 > budget),
        !r.1 ==> opt_int(r.0) == annotation_read(s@, pos as int).0,
        !r.1 ==> (r.0 matches Some(e) ==> e <= s@.len() - pos),
    decreases s@.len() - pos, 0int,
{
    if s.len() - pos < 4 {
        return (None, false);
    }
    let n: usize = (s[pos + 2] as usize) * 256 + (s[pos + 3] as usize);
    let (r, deep) = pairs_depth(s, pos + 4, n, budget);
    if deep {
        (None, true)
    } else {
        match r {
            Some(e) => (Some(e + 4), false),
            None => (None, false),
        }
    }
}

/// Reads `n` annotations in turn from `pos`, going at most `budget` levels
/// deeper.
fn annotations_depth(s: &[u8], pos: usize, n: usize, budget: usize) -> (r: (Option<usize>, bool))
    requires
        pos <= s@.len(),
    ensures
        r.1 == (annotations_read(s@, pos as int, n as int).1 > budget),
        !r.1 ==> opt_int(r.0) == annotations_read(s@, pos as int, n as int).0,
        !r.1 ==> (r.0 matches Some(e) ==> e <= s@.len() - pos),
    decreases s@.len() - pos, 1int,
{
    let mut p: usize = pos;
    let mut k: usize = n;
    let ghost mut m: nat = 0;
    while k > 0
        invariant
            pos <= p <= s@.len(),
            m <= budget,
            annotations_read(s@, pos as int, n as int) == (
                shifted(annotations_read(s@, p as int, k as int).0, p - pos),
                deeper(m, annotations_read(s@, p as int, k as int).1),
            ),
        decreases k,
    {
        let (r, deep) = annotation_depth(s, p, budget);
        if deep {
            return (None, true);
        }
        match r {
            Some(e) => {
                if e >= 1 && e <= s.len() - p {
                    proof {
                        m = deeper(m, annotation_read(s@, p as int).1);
                    }
                    p = p + e;
                    k = k - 1;
                } else {
                    return (None, false);
                }
            },
            None => {
                return (None, false);
            },
        }
    }
    (Some(p - pos), false)
}

/// Whether the element values of the annotation table `info` nest deeper
/// than `MAX_NESTING`. Its recursion goes no deeper than that bound.
pub fn nesting_exceeds(info: &[u8]) -> (r: bool)
    ensures
        r == (annotation_nesting(info@) > MAX_NESTING),
{
    if info.len() < 2 {
        return false;
    }
    let n: usize = (info[0] as usize) * 256 + (info[1] as usize);
    let (_, deep) = annotations_depth(info, 2, n, MAX_NESTING);
    deep
}

} // verus!
