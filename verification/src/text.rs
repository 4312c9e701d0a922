//! Character-level helpers shared by the formatting and parsing code.
//!
//! Text is handled as `Seq<char>` in specifications and as `Vec<char>` or
//! `String` in executable code.

use vstd::prelude::*;

verus! {

/// Unicode `White_Space`, the set that `char::is_whitespace` tests.
pub open spec fn is_ws(c: char) -> bool {
    ||| ('\u{9}' <= c && c <= '\u{d}')
    ||| c == ' '
    ||| c == '\u{85}'
    ||| c == '\u{a0}'
    ||| c == '\u{1680}'
    ||| ('\u{2000}' <= c && c <= '\u{200a}')
    ||| c == '\u{2028}'
    ||| c == '\u{2029}'
    ||| c == '\u{202f}'
    ||| c == '\u{205f}'
    ||| c == '\u{3000}'
}

/// `s` without its leading whitespace.
pub open spec fn trim_start(s: Seq<char>) -> Seq<char>
    decreases s.len(),
{
    if s.len() > 0 && is_ws(s[0]) {
        trim_start(s.drop_first())
    } else {
        s
    }
}

/// `s` without its trailing whitespace.
pub open spec fn trim_end(s: Seq<char>) -> Seq<char>
    decreases s.len(),
{
    if s.len() > 0 && is_ws(s.last()) {
        trim_end(s.drop_last())
    } else {
        s
    }
}

/// `s` without leading and trailing whitespace (`str::trim`).
pub open spec fn trim(s: Seq<char>) -> Seq<char> {
    trim_end(trim_start(s))
}

/// `s` without any leading repetitions of `c` (`str::trim_start_matches`).
pub open spec fn strip_all_start(s: Seq<char>, c: char) -> Seq<char>
    decreases s.len(),
{
    if s.len() > 0 && s[0] == c {
        strip_all_start(s.drop_first(), c)
    } else {
        s
    }
}

/// `s` without any trailing repetitions of `c` (`str::trim_end_matches`).
pub open spec fn strip_all_end(s: Seq<char>, c: char) -> Seq<char>
    decreases s.len(),
{
    if s.len() > 0 && s.last() == c {
        strip_all_end(s.drop_last(), c)
    } else {
        s
    }
}

/// Whether `s` begins with `p`.
pub open spec fn starts_with(s: Seq<char>, p: Seq<char>) -> bool {
    p.len() <= s.len() && s.take(p.len() as int) == p
}

/// The position of the first `c` in `s`, or -1 when there is none.
pub open spec fn first_index(s: Seq<char>, c: char) -> int
    decreases s.len(),
{
    if s.len() == 0 {
        -1
    } else if s[0] == c {
        0
    } else {
        let r = first_index(s.drop_first(), c);
        if r < 0 {
            -1
        } else {
            r + 1
        }
    }
}

/// Whether `needle` occurs in `hay` as a contiguous run (`str::contains`).
pub open spec fn contains_seq(hay: Seq<char>, needle: Seq<char>) -> bool {
    exists|i: int|
        0 <= i && i + needle.len() <= hay.len() && #[trigger] hay.subrange(i, i + needle.len())
            == needle
}

/// The decimal digit for `d` (which is below ten).
pub open spec fn digit(d: nat) -> char {
    if d == 0 {
        '0'
    } else if d == 1 {
        '1'
    } else if d == 2 {
        '2'
    } else if d == 3 {
        '3'
    } else if d == 4 {
        '4'
    } else if d == 5 {
        '5'
    } else if d == 6 {
        '6'
    } else if d == 7 {
        '7'
    } else if d == 8 {
        '8'
    } else {
        '9'
    }
}

/// The decimal representation of `n`, without leading zeros.
pub open spec fn decimal(n: nat) -> Seq<char>
    decreases n,
{
    if n < 10 {
        seq![digit(n)]
    } else {
        decimal(n / 10).push(digit(n % 10))
    }
}

/// Concatenation of `items` with `sep` between consecutive items (`join`).
pub open spec fn join(items: Seq<Seq<char>>, sep: Seq<char>) -> Seq<char>
    decreases items.len(),
{
    if items.len() == 0 {
        Seq::empty()
    } else if items.len() == 1 {
        items[0]
    } else {
        join(items.drop_last(), sep) + sep + items.last()
    }
}

/// The characters of the strings in `v`.
pub open spec fn views(v: Seq<String>) -> Seq<Seq<char>> {
    v.map_values(|s: String| s@)
}

/// Characters of an optional string.
pub open spec fn opt_view(o: Option<String>) -> Option<Seq<char>> {
    match o {
        Some(s) => Some(s@),
        None => None,
    }
}

/// Appends one character to a string (`String::push`).
#[verifier::external_body]
pub(crate) fn push_char(s: &mut String, c: char)
    ensures
        final(s)@ == old(s)@.push(c),
{
    s.push(c);
}

/// Appends a string slice to a string.
pub fn push_str(s: &mut String, t: &str)
    ensures
        final(s)@ == old(s)@ + t@,
{
    s.append(t);
}

/// A new string holding the characters of `t`.
pub fn owned(t: &str) -> (r: String)
    ensures
        r@ == t@,
{
    t.to_string()
}

/// The characters of a string slice, in order.
pub fn chars_of(s: &str) -> (r: Vec<char>)
    ensures
        r@ == s@,
{
    let mut out: Vec<char> = Vec::new();
    for c in it: s.chars()
        invariant
            it.seq() == s@,
            out@ == it.seq().take(it.index() as int),
    {
        out.push(c);
    }
    out
}

/// A string holding exactly the given characters.
pub fn string_of(v: &[char]) -> (r: String)
    ensures
        r@ == v@,
{
    let mut out = String::new();
    let mut i: usize = 0;
    while i < v.len()
        invariant
            i <= v@.len(),
            out@ == v@.take(i as int),
        decreases v@.len() - i,
    {
        push_char(&mut out, v[i]);
        proof {
            assert(v@.take(i as int).push(v@[i as int]) =~= v@.take(i + 1));
        }
        i = i + 1;
    }
    proof {
        assert(v@.take(v@.len() as int) =~= v@);
    }
    out
}

/// The characters `v[from..to]` as a new vector.
pub fn slice_chars(v: &[char], from: usize, to: usize) -> (r: Vec<char>)
    requires
        from <= to <= v@.len(),
    ensures
        r@ == v@.subrange(from as int, to as int),
{
    let mut out: Vec<char> = Vec::new();
    let mut i: usize = from;
    while i < to
        invariant
            from <= i <= to <= v@.len(),
            out@ == v@.subrange(from as int, i as int),
        decreases to - i,
    {
        out.push(v[i]);
        proof {
            assert(v@.subrange(from as int, i as int).push(v@[i as int]) =~= v@.subrange(
                from as int,
                i + 1,
            ));
        }
        i = i + 1;
    }
    out
}

/// The string `v[from..to]`.
pub fn sub_string(v: &[char], from: usize, to: usize) -> (r: String)
    requires
        from <= to <= v@.len(),
    ensures
        r@ == v@.subrange(from as int, to as int),
{
    let w = slice_chars(v, from, to);
    string_of(w.as_slice())
}

/// Whether two character sequences are equal.
pub fn chars_eq(a: &[char], b: &[char]) -> (r: bool)
    ensures
        r == (a@ == b@),
{
    if a.len() != b.len() {
        return false;
    }
    let mut i: usize = 0;
    while i < a.len()
        invariant
            a@.len() == b@.len(),
            i <= a@.len(),
            forall|j: int| 0 <= j < i ==> a@[j] == b@[j],
        decreases a@.len() - i,
    {
        if a[i] != b[i] {
            return false;
        }
        i = i + 1;
    }
    proof {
        assert(a@ =~= b@);
    }
    true
}

/// Whether two strings hold the same characters.
pub fn str_eq(a: &str, b: &str) -> (r: bool)
    ensures
        r == (a@ == b@),
{
    let x = chars_of(a);
    let y = chars_of(b);
    chars_eq(x.as_slice(), y.as_slice())
}

/// Whether `s[at..]` begins with `p`.
pub fn has_at(s: &[char], at: usize, p: &[char]) -> (r: bool)
    requires
        at <= s@.len(),
    ensures
        r == (at + p@.len() <= s@.len() && s@.subrange(at as int, at + p@.len()) == p@),
{
    if p.len() > s.len() - at {
        return false;
    }
    let mut i: usize = 0;
    while i < p.len()
        invariant
            at + p@.len() <= s@.len(),
            s@.len() == s.len(),
            i <= p@.len(),
            forall|j: int| 0 <= j < i ==> s@[at + j] == p@[j],
        decreases p@.len() - i,
    {
        if s[at + i] != p[i] {
            proof {
                assert(s@.subrange(at as int, at + p@.len())[i as int] != p@[i as int]);
            }
            return false;
        }
        i = i + 1;
    }
    proof {
        assert(s@.subrange(at as int, at + p@.len()) =~= p@);
    }
    true
}

/// Whether `s` begins with `p`.
pub fn has_prefix(s: &[char], p: &[char]) -> (r: bool)
    ensures
        r == starts_with(s@, p@),
{
    let r = has_at(s, 0, p);
    proof {
        assert(s@.take(p@.len() as int) == s@.subrange(0, p@.len() as int));
    }
    r
}

/// Whether `needle` occurs in `hay` (`str::contains`).
pub fn contains(hay: &[char], needle: &[char]) -> (r: bool)
    ensures
        r == contains_seq(hay@, needle@),
{
    if needle.len() > hay.len() {
        return false;
    }
    let last = hay.len() - needle.len();
    let mut i: usize = 0;
    loop
        invariant
            last + needle@.len() == hay@.len(),
            i <= last,
            forall|j: int|
                0 <= j < i ==> #[trigger] hay@.subrange(j, j + needle@.len()) != needle@,
        decreases last - i,
    {
        if has_at(hay, i, needle) {
            return true;
        }
        if i == last {
            return false;
        }
        i = i + 1;
    }
}

/// The position of the first `c` in `s`, if any.
pub fn find_char(s: &[char], c: char) -> (r: Option<usize>)
    ensures
        match r {
            Some(i) => first_index(s@, c) == i && i < s@.len() && s@[i as int] == c,
            None => first_index(s@, c) == -1,
        },
{
    let mut i: usize = 0;
    while i < s.len()
        invariant
            i <= s@.len(),
            forall|j: int| 0 <= j < i ==> s@[j] != c,
        decreases s@.len() - i,
    {
        if s[i] == c {
            proof {
                lemma_first_index(s@, c, i as int);
            }
            return Some(i);
        }
        i = i + 1;
    }
    proof {
        lemma_first_index(s@, c, s@.len() as int);
    }
    None
}

/// `first_index` is the position of the first occurrence.
pub proof fn lemma_first_index(s: Seq<char>, c: char, i: int)
    requires
        0 <= i <= s.len(),
        forall|j: int| 0 <= j < i ==> s[j] != c,
        i < s.len() ==> s[i] == c,
    ensures
        first_index(s, c) == if i < s.len() {
            i
        } else {
            -1
        },
    decreases s.len(),
{
    if s.len() > 0 && i > 0 {
        assert forall|j: int| 0 <= j < i - 1 implies s.drop_first()[j] != c by {
            assert(s.drop_first()[j] == s[j + 1]);
        }
        lemma_first_index(s.drop_first(), c, i - 1);
    }
}

/// A sequence holds `c` when its first element is `c` or the rest holds it.
proof fn lemma_contains_first(s: Seq<char>, c: char)
    requires
        s.len() > 0,
    ensures
        s.contains(c) <==> (s[0] == c || s.drop_first().contains(c)),
{
    if s.contains(c) && s[0] != c {
        let i = choose|i: int| 0 <= i < s.len() && s[i] == c;
        assert(s.drop_first()[i - 1] == c);
    }
    if s.drop_first().contains(c) {
        let i = choose|i: int| 0 <= i < s.drop_first().len() && s.drop_first()[i] == c;
        assert(s[i + 1] == c);
    }
    if s[0] == c {
        assert(s[0] == c);
    }
}

/// A sequence holds `c` when its last element is `c` or the rest holds it.
proof fn lemma_contains_last(s: Seq<char>, c: char)
    requires
        s.len() > 0,
    ensures
        s.contains(c) <==> (s.last() == c || s.drop_last().contains(c)),
{
    if s.contains(c) && s.last() != c {
        let i = choose|i: int| 0 <= i < s.len() && s[i] == c;
        assert(s.drop_last()[i] == c);
    }
    if s.drop_last().contains(c) {
        let i = choose|i: int| 0 <= i < s.drop_last().len() && s.drop_last()[i] == c;
        assert(s[i] == c);
    }
    if s.last() == c {
        assert(s[s.len() - 1] == c);
    }
}

/// `first_index` finds `c` exactly when `s` holds it.
pub proof fn lemma_first_index_found(s: Seq<char>, c: char)
    ensures
        first_index(s, c) >= 0 <==> s.contains(c),
    decreases s.len(),
{
    if s.len() > 0 {
        lemma_contains_first(s, c);
        lemma_first_index_found(s.drop_first(), c);
    }
}

/// Trimming whitespace keeps every other character that `s` holds.
pub proof fn lemma_trim_contains(s: Seq<char>, c: char)
    requires
        !is_ws(c),
    ensures
        trim(s).contains(c) <==> s.contains(c),
{
    lemma_trim_start_contains(s, c);
    lemma_trim_end_contains(trim_start(s), c);
}

proof fn lemma_trim_start_contains(s: Seq<char>, c: char)
    requires
        !is_ws(c),
    ensures
        trim_start(s).contains(c) <==> s.contains(c),
    decreases s.len(),
{
    if s.len() > 0 && is_ws(s[0]) {
        lemma_contains_first(s, c);
        lemma_trim_start_contains(s.drop_first(), c);
    }
}

proof fn lemma_trim_end_contains(s: Seq<char>, c: char)
    requires
        !is_ws(c),
    ensures
        trim_end(s).contains(c) <==> s.contains(c),
    decreases s.len(),
{
    if s.len() > 0 && is_ws(s.last()) {
        lemma_contains_last(s, c);
        lemma_trim_end_contains(s.drop_last(), c);
    }
}

/// Stripping leading repetitions of `c` keeps every other character.
pub proof fn lemma_strip_start_contains(s: Seq<char>, c: char, x: char)
    requires
        x != c,
    ensures
        strip_all_start(s, c).contains(x) <==> s.contains(x),
    decreases s.len(),
{
    if s.len() > 0 && s[0] == c {
        lemma_contains_first(s, x);
        lemma_strip_start_contains(s.drop_first(), c, x);
    }
}

/// Stripping trailing repetitions of `c` keeps every other character.
pub proof fn lemma_strip_end_contains(s: Seq<char>, c: char, x: char)
    requires
        x != c,
    ensures
        strip_all_end(s, c).contains(x) <==> s.contains(x),
    decreases s.len(),
{
    if s.len() > 0 && s.last() == c {
        lemma_contains_last(s, x);
        lemma_strip_end_contains(s.drop_last(), c, x);
    }
}

/// Leading whitespace of `s[from..to]` as a position.
pub fn skip_ws(s: &[char], from: usize, to: usize) -> (r: usize)
    requires
        from <= to <= s@.len(),
    ensures
        from <= r <= to,
        trim_start(s@.subrange(from as int, to as int)) == s@.subrange(r as int, to as int),
    decreases to - from,
{
    if from < to && is_whitespace(s[from]) {
        proof {
            assert(s@.subrange(from as int, to as int).drop_first() =~= s@.subrange(
                from + 1,
                to as int,
            ));
        }
        skip_ws(s, from + 1, to)
    } else {
        from
    }
}

/// Trailing whitespace of `s[from..to]` as a position.
pub fn skip_ws_back(s: &[char], from: usize, to: usize) -> (r: usize)
    requires
        from <= to <= s@.len(),
    ensures
        from <= r <= to,
        trim_end(s@.subrange(from as int, to as int)) == s@.subrange(from as int, r as int),
    decreases to - from,
{
    if from < to && is_whitespace(s[to - 1]) {
        proof {
            assert(s@.subrange(from as int, to as int).drop_last() =~= s@.subrange(
                from as int,
                to - 1,
            ));
        }
        skip_ws_back(s, from, to - 1)
    } else {
        from + (to - from)
    }
}

/// The bounds of `trim(s[from..to])` within `s`.
pub fn trim_bounds(s: &[char], from: usize, to: usize) -> (r: (usize, usize))
    requires
        from <= to <= s@.len(),
    ensures
        from <= r.0 <= r.1 <= to,
        trim(s@.subrange(from as int, to as int)) == s@.subrange(r.0 as int, r.1 as int),
{
    let a = skip_ws(s, from, to);
    let b = skip_ws_back(s, a, to);
    (a, b)
}

/// The position after the leading repetitions of `c` in `s[from..to]`.
pub fn skip_all(s: &[char], from: usize, to: usize, c: char) -> (r: usize)
    requires
        from <= to <= s@.len(),
    ensures
        from <= r <= to,
        strip_all_start(s@.subrange(from as int, to as int), c) == s@.subrange(r as int, to as int),
    decreases to - from,
{
    if from < to && s[from] == c {
        proof {
            assert(s@.subrange(from as int, to as int).drop_first() =~= s@.subrange(
                from + 1,
                to as int,
            ));
        }
        skip_all(s, from + 1, to, c)
    } else {
        from
    }
}

/// The position before the trailing repetitions of `c` in `s[from..to]`.
pub fn skip_all_back(s: &[char], from: usize, to: usize, c: char) -> (r: usize)
    requires
        from <= to <= s@.len(),
    ensures
        from <= r <= to,
        strip_all_end(s@.subrange(from as int, to as int), c) == s@.subrange(from as int, r as int),
    decreases to - from,
{
    if from < to && s[to - 1] == c {
        proof {
            assert(s@.subrange(from as int, to as int).drop_last() =~= s@.subrange(
                from as int,
                to - 1,
            ));
        }
        skip_all_back(s, from, to - 1, c)
    } else {
        from + (to - from)
    }
}

/// `char::is_whitespace`.
pub fn is_whitespace(c: char) -> (r: bool)
    ensures
        r == is_ws(c),
{
    ('\u{9}' <= c && c <= '\u{d}') || c == ' ' || c == '\u{85}' || c == '\u{a0}' || c
        == '\u{1680}' || ('\u{2000}' <= c && c <= '\u{200a}') || c == '\u{2028}' || c
        == '\u{2029}' || c == '\u{202f}' || c == '\u{205f}' || c == '\u{3000}'
}

/// The decimal digit character for `d < 10`.
pub fn digit_char(d: u64) -> (r: char)
    requires
        d < 10,
    ensures
        r == digit(d as nat),
{
    if d == 0 {
        '0'
    } else if d == 1 {
        '1'
    } else if d == 2 {
        '2'
    } else if d == 3 {
        '3'
    } else if d == 4 {
        '4'
    } else if d == 5 {
        '5'
    } else if d == 6 {
        '6'
    } else if d == 7 {
        '7'
    } else if d == 8 {
        '8'
    } else {
        '9'
    }
}

/// Appends the decimal representation of `n` to `s`.
pub fn push_decimal(s: &mut String, n: u64)
    ensures
        final(s)@ == old(s)@ + decimal(n as nat),
    decreases n,
{
    if n < 10 {
        push_char(s, digit_char(n));
        proof {
            assert(decimal(n as nat) == seq![digit(n as nat)]);
            assert(old(s)@.push(digit(n as nat)) =~= old(s)@ + seq![digit(n as nat)]);
        }
    } else {
        push_decimal(s, n / 10);
        push_char(s, digit_char(n % 10));
        proof {
            assert(decimal(n as nat) == decimal((n / 10) as nat).push(digit((n % 10) as nat)));
            assert((old(s)@ + decimal((n / 10) as nat)).push(digit((n % 10) as nat)) =~= old(s)@
                + decimal((n / 10) as nat).push(digit((n % 10) as nat)));
        }
    }
}

/// The strings of `items` joined with `sep` between them.
pub fn join_strings(items: &Vec<String>, sep: &str) -> (r: String)
    ensures
        r@ == join(views(items@), sep@),
{
    let mut out = String::new();
    let mut i: usize = 0;
    while i < items.len()
        invariant
            i <= items@.len(),
            out@ == join(views(items@.take(i as int)), sep@),
        decreases items@.len() - i,
    {
        proof {
            let prefix = views(items@.take(i + 1));
            assert(prefix.drop_last() =~= views(items@.take(i as int)));
            assert(prefix.last() == items@[i as int]@);
        }
        if i > 0 {
            push_str(&mut out, sep);
        }
        push_str(&mut out, items[i].as_str());
        proof {
            if i == 0 {
                assert(out@ =~= views(items@.take(1))[0]);
            }
        }
        i = i + 1;
    }
    proof {
        assert(items@.take(items@.len() as int) =~= items@);
    }
    out
}

/// A labelled line: `label`, then `value`, then a line break.
pub open spec fn line(label: Seq<char>, value: Seq<char>) -> Seq<char> {
    label + value + "\n"@
}

/// A labelled line when the value is present, nothing otherwise.
pub open spec fn opt_line(label: Seq<char>, v: Option<String>) -> Seq<char> {
    match v {
        Some(s) => line(label, s@),
        None => Seq::empty(),
    }
}

/// A labelled line listing `items` separated by `, `, or nothing when there are none.
pub open spec fn list_line(label: Seq<char>, items: Seq<String>) -> Seq<char> {
    if items.len() > 0 {
        line(label, join(views(items), ", "@))
    } else {
        Seq::empty()
    }
}

/// Appends a labelled line.
pub fn push_line(out: &mut String, label: &str, value: &str)
    ensures
        final(out)@ == old(out)@ + line(label@, value@),
{
    let ghost start = out@;
    push_str(out, label);
    push_str(out, value);
    push_str(out, "\n");
    proof {
        assert(out@ =~= start + line(label@, value@));
    }
}

/// Appends a labelled line when the value is present.
pub fn push_opt_line(out: &mut String, label: &str, v: &Option<String>)
    ensures
        final(out)@ == old(out)@ + opt_line(label@, *v),
{
    match v {
        Some(s) => push_line(out, label, s.as_str()),
        None => {
            proof {
                assert(old(out)@ + opt_line(label@, *v) =~= old(out)@);
            }
        },
    }
}

/// Appends a labelled line listing `items`, when there are any.
pub fn push_list_line(out: &mut String, label: &str, items: &Vec<String>)
    ensures
        final(out)@ == old(out)@ + list_line(label@, items@),
{
    if items.len() > 0 {
        let joined = join_strings(items, ", ");
        push_line(out, label, joined.as_str());
    } else {
        proof {
            assert(old(out)@ + list_line(label@, items@) =~= old(out)@);
        }
    }
}

} // verus!
