//! What the queries report of one class: its Java version and access
//! flags, the constant pool entries matching a pattern, its mixin targets.

use vstd::prelude::*;

use crate::inspect::archive::{has_extension, has_extension_ci};
use crate::inspect::classfile::model::{ClassAnnotation, ClassAttribute, ClassModel, ElemItem, ElemValue, ElementPair, PoolEntry};
use crate::inspect::classfile::pool::{
    pool_class_descriptor, pool_utf8, ref_text, resolve_class_descriptor, resolve_ref,
    resolve_utf8,
};
use crate::text::{chars_of, contains, contains_seq, decimal, owned, push_decimal, push_str, str_eq, views};

verus! {

/// A class of an archive with its Java version and access flags.
#[derive(Debug, Clone, PartialEq, Eq)]
pub struct ClassEntry {
    pub name: String,
    pub java_version: String,
    pub access_flags: Vec<String>,
}

/// A constant pool entry of a class that matched a search pattern.
#[derive(Debug, Clone, PartialEq, Eq)]
pub struct GrepMatch {
    pub class_file: String,
    pub pool_tag: String,
    pub value: String,
}

/// A mixin class and one class it targets.
#[derive(Debug, Clone, PartialEq, Eq)]
pub struct MixinEntry {
    pub mixin_class: String,
    pub target: String,
}

/// The Java release of a class file's major version: `1.1` to `1.4` for 45
/// to 48, the release number for 49 to 65, that number with `+` above 65,
/// and the version itself below 45.
pub open spec fn java_version_text(major: u16) -> Seq<char> {
    if major == 45 {
        "1.1"@
    } else if major == 46 {
        "1.2"@
    } else if major == 47 {
        "1.3"@
    } else if major == 48 {
        "1.4"@
    } else if 49 <= major <= 65 {
        decimal((major - 44) as nat)
    } else if major > 65 {
        decimal((major - 44) as nat) + "+"@
    } else {
        decimal(major as nat)
    }
}

/// The Java release of a class file's major version.
pub fn java_version_string(major: u16, minor: u16) -> (r: String)
    ensures
        r@ == java_version_text(major),
{
    let _ = minor;
    if major == 45 {
        owned("1.1")
    } else if major == 46 {
        owned("1.2")
    } else if major == 47 {
        owned("1.3")
    } else if major == 48 {
        owned("1.4")
    } else {
        let mut out = String::new();
        if major >= 49 {
            push_decimal(&mut out, (major - 44) as u64);
            if major > 65 {
                push_str(&mut out, "+");
            }
        } else {
            push_decimal(&mut out, major as u64);
        }
        proof {
            assert(Seq::<char>::empty() + decimal((major - 44) as nat) =~= decimal((major - 44) as nat));
            assert(Seq::<char>::empty() + decimal(major as nat) =~= decimal(major as nat));
        }
        out
    }
}

/// `[name]` when `flags` has all bits of `bit`, nothing otherwise.
pub open spec fn flag_name(flags: u16, bit: u16, name: Seq<char>) -> Seq<Seq<char>> {
    if flags & bit == bit {
        seq![name]
    } else {
        Seq::empty()
    }
}

/// The names of the access flags set, in the order public, final, abstract,
/// interface, annotation, enum, synthetic, module.
pub open spec fn access_flag_names(flags: u16) -> Seq<Seq<char>> {
    flag_name(flags, 0x0001, "public"@) + flag_name(flags, 0x0010, "final"@) + flag_name(
        flags,
        0x0400,
        "abstract"@,
    ) + flag_name(flags, 0x0200, "interface"@) + flag_name(flags, 0x2000, "annotation"@)
        + flag_name(flags, 0x4000, "enum"@) + flag_name(flags, 0x1000, "synthetic"@) + flag_name(
        flags,
        0x8000,
        "module"@,
    )
}

/// Appends `name` when `flags` has all bits of `bit`.
fn push_flag(out: &mut Vec<String>, flags: u16, bit: u16, name: &str)
    ensures
        views(final(out)@) == views(old(out)@) + flag_name(flags, bit, name@),
{
    let ghost before = out@;
    if flags & bit == bit {
        out.push(owned(name));
        proof {
            assert(views(out@) =~= views(before) + seq![name@]);
        }
    } else {
        proof {
            assert(views(out@) =~= views(before) + Seq::<Seq<char>>::empty());
        }
    }
}

/// The names of the access flags set in `flags`.
pub fn format_class_access_flags(flags: u16) -> (r: Vec<String>)
    ensures
        views(r@) == access_flag_names(flags),
{
    let mut out: Vec<String> = Vec::new();
    proof {
        assert(views(out@) =~= Seq::<Seq<char>>::empty());
    }
    push_flag(&mut out, flags, 0x0001, "public");
    push_flag(&mut out, flags, 0x0010, "final");
    push_flag(&mut out, flags, 0x0400, "abstract");
    push_flag(&mut out, flags, 0x0200, "interface");
    push_flag(&mut out, flags, 0x2000, "annotation");
    push_flag(&mut out, flags, 0x4000, "enum");
    push_flag(&mut out, flags, 0x1000, "synthetic");
    push_flag(&mut out, flags, 0x8000, "module");
    proof {
        assert(views(out@) =~= access_flag_names(flags));
    }
    out
}

/// The characters of `class`.
pub open spec fn class_lower() -> Seq<char> {
    seq!['c', 'l', 'a', 's', 's']
}

/// The characters of `CLASS`.
pub open spec fn class_upper() -> Seq<char> {
    seq!['C', 'L', 'A', 'S', 'S']
}

/// Whether an entry name is a class file: its extension is `class` in any ASCII case.
pub open spec fn is_class_name(name: Seq<char>) -> bool {
    has_extension(name, class_lower(), class_upper())
}

/// Whether an entry name is a class file.
pub fn is_class_entry(name: &str) -> (r: bool)
    ensures
        r == is_class_name(name@),
{
    let lower = chars_of("class");
    let upper = chars_of("CLASS");
    proof {
        reveal_strlit("class");
        reveal_strlit("CLASS");
        assert(lower@ =~= class_lower());
        assert(upper@ =~= class_upper());
    }
    has_extension_ci(name, lower.as_slice(), upper.as_slice())
}

/// The descriptor of the `@Mixin` annotation.
pub open spec fn mixin_descriptor() -> Seq<char> {
    "Lorg/spongepowered/asm/mixin/Mixin;"@
}

/// Whether an annotation descriptor is the `@Mixin` annotation.
pub fn is_mixin_annotation(descriptor: &str) -> (r: bool)
    ensures
        r == (descriptor@ == mixin_descriptor()),
{
    str_eq(descriptor, "Lorg/spongepowered/asm/mixin/Mixin;")
}

// ── constant pool search ────────────────────────────────────────────────

/// The UTF-8 entries among the first `n` whose text contains `pat`, as
/// (tag, value), in pool order.
pub open spec fn utf8_hits(pool: Seq<PoolEntry>, n: int, pat: Seq<char>) -> Seq<(Seq<char>, Seq<char>)>
    decreases n,
{
    if n <= 0 || n > pool.len() {
        Seq::empty()
    } else {
        let prev = utf8_hits(pool, n - 1, pat);
        match pool[n - 1] {
            PoolEntry::Utf8(s) => if contains_seq(s@, pat) {
                prev.push(("Utf8"@, s@))
            } else {
                prev
            },
            _ => prev,
        }
    }
}

/// `(tag, value)` when `value` is present and contains `pat`.
pub open spec fn hit_if(tag: Seq<char>, value: Option<Seq<char>>, pat: Seq<char>) -> Option<
    (Seq<char>, Seq<char>),
> {
    match value {
        Some(v) => if contains_seq(v, pat) {
            Some((tag, v))
        } else {
            None
        },
        None => None,
    }
}

/// The match a class or member reference entry gives: its resolved name
/// when that contains `pat`.
pub open spec fn ref_hit(pool: Seq<PoolEntry>, e: PoolEntry, pat: Seq<char>) -> Option<
    (Seq<char>, Seq<char>),
> {
    match e {
        PoolEntry::Class(n) => hit_if("Class"@, pool_utf8(pool, n as int), pat),
        PoolEntry::Methodref(c, n) => hit_if("MethodRef"@, ref_text(pool, c as int, n as int), pat),
        PoolEntry::Fieldref(c, n) => hit_if("FieldRef"@, ref_text(pool, c as int, n as int), pat),
        PoolEntry::InterfaceMethodref(c, n) => hit_if(
            "InterfaceMethodRef"@,
            ref_text(pool, c as int, n as int),
            pat,
        ),
        _ => None,
    }
}

/// The reference matches among the first `n` entries, in pool order.
pub open spec fn ref_hits(pool: Seq<PoolEntry>, n: int, pat: Seq<char>) -> Seq<(Seq<char>, Seq<char>)>
    decreases n,
{
    if n <= 0 || n > pool.len() {
        Seq::empty()
    } else {
        let prev = ref_hits(pool, n - 1, pat);
        match ref_hit(pool, pool[n - 1], pat) {
            Some(h) => prev.push(h),
            None => prev,
        }
    }
}

/// All matches of a pool: the UTF-8 entries first, then the references.
pub open spec fn pool_hits(pool: Seq<PoolEntry>, pat: Seq<char>) -> Seq<(Seq<char>, Seq<char>)> {
    utf8_hits(pool, pool.len() as int, pat) + ref_hits(pool, pool.len() as int, pat)
}

/// The (class, tag, value) of each match.
pub open spec fn grep_view(v: Seq<GrepMatch>) -> Seq<(Seq<char>, Seq<char>, Seq<char>)> {
    v.map_values(|m: GrepMatch| (m.class_file@, m.pool_tag@, m.value@))
}

/// The hits of a class as matches.
pub open spec fn tagged(class_name: Seq<char>, hits: Seq<(Seq<char>, Seq<char>)>) -> Seq<
    (Seq<char>, Seq<char>, Seq<char>),
> {
    hits.map_values(|h: (Seq<char>, Seq<char>)| (class_name, h.0, h.1))
}

/// Appends a match for `class_name`.
fn push_match(out: &mut Vec<GrepMatch>, class_name: &str, tag: &str, value: String)
    ensures
        grep_view(final(out)@) == grep_view(old(out)@).push((class_name@, tag@, value@)),
{
    let ghost before = out@;
    out.push(GrepMatch { class_file: owned(class_name), pool_tag: owned(tag), value });
    proof {
        assert(grep_view(out@) =~= grep_view(before).push((class_name@, tag@, value@)));
    }
}

/// Appends `(tag, v)` for `class_name` when `v` is present and contains the pattern.
fn push_if_hit(out: &mut Vec<GrepMatch>, class_name: &str, tag: &str, v: Option<String>, pat: &[char])
    ensures
        grep_view(final(out)@) == match hit_if(
            tag@,
            match v {
                Some(s) => Some(s@),
                None => None,
            },
            pat@,
        ) {
            Some(h) => grep_view(old(out)@).push((class_name@, h.0, h.1)),
            None => grep_view(old(out)@),
        },
{
    match v {
        Some(s) => {
            let cs = chars_of(s.as_str());
            if contains(cs.as_slice(), pat) {
                push_match(out, class_name, tag, s);
            }
        },
        None => {},
    }
}

/// The entries of a class's constant pool that match `pattern`: UTF-8
/// entries containing it, then class names and resolved member references
/// (`Class.name:descriptor`) containing it, each group in pool order.
pub fn search_constant_pool(cf: &ClassModel, class_name: &str, pattern: &str) -> (r: Vec<GrepMatch>)
    ensures
        grep_view(r@) == tagged(class_name@, pool_hits(cf.constant_pool@, pattern@)),
{
    let pool = cf.constant_pool.as_slice();
    let ghost p = pool@;
    let pat = chars_of(pattern);
    let mut out: Vec<GrepMatch> = Vec::new();
    let mut i: usize = 0;
    proof {
        assert(grep_view(out@) =~= tagged(class_name@, utf8_hits(p, 0, pattern@)));
    }
    while i < pool.len()
        invariant
            i <= p.len(),
            p == pool@,
            pat@ == pattern@,
            grep_view(out@) == tagged(class_name@, utf8_hits(p, i as int, pattern@)),
        decreases p.len() - i,
    {
        let ghost before = out@;
        match &pool[i] {
            PoolEntry::Utf8(s) => {
                let cs = chars_of(s.as_str());
                if contains(cs.as_slice(), pat.as_slice()) {
                    push_match(&mut out, class_name, "Utf8", owned(s.as_str()));
                    proof {
                        reveal_strlit("Utf8");
                    }
                }
            },
            _ => {},
        }
        proof {
            assert(grep_view(out@) =~= tagged(class_name@, utf8_hits(p, i + 1, pattern@)));
        }
        i = i + 1;
    }
    let ghost first = grep_view(out@);
    let mut j: usize = 0;
    proof {
        assert(grep_view(out@) =~= first + tagged(class_name@, ref_hits(p, 0, pattern@)));
    }
    while j < pool.len()
        invariant
            j <= p.len(),
            p == pool@,
            pat@ == pattern@,
            first == tagged(class_name@, utf8_hits(p, p.len() as int, pattern@)),
            grep_view(out@) == first + tagged(class_name@, ref_hits(p, j as int, pattern@)),
        decreases p.len() - j,
    {
        let ghost before = grep_view(out@);
        match &pool[j] {
            PoolEntry::Class(n) => {
                let v = resolve_utf8(pool, *n);
                push_if_hit(&mut out, class_name, "Class", v, pat.as_slice());
            },
            PoolEntry::Methodref(c, n) => {
                let v = resolve_ref(pool, *c, *n);
                push_if_hit(&mut out, class_name, "MethodRef", v, pat.as_slice());
            },
            PoolEntry::Fieldref(c, n) => {
                let v = resolve_ref(pool, *c, *n);
                push_if_hit(&mut out, class_name, "FieldRef", v, pat.as_slice());
            },
            PoolEntry::InterfaceMethodref(c, n) => {
                let v = resolve_ref(pool, *c, *n);
                push_if_hit(&mut out, class_name, "InterfaceMethodRef", v, pat.as_slice());
            },
            _ => {},
        }
        proof {
            reveal_strlit("Class");
            reveal_strlit("MethodRef");
            reveal_strlit("FieldRef");
            reveal_strlit("InterfaceMethodRef");
            assert(grep_view(out@) =~= first + tagged(class_name@, ref_hits(p, j + 1, pattern@)));
        }
        j = j + 1;
    }
    proof {
        assert(tagged(class_name@, pool_hits(p, pattern@)) =~= first + tagged(
            class_name@,
            ref_hits(p, p.len() as int, pattern@),
        ));
    }
    out
}

proof fn lemma_utf8_hits_contain(pool: Seq<PoolEntry>, n: int, pat: Seq<char>)
    ensures
        forall|k: int| 0 <= k < utf8_hits(pool, n, pat).len() ==> contains_seq(#[trigger] utf8_hits(pool, n, pat)[k].1, pat),
    decreases n,
{
    if n > 0 && n <= pool.len() {
        lemma_utf8_hits_contain(pool, n - 1, pat);
        let prev = utf8_hits(pool, n - 1, pat);
        let cur = utf8_hits(pool, n, pat);
        assert forall|k: int| 0 <= k < cur.len() implies contains_seq(#[trigger] cur[k].1, pat) by {
            if k < prev.len() {
                assert(cur[k] == prev[k]);
            }
        }
    }
}

proof fn lemma_ref_hits_contain(pool: Seq<PoolEntry>, n: int, pat: Seq<char>)
    ensures
        forall|k: int| 0 <= k < ref_hits(pool, n, pat).len() ==> contains_seq(#[trigger] ref_hits(pool, n, pat)[k].1, pat),
    decreases n,
{
    if n > 0 && n <= pool.len() {
        lemma_ref_hits_contain(pool, n - 1, pat);
        let prev = ref_hits(pool, n - 1, pat);
        let cur = ref_hits(pool, n, pat);
        assert forall|k: int| 0 <= k < cur.len() implies contains_seq(#[trigger] cur[k].1, pat) by {
            if k < prev.len() {
                assert(cur[k] == prev[k]);
            } else {
                let h = ref_hit(pool, pool[n - 1], pat);
                assert(h is Some && cur[k] == h->0);
            }
        }
    }
}

/// Law: every constant pool match of a search holds the pattern, and every
/// one is tagged with the class searched.
pub proof fn lemma_matches_hold_pattern(pool: Seq<PoolEntry>, class_name: Seq<char>, pat: Seq<char>)
    ensures
        forall|k: int|
            0 <= k < tagged(class_name, pool_hits(pool, pat)).len() ==> {
                let m = #[trigger] tagged(class_name, pool_hits(pool, pat))[k];
                m.0 == class_name && contains_seq(m.2, pat)
            },
{
    let n = pool.len() as int;
    lemma_utf8_hits_contain(pool, n, pat);
    lemma_ref_hits_contain(pool, n, pat);
    let u = utf8_hits(pool, n, pat);
    let r = ref_hits(pool, n, pat);
    assert forall|k: int| 0 <= k < pool_hits(pool, pat).len() implies contains_seq(
        #[trigger] pool_hits(pool, pat)[k].1,
        pat,
    ) by {
        if k < u.len() {
            assert(pool_hits(pool, pat)[k] == u[k]);
        } else {
            assert(pool_hits(pool, pat)[k] == r[k - u.len()]);
        }
    }
}

} // verus!
