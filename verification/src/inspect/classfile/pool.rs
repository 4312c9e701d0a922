//! Constant pool lookups. Indices are 1-based and a `Long` or `Double`
//! entry takes two slots, the second of which holds nothing.

use vstd::prelude::*;

use crate::inspect::classfile::model::PoolEntry;
use crate::text::{chars_of, owned, push_str, sub_string};

verus! {

/// The number of slots an entry takes.
pub open spec fn slot_width(e: PoolEntry) -> int {
    if e is Long || e is Double {
        2
    } else {
        1
    }
}

/// The entry at slot `index`, if one starts there.
pub open spec fn pool_entry(pool: Seq<PoolEntry>, index: int) -> Option<PoolEntry>
    decreases pool.len(),
{
    if pool.len() == 0 || index < 1 {
        None
    } else if index == 1 {
        Some(pool[0])
    } else {
        pool_entry(pool.drop_first(), index - slot_width(pool[0]))
    }
}

/// The text of the UTF-8 entry at slot `index`, if that is one.
pub open spec fn pool_utf8(pool: Seq<PoolEntry>, index: int) -> Option<Seq<char>> {
    match pool_entry(pool, index) {
        Some(PoolEntry::Utf8(s)) => Some(s@),
        _ => None,
    }
}

/// The name of the class entry at slot `index`.
pub open spec fn pool_class_name(pool: Seq<PoolEntry>, index: int) -> Option<Seq<char>> {
    match pool_entry(pool, index) {
        Some(PoolEntry::Class(n)) => pool_utf8(pool, n as int),
        _ => None,
    }
}

/// `Class.name:descriptor` for a member reference with the given class and
/// name-and-type slots.
pub open spec fn ref_text(pool: Seq<PoolEntry>, class_index: int, nat_index: int) -> Option<
    Seq<char>,
> {
    match (pool_class_name(pool, class_index), pool_entry(pool, nat_index)) {
        (Some(c), Some(PoolEntry::NameAndType(n, d))) => match (
            pool_utf8(pool, n as int),
            pool_utf8(pool, d as int),
        ) {
            (Some(name), Some(desc)) => Some(c + "."@ + name + ":"@ + desc),
            _ => None,
        },
        _ => None,
    }
}

/// A class descriptor without a leading `L` and trailing `;` when it has both.
pub open spec fn strip_descriptor(d: Seq<char>) -> Seq<char> {
    if d.len() >= 2 && d[0] == 'L' && d.last() == ';' {
        d.subrange(1, d.len() - 1)
    } else {
        d
    }
}

/// The class named by the descriptor at slot `index`.
pub open spec fn pool_class_descriptor(pool: Seq<PoolEntry>, index: int) -> Option<Seq<char>> {
    match pool_utf8(pool, index) {
        Some(d) => Some(strip_descriptor(d)),
        None => None,
    }
}

/// The entry at slot `index` (`java_class_rs::get_entry`).
pub fn get_entry(pool: &[PoolEntry], index: u16) -> (r: Option<&PoolEntry>)
    ensures
        match r {
            Some(e) => pool_entry(pool@, index as int) == Some(*e),
            None => pool_entry(pool@, index as int) is None,
        },
{
    if index == 0 {
        return None;
    }
    let mut rem: u32 = index as u32;
    let mut i: usize = 0;
    proof {
        assert(pool@.skip(0) =~= pool@);
    }
    while i < pool.len()
        invariant
            i <= pool@.len(),
            1 <= rem <= index,
            pool_entry(pool@, index as int) == pool_entry(pool@.skip(i as int), rem as int),
        decreases pool@.len() - i,
    {
        proof {
            assert(pool@.skip(i as int)[0] == pool@[i as int]);
            assert(pool@.skip(i as int).drop_first() =~= pool@.skip(i + 1));
        }
        if rem == 1 {
            return Some(&pool[i]);
        }
        let w: u32 = match &pool[i] {
            PoolEntry::Long | PoolEntry::Double => 2,
            _ => 1,
        };
        proof {
            assert(slot_width(pool@[i as int]) == w as int);
        }
        if rem <= w {
            proof {
                assert(pool_entry(pool@.skip(i + 1), rem - w) is None);
            }
            return None;
        }
        rem = rem - w;
        i = i + 1;
    }
    None
}

/// The text of the UTF-8 entry at slot `index` (`java_class_rs::get_utf8`).
pub fn resolve_utf8(pool: &[PoolEntry], index: u16) -> (r: Option<String>)
    ensures
        match r {
            Some(s) => pool_utf8(pool@, index as int) == Some(s@),
            None => pool_utf8(pool@, index as int) is None,
        },
{
    match get_entry(pool, index) {
        Some(PoolEntry::Utf8(s)) => Some(owned(s.as_str())),
        _ => None,
    }
}

/// The name of the class entry at slot `class_index`.
pub fn resolve_class_name(pool: &[PoolEntry], class_index: u16) -> (r: Option<String>)
    ensures
        match r {
            Some(s) => pool_class_name(pool@, class_index as int) == Some(s@),
            None => pool_class_name(pool@, class_index as int) is None,
        },
{
    match get_entry(pool, class_index) {
        Some(PoolEntry::Class(n)) => resolve_utf8(pool, *n),
        _ => None,
    }
}

/// `Class.name:descriptor` of a field, method or interface method reference.
pub fn resolve_ref(pool: &[PoolEntry], class_index: u16, nat_index: u16) -> (r: Option<String>)
    ensures
        match r {
            Some(s) => ref_text(pool@, class_index as int, nat_index as int) == Some(s@),
            None => ref_text(pool@, class_index as int, nat_index as int) is None,
        },
{
    let class_name = match resolve_class_name(pool, class_index) {
        Some(c) => c,
        None => return None,
    };
    let (n, d) = match get_entry(pool, nat_index) {
        Some(PoolEntry::NameAndType(n, d)) => (*n, *d),
        _ => return None,
    };
    let name = match resolve_utf8(pool, n) {
        Some(s) => s,
        None => return None,
    };
    let desc = match resolve_utf8(pool, d) {
        Some(s) => s,
        None => return None,
    };
    let mut out = class_name;
    push_str(&mut out, ".");
    push_str(&mut out, name.as_str());
    push_str(&mut out, ":");
    push_str(&mut out, desc.as_str());
    Some(out)
}

/// The class named by the descriptor at slot `index`, without `L` and `;`.
pub fn resolve_class_descriptor(pool: &[PoolEntry], index: u16) -> (r: Option<String>)
    ensures
        match r {
            Some(s) => pool_class_descriptor(pool@, index as int) == Some(s@),
            None => pool_class_descriptor(pool@, index as int) is None,
        },
{
    let desc = match resolve_utf8(pool, index) {
        Some(d) => d,
        None => return None,
    };
    let cs = chars_of(desc.as_str());
    let n = cs.len();
    if n >= 2 && cs[0] == 'L' && cs[n - 1] == ';' {
        Some(sub_string(cs.as_slice(), 1, n - 1))
    } else {
        Some(desc)
    }
}

} // verus!
