//! How a class file's constant pool is laid out in its bytes, as far as
//! deciding whether `java_class_rs` can step through it.

use vstd::prelude::*;

verus! {

/// How many bytes follow the tag of a constant pool entry at `pos`, as
/// `java_class_rs` reads them (a UTF-8 entry: its length and that many
/// bytes); -1 for a tag it does not know. `pos` is the tag's position.
pub open spec fn pool_payload_size(b: Seq<u8>, pos: int) -> int {
    let tag = b[pos];
    if tag == 1 {
        if pos + 3 <= b.len() {
            2 + b[pos + 1] as int * 256 + b[pos + 2] as int
        } else {
            2
        }
    } else if tag == 3 || tag == 4 || tag == 9 || tag == 10 || tag == 11 || tag == 12 || tag == 17 || tag
        == 18 {
        4
    } else if tag == 5 || tag == 6 {
        8
    } else if tag == 7 || tag == 8 || tag == 16 || tag == 19 || tag == 20 {
        2
    } else if tag == 15 {
        3
    } else {
        -1
    }
}

/// The bytes a constant pool entry at `pos` takes, its tag included, when
/// `java_class_rs` reads it; `None` for an unknown tag or an entry cut short.
pub open spec fn pool_entry_size(b: Seq<u8>, pos: int) -> Option<int> {
    if pos < 0 || pos >= b.len() {
        None
    } else {
        let n = pool_payload_size(b, pos);
        if n >= 0 && pos + 1 + n <= b.len() {
            Some(1 + n)
        } else {
            None
        }
    }
}

/// Whether a tag is that of an entry taking two pool slots (long, double).
pub open spec fn is_wide_tag(t: u8) -> bool {
    t == 5 || t == 6
}

/// Whether reading entries from `pos`, the entry there taking slot `slot`,
/// with a pool count of `0xFFFF`, reaches a long or double in slot `0xFFFE`
/// before the entries run out or one cannot be read.
pub open spec fn pool_walk_overflows(b: Seq<u8>, pos: int, slot: int) -> bool
    decreases b.len() - pos,
{
    if slot >= 0xFFFF {
        false
    } else {
        match pool_entry_size(b, pos) {
            None => false,
            Some(n) => if is_wide_tag(b[pos]) && slot == 0xFFFE {
                true
            } else if 1 <= n && pos + n <= b.len() {
                pool_walk_overflows(b, pos + n, slot + if is_wide_tag(b[pos]) { 2int } else { 1int })
            } else {
                false
            },
        }
    }
}

/// Whether `bytes` start a class file (magic number) with a constant pool
/// count of `0xFFFF` whose entries put a long or double in slot `0xFFFE`:
/// the one pool on which `java_class_rs`, counting slots in a `u16`,
/// overflows.
pub open spec fn pool_overflow(bytes: Seq<u8>) -> bool {
    &&& bytes.len() >= 10
    &&& bytes[0] == 0xCAu8 && bytes[1] == 0xFEu8 && bytes[2] == 0xBAu8 && bytes[3] == 0xBEu8
    &&& bytes[8] == 0xFFu8 && bytes[9] == 0xFFu8
    &&& pool_walk_overflows(bytes, 10, 1)
}

/// The bytes a constant pool entry at `pos` takes, tag included.
fn pool_entry_len(b: &[u8], pos: usize) -> (r: Option<usize>)
    requires
        pos <= b@.len(),
    ensures
        match r {
            Some(n) => pool_entry_size(b@, pos as int) == Some(n as int),
            None => pool_entry_size(b@, pos as int) is None,
        },
{
    if pos >= b.len() {
        return None;
    }
    let tag = b[pos];
    let n: usize = if tag == 1 {
        if b.len() - pos >= 3 {
            2 + (b[pos + 1] as usize) * 256 + (b[pos + 2] as usize)
        } else {
            2
        }
    } else if tag == 3 || tag == 4 || tag == 9 || tag == 10 || tag == 11 || tag == 12 || tag == 17 || tag
        == 18 {
        4
    } else if tag == 5 || tag == 6 {
        8
    } else if tag == 7 || tag == 8 || tag == 16 || tag == 19 || tag == 20 {
        2
    } else if tag == 15 {
        3
    } else {
        return None;
    };
    if n < b.len() - pos {
        Some(1 + n)
    } else {
        None
    }
}

/// Whether `java_class_rs` would overflow its slot counter reading the
/// constant pool of `bytes`.
pub fn pool_overflows(bytes: &[u8]) -> (r: bool)
    ensures
        r == pool_overflow(bytes@),
{
    if !(bytes.len() >= 10 && bytes[0] == 0xCA && bytes[1] == 0xFE && bytes[2] == 0xBA && bytes[3] == 0xBE
        && bytes[8] == 0xFF && bytes[9] == 0xFF) {
        return false;
    }
    let mut pos: usize = 10;
    let mut slot: u32 = 1;
    while slot < 0xFFFF
        invariant
            pos <= bytes@.len(),
            slot <= 0xFFFF,
            pool_overflow(bytes@) == pool_walk_overflows(bytes@, pos as int, slot as int),
        decreases bytes@.len() - pos,
    {
        match pool_entry_len(bytes, pos) {
            None => {
                return false;
            },
            Some(n) => {
                let wide = bytes[pos] == 5 || bytes[pos] == 6;
                if wide && slot == 0xFFFE {
                    return true;
                }
                pos = pos + n;
                slot = if wide { slot + 2 } else { slot + 1 };
            },
        }
    }
    false
}

} // verus!
