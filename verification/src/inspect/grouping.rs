//! Text order (that of `String`) and grouping under keys kept in that order.

use vstd::prelude::*;

use crate::text::{chars_of, owned, str_eq, views};

verus! {

/// Whether `a` comes before `b` in the order of `String`: the first
/// differing character decides, and a proper prefix comes first.
pub open spec fn text_lt(a: Seq<char>, b: Seq<char>) -> bool
    decreases a.len(),
{
    if a.len() == 0 {
        b.len() > 0
    } else if b.len() == 0 {
        false
    } else if a[0] != b[0] {
        (a[0] as int) < (b[0] as int)
    } else {
        text_lt(a.drop_first(), b.drop_first())
    }
}

/// Whether key `a` comes before key `b`: component by component, as tuples
/// of strings are ordered.
pub open spec fn key_lt(a: Seq<Seq<char>>, b: Seq<Seq<char>>) -> bool
    decreases a.len(),
{
    if a.len() == 0 {
        b.len() > 0
    } else if b.len() == 0 {
        false
    } else if a[0] != b[0] {
        text_lt(a[0], b[0])
    } else {
        key_lt(a.drop_first(), b.drop_first())
    }
}

/// Whether `a` comes before `b` in the order of `String`.
pub fn text_less(a: &str, b: &str) -> (r: bool)
    ensures
        r == text_lt(a@, b@),
{
    let x = chars_of(a);
    let y = chars_of(b);
    let mut i: usize = 0;
    proof {
        assert(x@.skip(0) =~= x@);
        assert(y@.skip(0) =~= y@);
    }
    while i < x.len() && i < y.len() && x[i] == y[i]
        invariant
            i <= x@.len(),
            i <= y@.len(),
            x@ == a@,
            y@ == b@,
            text_lt(a@, b@) == text_lt(x@.skip(i as int), y@.skip(i as int)),
        decreases x@.len() - i,
    {
        proof {
            assert(x@.skip(i as int).drop_first() =~= x@.skip(i + 1));
            assert(y@.skip(i as int).drop_first() =~= y@.skip(i + 1));
        }
        i = i + 1;
    }
    if i == x.len() {
        i < y.len()
    } else if i == y.len() {
        false
    } else {
        x[i] < y[i]
    }
}

/// Whether key `a` comes before key `b`.
pub fn key_less(a: &Vec<String>, b: &Vec<String>) -> (r: bool)
    ensures
        r == key_lt(views(a@), views(b@)),
{
    let ghost va = views(a@);
    let ghost vb = views(b@);
    let mut i: usize = 0;
    proof {
        assert(va.skip(0) =~= va);
        assert(vb.skip(0) =~= vb);
    }
    while i < a.len() && i < b.len() && str_eq(a[i].as_str(), b[i].as_str())
        invariant
            i <= a@.len(),
            i <= b@.len(),
            va == views(a@),
            vb == views(b@),
            key_lt(va, vb) == key_lt(va.skip(i as int), vb.skip(i as int)),
        decreases a@.len() - i,
    {
        proof {
            assert(va.skip(i as int).drop_first() =~= va.skip(i + 1));
            assert(vb.skip(i as int).drop_first() =~= vb.skip(i + 1));
        }
        i = i + 1;
    }
    if i == a.len() {
        i < b.len()
    } else if i == b.len() {
        false
    } else {
        proof {
            assert(va.skip(i as int)[0] == a@[i as int]@);
            assert(vb.skip(i as int)[0] == b@[i as int]@);
        }
        text_less(a[i].as_str(), b[i].as_str())
    }
}

/// Members gathered under keys, keys kept in order.
#[derive(Debug, Clone, PartialEq, Eq)]
pub struct Group {
    pub key: Vec<String>,
    pub members: Vec<String>,
}

/// Each group as (key, members).
pub open spec fn groups_view(v: Seq<Group>) -> Seq<(Seq<Seq<char>>, Seq<Seq<char>>)> {
    v.map_values(|g: Group| (views(g.key@), views(g.members@)))
}

/// Where `key` goes among the groups: before the first group whose key is
/// not before it.
pub open spec fn slot_of(g: Seq<(Seq<Seq<char>>, Seq<Seq<char>>)>, key: Seq<Seq<char>>) -> int
    decreases g.len(),
{
    if g.len() == 0 {
        0
    } else if !key_lt(g[0].0, key) {
        0
    } else {
        slot_of(g.drop_first(), key) + 1
    }
}

/// Adds `m` under `key`: to the group found at the key's place when it has
/// that key, to a new group inserted there otherwise.
pub open spec fn group_in(g: Seq<(Seq<Seq<char>>, Seq<Seq<char>>)>, key: Seq<Seq<char>>, m: Seq<char>) -> Seq<
    (Seq<Seq<char>>, Seq<Seq<char>>),
> {
    let k = slot_of(g, key);
    if 0 <= k < g.len() && g[k].0 == key {
        g.update(k, (key, g[k].1.push(m)))
    } else {
        g.insert(k, (key, seq![m]))
    }
}

/// The groups of a list of (key, member) events taken in order.
pub open spec fn grouped(events: Seq<(Seq<Seq<char>>, Seq<char>)>) -> Seq<(Seq<Seq<char>>, Seq<Seq<char>>)>
    decreases events.len(),
{
    if events.len() == 0 {
        Seq::empty()
    } else {
        let e = events.last();
        group_in(grouped(events.drop_last()), e.0, e.1)
    }
}

proof fn lemma_slot_bounds(g: Seq<(Seq<Seq<char>>, Seq<Seq<char>>)>, key: Seq<Seq<char>>)
    ensures
        0 <= slot_of(g, key) <= g.len(),
    decreases g.len(),
{
    if g.len() > 0 {
        lemma_slot_bounds(g.drop_first(), key);
    }
}

/// A copy of a list of strings.
pub fn copy_strings(v: &Vec<String>) -> (r: Vec<String>)
    ensures
        views(r@) == views(v@),
{
    let mut out: Vec<String> = Vec::new();
    let mut i: usize = 0;
    while i < v.len()
        invariant
            i <= v@.len(),
            views(out@) == views(v@.take(i as int)),
        decreases v@.len() - i,
    {
        let ghost before = out@;
        out.push(owned(v[i].as_str()));
        proof {
            assert(views(out@) =~= views(before).push(v@[i as int]@));
            assert(views(v@.take(i + 1)) =~= views(v@.take(i as int)).push(v@[i as int]@));
        }
        i = i + 1;
    }
    proof {
        assert(v@.take(v@.len() as int) =~= v@);
    }
    out
}

/// Adds `m` under `key`, keeping the keys in order.
pub fn add_to_group(groups: &mut Vec<Group>, key: &Vec<String>, m: &str)
    ensures
        groups_view(final(groups)@) == group_in(groups_view(old(groups)@), views(key@), m@),
{
    let ghost g = groups_view(groups@);
    let ghost kv = views(key@);
    proof {
        lemma_slot_bounds(g, kv);
        assert(g.skip(0) =~= g);
    }
    let mut k: usize = 0;
    while k < groups.len() && key_less(&groups[k].key, key)
        invariant
            k <= groups@.len(),
            groups@ == old(groups)@,
            g == groups_view(groups@),
            g.len() == groups@.len(),
            kv == views(key@),
            slot_of(g, kv) == slot_of(g.skip(k as int), kv) + k,
        decreases groups@.len() - k,
    {
        proof {
            assert(g.skip(k as int)[0] == g[k as int]);
            assert(g.skip(k as int).drop_first() =~= g.skip(k + 1));
        }
        k = k + 1;
    }
    proof {
        if k < g.len() {
            assert(g.skip(k as int)[0] == g[k as int]);
        }
        assert(slot_of(g, kv) == k);
    }
    if k < groups.len() && key_equal(&groups[k].key, key) {
        let ghost before = groups@;
        let f = owned(m);
        groups[k].members.push(f);
        proof {
            assert(g[k as int].0 == kv);
            assert(groups@[k as int].key == before[k as int].key);
            assert(groups@[k as int].members@ == before[k as int].members@.push(f));
            assert(views(groups@[k as int].members@) =~= g[k as int].1.push(m@));
            assert forall|j: int| 0 <= j < groups@.len() && j != k implies groups@[j] == before[j] by {}
            assert(groups_view(groups@) =~= g.update(k as int, (kv, g[k as int].1.push(m@))));
        }
    } else {
        let mut members: Vec<String> = Vec::new();
        members.push(owned(m));
        let ghost before = groups@;
        let grp = Group { key: copy_strings(key), members };
        groups.insert(k, grp);
        proof {
            assert(views(members@) =~= seq![m@]);
            assert(groups_view(groups@) =~= g.insert(k as int, (kv, seq![m@])));
        }
    }
}

/// Whether two keys are equal.
pub fn key_equal(a: &Vec<String>, b: &Vec<String>) -> (r: bool)
    ensures
        r == (views(a@) == views(b@)),
{
    if a.len() != b.len() {
        proof {
            assert(views(a@).len() != views(b@).len());
        }
        return false;
    }
    let mut i: usize = 0;
    while i < a.len()
        invariant
            a@.len() == b@.len(),
            i <= a@.len(),
            forall|j: int| 0 <= j < i ==> a@[j]@ == b@[j]@,
        decreases a@.len() - i,
    {
        if !str_eq(a[i].as_str(), b[i].as_str()) {
            proof {
                assert(views(a@)[i as int] != views(b@)[i as int]);
            }
            return false;
        }
        i = i + 1;
    }
    proof {
        assert(views(a@) =~= views(b@));
    }
    true
}

proof fn lemma_text_lt_irreflexive(a: Seq<char>)
    ensures
        !text_lt(a, a),
    decreases a.len(),
{
    if a.len() > 0 {
        lemma_text_lt_irreflexive(a.drop_first());
    }
}

proof fn lemma_text_lt_transitive(a: Seq<char>, b: Seq<char>, c: Seq<char>)
    requires
        text_lt(a, b),
        text_lt(b, c),
    ensures
        text_lt(a, c),
    decreases a.len(),
{
    if a.len() > 0 && b.len() > 0 && c.len() > 0 && a[0] == b[0] && b[0] == c[0] {
        lemma_text_lt_transitive(a.drop_first(), b.drop_first(), c.drop_first());
    }
}

proof fn lemma_text_lt_total(a: Seq<char>, b: Seq<char>)
    requires
        a != b,
    ensures
        text_lt(a, b) || text_lt(b, a),
    decreases a.len(),
{
    if a.len() > 0 && b.len() > 0 && a[0] == b[0] {
        if a.drop_first() == b.drop_first() {
            assert(a =~= seq![a[0]] + a.drop_first());
            assert(b =~= seq![b[0]] + b.drop_first());
        }
        lemma_text_lt_total(a.drop_first(), b.drop_first());
    } else if a.len() > 0 && b.len() > 0 {
        assert((a[0] as int) != (b[0] as int));
    } else if a.len() == 0 && b.len() == 0 {
        assert(a =~= b);
    }
}

proof fn lemma_key_lt_irreflexive(a: Seq<Seq<char>>)
    ensures
        !key_lt(a, a),
    decreases a.len(),
{
    if a.len() > 0 {
        lemma_key_lt_irreflexive(a.drop_first());
    }
}

proof fn lemma_key_lt_transitive(a: Seq<Seq<char>>, b: Seq<Seq<char>>, c: Seq<Seq<char>>)
    requires
        key_lt(a, b),
        key_lt(b, c),
    ensures
        key_lt(a, c),
    decreases a.len(),
{
    if a.len() > 0 && b.len() > 0 && c.len() > 0 {
        if a[0] == b[0] && b[0] == c[0] {
            lemma_key_lt_transitive(a.drop_first(), b.drop_first(), c.drop_first());
        } else if a[0] != b[0] && b[0] != c[0] {
            lemma_text_lt_transitive(a[0], b[0], c[0]);
            if a[0] == c[0] {
                lemma_text_lt_irreflexive(a[0]);
            }
        }
    }
}

proof fn lemma_key_lt_total(a: Seq<Seq<char>>, b: Seq<Seq<char>>)
    requires
        a != b,
    ensures
        key_lt(a, b) || key_lt(b, a),
    decreases a.len(),
{
    if a.len() > 0 && b.len() > 0 && a[0] == b[0] {
        if a.drop_first() == b.drop_first() {
            assert(a =~= seq![a[0]] + a.drop_first());
            assert(b =~= seq![b[0]] + b.drop_first());
        }
        lemma_key_lt_total(a.drop_first(), b.drop_first());
    } else if a.len() > 0 && b.len() > 0 {
        lemma_text_lt_total(a[0], b[0]);
    } else if a.len() == 0 && b.len() == 0 {
        assert(a =~= b);
    }
}

proof fn lemma_slot(g: Seq<(Seq<Seq<char>>, Seq<Seq<char>>)>, key: Seq<Seq<char>>)
    ensures
        0 <= slot_of(g, key) <= g.len(),
        forall|i: int| 0 <= i < slot_of(g, key) ==> key_lt(#[trigger] g[i].0, key),
        slot_of(g, key) < g.len() ==> !key_lt(g[slot_of(g, key)].0, key),
    decreases g.len(),
{
    if g.len() > 0 && key_lt(g[0].0, key) {
        lemma_slot(g.drop_first(), key);
        assert forall|i: int| 0 <= i < slot_of(g, key) implies key_lt(#[trigger] g[i].0, key) by {
            if i > 0 {
                assert(g[i] == g.drop_first()[i - 1]);
            }
        }
    }
}

/// The members gathered under `key`, in order.
pub open spec fn members_of(events: Seq<(Seq<Seq<char>>, Seq<char>)>, key: Seq<Seq<char>>) -> Seq<Seq<char>>
    decreases events.len(),
{
    if events.len() == 0 {
        Seq::empty()
    } else {
        let prev = members_of(events.drop_last(), key);
        if events.last().0 == key {
            prev.push(events.last().1)
        } else {
            prev
        }
    }
}

/// Law: grouping keeps its keys in strictly increasing order, so each key
/// occurs once; each group holds exactly the members given under its key,
/// in the order given; and every key given has a group.
pub proof fn lemma_grouped_exact(events: Seq<(Seq<Seq<char>>, Seq<char>)>)
    ensures
        forall|i: int, j: int|
            0 <= i < j < grouped(events).len() ==> key_lt(#[trigger] grouped(events)[i].0, #[trigger] grouped(events)[j].0),
        forall|i: int|
            0 <= i < grouped(events).len() ==> #[trigger] grouped(events)[i].1 == members_of(events, grouped(events)[i].0),
        forall|key: Seq<Seq<char>>|
            #[trigger] members_of(events, key).len() > 0 ==> exists|i: int|
                0 <= i < grouped(events).len() && grouped(events)[i].0 == key,
    decreases events.len(),
{
    if events.len() > 0 {
        let prev = events.drop_last();
        let e = events.last();
        lemma_grouped_exact(prev);
        let g = grouped(prev);
        let g2 = grouped(events);
        lemma_slot(g, e.0);
        let k = slot_of(g, e.0);
        if k < g.len() && g[k].0 == e.0 {
            assert(g2 == g.update(k, (e.0, g[k].1.push(e.1))));
            assert forall|i: int, j: int| 0 <= i < j < g2.len() implies key_lt(#[trigger] g2[i].0, #[trigger] g2[j].0) by {
                assert(g2[i].0 == g[i].0 && g2[j].0 == g[j].0);
            }
            assert forall|i: int| 0 <= i < g2.len() implies #[trigger] g2[i].1 == members_of(events, g2[i].0) by {
                if i != k {
                    assert(g2[i] == g[i]);
                    if g[i].0 == e.0 {
                        if i < k {
                            lemma_key_lt_irreflexive(e.0);
                        } else {
                            lemma_key_lt_irreflexive(e.0);
                        }
                    }
                }
            }
            assert forall|key: Seq<Seq<char>>| #[trigger] members_of(events, key).len() > 0 implies exists|i: int|
                0 <= i < g2.len() && g2[i].0 == key by {
                if key == e.0 {
                    assert(g2[k].0 == key);
                } else {
                    assert(members_of(prev, key).len() > 0);
                    let i = choose|i: int| 0 <= i < g.len() && g[i].0 == key;
                    assert(g2[i].0 == key);
                }
            }
        } else {
            assert(g2 == g.insert(k, (e.0, seq![e.1])));
            if members_of(prev, e.0).len() > 0 {
                let i = choose|i: int| 0 <= i < g.len() && g[i].0 == e.0;
                if i < k {
                    lemma_key_lt_irreflexive(e.0);
                } else if i > k {
                    assert(key_lt(g[k].0, g[i].0));
                }
                assert(false);
            }
            assert forall|i: int| k < i < g.len() implies key_lt(e.0, #[trigger] g[i].0) by {
                lemma_key_lt_total(g[k].0, e.0);
                lemma_key_lt_transitive(e.0, g[k].0, g[i].0);
            }
            if k < g.len() {
                lemma_key_lt_total(g[k].0, e.0);
            }
            assert forall|i: int, j: int| 0 <= i < j < g2.len() implies key_lt(#[trigger] g2[i].0, #[trigger] g2[j].0) by {
                if j < k {
                    assert(g2[i] == g[i] && g2[j] == g[j]);
                } else if j == k {
                    assert(g2[i] == g[i]);
                } else if i < k {
                    assert(g2[i] == g[i] && g2[j] == g[j - 1]);
                    if j - 1 == k {
                    } else {
                        lemma_key_lt_transitive(g[i].0, e.0, g[j - 1].0);
                    }
                } else if i == k {
                    assert(g2[j] == g[j - 1]);
                } else {
                    assert(g2[i] == g[i - 1] && g2[j] == g[j - 1]);
                }
            }
            assert forall|i: int| 0 <= i < g2.len() implies #[trigger] g2[i].1 == members_of(events, g2[i].0) by {
                if i < k {
                    assert(g2[i] == g[i]);
                    if g[i].0 == e.0 {
                        lemma_key_lt_irreflexive(e.0);
                    }
                } else if i == k {
                    assert(members_of(prev, e.0) =~= Seq::<Seq<char>>::empty());
                    assert(members_of(events, e.0) =~= seq![e.1]);
                } else {
                    assert(g2[i] == g[i - 1]);
                    if g[i - 1].0 == e.0 {
                        lemma_key_lt_irreflexive(e.0);
                    }
                }
            }
            assert forall|key: Seq<Seq<char>>| #[trigger] members_of(events, key).len() > 0 implies exists|i: int|
                0 <= i < g2.len() && g2[i].0 == key by {
                if key == e.0 {
                    assert(g2[k].0 == key);
                } else {
                    assert(members_of(prev, key).len() > 0);
                    let i = choose|i: int| 0 <= i < g.len() && g[i].0 == key;
                    if i < k {
                        assert(g2[i].0 == key);
                    } else {
                        assert(g2[i + 1].0 == key);
                    }
                }
            }
        }
    }
}

} // verus!
