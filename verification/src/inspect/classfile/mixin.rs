//! The targets of a class's `@Mixin` annotations.

use vstd::prelude::*;

use crate::inspect::classfile::model::{
    attribute_model, parse_attribute, ClassAnnotation, ClassAttribute, ClassModel, ElemItem, ElemValue, ElementPair,
    PoolEntry, RawAttribute,
};
use crate::inspect::classfile::nesting::{annotation_nesting, nesting_exceeds, MAX_NESTING};
use crate::inspect::classfile::pool::{pool_class_descriptor, pool_utf8, resolve_class_descriptor, resolve_utf8};
use crate::inspect::classfile::query::{is_mixin_annotation, mixin_descriptor, MixinEntry};
use crate::text::{owned, str_eq, views};

verus! {

/// The text an optional target contributes: itself, or nothing.
pub open spec fn opt_target(t: Option<Seq<char>>) -> Seq<Seq<char>> {
    match t {
        Some(v) => seq![v],
        None => Seq::empty(),
    }
}

/// The target an array element names: a class descriptor without `L`/`;`,
/// or a string constant taken as it is.
pub open spec fn item_target(pool: Seq<PoolEntry>, it: ElemItem) -> Option<Seq<char>> {
    match it {
        ElemItem::Class(ci) => pool_class_descriptor(pool, ci as int),
        ElemItem::Str(si) => pool_utf8(pool, si as int),
        ElemItem::Other => None,
    }
}

/// The targets of the elements of an array value, in order.
pub open spec fn items_targets(pool: Seq<PoolEntry>, items: Seq<ElemItem>) -> Seq<Seq<char>>
    decreases items.len(),
{
    if items.len() == 0 {
        Seq::empty()
    } else {
        items_targets(pool, items.drop_last()) + opt_target(item_target(pool, items.last()))
    }
}

/// The targets an element value names: a class, a string, or the classes
/// and strings of an array.
pub open spec fn value_targets(pool: Seq<PoolEntry>, v: ElemValue) -> Seq<Seq<char>> {
    match v {
        ElemValue::Class(ci) => opt_target(pool_class_descriptor(pool, ci as int)),
        ElemValue::Str(si) => opt_target(pool_utf8(pool, si as int)),
        ElemValue::Array(items) => items_targets(pool, items@),
        ElemValue::Other => Seq::empty(),
    }
}

/// Whether an element name is one that lists targets.
pub open spec fn is_target_element(name: Seq<char>) -> bool {
    name == "value"@ || name == "targets"@
}

/// The targets of an element: those of its value when it is named `value`
/// or `targets`.
pub open spec fn pair_targets(pool: Seq<PoolEntry>, p: ElementPair) -> Seq<Seq<char>> {
    match pool_utf8(pool, p.name_index as int) {
        Some(n) => if is_target_element(n) {
            value_targets(pool, p.value)
        } else {
            Seq::empty()
        },
        None => Seq::empty(),
    }
}

/// The targets of a list of elements, in order.
pub open spec fn pairs_targets(pool: Seq<PoolEntry>, ps: Seq<ElementPair>) -> Seq<Seq<char>>
    decreases ps.len(),
{
    if ps.len() == 0 {
        Seq::empty()
    } else {
        pairs_targets(pool, ps.drop_last()) + pair_targets(pool, ps.last())
    }
}

/// The targets of an annotation: those of its elements when it is `@Mixin`.
pub open spec fn annotation_targets(pool: Seq<PoolEntry>, a: ClassAnnotation) -> Seq<Seq<char>> {
    match pool_utf8(pool, a.type_index as int) {
        Some(t) => if t == mixin_descriptor() {
            pairs_targets(pool, a.pairs@)
        } else {
            Seq::empty()
        },
        None => Seq::empty(),
    }
}

/// The targets of a list of annotations, in order.
pub open spec fn annotations_targets(pool: Seq<PoolEntry>, anns: Seq<ClassAnnotation>) -> Seq<Seq<char>>
    decreases anns.len(),
{
    if anns.len() == 0 {
        Seq::empty()
    } else {
        annotations_targets(pool, anns.drop_last()) + annotation_targets(pool, anns.last())
    }
}

/// The targets of an attribute: those of its annotations, visible or not.
pub open spec fn attribute_targets(pool: Seq<PoolEntry>, a: ClassAttribute) -> Seq<Seq<char>> {
    match a {
        ClassAttribute::VisibleAnnotations(anns) => annotations_targets(pool, anns@),
        ClassAttribute::InvisibleAnnotations(anns) => annotations_targets(pool, anns@),
        ClassAttribute::Other => Seq::empty(),
    }
}

/// Whether an attribute name is that of a class's annotation table.
pub open spec fn is_annotation_table(name: Seq<char>) -> bool {
    name == "RuntimeVisibleAnnotations"@ || name == "RuntimeInvisibleAnnotations"@
}

/// The targets of a stored attribute: those of the annotation table it is
/// read into, when its name is that of an annotation table and its bytes
/// nest their element values no deeper than `MAX_NESTING`; otherwise none.
pub open spec fn raw_attribute_targets(pool: Seq<PoolEntry>, a: RawAttribute) -> Seq<Seq<char>> {
    match pool_utf8(pool, a.name_index as int) {
        Some(n) => if is_annotation_table(n) && annotation_nesting(a.info@) <= MAX_NESTING {
            attribute_targets(pool, attribute_model(n, a.info@))
        } else {
            Seq::empty()
        },
        None => Seq::empty(),
    }
}

/// The targets of a list of attributes, in order.
pub open spec fn attributes_targets(pool: Seq<PoolEntry>, attrs: Seq<RawAttribute>) -> Seq<Seq<char>>
    decreases attrs.len(),
{
    if attrs.len() == 0 {
        Seq::empty()
    } else {
        attributes_targets(pool, attrs.drop_last()) + raw_attribute_targets(pool, attrs.last())
    }
}

/// The targets of a class, in the order its attributes, annotations and
/// elements list them.
pub open spec fn mixin_targets(cf: ClassModel) -> Seq<Seq<char>> {
    attributes_targets(cf.constant_pool@, cf.attributes@)
}

/// Each mixin entry as (mixin class, target).
pub open spec fn mixin_view(v: Seq<MixinEntry>) -> Seq<(Seq<char>, Seq<char>)> {
    v.map_values(|m: MixinEntry| (m.mixin_class@, m.target@))
}

/// Appends an optional target.
fn push_opt(out: &mut Vec<String>, t: Option<String>)
    ensures
        views(final(out)@) == views(old(out)@) + opt_target(
            match t {
                Some(s) => Some(s@),
                None => None,
            },
        ),
{
    let ghost before = out@;
    match t {
        Some(s) => {
            let ghost v = s@;
            out.push(s);
            proof {
                assert(views(out@) =~= views(before) + seq![v]);
            }
        },
        None => {
            proof {
                assert(views(out@) =~= views(before) + Seq::<Seq<char>>::empty());
            }
        },
    }
}

/// Appends the target of an array element.
fn push_item(out: &mut Vec<String>, pool: &[PoolEntry], it: &ElemItem)
    ensures
        views(final(out)@) == views(old(out)@) + opt_target(item_target(pool@, *it)),
{
    match it {
        ElemItem::Class(ci) => push_opt(out, resolve_class_descriptor(pool, *ci)),
        ElemItem::Str(si) => push_opt(out, resolve_utf8(pool, *si)),
        ElemItem::Other => {
            proof {
                assert(views(out@) =~= views(old(out)@) + Seq::<Seq<char>>::empty());
            }
        },
    }
}

/// Appends the targets of an element value.
fn push_value(out: &mut Vec<String>, pool: &[PoolEntry], v: &ElemValue)
    ensures
        views(final(out)@) == views(old(out)@) + value_targets(pool@, *v),
{
    match v {
        ElemValue::Class(ci) => push_opt(out, resolve_class_descriptor(pool, *ci)),
        ElemValue::Str(si) => push_opt(out, resolve_utf8(pool, *si)),
        ElemValue::Array(items) => {
            let ghost start = views(out@);
            let mut i: usize = 0;
            proof {
                assert(items@.take(0) =~= Seq::<ElemItem>::empty());
                assert(views(out@) =~= start + items_targets(pool@, items@.take(0)));
            }
            while i < items.len()
                invariant
                    i <= items@.len(),
                    views(out@) == start + items_targets(pool@, items@.take(i as int)),
                decreases items@.len() - i,
            {
                push_item(out, pool, &items[i]);
                proof {
                    let t = items@.take(i + 1);
                    assert(t.drop_last() =~= items@.take(i as int));
                    assert(t.last() == items@[i as int]);
                    assert(views(out@) =~= start + items_targets(pool@, t));
                }
                i = i + 1;
            }
            proof {
                assert(items@.take(items@.len() as int) =~= items@);
            }
        },
        ElemValue::Other => {
            proof {
                assert(views(out@) =~= views(old(out)@) + Seq::<Seq<char>>::empty());
            }
        },
    }
}

/// Appends the targets of an element.
fn push_pair(out: &mut Vec<String>, pool: &[PoolEntry], p: &ElementPair)
    ensures
        views(final(out)@) == views(old(out)@) + pair_targets(pool@, *p),
{
    let named = match resolve_utf8(pool, p.name_index) {
        Some(n) => str_eq(n.as_str(), "value") || str_eq(n.as_str(), "targets"),
        None => false,
    };
    if named {
        push_value(out, pool, &p.value);
    } else {
        proof {
            assert(views(out@) =~= views(old(out)@) + Seq::<Seq<char>>::empty());
        }
    }
}

/// Appends the targets of an annotation.
fn push_annotation(out: &mut Vec<String>, pool: &[PoolEntry], a: &ClassAnnotation)
    ensures
        views(final(out)@) == views(old(out)@) + annotation_targets(pool@, *a),
{
    let is_mixin = match resolve_utf8(pool, a.type_index) {
        Some(t) => is_mixin_annotation(t.as_str()),
        None => false,
    };
    let ghost start = views(out@);
    if is_mixin {
        let mut i: usize = 0;
        proof {
            assert(a.pairs@.take(0) =~= Seq::<ElementPair>::empty());
            assert(views(out@) =~= start + pairs_targets(pool@, a.pairs@.take(0)));
        }
        while i < a.pairs.len()
            invariant
                i <= a.pairs@.len(),
                views(out@) == start + pairs_targets(pool@, a.pairs@.take(i as int)),
            decreases a.pairs@.len() - i,
        {
            push_pair(out, pool, &a.pairs[i]);
            proof {
                let t = a.pairs@.take(i + 1);
                assert(t.drop_last() =~= a.pairs@.take(i as int));
                assert(t.last() == a.pairs@[i as int]);
                assert(views(out@) =~= start + pairs_targets(pool@, t));
            }
            i = i + 1;
        }
        proof {
            assert(a.pairs@.take(a.pairs@.len() as int) =~= a.pairs@);
        }
    } else {
        proof {
            assert(views(out@) =~= start + Seq::<Seq<char>>::empty());
        }
    }
}

/// Appends the targets of a stored attribute.
fn push_attribute(out: &mut Vec<String>, pool: &[PoolEntry], a: &RawAttribute)
    ensures
        views(final(out)@) == views(old(out)@) + raw_attribute_targets(pool@, *a),
{
    let ghost start = views(out@);
    match resolve_utf8(pool, a.name_index) {
        Some(n) => {
            let table = str_eq(n.as_str(), "RuntimeVisibleAnnotations") || str_eq(
                n.as_str(),
                "RuntimeInvisibleAnnotations",
            );
            if table && !nesting_exceeds(a.info.as_slice()) {
                match parse_attribute(n.as_str(), a.info.as_slice()) {
                    ClassAttribute::VisibleAnnotations(anns) => push_annotations(out, pool, &anns),
                    ClassAttribute::InvisibleAnnotations(anns) => push_annotations(out, pool, &anns),
                    ClassAttribute::Other => {
                        proof {
                            assert(views(out@) =~= start + Seq::<Seq<char>>::empty());
                        }
                    },
                }
            } else {
                proof {
                    assert(views(out@) =~= start + Seq::<Seq<char>>::empty());
                }
            }
        },
        None => {
            proof {
                assert(views(out@) =~= start + Seq::<Seq<char>>::empty());
            }
        },
    }
}

/// Appends the targets of a list of annotations.
fn push_annotations(out: &mut Vec<String>, pool: &[PoolEntry], anns: &Vec<ClassAnnotation>)
    ensures
        views(final(out)@) == views(old(out)@) + annotations_targets(pool@, anns@),
{
    let ghost start = views(out@);
    let mut i: usize = 0;
    proof {
        assert(anns@.take(0) =~= Seq::<ClassAnnotation>::empty());
        assert(views(out@) =~= start + annotations_targets(pool@, anns@.take(0)));
    }
    while i < anns.len()
        invariant
            i <= anns@.len(),
            views(out@) == start + annotations_targets(pool@, anns@.take(i as int)),
        decreases anns@.len() - i,
    {
        push_annotation(out, pool, &anns[i]);
        proof {
            let t = anns@.take(i + 1);
            assert(t.drop_last() =~= anns@.take(i as int));
            assert(t.last() == anns@[i as int]);
            assert(views(out@) =~= start + annotations_targets(pool@, t));
        }
        i = i + 1;
    }
    proof {
        assert(anns@.take(anns@.len() as int) =~= anns@);
    }
}

/// The mixin targets of a class: for each `@Mixin` annotation (visible or
/// not) of an annotation table that is read, the classes and strings of its `value` and `targets` elements, a
/// class descriptor without its `L` and `;`, each paired with `class_name`.
pub fn extract_mixin_targets(cf: &ClassModel, class_name: &str) -> (r: Vec<MixinEntry>)
    ensures
        mixin_view(r@) == mixin_targets(*cf).map_values(|t: Seq<char>| (class_name@, t)),
{
    let pool = cf.constant_pool.as_slice();
    let mut targets: Vec<String> = Vec::new();
    let mut i: usize = 0;
    proof {
        assert(cf.attributes@.take(0) =~= Seq::<RawAttribute>::empty());
        assert(views(targets@) =~= attributes_targets(pool@, cf.attributes@.take(0)));
    }
    while i < cf.attributes.len()
        invariant
            i <= cf.attributes@.len(),
            pool@ == cf.constant_pool@,
            views(targets@) == attributes_targets(pool@, cf.attributes@.take(i as int)),
        decreases cf.attributes@.len() - i,
    {
        push_attribute(&mut targets, pool, &cf.attributes[i]);
        proof {
            let t = cf.attributes@.take(i + 1);
            assert(t.drop_last() =~= cf.attributes@.take(i as int));
            assert(t.last() == cf.attributes@[i as int]);
            assert(views(targets@) =~= attributes_targets(pool@, t));
        }
        i = i + 1;
    }
    proof {
        assert(cf.attributes@.take(cf.attributes@.len() as int) =~= cf.attributes@);
    }
    let ghost all = views(targets@);
    let mut out: Vec<MixinEntry> = Vec::new();
    let mut k: usize = 0;
    while k < targets.len()
        invariant
            k <= targets@.len(),
            all == views(targets@),
            mixin_view(out@) == all.take(k as int).map_values(|t: Seq<char>| (class_name@, t)),
        decreases targets@.len() - k,
    {
        let ghost before = out@;
        out.push(MixinEntry { mixin_class: owned(class_name), target: owned(targets[k].as_str()) });
        proof {
            assert(all[k as int] == targets@[k as int]@);
            assert(mixin_view(out@) =~= mixin_view(before).push((class_name@, all[k as int])));
            assert(all.take(k + 1) =~= all.take(k as int).push(all[k as int]));
            assert(mixin_view(out@) =~= all.take(k + 1).map_values(|t: Seq<char>| (class_name@, t)));
        }
        k = k + 1;
    }
    proof {
        assert(all.take(all.len() as int) =~= all);
    }
    out
}

} // verus!
