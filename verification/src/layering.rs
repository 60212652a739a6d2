//! Laws of the layering: how the layers that loading gives the shapes of a
//! document carry over to the primitives that rendering plans.

use vstd::prelude::*;
use crate::scene::{
    Element, Primitive, ShapeKind, StyledPath, element_primitives, element_shapes, lemma_shapes_match_primitives,
    loaded_element, loaded_items, scene_primitives, scene_shapes, style_count,
};

verus! {

/// The layers of one element: that of its fill, then that of its stroke.
pub open spec fn element_z_indices<P, C, T, O>(e: Element<P, C, T, O>) -> Seq<i32> {
    (match e.fill {
        Some(f) => seq![f.z_index],
        None => Seq::empty(),
    }) + (match e.stroke {
        Some(s) => seq![s.z_index],
        None => Seq::empty(),
    })
}

/// The layers of a scene in document order.
pub open spec fn scene_z_indices<P, C, T, O>(items: Seq<Element<P, C, T, O>>) -> Seq<i32>
    decreases items.len(),
{
    if items.len() == 0 {
        Seq::empty()
    } else {
        scene_z_indices(items.drop_last()) + element_z_indices(items.last())
    }
}

/// The primitive that the shape of kind `kind` of element `e` is drawn with,
/// if the element has that shape.
pub open spec fn shape_primitive<P, C, T, O>(e: Element<P, C, T, O>, kind: ShapeKind) -> Option<Primitive<C>> {
    match kind {
        ShapeKind::Fill => match e.fill {
            Some(f) => Some(Primitive { color: f.color, z_index: f.z_index }),
            None => None,
        },
        ShapeKind::Stroke => match e.stroke {
            Some(s) => Some(Primitive { color: s.color, z_index: s.z_index }),
            None => None,
        },
    }
}

/// Dropping the last path of a document leaves the other elements as they
/// were loaded.
proof fn lemma_loaded_drop_last<P, C, T, O>(paths: Seq<StyledPath<P, C, O>>, tolerance: T)
    requires
        paths.len() > 0,
    ensures
        loaded_items(paths, tolerance).drop_last() == loaded_items(paths.drop_last(), tolerance),
        loaded_items(paths, tolerance).last() == loaded_element(
            paths.last(),
            style_count(paths.drop_last()) as int,
            tolerance,
        ),
{
    let dl = paths.drop_last();
    assert forall|i: int| 0 <= i < dl.len() implies #[trigger] dl.take(i) == paths.take(i) by {
        assert(dl.take(i) =~= paths.take(i));
    }
    assert(loaded_items(paths, tolerance).drop_last() =~= loaded_items(dl, tolerance));
    assert(paths.take(paths.len() - 1) =~= dl);
}

/// Loading numbers the layers of a document consecutively: in document
/// order, for each path its fill and then its stroke, the layers are
/// 0, 1, 2, ... up to the number of shapes less one. So no two shapes share a
/// layer, and a later shape always lies above an earlier one.
pub proof fn lemma_loaded_layers_are_consecutive<P, C, T, O>(
    paths: Seq<StyledPath<P, C, O>>,
    tolerance: T,
)
    requires
        style_count(paths) <= i32::MAX,
    ensures
        scene_z_indices(loaded_items(paths, tolerance)) == Seq::new(
            style_count(paths),
            |k: int| k as i32,
        ),
    decreases paths.len(),
{
    let items = loaded_items(paths, tolerance);
    if paths.len() == 0 {
        assert(scene_z_indices(items) =~= Seq::new(style_count(paths), |k: int| k as i32));
    } else {
        let dl = paths.drop_last();
        lemma_loaded_drop_last(paths, tolerance);
        lemma_loaded_layers_are_consecutive(dl, tolerance);
        assert(scene_z_indices(items) =~= Seq::new(style_count(paths), |k: int| k as i32));
    }
}

/// All the primitives of a loaded document, as rendering plans them: there
/// is one per shape, every layer lies below the number of shapes, and no two
/// primitives share a layer.
pub proof fn lemma_render_layers_distinct<P, C, T, O>(paths: Seq<StyledPath<P, C, O>>, tolerance: T)
    requires
        style_count(paths) <= i32::MAX,
    ensures
        scene_primitives(loaded_items(paths, tolerance)).len() == style_count(paths),
        forall|j: int|
            0 <= j < style_count(paths) ==> 0 <= #[trigger] scene_primitives(
                loaded_items(paths, tolerance),
            )[j].z_index < style_count(paths),
        forall|j: int, k: int|
            0 <= j < k < style_count(paths) ==> #[trigger] scene_primitives(
                loaded_items(paths, tolerance),
            )[j].z_index != #[trigger] scene_primitives(loaded_items(paths, tolerance))[k].z_index,
    decreases paths.len(),
{
    let items = loaded_items(paths, tolerance);
    if paths.len() > 0 {
        let dl = paths.drop_last();
        lemma_loaded_drop_last(paths, tolerance);
        lemma_render_layers_distinct(dl, tolerance);
        let head = element_primitives(items.last());
        let rest = scene_primitives(loaded_items(dl, tolerance));
        let all = scene_primitives(items);
        assert(all == head + rest);
        let base = style_count(dl);
        assert(forall|j: int| 0 <= j < head.len() ==> base <= #[trigger] head[j].z_index < style_count(paths));
        assert(forall|j: int, k: int| 0 <= j < k < head.len() ==> #[trigger] head[j].z_index != #[trigger] head[k].z_index);
        assert forall|j: int| 0 <= j < all.len() implies (j < head.len() ==> all[j] == head[j]) && (
        j >= head.len() ==> all[j] == rest[j - head.len()]) by {}
    }
}

/// Every tessellation of a render plan draws an existing shape of the
/// scene, and the primitive at the same position is the one of that shape:
/// its colour and its layer.
pub proof fn lemma_tessellations_match_primitives<P, C, T, O>(items: Seq<Element<P, C, T, O>>)
    requires
        items.len() <= usize::MAX,
    ensures
        scene_shapes(items).len() == scene_primitives(items).len(),
        forall|j: int|
            0 <= j < scene_shapes(items).len() ==> {
                let (i, kind) = #[trigger] scene_shapes(items)[j];
                &&& i < items.len()
                &&& shape_primitive(items[i as int], kind) == Some(scene_primitives(items)[j])
            },
    decreases items.len(),
{
    lemma_shapes_match_primitives(items);
    if items.len() > 0 {
        let dl = items.drop_last();
        lemma_tessellations_match_primitives(dl);
        let last = (items.len() - 1) as usize;
        let hs = element_shapes(last, items.last());
        let hp = element_primitives(items.last());
        assert(hs.len() == hp.len());
        assert forall|j: int| 0 <= j < scene_shapes(items).len() implies {
            let (i, kind) = #[trigger] scene_shapes(items)[j];
            &&& i < items.len()
            &&& shape_primitive(items[i as int], kind) == Some(scene_primitives(items)[j])
        } by {
            if j >= hs.len() {
                let (i, kind) = scene_shapes(dl)[j - hs.len()];
                assert(scene_shapes(items)[j] == scene_shapes(dl)[j - hs.len()]);
                assert(scene_primitives(items)[j] == scene_primitives(dl)[j - hs.len()]);
                assert(items[i as int] == dl[i as int]);
            }
        }
    }
}


/// Rendering draws every shape of a scene exactly once: no shape is planned
/// twice, and every fill and every stroke of every element is planned.
pub proof fn lemma_every_shape_planned_once<P, C, T, O>(items: Seq<Element<P, C, T, O>>)
    requires
        items.len() <= usize::MAX,
    ensures
        scene_shapes(items).no_duplicates(),
        forall|i: int, kind: ShapeKind|
            0 <= i < items.len() && (#[trigger] shape_primitive(items[i], kind)) is Some
                ==> scene_shapes(items).contains((i as usize, kind)),
    decreases items.len(),
{
    if items.len() > 0 {
        let dl = items.drop_last();
        lemma_every_shape_planned_once(dl);
        lemma_shape_indices_below(dl);
        let last = (items.len() - 1) as usize;
        let head = element_shapes(last, items.last());
        let rest = scene_shapes(dl);
        let all = scene_shapes(items);
        assert(all == head + rest);
        assert forall|j: int, k: int| 0 <= j < all.len() && 0 <= k < all.len() && j != k
            implies all[j] != all[k] by {
            if j >= head.len() {
                assert(all[j] == rest[j - head.len()]);
            }
            if k >= head.len() {
                assert(all[k] == rest[k - head.len()]);
            }
        }
        assert forall|i: int, kind: ShapeKind|
            0 <= i < items.len() && (#[trigger] shape_primitive(items[i], kind)) is Some
                implies all.contains((i as usize, kind)) by {
            if i < last {
                assert(items[i] == dl[i]);
                let j = choose|j: int| 0 <= j < rest.len() && rest[j] == (i as usize, kind);
                assert(all[j + head.len()] == rest[j]);
            } else {
                match kind {
                    ShapeKind::Fill => { assert(all[0] == (i as usize, kind)); },
                    ShapeKind::Stroke => {
                        let j = head.len() - 1;
                        assert(all[j] == (i as usize, kind));
                    },
                }
            }
        }
    }
}

/// Rendering plans the elements from the top one (the last) down to the
/// first, and within an element its fill before its stroke.
pub proof fn lemma_plan_goes_top_down<P, C, T, O>(items: Seq<Element<P, C, T, O>>)
    requires
        items.len() <= usize::MAX,
    ensures
        forall|j: int, k: int|
            0 <= j < k < scene_shapes(items).len() ==> {
                let a = #[trigger] scene_shapes(items)[j];
                let b = #[trigger] scene_shapes(items)[k];
                ||| a.0 > b.0
                ||| (a.0 == b.0 && a.1 == ShapeKind::Fill && b.1 == ShapeKind::Stroke)
            },
    decreases items.len(),
{
    if items.len() > 0 {
        let dl = items.drop_last();
        lemma_plan_goes_top_down(dl);
        lemma_shape_indices_below(dl);
        let last = (items.len() - 1) as usize;
        let head = element_shapes(last, items.last());
        let rest = scene_shapes(dl);
        let all = scene_shapes(items);
        assert(all == head + rest);
        assert forall|j: int, k: int| 0 <= j < k < all.len() implies {
            let a = #[trigger] all[j];
            let b = #[trigger] all[k];
            ||| a.0 > b.0
            ||| (a.0 == b.0 && a.1 == ShapeKind::Fill && b.1 == ShapeKind::Stroke)
        } by {
            if k >= head.len() {
                assert(all[k] == rest[k - head.len()]);
                if j >= head.len() {
                    assert(all[j] == rest[j - head.len()]);
                }
            }
        }
    }
}

/// Every shape planned for a scene belongs to one of its elements.
proof fn lemma_shape_indices_below<P, C, T, O>(items: Seq<Element<P, C, T, O>>)
    requires
        items.len() <= usize::MAX,
    ensures
        forall|j: int| 0 <= j < scene_shapes(items).len() ==> (#[trigger] scene_shapes(items)[j]).0 < items.len(),
    decreases items.len(),
{
    if items.len() > 0 {
        lemma_shape_indices_below(items.drop_last());
        let head = element_shapes((items.len() - 1) as usize, items.last());
        assert forall|j: int| 0 <= j < scene_shapes(items).len() implies (#[trigger] scene_shapes(items)[j]).0 < items.len() by {
            if j >= head.len() {
                assert(scene_shapes(items)[j] == scene_shapes(items.drop_last())[j - head.len()]);
            }
        }
    }
}

} // verus!
