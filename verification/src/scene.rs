//! A scene made of styled paths, each filled and/or stroked, with the layer
//! (z-index) of every fill and stroke.
//!
//! The scene is generic over what the application keeps per shape: `P` is the
//! path geometry, `C` a resolved colour, `T` a fill tolerance and `O` the
//! stroke options. The crate only moves these values around; the layering is
//! what it decides.

use vstd::prelude::*;

verus! {

/// The geometry of an element: either SVG path data still to be parsed, or a
/// path that was already built.
pub enum PathData<P> {
    String(String),
    Path(P),
}

/// The fill of an element.
pub struct Fill<C, T> {
    pub z_index: i32,
    pub color: C,
    pub tolerance: T,
}

/// The stroke of an element.
pub struct Stroke<C, O> {
    pub z_index: i32,
    pub color: C,
    pub options: O,
}

/// One element of the scene: a path with an optional fill and an optional
/// stroke.
pub struct Element<P, C, T, O> {
    pub path: PathData<P>,
    pub fill: Option<Fill<C, T>>,
    pub stroke: Option<Stroke<C, O>>,
}

/// A scene: its elements in document order, the first one at the bottom.
pub struct Scene<P, C, T, O> {
    pub items: Vec<Element<P, C, T, O>>,
}

/// A path of a source document with the style it is drawn with: the colour of
/// its fill, if it has one, and the colour and options of its stroke, if it
/// has one.
pub struct StyledPath<P, C, O> {
    pub path: P,
    pub fill: Option<C>,
    pub stroke: Option<(C, O)>,
}

/// The number of shapes (fills and strokes) that a styled path contributes.
pub open spec fn path_shape_count<P, C, O>(p: StyledPath<P, C, O>) -> nat {
    (if p.fill is Some { 1nat } else { 0nat }) + (if p.stroke is Some { 1nat } else { 0nat })
}

/// The number of shapes (fills and strokes) of a sequence of styled paths.
pub open spec fn style_count<P, C, O>(paths: Seq<StyledPath<P, C, O>>) -> nat
    decreases paths.len(),
{
    if paths.len() == 0 {
        0
    } else {
        style_count(paths.drop_last()) + path_shape_count(paths.last())
    }
}

/// The element that a styled path becomes when `z` shapes come before it:
/// its fill takes layer `z`, its stroke the next free layer.
pub open spec fn loaded_element<P, C, T, O>(p: StyledPath<P, C, O>, z: int, tolerance: T) -> Element<P, C, T, O> {
    Element {
        path: PathData::Path(p.path),
        fill: match p.fill {
            Some(c) => Some(Fill { z_index: z as i32, color: c, tolerance }),
            None => None,
        },
        stroke: match p.stroke {
            Some(s) => Some(
                Stroke {
                    z_index: (z + if p.fill is Some { 1int } else { 0int }) as i32,
                    color: s.0,
                    options: s.1,
                },
            ),
            None => None,
        },
    }
}

/// The elements of a scene loaded from `paths`, in the same order: every
/// shape takes as layer the number of shapes before it, a fill before the
/// stroke of the same path.
pub open spec fn loaded_items<P, C, T, O>(paths: Seq<StyledPath<P, C, O>>, tolerance: T) -> Seq<Element<P, C, T, O>> {
    Seq::new(
        paths.len(),
        |i: int| loaded_element(paths[i], style_count(paths.take(i)) as int, tolerance),
    )
}

/// Counting the shapes of a prefix never gives more than counting them all.
pub proof fn lemma_style_count_prefix<P, C, O>(paths: Seq<StyledPath<P, C, O>>, k: int)
    requires
        0 <= k <= paths.len(),
    ensures
        style_count(paths.take(k)) <= style_count(paths),
    decreases paths.len() - k,
{
    if k < paths.len() {
        lemma_style_count_prefix(paths, k + 1);
        assert(paths.take(k + 1).drop_last() =~= paths.take(k));
    } else {
        assert(paths.take(k) =~= paths);
    }
}

/// Loading keeps every path and its style: element `i` has the geometry of
/// path `i`, a fill exactly when the path has one, in the path's fill colour
/// and with the given tolerance, and a stroke exactly when the path has one,
/// in the path's stroke colour and with its stroke options.
pub proof fn lemma_loaded_shapes_keep_their_style<P, C, T, O>(
    paths: Seq<StyledPath<P, C, O>>,
    tolerance: T,
)
    ensures
        loaded_items(paths, tolerance).len() == paths.len(),
        forall|i: int|
            0 <= i < paths.len() ==> {
                let e = #[trigger] loaded_items(paths, tolerance)[i];
                &&& e.path == PathData::<P>::Path(paths[i].path)
                &&& (e.fill is Some <==> paths[i].fill is Some)
                &&& (e.fill matches Some(f) ==> f.color == paths[i].fill.unwrap() && f.tolerance
                    == tolerance)
                &&& (e.stroke is Some <==> paths[i].stroke is Some)
                &&& (e.stroke matches Some(s) ==> s.color == paths[i].stroke.unwrap().0 && s.options
                    == paths[i].stroke.unwrap().1)
            },
{
}

impl<P, C, T, O> Scene<P, C, T, O> {
    /// Builds the scene of a document from its styled paths, in document
    /// order. Layers are numbered from 0 upwards as the shapes come: for each
    /// path its fill first, then its stroke.
    pub fn from_paths(paths: Vec<StyledPath<P, C, O>>, tolerance: T) -> (scene: Self)
        where T: Copy,
        requires
            style_count(paths@) <= i32::MAX,
        ensures
            scene.items@ == loaded_items(paths@, tolerance),
            scene.items@.len() == paths@.len(),
            forall|i: int|
                0 <= i < paths@.len() ==> {
                    &&& (#[trigger] scene.items@[i]).path == PathData::<P>::Path(paths@[i].path)
                    &&& (scene.items@[i].fill is Some <==> paths@[i].fill is Some)
                    &&& (scene.items@[i].fill matches Some(f) ==> f.color == paths@[i].fill.unwrap()
                        && f.tolerance == tolerance)
                    &&& (scene.items@[i].stroke is Some <==> paths@[i].stroke is Some)
                    &&& (scene.items@[i].stroke matches Some(s) ==> s.color == paths@[i].stroke.unwrap().0
                        && s.options == paths@[i].stroke.unwrap().1)
                },
    {
        let ghost input = paths@;
        let mut items: Vec<Element<P, C, T, O>> = Vec::new();
        let mut z_index: i32 = 0;
        for node in it: paths.into_iter()
            invariant
                it.seq() == input,
                style_count(input) <= i32::MAX,
                items@.len() == it.index(),
                z_index == style_count(input.take(it.index())),
                forall|k: int|
                    0 <= k < items@.len() ==> #[trigger] items@[k] == loaded_element(
                        input[k],
                        style_count(input.take(k)) as int,
                        tolerance,
                    ),
        {
            let ghost i = it.index();
            proof {
                lemma_style_count_prefix(input, i + 1);
                assert(input.take(i + 1).drop_last() =~= input.take(i));
            }
            let mut item = Element { path: PathData::Path(node.path), fill: None, stroke: None };
            if let Some(color) = node.fill {
                item.fill = Some(Fill { z_index, color, tolerance });
                z_index = z_index + 1;
            }
            if let Some((color, options)) = node.stroke {
                item.stroke = Some(Stroke { z_index, color, options });
                z_index = z_index + 1;
            }
            items.push(item);
        }
        proof {
            lemma_loaded_shapes_keep_their_style(input, tolerance);
        }
        Scene { items }
    }
}


/// The size of the GPU buffer of primitives: a render scene with more
/// primitives than this cannot be uploaded.
pub const PRIM_BUFFER_LEN: usize = 1024;

/// The two kinds of shape an element can have.
#[derive(Clone, Copy, Debug, PartialEq, Eq, Structural)]
pub enum ShapeKind {
    Fill,
    Stroke,
}

/// The id of the primitive that the vertices of a tessellation point to.
#[derive(Clone, Copy, Debug, PartialEq, Eq, Structural)]
pub struct WithId(pub i32);

/// What the GPU knows of a shape: its colour and its layer.
pub struct Primitive<C> {
    pub color: C,
    pub z_index: i32,
}

/// One tessellation to perform: the fill or the stroke of element `item`,
/// whose vertices are tagged with the id of their primitive.
#[derive(Clone, Copy, Debug, PartialEq, Eq, Structural)]
pub struct Tessellation {
    pub item: usize,
    pub kind: ShapeKind,
    pub ids: WithId,
}

/// A scene ready for the GPU: its primitives, and the tessellations whose
/// vertices make up its geometry, in the order in which they fill the vertex
/// buffers.
pub struct RenderScene<C> {
    pub primitives: Vec<Primitive<C>>,
    pub tessellations: Vec<Tessellation>,
}

/// The primitives of one element: that of its fill, then that of its stroke.
pub open spec fn element_primitives<P, C, T, O>(e: Element<P, C, T, O>) -> Seq<Primitive<C>> {
    (match e.fill {
        Some(f) => seq![Primitive { color: f.color, z_index: f.z_index }],
        None => Seq::empty(),
    }) + (match e.stroke {
        Some(s) => seq![Primitive { color: s.color, z_index: s.z_index }],
        None => Seq::empty(),
    })
}

/// The shapes of the element at position `index`: its fill, then its stroke.
pub open spec fn element_shapes<P, C, T, O>(index: usize, e: Element<P, C, T, O>) -> Seq<(usize, ShapeKind)> {
    (if e.fill is Some { seq![(index, ShapeKind::Fill)] } else { Seq::empty() })
    + (if e.stroke is Some { seq![(index, ShapeKind::Stroke)] } else { Seq::empty() })
}

/// The primitives of a scene: the elements are taken from the top one (the
/// last) down to the first.
pub open spec fn scene_primitives<P, C, T, O>(items: Seq<Element<P, C, T, O>>) -> Seq<Primitive<C>>
    decreases items.len(),
{
    if items.len() == 0 {
        Seq::empty()
    } else {
        element_primitives(items.last()) + scene_primitives(items.drop_last())
    }
}

/// The shapes of a scene, in the order of `scene_primitives`.
pub open spec fn scene_shapes<P, C, T, O>(items: Seq<Element<P, C, T, O>>) -> Seq<(usize, ShapeKind)>
    decreases items.len(),
{
    if items.len() == 0 {
        Seq::empty()
    } else {
        element_shapes((items.len() - 1) as usize, items.last()) + scene_shapes(items.drop_last())
    }
}

/// The tessellation that the shape at position `j` of `shapes` becomes.
pub open spec fn shape_tessellation(shapes: Seq<(usize, ShapeKind)>, j: int) -> Tessellation {
    Tessellation { item: shapes[j].0, kind: shapes[j].1, ids: WithId(j as i32) }
}

/// A scene has as many shapes as primitives.
pub proof fn lemma_shapes_match_primitives<P, C, T, O>(items: Seq<Element<P, C, T, O>>)
    ensures
        scene_shapes(items).len() == scene_primitives(items).len(),
    decreases items.len(),
{
    if items.len() > 0 {
        lemma_shapes_match_primitives(items.drop_last());
    }
}

impl<P, C, T, O> Scene<P, C, T, O> {
    /// Plans the rendering of the scene: one primitive per fill and per
    /// stroke, from the top element down, and for each of them the
    /// tessellation that draws it, tagged with the primitive's position.
    pub fn build(&self) -> (r: RenderScene<C>)
        where C: Copy,
        requires
            scene_primitives(self.items@).len() <= i32::MAX,
        ensures
            r.primitives@ == scene_primitives(self.items@),
            r.tessellations@.len() == r.primitives@.len(),
            forall|j: int|
                0 <= j < r.tessellations@.len() ==> #[trigger] r.tessellations@[j]
                    == shape_tessellation(scene_shapes(self.items@), j),
            forall|j: int|
                0 <= j < r.tessellations@.len() ==> {
                    &&& (#[trigger] r.tessellations@[j]).ids == WithId(j as i32)
                    &&& r.tessellations@[j].item == scene_shapes(self.items@)[j].0
                    &&& r.tessellations@[j].kind == scene_shapes(self.items@)[j].1
                },
    {
        let ghost items = self.items@;
        let mut primitives: Vec<Primitive<C>> = Vec::new();
        let mut tessellations: Vec<Tessellation> = Vec::new();
        let ghost mut done: Seq<(usize, ShapeKind)> = Seq::empty();
        let n = self.items.len();
        let mut i = n;
        proof {
            assert(items.take(n as int) =~= items);
            lemma_shapes_match_primitives(items);
        }
        while i > 0
            invariant
                i <= n == items.len(),
                items == self.items@,
                scene_primitives(items).len() <= i32::MAX,
                scene_shapes(items).len() == scene_primitives(items).len(),
                scene_primitives(items) == primitives@ + scene_primitives(items.take(i as int)),
                scene_shapes(items) == done + scene_shapes(items.take(i as int)),
                done.len() == primitives@.len() == tessellations@.len(),
                forall|j: int|
                    0 <= j < tessellations@.len() ==> #[trigger] tessellations@[j]
                        == shape_tessellation(done, j),
            decreases i,
        {
            i = i - 1;
            let item = &self.items[i];
            let ghost before = items.take(i as int);
            proof {
                let t = items.take(i + 1);
                assert(t.drop_last() =~= before);
                assert(t.last() == items[i as int]);
                assert(primitives@ + scene_primitives(t) =~= (primitives@ + element_primitives(
                    items[i as int],
                )) + scene_primitives(before));
                assert(done + scene_shapes(t) =~= (done + element_shapes(i, items[i as int]))
                    + scene_shapes(before));
                lemma_shapes_match_primitives(before);
            }
            let ghost prims_before = primitives@;
            let ghost done_before = done;
            if let Some(fill) = &item.fill {
                primitives.push(Primitive { color: fill.color, z_index: fill.z_index });
                let id = WithId(primitives.len() as i32 - 1);
                tessellations.push(Tessellation { item: i, kind: ShapeKind::Fill, ids: id });
                proof {
                    done = done.push((i, ShapeKind::Fill));
                }
            }
            if let Some(stroke) = &item.stroke {
                primitives.push(Primitive { color: stroke.color, z_index: stroke.z_index });
                let id = WithId(primitives.len() as i32 - 1);
                tessellations.push(Tessellation { item: i, kind: ShapeKind::Stroke, ids: id });
                proof {
                    done = done.push((i, ShapeKind::Stroke));
                }
            }
            proof {
                assert(primitives@ =~= prims_before + element_primitives(items[i as int]));
                assert(done =~= done_before + element_shapes(i, items[i as int]));
            }
        }
        proof {
            assert(items.take(0) =~= Seq::<Element<P, C, T, O>>::empty());
            assert(primitives@ =~= scene_primitives(items));
            assert(done =~= scene_shapes(items));
        }
        RenderScene { primitives, tessellations }
    }
}

impl<C> RenderScene<C> {
    /// Whether the primitives fit in the GPU buffer made for them.
    pub fn fits_primitive_buffer(&self) -> (b: bool)
        ensures
            b == (self.primitives@.len() <= PRIM_BUFFER_LEN),
    {
        self.primitives.len() <= PRIM_BUFFER_LEN
    }
}

} // verus!
