use rustfest::paint::{fallback_color, paint_color, Paint, Rgb};
use rustfest::scene::{
    Element, Fill, PathData, Scene, ShapeKind, Stroke, StyledPath, Tessellation, WithId,
    PRIM_BUFFER_LEN,
};

type TestScene = Scene<&'static str, u32, u8, char>;

fn styled(path: &'static str, fill: Option<u32>, stroke: Option<(u32, char)>) -> StyledPath<&'static str, u32, char> {
    StyledPath { path, fill, stroke }
}

fn path_name(e: &Element<&'static str, u32, u8, char>) -> &'static str {
    match &e.path {
        PathData::Path(p) => p,
        PathData::String(_) => panic!("expected a built path"),
    }
}

fn fill_of(e: &Element<&'static str, u32, u8, char>) -> Option<(i32, u32, u8)> {
    e.fill.as_ref().map(|f| (f.z_index, f.color, f.tolerance))
}

fn stroke_of(e: &Element<&'static str, u32, u8, char>) -> Option<(i32, u32, char)> {
    e.stroke.as_ref().map(|s| (s.z_index, s.color, s.options))
}

fn sample() -> TestScene {
    Scene::from_paths(
        vec![
            styled("a", Some(10), Some((11, 'x'))),
            styled("b", None, None),
            styled("c", None, Some((31, 'y'))),
            styled("d", Some(40), None),
        ],
        7,
    )
}

#[test]
fn paint_color_keeps_solid_colors() {
    let c = Rgb { red: 12, green: 34, blue: 56 };
    assert_eq!(paint_color(&Paint::Color(c)), c);
}

#[test]
fn paint_color_falls_back_to_black() {
    assert_eq!(paint_color(&Paint::Server), Rgb { red: 0, green: 0, blue: 0 });
    assert_eq!(fallback_color(), Rgb { red: 0, green: 0, blue: 0 });
}

#[test]
fn loading_numbers_layers_in_document_order() {
    let scene = sample();
    assert_eq!(scene.items.len(), 4);
    let names: Vec<&str> = scene.items.iter().map(path_name).collect();
    assert_eq!(names, vec!["a", "b", "c", "d"]);
    assert_eq!(fill_of(&scene.items[0]), Some((0, 10, 7)));
    assert_eq!(stroke_of(&scene.items[0]), Some((1, 11, 'x')));
    assert_eq!(fill_of(&scene.items[1]), None);
    assert_eq!(stroke_of(&scene.items[1]), None);
    assert_eq!(fill_of(&scene.items[2]), None);
    assert_eq!(stroke_of(&scene.items[2]), Some((2, 31, 'y')));
    assert_eq!(fill_of(&scene.items[3]), Some((3, 40, 7)));
    assert_eq!(stroke_of(&scene.items[3]), None);
}

#[test]
fn loading_layers_are_consecutive_and_distinct() {
    let mut paths = Vec::new();
    for i in 0..20u32 {
        paths.push(styled("p", if i % 3 != 0 { Some(i) } else { None }, if i % 2 == 0 { Some((i, 'o')) } else { None }));
    }
    let scene: TestScene = Scene::from_paths(paths, 0);
    let mut layers = Vec::new();
    for e in &scene.items {
        if let Some(f) = &e.fill {
            layers.push(f.z_index);
        }
        if let Some(s) = &e.stroke {
            layers.push(s.z_index);
        }
    }
    let expected: Vec<i32> = (0..layers.len() as i32).collect();
    assert_eq!(layers, expected);
}

#[test]
fn loading_nothing_gives_an_empty_scene() {
    let scene: TestScene = Scene::from_paths(Vec::new(), 0);
    assert!(scene.items.is_empty());
    let r = scene.build();
    assert!(r.primitives.is_empty());
    assert!(r.tessellations.is_empty());
}

#[test]
fn build_goes_from_the_top_element_down() {
    let r = sample().build();
    let prims: Vec<(u32, i32)> = r.primitives.iter().map(|p| (p.color, p.z_index)).collect();
    assert_eq!(prims, vec![(40, 3), (31, 2), (10, 0), (11, 1)]);
    assert_eq!(
        r.tessellations,
        vec![
            Tessellation { item: 3, kind: ShapeKind::Fill, ids: WithId(0) },
            Tessellation { item: 2, kind: ShapeKind::Stroke, ids: WithId(1) },
            Tessellation { item: 0, kind: ShapeKind::Fill, ids: WithId(2) },
            Tessellation { item: 0, kind: ShapeKind::Stroke, ids: WithId(3) },
        ]
    );
}

#[test]
fn build_keeps_string_paths_and_hand_made_layers() {
    let scene: TestScene = Scene {
        items: vec![
            Element {
                path: PathData::String("M 0 0 L 1 1".to_string()),
                fill: Some(Fill { z_index: 9, color: 1, tolerance: 2 }),
                stroke: None,
            },
            Element {
                path: PathData::Path("q"),
                fill: None,
                stroke: Some(Stroke { z_index: 4, color: 5, options: 'k' }),
            },
        ],
    };
    let r = scene.build();
    let prims: Vec<(u32, i32)> = r.primitives.iter().map(|p| (p.color, p.z_index)).collect();
    assert_eq!(prims, vec![(5, 4), (1, 9)]);
    assert_eq!(r.tessellations[0], Tessellation { item: 1, kind: ShapeKind::Stroke, ids: WithId(0) });
    assert_eq!(r.tessellations[1], Tessellation { item: 0, kind: ShapeKind::Fill, ids: WithId(1) });
}

#[test]
fn render_layers_of_a_loaded_scene_are_distinct() {
    let mut paths = Vec::new();
    for i in 0..50u32 {
        paths.push(styled("p", if i % 4 != 1 { Some(i) } else { None }, if i % 3 != 2 { Some((i, 's')) } else { None }));
    }
    let scene: TestScene = Scene::from_paths(paths, 0);
    let r = scene.build();
    let mut layers: Vec<i32> = r.primitives.iter().map(|p| p.z_index).collect();
    let n = layers.len() as i32;
    layers.sort();
    assert_eq!(layers, (0..n).collect::<Vec<i32>>());
    for (j, t) in r.tessellations.iter().enumerate() {
        assert_eq!(t.ids, WithId(j as i32));
        let e = &scene.items[t.item];
        let z = match t.kind {
            ShapeKind::Fill => e.fill.as_ref().unwrap().z_index,
            ShapeKind::Stroke => e.stroke.as_ref().unwrap().z_index,
        };
        assert_eq!(z, r.primitives[j].z_index);
    }
}

#[test]
fn primitive_buffer_limit() {
    assert_eq!(PRIM_BUFFER_LEN, 1024);
    let full: TestScene = Scene::from_paths((0..512).map(|_| styled("p", Some(1), Some((2, 'w')))).collect(), 0);
    let r = full.build();
    assert_eq!(r.primitives.len(), 1024);
    assert!(r.fits_primitive_buffer());
    let over: TestScene = Scene::from_paths((0..1025).map(|_| styled("p", Some(1), None)).collect(), 0);
    assert!(!over.build().fits_primitive_buffer());
}

#[test]
fn every_shape_is_planned_once() {
    let mut paths = Vec::new();
    for i in 0..30u32 {
        paths.push(styled("p", if i % 2 == 0 { Some(i) } else { None }, if i % 5 != 0 { Some((i, 's')) } else { None }));
    }
    let scene: TestScene = Scene::from_paths(paths, 0);
    let r = scene.build();
    let mut planned: Vec<(usize, bool)> = r
        .tessellations
        .iter()
        .map(|t| (t.item, t.kind == ShapeKind::Stroke))
        .collect();
    planned.sort();
    let mut expected = Vec::new();
    for (i, e) in scene.items.iter().enumerate() {
        if e.fill.is_some() {
            expected.push((i, false));
        }
        if e.stroke.is_some() {
            expected.push((i, true));
        }
    }
    assert_eq!(planned, expected);
}
