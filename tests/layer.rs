use clui_base::{
    Clui, CluiColor, CluiLayer, CluiUiRect, CluiVertex, DrawInstruction, Point, Rect, Scalar,
    Size,
};

fn px(p: i32) -> Scalar {
    Scalar::from_pixels(p)
}

fn window(x: i32, y: i32, w: i32, h: i32, shade: u8, z_index: i32) -> CluiUiRect {
    CluiUiRect {
        rect: Rect::from_values(px(x), px(y), px(w), px(h)),
        background_color: CluiColor { r: shade, g: 0, b: 0, a: 255 },
        z_index,
    }
}

#[test]
fn it_works2() {
    let result = 2 + 2;
    assert_eq!(result, 4);
}

#[test]
fn layer_basics() {
    let mut clui = Clui::new();
    {
        let layer_key = clui.create_layer();
        let layer = clui.get_layer_by_key(layer_key).unwrap();

        layer.update_viewport(px(800), px(600));

        let rect = Rect::from_values(px(10), px(11), px(100), px(110));
        let wk = layer.add_window(CluiUiRect {
            rect,
            background_color: Default::default(),
            z_index: 0,
        });
        let w = layer.get_window_by_key(wk);

        assert_eq!(w.rect, Rect::from_values(px(10), px(11), px(100), px(110)));
        assert_eq!(
            w.background_color,
            CluiColor {
                r: 0,
                g: 0,
                b: 0,
                a: 0
            }
        );

        layer.remove_window(wk);
    }
}

#[test]
fn new_layer_is_empty_with_default_viewport() {
    let layer = CluiLayer::new();
    assert_eq!(layer.window_count(), 0);
    assert_eq!(layer.viewport(), Size::from_wh(px(800), px(600)));
    assert!(layer.can_add_window());
}

#[test]
fn update_viewport_replaces_size() {
    let mut layer = CluiLayer::new();
    let k = layer.add_window(window(1, 2, 3, 4, 9, 0));
    layer.update_viewport(px(1024), px(768));
    assert_eq!(layer.viewport(), Size::from_wh(px(1024), px(768)));
    assert_eq!(*layer.get_window_by_key(k), window(1, 2, 3, 4, 9, 0));
}

#[test]
fn add_then_get_returns_what_was_added() {
    let mut layer = CluiLayer::new();
    let w = window(3, 4, 50, 60, 7, 2);
    let k = layer.add_window(w);
    assert_eq!(layer.get_window(k), Some(&w));
    assert_eq!(layer.window_count(), 1);
    assert_eq!(layer.remove_window(k), Some(w));
    assert_eq!(layer.get_window(k), None);
    assert_eq!(layer.window_count(), 0);
    assert_eq!(layer.remove_window(k), None);
}

#[test]
fn removed_handle_stays_missing_after_reuse() {
    let mut layer = CluiLayer::new();
    let mut keys = Vec::new();
    for i in 0..5 {
        keys.push(layer.add_window(window(i, i, 1, 1, i as u8, 0)));
    }
    let gone = keys[2];
    assert_eq!(layer.remove_window(gone), Some(window(2, 2, 1, 1, 2, 0)));
    for i in 0..20 {
        let k = layer.add_window(window(100 + i, 0, 1, 1, 0, 0));
        assert_ne!(k, gone);
        assert_eq!(layer.get_window(gone), None);
    }
    assert_eq!(layer.get_window(keys[1]), Some(&window(1, 1, 1, 1, 1, 0)));
    assert_eq!(layer.window_count(), 24);
}

#[test]
fn default_window_is_empty_at_origin() {
    let mut layer = CluiLayer::new();
    let k = layer.add_default_window();
    let w = *layer.get_window_by_key(k);
    assert_eq!(w, CluiUiRect::default());
    assert_eq!(w.rect, Rect::from_values(px(0), px(0), px(0), px(0)));
    assert_eq!(w.z_index, 0);
    assert_eq!(w.background_color, CluiColor::default());
}

#[test]
fn mutable_borrow_writes_the_window() {
    let mut layer = CluiLayer::new();
    let k = layer.add_window(window(0, 0, 10, 10, 1, 0));
    let other = layer.add_window(window(5, 5, 1, 1, 2, 0));
    layer.get_mut_window_by_key(k).z_index = 7;
    if let Some(w) = layer.get_window_mut(k) {
        w.background_color = CluiColor { r: 1, g: 2, b: 3, a: 4 };
    }
    let w = layer.get_window_by_key(k);
    assert_eq!(w.z_index, 7);
    assert_eq!(w.background_color, CluiColor { r: 1, g: 2, b: 3, a: 4 });
    assert_eq!(*layer.get_window_by_key(other), window(5, 5, 1, 1, 2, 0));
    layer.remove_window(k);
    assert!(layer.get_window_mut(k).is_none());
}

#[test]
fn update_twice_changes_nothing() {
    let mut layer = CluiLayer::new();
    let a = layer.add_window(window(1, 1, 2, 2, 1, 3));
    let b = layer.add_window(window(4, 4, 2, 2, 2, -1));
    let before = layer.compile_draw_set();
    layer.update();
    layer.update();
    assert_eq!(*layer.get_window_by_key(a), window(1, 1, 2, 2, 1, 3));
    assert_eq!(*layer.get_window_by_key(b), window(4, 4, 2, 2, 2, -1));
    let after = layer.compile_draw_set();
    assert_eq!(before.vertices, after.vertices);
    assert_eq!(before.indices, after.indices);
    assert_eq!(before.draws, after.draws);
}

#[test]
fn empty_layer_compiles_to_empty_draw_set() {
    let layer = CluiLayer::new();
    let d = layer.compile_draw_set();
    assert!(d.vertices.is_empty());
    assert!(d.indices.is_empty());
    assert!(d.draws.is_empty());
    assert_eq!(d.viewport, Size::from_wh(px(800), px(600)));
    assert_eq!(d.scissor, Rect::from_values(px(0), px(0), px(800), px(600)));
}

#[test]
fn one_window_compiles_to_one_quad() {
    let mut layer = CluiLayer::new();
    layer.update_viewport(px(320), px(200));
    layer.add_window(window(1, 2, 3, 4, 9, 0));
    let d = layer.compile_draw_set();
    let c = CluiColor { r: 9, g: 0, b: 0, a: 255 };
    assert_eq!(
        d.vertices,
        vec![
            CluiVertex { x: 64, y: 128, color: c },
            CluiVertex { x: 256, y: 128, color: c },
            CluiVertex { x: 256, y: 384, color: c },
            CluiVertex { x: 64, y: 384, color: c },
        ]
    );
    assert_eq!(d.indices, vec![0, 1, 2, 0, 2, 3]);
    assert_eq!(
        d.draws,
        vec![DrawInstruction { index_offset: 0, index_count: 6, vertex_offset: 0 }]
    );
    assert_eq!(d.viewport, Size::from_wh(px(320), px(200)));
    assert_eq!(d.scissor, Rect::from_values(px(0), px(0), px(320), px(200)));
}

#[test]
fn draws_follow_depth_then_insertion() {
    let mut layer = CluiLayer::new();
    layer.add_window(window(0, 0, 1, 1, 1, 5));
    layer.add_window(window(0, 0, 1, 1, 2, 0));
    layer.add_window(window(0, 0, 1, 1, 3, -2));
    layer.add_window(window(0, 0, 1, 1, 4, 0));
    let d = layer.compile_draw_set();
    let shades: Vec<u8> = d.vertices.iter().step_by(4).map(|v| v.color.r).collect();
    assert_eq!(shades, vec![3, 2, 4, 1]);
    assert_eq!(d.draws.len(), 4);
    for (i, draw) in d.draws.iter().enumerate() {
        assert_eq!(draw.index_offset, 6 * i as u32);
        assert_eq!(draw.index_count, 6);
        assert_eq!(draw.vertex_offset, 4 * i as u32);
    }
    assert_eq!(d.indices.len(), 24);
}

#[test]
fn equal_depth_keeps_insertion_order_after_slot_reuse() {
    let mut layer = CluiLayer::new();
    let first = layer.add_window(window(0, 0, 1, 1, 1, 0));
    layer.add_window(window(0, 0, 1, 1, 2, 0));
    layer.remove_window(first);
    layer.add_window(window(0, 0, 1, 1, 3, 0));
    let d = layer.compile_draw_set();
    let shades: Vec<u8> = d.vertices.iter().step_by(4).map(|v| v.color.r).collect();
    assert_eq!(shades, vec![2, 3]);
}

#[test]
fn compiling_twice_is_identical() {
    let mut layer = CluiLayer::new();
    for i in 0..6 {
        layer.add_window(window(i, 2 * i, 10, 10, i as u8, (i % 3) - 1));
    }
    let d1 = layer.compile_draw_set();
    let d2 = layer.compile_draw_set();
    assert_eq!(d1.vertices, d2.vertices);
    assert_eq!(d1.indices, d2.indices);
    assert_eq!(d1.draws, d2.draws);
    assert_eq!(d1.viewport, d2.viewport);
    assert_eq!(d1.scissor, d2.scissor);
}

#[test]
fn render_data_has_one_set_per_layer_in_creation_order() {
    let mut clui = Clui::new();
    let a = clui.create_layer();
    let b = clui.create_layer();
    assert_ne!(a, b);
    assert_eq!(clui.layer_count(), 2);
    clui.get_layer_by_key(b).unwrap().add_window(window(0, 0, 2, 2, 8, 0));
    clui.get_layer_by_key(a).unwrap().update_viewport(px(10), px(10));
    let list = clui.get_render_data();
    assert_eq!(list.draw_sets.len(), 2);
    assert_eq!(list.draw_sets[0].viewport, Size::from_wh(px(10), px(10)));
    assert!(list.draw_sets[0].vertices.is_empty());
    assert_eq!(list.draw_sets[1].vertices.len(), 4);
    assert_eq!(list.draw_sets[1].vertices[0].color.r, 8);
}

#[test]
fn unknown_layer_key_gives_none() {
    let mut one = Clui::new();
    let _ = one.create_layer();
    let mut other = Clui::new();
    let k = other.create_layer();
    let k2 = other.create_layer();
    assert!(one.get_layer_by_key(k2).is_none());
    assert!(other.get_layer_by_key(k).is_some());
}

#[test]
fn window_at_negative_position_compiles() {
    let mut layer = CluiLayer::new();
    layer.add_window(CluiUiRect {
        rect: Rect::from_corners(
            Point { x: px(-3), y: px(-1) },
            Point { x: px(2), y: px(4) },
        ),
        background_color: CluiColor::default(),
        z_index: 0,
    });
    let d = layer.compile_draw_set();
    assert_eq!(d.vertices[0].x, -192);
    assert_eq!(d.vertices[0].y, -64);
    assert_eq!(d.vertices[2].x, 128);
    assert_eq!(d.vertices[2].y, 256);
}
