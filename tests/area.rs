use render_anim::area::{Area, InstanceArea, ViewArea};
use render_anim::cx::{Cx, CxPass, CxShader, CxView, DrawCall, PropDef, RectInstanceProps, Texture};
use render_anim::math::{Color, LiveItemId, Mat4, Rect, Ty, Vec2, Vec3, Vec4};

const X: LiveItemId = LiveItemId(1);
const POS: LiveItemId = LiveItemId(2);
const COL: LiveItemId = LiveItemId(3);
const DIR: LiveItemId = LiveItemId(4);
const XFORM: LiveItemId = LiveItemId(5);
const GLOW: LiveItemId = LiveItemId(6);
const LIGHT: LiveItemId = LiveItemId(7);
const TEX_A: LiveItemId = LiveItemId(8);
const TEX_B: LiveItemId = LiveItemId(9);
const SLOTS: usize = 26;

fn shader() -> CxShader {
    CxShader {
        instance_props: vec![
            PropDef { live_item_id: X, ty: Ty::Float, offset: 0 },
            PropDef { live_item_id: POS, ty: Ty::Vec2, offset: 1 },
            PropDef { live_item_id: COL, ty: Ty::Vec4, offset: 3 },
            PropDef { live_item_id: DIR, ty: Ty::Vec3, offset: 7 },
            PropDef { live_item_id: XFORM, ty: Ty::Mat4, offset: 10 },
        ],
        total_slots: SLOTS,
        user_uniform_props: vec![
            PropDef { live_item_id: GLOW, ty: Ty::Float, offset: 0 },
            PropDef { live_item_id: LIGHT, ty: Ty::Vec3, offset: 1 },
        ],
        textures: vec![TEX_A, TEX_B, TEX_A],
        rect_instance_props: RectInstanceProps { x: Some(0), y: Some(1), w: Some(2), h: None },
    }
}

fn context(instances: usize) -> Cx<f32> {
    Cx {
        zero: 0.0,
        views: vec![CxView {
            redraw_id: 1,
            pass_id: 0,
            rect: Rect { x: 100.0, y: 200.0, w: 30.0, h: 40.0 },
            draw_calls: vec![DrawCall {
                shader_id: 0,
                instance: vec![0.0; instances * SLOTS],
                user_uniforms: vec![0.0; 4],
                textures_2d: vec![0, 0, 0],
                instance_dirty: false,
                uniforms_dirty: false,
                do_h_scroll: false,
                do_v_scroll: false,
                draw_scroll: Vec2 { x: 3.0, y: 4.0 },
            }],
            unsnapped_scroll: Vec2 { x: 5.0, y: 6.0 },
            parent_scroll: Vec2 { x: 7.0, y: 8.0 },
        }],
        passes: vec![CxPass { paint_dirty: false }],
        shaders: vec![shader()],
        live_update_id: 0,
        playing_anim_areas: Vec::new(),
    }
}

fn instances(count: usize) -> InstanceArea {
    InstanceArea { view_id: 0, draw_call_id: 0, instance_offset: 0, instance_count: count, redraw_id: 1 }
}

fn buffer(cx: &Cx<f32>) -> &Vec<f32> {
    &cx.views[0].draw_calls[0].instance
}

#[test]
fn default_area_is_empty() {
    let area = Area::default();
    assert_eq!(area, Area::Empty);
    assert!(area.is_empty());
    assert!(!Area::All.is_empty());
    assert!(!Area::Instance(instances(1)).is_empty());
}

#[test]
fn validity_follows_generation() {
    let mut cx = context(1);
    let inst = Area::Instance(instances(1));
    let view = Area::View(ViewArea { view_id: 0, redraw_id: 1 });
    assert!(inst.is_valid(&cx));
    assert!(view.is_valid(&cx));
    assert!(!Area::Empty.is_valid(&cx));
    assert!(!Area::All.is_valid(&cx));
    assert!(!Area::Instance(instances(0)).is_valid(&cx));
    assert!(!Area::View(ViewArea { view_id: 3, redraw_id: 1 }).is_valid(&cx));
    cx.views[0].redraw_id = 2;
    assert!(!inst.is_valid(&cx));
    assert!(!view.is_valid(&cx));
}

#[test]
fn stale_handle_reads_zero_and_writes_nothing() {
    let mut cx = context(1);
    let area = Area::Instance(instances(1));
    area.write_float(&mut cx, X, 9.0);
    assert_eq!(area.read_float(&cx, X), 9.0);
    cx.views[0].redraw_id += 1;
    assert_eq!(area.read_float(&cx, X), 0.0);
    assert_eq!(area.read_vec2(&cx, POS), Vec2 { x: 0.0, y: 0.0 });
    assert_eq!(area.get_scroll_pos(&cx), Vec2 { x: 0.0, y: 0.0 });
    assert_eq!(area.get_local_scroll_pos(&cx), Vec2 { x: 0.0, y: 0.0 });
    let view = Area::View(ViewArea { view_id: 0, redraw_id: 1 });
    assert_eq!(view.get_scroll_pos(&cx), Vec2 { x: 0.0, y: 0.0 });
    assert_eq!(view.get_local_scroll_pos(&cx), Vec2 { x: 0.0, y: 0.0 });
    cx.views[0].draw_calls[0].instance_dirty = false;
    cx.passes[0].paint_dirty = false;
    let before = buffer(&cx).clone();
    area.write_float(&mut cx, X, 1.0);
    area.write_vec4(&mut cx, COL, Vec4 { x: 1.0, y: 2.0, z: 3.0, w: 4.0 });
    area.write_uniform_float(&mut cx, GLOW, 2.0);
    assert_eq!(buffer(&cx), &before);
    assert_eq!(cx.views[0].draw_calls[0].user_uniforms, vec![0.0; 4]);
    assert!(!cx.views[0].draw_calls[0].instance_dirty);
    assert!(!cx.passes[0].paint_dirty);
    assert!(area.get_write_ref(&mut cx).is_none());
}

#[test]
fn vec2_is_stored_y_first() {
    let mut cx = context(1);
    let area = Area::Instance(instances(1));
    area.write_vec2(&mut cx, POS, Vec2 { x: 1.5, y: 2.5 });
    assert_eq!(buffer(&cx)[1], 2.5);
    assert_eq!(buffer(&cx)[2], 1.5);
    assert_eq!(area.read_vec2(&cx, POS), Vec2 { x: 2.5, y: 1.5 });
}

#[test]
fn vec3_vec4_color_are_stored_in_order() {
    let mut cx = context(1);
    let area = Area::Instance(instances(1));
    area.write_vec3(&mut cx, DIR, Vec3 { x: 1.0, y: 2.0, z: 3.0 });
    assert_eq!(&buffer(&cx)[7..10], &[1.0, 2.0, 3.0]);
    assert_eq!(area.read_vec3(&cx, DIR), Vec3 { x: 1.0, y: 2.0, z: 3.0 });
    area.write_vec4(&mut cx, COL, Vec4 { x: 4.0, y: 5.0, z: 6.0, w: 7.0 });
    assert_eq!(&buffer(&cx)[3..7], &[4.0, 5.0, 6.0, 7.0]);
    assert_eq!(area.read_vec4(&cx, COL), Vec4 { x: 4.0, y: 5.0, z: 6.0, w: 7.0 });
    area.write_color(&mut cx, COL, Color { r: 0.1, g: 0.2, b: 0.3, a: 0.4 });
    assert_eq!(&buffer(&cx)[3..7], &[0.1, 0.2, 0.3, 0.4]);
    assert_eq!(area.read_color(&cx, COL), Color { r: 0.1, g: 0.2, b: 0.3, a: 0.4 });
}

#[test]
fn write_broadcasts_to_every_instance() {
    let mut cx = context(3);
    let area = Area::Instance(instances(3));
    area.write_float(&mut cx, X, 4.0);
    area.write_vec2(&mut cx, POS, Vec2 { x: 1.0, y: 2.0 });
    for i in 0..3 {
        assert_eq!(buffer(&cx)[i * SLOTS], 4.0);
        assert_eq!(buffer(&cx)[i * SLOTS + 1], 2.0);
        assert_eq!(buffer(&cx)[i * SLOTS + 2], 1.0);
        assert_eq!(buffer(&cx)[i * SLOTS + 3], 0.0);
    }
    assert!(cx.views[0].draw_calls[0].instance_dirty);
    assert!(cx.passes[0].paint_dirty);
}

#[test]
fn write_covers_only_the_handle_range() {
    let mut cx = context(3);
    let area = Area::Instance(InstanceArea {
        view_id: 0,
        draw_call_id: 0,
        instance_offset: SLOTS,
        instance_count: 1,
        redraw_id: 1,
    });
    area.write_float(&mut cx, X, 8.0);
    assert_eq!(buffer(&cx)[0], 0.0);
    assert_eq!(buffer(&cx)[SLOTS], 8.0);
    assert_eq!(buffer(&cx)[2 * SLOTS], 0.0);
}

#[test]
fn missing_or_mistyped_property_is_ignored() {
    let mut cx = context(1);
    let area = Area::Instance(instances(1));
    let before = buffer(&cx).clone();
    area.write_vec2(&mut cx, X, Vec2 { x: 1.0, y: 1.0 });
    area.write_float(&mut cx, LiveItemId(99), 1.0);
    assert_eq!(buffer(&cx), &before);
    assert_eq!(area.get_instance_offset(&cx, X, Ty::Vec2), None);
    assert_eq!(area.get_instance_offset(&cx, POS, Ty::Vec2), Some(1));
    assert_eq!(area.get_instance_offset(&cx, LiveItemId(99), Ty::Float), None);
    assert_eq!(area.read_float(&cx, LiveItemId(99)), 0.0);
}

#[test]
fn write_past_buffer_end_is_ignored() {
    let mut cx = context(1);
    let area = Area::Instance(instances(2));
    let before = buffer(&cx).clone();
    area.write_float(&mut cx, X, 1.0);
    assert_eq!(buffer(&cx), &before);
    assert!(!cx.views[0].draw_calls[0].instance_dirty);
}

#[test]
fn mat4_round_trip() {
    let mut cx = context(1);
    let area = Area::Instance(instances(1));
    let mut v = [0.0f32; 16];
    for (j, slot) in v.iter_mut().enumerate() {
        *slot = j as f32 + 0.5;
    }
    area.write_mat4(&mut cx, XFORM, &Mat4 { v });
    assert_eq!(&buffer(&cx)[10..26], &v[..]);
    assert_eq!(area.read_mat4(&cx, XFORM).v, v);
    assert_eq!(area.read_mat4(&cx, X).v, [0.0f32; 16]);
}

#[test]
fn uniform_writes() {
    let mut cx = context(1);
    let area = Area::Instance(instances(1));
    area.write_uniform_float(&mut cx, GLOW, 2.5);
    area.write_uniform_vec3(&mut cx, LIGHT, Vec3 { x: 1.0, y: 2.0, z: 3.0 });
    assert_eq!(cx.views[0].draw_calls[0].user_uniforms, vec![2.5, 1.0, 2.0, 3.0]);
    assert!(cx.views[0].draw_calls[0].uniforms_dirty);
    assert!(cx.passes[0].paint_dirty);
    assert_eq!(area.get_user_uniform_offset(&cx, LIGHT, Ty::Vec3), Some(1));
    assert_eq!(area.get_user_uniform_offset(&cx, LIGHT, Ty::Float), None);
}

#[test]
fn instance_uniform_float_skips_dirty_marking() {
    let mut cx = context(1);
    let inst = instances(1);
    inst.write_uniform_float(&mut cx, GLOW, 6.0);
    assert_eq!(cx.views[0].draw_calls[0].user_uniforms[0], 6.0);
    assert!(!cx.views[0].draw_calls[0].uniforms_dirty);
    assert_eq!(InstanceArea::get_user_uniform_offset(&cx.shaders[0], GLOW, Ty::Float), Some(0));
    assert_eq!(InstanceArea::get_user_uniform_offset(&cx.shaders[0], GLOW, Ty::Vec2), None);
}

#[test]
fn scroll_positions() {
    let cx = context(1);
    let inst = Area::Instance(instances(1));
    let view = Area::View(ViewArea { view_id: 0, redraw_id: 1 });
    assert_eq!(inst.get_scroll_pos(&cx), Vec2 { x: 3.0, y: 4.0 });
    assert_eq!(inst.get_local_scroll_pos(&cx), Vec2 { x: 5.0, y: 6.0 });
    assert_eq!(view.get_scroll_pos(&cx), Vec2 { x: 7.0, y: 8.0 });
    assert_eq!(view.get_local_scroll_pos(&cx), Vec2 { x: 5.0, y: 6.0 });
    assert_eq!(Area::Empty.get_scroll_pos(&cx), Vec2 { x: 0.0, y: 0.0 });
}

#[test]
fn push_appends_in_natural_order() {
    let mut cx = context(0);
    let inst = instances(1);
    inst.push_float(&mut cx, 1.0);
    inst.push_vec2(&mut cx, Vec2 { x: 2.0, y: 3.0 });
    inst.push_vec3(&mut cx, Vec3 { x: 4.0, y: 5.0, z: 6.0 });
    inst.push_vec4(&mut cx, Vec4 { x: 7.0, y: 8.0, z: 9.0, w: 10.0 });
    inst.push_color(&mut cx, Color { r: 11.0, g: 12.0, b: 13.0, a: 14.0 });
    inst.push_slice(&mut cx, &[15.0, 16.0]);
    let expected: Vec<f32> = (1..=16).map(|i| i as f32).collect();
    assert_eq!(buffer(&cx), &expected);
}

#[test]
fn scroll_flags_and_first_instance() {
    let mut cx = context(1);
    let inst = instances(1);
    inst.set_do_scroll(&mut cx, true, false);
    assert!(cx.views[0].draw_calls[0].do_h_scroll);
    assert!(!cx.views[0].draw_calls[0].do_v_scroll);
    assert!(inst.is_first_instance());
    let later = InstanceArea { instance_offset: SLOTS, ..inst };
    assert!(!later.is_first_instance());
}

#[test]
fn texture_slots_bind_first_match() {
    let mut cx = context(1);
    let inst = instances(1);
    assert_eq!(InstanceArea::get_texture_offset(&cx.shaders[0], TEX_A), Some(0));
    assert_eq!(InstanceArea::get_texture_offset(&cx.shaders[0], TEX_B), Some(1));
    assert_eq!(InstanceArea::get_texture_offset(&cx.shaders[0], LiveItemId(77)), None);
    inst.write_texture_2d_id(&mut cx, TEX_B, 12);
    inst.write_texture_2d(&mut cx, TEX_A, Texture { texture_id: 30 });
    inst.write_texture_2d_id(&mut cx, LiveItemId(77), 5);
    assert_eq!(cx.views[0].draw_calls[0].textures_2d, vec![30, 12, 0]);
}

#[test]
fn read_ref_locates_live_range() {
    let cx = context(2);
    let area = Area::Instance(InstanceArea {
        view_id: 0,
        draw_call_id: 0,
        instance_offset: SLOTS,
        instance_count: 1,
        redraw_id: 1,
    });
    let r = area.get_read_ref(&cx).unwrap();
    assert_eq!((r.view_id, r.draw_call_id, r.offset, r.slots, r.count), (0, 0, SLOTS, SLOTS, 1));
    assert!(Area::View(ViewArea { view_id: 0, redraw_id: 1 }).get_read_ref(&cx).is_none());
}

#[test]
fn set_rect_fills_rect_slots_of_first_instance() {
    let mut cx = context(2);
    let area = Area::Instance(instances(2));
    area.set_rect(&mut cx, &Rect { x: 1.0, y: 2.0, w: 3.0, h: 4.0 });
    assert_eq!(&buffer(&cx)[0..4], &[1.0, 2.0, 3.0, 0.0]);
    assert_eq!(&buffer(&cx)[SLOTS..SLOTS + 4], &[0.0, 0.0, 0.0, 0.0]);
    let view = Area::View(ViewArea { view_id: 0, redraw_id: 9 });
    view.set_rect(&mut cx, &Rect { x: 5.0, y: 6.0, w: 7.0, h: 8.0 });
    assert_eq!(cx.views[0].rect, Rect { x: 5.0, y: 6.0, w: 7.0, h: 8.0 });
    cx.views[0].redraw_id = 2;
    let before = buffer(&cx).clone();
    area.set_rect(&mut cx, &Rect { x: 9.0, y: 9.0, w: 9.0, h: 9.0 });
    assert_eq!(buffer(&cx), &before);
}

#[test]
fn instance_range_converts_to_area() {
    let inst = instances(2);
    let area: Area = inst.into();
    assert_eq!(area, Area::Instance(inst));
    assert_eq!(Area::from(inst), Area::Instance(inst));
}

fn clip_and_scroll(dc: &DrawCall<f32>, x: f32, y: f32, w: f32, h: f32) -> Rect<f32> {
    Rect { x: x - dc.draw_scroll.x, y: y - dc.draw_scroll.y, w, h }
}

#[test]
fn rect_of_instance_and_view() {
    let mut cx = context(1);
    cx.shaders[0].rect_instance_props.h = Some(3);
    let area = Area::Instance(instances(1));
    area.set_rect(&mut cx, &Rect { x: 10.0, y: 20.0, w: 30.0, h: 40.0 });
    let minus = |a: f32, b: f32| a - b;
    assert_eq!(area.get_rect(&cx, &clip_and_scroll, &minus), Rect { x: 7.0, y: 16.0, w: 30.0, h: 40.0 });
    let view = Area::View(ViewArea { view_id: 0, redraw_id: 1 });
    assert_eq!(view.get_rect(&cx, &clip_and_scroll, &minus), Rect { x: 93.0, y: 192.0, w: 30.0, h: 40.0 });
    cx.views[0].redraw_id = 2;
    let zero = Rect { x: 0.0, y: 0.0, w: 0.0, h: 0.0 };
    assert_eq!(area.get_rect(&cx, &clip_and_scroll, &minus), zero);
    assert_eq!(view.get_rect(&cx, &clip_and_scroll, &minus), zero);
}

#[test]
fn rect_needs_all_four_slots() {
    let cx = context(1);
    let area = Area::Instance(instances(1));
    let minus = |a: f32, b: f32| a - b;
    assert_eq!(area.get_rect(&cx, &clip_and_scroll, &minus), Rect { x: 0.0, y: 0.0, w: 0.0, h: 0.0 });
}

#[test]
fn abs_to_rel_of_instance_and_view() {
    let mut cx = context(1);
    let area = Area::Instance(instances(1));
    area.set_rect(&mut cx, &Rect { x: 10.0, y: 20.0, w: 30.0, h: 40.0 });
    let plus = |a: f32, b: f32| a + b;
    let minus = |a: f32, b: f32| a - b;
    let abs = Vec2 { x: 50.0, y: 60.0 };
    assert_eq!(area.abs_to_rel(&cx, abs, &plus, &minus), Vec2 { x: 43.0, y: 44.0 });
    let view = Area::View(ViewArea { view_id: 0, redraw_id: 1 });
    assert_eq!(view.abs_to_rel(&cx, abs, &plus, &minus), Vec2 { x: -38.0, y: -142.0 });
    cx.views[0].redraw_id = 2;
    assert_eq!(area.abs_to_rel(&cx, abs, &plus, &minus), abs);
    assert_eq!(view.abs_to_rel(&cx, abs, &plus, &minus), abs);
}

#[test]
fn overrunning_property_is_found_but_not_accessed() {
    let mut cx = context(1);
    cx.shaders[0].instance_props.push(PropDef { live_item_id: LiveItemId(40), ty: Ty::Vec4, offset: SLOTS - 2 });
    let area = Area::Instance(instances(1));
    assert_eq!(area.get_instance_offset(&cx, LiveItemId(40), Ty::Vec4), Some(SLOTS - 2));
    let before = buffer(&cx).clone();
    area.write_vec4(&mut cx, LiveItemId(40), Vec4 { x: 1.0, y: 1.0, z: 1.0, w: 1.0 });
    assert_eq!(buffer(&cx), &before);
    assert_eq!(area.read_vec4(&cx, LiveItemId(40)), Vec4 { x: 0.0, y: 0.0, z: 0.0, w: 0.0 });
}
