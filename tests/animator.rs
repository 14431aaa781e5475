use render_anim::anim::{Anim, Ease, Play, Policy, Sample, Track, KEY_ONE, sample_keys};
use render_anim::animator::{AnimInfo, AnimLastValue, Animator};
use render_anim::area::{Area, InstanceArea};
use render_anim::cx::{Cx, CxPass, CxShader, CxView, DrawCall, PropDef, RectInstanceProps};
use render_anim::math::{Color, LiveItemId, Rect, Ty, Vec2, Vec3, Vec4};

const OPACITY: LiveItemId = LiveItemId(10);
const SHIFT: LiveItemId = LiveItemId(11);
const TINT: LiveItemId = LiveItemId(12);
const SLOTS: usize = 7;

fn lerp(a: f32, b: f32, f: u64) -> f32 {
    a + (b - a) * (f as f32 / KEY_ONE as f32)
}

fn context() -> Cx<f32> {
    Cx {
        zero: 0.0,
        views: vec![CxView {
            redraw_id: 1,
            pass_id: 0,
            rect: Rect { x: 100.0, y: 200.0, w: 30.0, h: 40.0 },
            draw_calls: vec![DrawCall {
                shader_id: 0,
                instance: vec![0.0; SLOTS],
                user_uniforms: Vec::new(),
                textures_2d: Vec::new(),
                instance_dirty: false,
                uniforms_dirty: false,
                do_h_scroll: false,
                do_v_scroll: false,
                draw_scroll: Vec2 { x: 0.0, y: 0.0 },
            }],
            unsnapped_scroll: Vec2 { x: 0.0, y: 0.0 },
            parent_scroll: Vec2 { x: 0.0, y: 0.0 },
        }],
        passes: vec![CxPass { paint_dirty: false }],
        shaders: vec![CxShader {
            instance_props: vec![
                PropDef { live_item_id: OPACITY, ty: Ty::Float, offset: 0 },
                PropDef { live_item_id: SHIFT, ty: Ty::Vec2, offset: 1 },
                PropDef { live_item_id: TINT, ty: Ty::Vec4, offset: 3 },
            ],
            total_slots: SLOTS,
            user_uniform_props: Vec::new(),
            textures: Vec::new(),
            rect_instance_props: RectInstanceProps { x: None, y: None, w: None, h: None },
        }],
        live_update_id: 1,
        playing_anim_areas: Vec::new(),
    }
}

fn area() -> Area {
    Area::Instance(InstanceArea { view_id: 0, draw_call_id: 0, instance_offset: 0, instance_count: 1, redraw_id: 1 })
}

fn animator() -> Animator<f32> {
    Animator { area: area(), ..Animator::default() }
}

fn play(policy: Policy, duration: u64) -> Play {
    Play { policy, duration, terminal: false }
}

fn float_anim(policy: Policy, duration: u64, from: f32, to: f32) -> Anim<f32> {
    Anim {
        play: play(policy, duration),
        tracks: vec![Track::Float {
            bind_to: OPACITY,
            keys: vec![(0, from), (KEY_ONE, to)],
            cut_init: false,
            ease: Ease::Lin,
        }],
    }
}

fn entry(cx: &Cx<f32>) -> Option<AnimInfo> {
    cx.playing_anim_areas.iter().find(|e| e.0 == area()).map(|e| e.1)
}

#[test]
fn linear_float_track_midpoint_and_end() {
    let mut cx = context();
    let mut a = animator();
    a.play_anim(&mut cx, float_anim(Policy::Cut, 1000, 0.0, 10.0));
    assert_eq!(a.calc_float(&mut cx, OPACITY, 5000, &lerp), 0.0);
    let mid = a.calc_float(&mut cx, OPACITY, 5500, &lerp);
    assert!((mid - 5.0).abs() < 1e-4);
    assert_eq!(a.calc_float(&mut cx, OPACITY, 6000, &lerp), 10.0);
    assert_eq!(a.calc_float(&mut cx, OPACITY, 9000, &lerp), 10.0);
    assert_eq!(a.last_float(&cx, OPACITY), 10.0);
}

#[test]
fn sampling_cases() {
    let keys: Vec<(u64, f32)> = vec![(200_000, 1.0), (600_000, 3.0), (1_000_000, 7.0)];
    assert_eq!(sample_keys(&keys, 100_000, true, Ease::Lin), Sample::Hold);
    assert_eq!(sample_keys(&keys, 200_000, false, Ease::Lin), Sample::At(1.0));
    assert_eq!(sample_keys(&keys, 400_000, false, Ease::Lin), Sample::Between(1.0, 3.0, 500_000));
    assert_eq!(sample_keys(&keys, 700_000, false, Ease::InQuad), Sample::Between(3.0, 7.0, 62_500));
    assert_eq!(sample_keys(&keys, 1_000_000, false, Ease::Lin), Sample::At(7.0));
    let none: Vec<(u64, f32)> = Vec::new();
    assert_eq!(sample_keys(&none, 500_000, false, Ease::Lin), Sample::Zero);
}

#[test]
fn easing_values() {
    assert_eq!(Ease::Lin.map(300_000), 300_000);
    assert_eq!(Ease::InQuad.map(500_000), 250_000);
    assert_eq!(Ease::OutQuad.map(500_000), 750_000);
    assert_eq!(Ease::InOutQuad.map(250_000), 125_000);
    assert_eq!(Ease::InOutQuad.map(750_000), 875_000);
    assert_eq!(Ease::InOutQuad.map(KEY_ONE), KEY_ONE);
}

#[test]
fn normalized_time() {
    let p = play(Policy::Cut, 400);
    assert_eq!(p.compute_time(0), 0);
    assert_eq!(p.compute_time(100), 250_000);
    assert_eq!(p.compute_time(400), KEY_ONE);
    assert_eq!(p.compute_time(9999), KEY_ONE);
    assert_eq!(play(Policy::Cut, 0).compute_time(0), KEY_ONE);
    assert!(p.cut());
    assert!(!play(Policy::Chain, 1).cut());
}

#[test]
fn chain_queues_then_takes_over() {
    let mut cx = context();
    let mut a = animator();
    a.play_anim(&mut cx, float_anim(Policy::Cut, 1000, 0.0, 10.0));
    assert_eq!(entry(&cx), Some(AnimInfo { start_time: None, total_time: 1000 }));
    a.calc_float(&mut cx, OPACITY, 100, &lerp);
    a.calc_float(&mut cx, OPACITY, 600, &lerp);
    a.play_anim(&mut cx, float_anim(Policy::Chain, 400, 20.0, 40.0));
    assert_eq!(entry(&cx), Some(AnimInfo { start_time: Some(100), total_time: 1400 }));
    let before = a.calc_float(&mut cx, OPACITY, 1000, &lerp);
    assert!((before - 9.0).abs() < 1e-4);
    let after = a.calc_float(&mut cx, OPACITY, 1300, &lerp);
    assert!((after - 30.0).abs() < 1e-4);
    assert_eq!(entry(&cx), Some(AnimInfo { start_time: Some(1100), total_time: 400 }));
    assert!(a.next.is_none());
}

#[test]
fn cut_replaces_and_resets() {
    let mut cx = context();
    let mut a = animator();
    a.play_anim(&mut cx, float_anim(Policy::Cut, 1000, 0.0, 10.0));
    a.calc_float(&mut cx, OPACITY, 100, &lerp);
    a.play_anim(&mut cx, float_anim(Policy::Chain, 400, 20.0, 40.0));
    a.play_anim(&mut cx, float_anim(Policy::Cut, 200, 50.0, 60.0));
    assert_eq!(entry(&cx), Some(AnimInfo { start_time: None, total_time: 200 }));
    assert!(a.next.is_none());
    assert_eq!(a.calc_float(&mut cx, OPACITY, 700, &lerp), 50.0);
}

#[test]
fn terminal_animation_cannot_be_replaced() {
    let mut cx = context();
    let mut a = animator();
    let mut term = float_anim(Policy::Cut, 1000, 0.0, 10.0);
    term.play.terminal = true;
    a.play_anim(&mut cx, term);
    assert!(a.term_anim_playing());
    a.play_anim(&mut cx, float_anim(Policy::Cut, 50, 70.0, 80.0));
    assert!(a.term_anim_playing());
    assert_eq!(a.current.as_ref().unwrap().play.duration, 1000);
    assert_eq!(entry(&cx), Some(AnimInfo { start_time: None, total_time: 1000 }));
}

#[test]
fn end_caches_closing_values() {
    let mut cx = context();
    let mut a = animator();
    a.set_last_float(OPACITY, 3.0);
    a.play_anim(&mut cx, float_anim(Policy::Cut, 1000, 0.0, 10.0));
    a.calc_float(&mut cx, OPACITY, 0, &lerp);
    let mid = a.calc_float(&mut cx, OPACITY, 250, &lerp);
    assert!((mid - 2.5).abs() < 1e-4);
    a.end(&cx);
    assert!(a.current.is_none());
    assert_eq!(a.last_float(&cx, OPACITY), 10.0);
}

#[test]
fn end_and_set_takes_other_closing_values() {
    let mut a = animator();
    a.end_and_set(&context(), float_anim(Policy::Cut, 10, 1.0, 2.0));
    assert_eq!(a.last_float(&context(), OPACITY), 2.0);
    assert!(a.current.is_none());
}

#[test]
fn calc_area_twice_at_same_time_is_stable() {
    let mut cx = context();
    let mut a = animator();
    let anim = Anim {
        play: play(Policy::Cut, 100),
        tracks: vec![
            Track::Float { bind_to: OPACITY, keys: vec![(0, 0.0), (KEY_ONE, 1.0)], cut_init: false, ease: Ease::Lin },
            Track::Vec2 {
                bind_to: SHIFT,
                keys: vec![(0, Vec2 { x: 0.0, y: 0.0 }), (KEY_ONE, Vec2 { x: 10.0, y: 20.0 })],
                cut_init: false,
                ease: Ease::Lin,
            },
            Track::Color {
                bind_to: TINT,
                keys: vec![(500_000, Color { r: 1.0, g: 1.0, b: 1.0, a: 1.0 })],
                cut_init: true,
                ease: Ease::Lin,
            },
        ],
    };
    a.set_last_color(TINT, Color { r: 0.5, g: 0.5, b: 0.5, a: 0.5 });
    a.play_anim(&mut cx, anim);
    a.calc_area(&mut cx, area(), 0, &lerp);
    a.calc_area(&mut cx, area(), 40, &lerp);
    let buf1 = cx.views[0].draw_calls[0].instance.clone();
    let cache1 = (a.last_float(&cx, OPACITY), a.last_vec2(&cx, SHIFT), a.last_color(&cx, TINT));
    a.calc_area(&mut cx, area(), 40, &lerp);
    let buf2 = cx.views[0].draw_calls[0].instance.clone();
    let cache2 = (a.last_float(&cx, OPACITY), a.last_vec2(&cx, SHIFT), a.last_color(&cx, TINT));
    assert_eq!(buf1, buf2);
    assert_eq!(cache1, cache2);
    assert!((buf1[0] - 0.4).abs() < 1e-5);
    assert!((buf1[1] - 8.0).abs() < 1e-5);
    assert!((buf1[2] - 4.0).abs() < 1e-5);
    assert_eq!(&buf1[3..7], &[0.5, 0.5, 0.5, 0.5]);
}

#[test]
fn calc_without_animation_holds_last_value() {
    let mut cx = context();
    let mut a = animator();
    a.set_last_vec3(OPACITY, Vec3 { x: 1.0, y: 2.0, z: 3.0 });
    assert_eq!(a.calc_vec3(&mut cx, OPACITY, 10, &lerp), Vec3 { x: 1.0, y: 2.0, z: 3.0 });
    assert_eq!(a.calc_vec4(&mut cx, SHIFT, 10, &lerp), Vec4 { x: 0.0, y: 0.0, z: 0.0, w: 0.0 });
    assert_eq!(a.last_vec4(&cx, SHIFT), Vec4 { x: 0.0, y: 0.0, z: 0.0, w: 0.0 });
    assert_eq!(a.last_float(&cx, OPACITY), 0.0);
}

#[test]
fn empty_track_resolves_to_zero() {
    let mut cx = context();
    let mut a = animator();
    a.set_last_float(OPACITY, 4.0);
    let anim = Anim {
        play: play(Policy::Cut, 100),
        tracks: vec![Track::Float { bind_to: OPACITY, keys: Vec::new(), cut_init: false, ease: Ease::Lin }],
    };
    a.play_anim(&mut cx, anim);
    assert_eq!(a.calc_float(&mut cx, OPACITY, 10, &lerp), 0.0);
    a.set_last_float(OPACITY, 4.0);
    a.end(&cx);
    assert_eq!(a.last_float(&cx, OPACITY), 0.0);
}

#[test]
fn stale_area_snaps_to_closing_values() {
    let mut cx = context();
    cx.views[0].redraw_id = 5;
    let mut a = animator();
    a.play_anim(&mut cx, float_anim(Policy::Cut, 1000, 0.0, 10.0));
    assert!(cx.playing_anim_areas.is_empty());
    assert_eq!(a.last_float(&cx, OPACITY), 10.0);
    assert_eq!(a.calc_float(&mut cx, OPACITY, 10, &lerp), 10.0);
    assert_eq!(a.live_update_id, 1);
}

#[test]
fn idle_animator_drops_registry_entry() {
    let mut cx = context();
    let mut a = animator();
    a.play_anim(&mut cx, float_anim(Policy::Cut, 1000, 0.0, 10.0));
    assert!(entry(&cx).is_some());
    a.end(&cx);
    assert_eq!(a.update_anim_track(&mut cx, 5), None);
    assert!(entry(&cx).is_none());
}

#[test]
fn init_halts_and_snapshots_once_per_generation() {
    let mut cx = context();
    let mut a = animator();
    a.play_anim(&mut cx, float_anim(Policy::Cut, 1000, 0.0, 10.0));
    cx.live_update_id = 2;
    a.init(&mut cx, |_cx: &Cx<f32>| float_anim(Policy::Cut, 10, 5.0, 6.0));
    assert_eq!(a.live_update_id, 2);
    assert_eq!(entry(&cx), Some(AnimInfo { start_time: None, total_time: 0 }));
    assert_eq!(a.last_float(&cx, OPACITY), 6.0);
    a.set_last_float(OPACITY, 1.0);
    a.init(&mut cx, |_cx: &Cx<f32>| float_anim(Policy::Cut, 10, 5.0, 8.0));
    assert_eq!(a.last_float(&cx, OPACITY), 1.0);
}

#[test]
fn set_area_moves_registry_entry() {
    let mut cx = context();
    let mut a = animator();
    a.play_anim(&mut cx, float_anim(Policy::Cut, 1000, 0.0, 10.0));
    let moved = Area::Instance(InstanceArea { view_id: 0, draw_call_id: 0, instance_offset: 0, instance_count: 2, redraw_id: 1 });
    a.set_area(&mut cx, moved);
    assert_eq!(a.area, moved);
    assert!(entry(&cx).is_none());
    assert_eq!(
        cx.playing_anim_areas.iter().find(|e| e.0 == moved).map(|e| e.1),
        Some(AnimInfo { start_time: None, total_time: 1000 })
    );
}

#[test]
fn track_lookup_and_bind_ids() {
    let mut cx = context();
    let mut a = animator();
    assert_eq!(a.find_track_index(OPACITY), None);
    let anim = Anim {
        play: play(Policy::Cut, 100),
        tracks: vec![
            Track::Vec2 { bind_to: SHIFT, keys: Vec::new(), cut_init: false, ease: Ease::Lin },
            Track::Float { bind_to: OPACITY, keys: Vec::new(), cut_init: false, ease: Ease::Lin },
        ],
    };
    assert_eq!(anim.tracks[1].bind_id(), OPACITY);
    a.play_anim(&mut cx, anim);
    assert_eq!(a.find_track_index(OPACITY), Some(1));
    assert_eq!(a.find_track_index(TINT), None);
}

#[test]
fn vec_and_color_calc() {
    let mut cx = context();
    let mut a = animator();
    let anim = Anim {
        play: play(Policy::Cut, 100),
        tracks: vec![
            Track::Vec2 {
                bind_to: SHIFT,
                keys: vec![(0, Vec2 { x: 0.0, y: 0.0 }), (KEY_ONE, Vec2 { x: 2.0, y: 4.0 })],
                cut_init: false,
                ease: Ease::Lin,
            },
            Track::Color {
                bind_to: TINT,
                keys: vec![(0, Color { r: 0.0, g: 0.0, b: 0.0, a: 0.0 }), (KEY_ONE, Color { r: 1.0, g: 1.0, b: 1.0, a: 1.0 })],
                cut_init: false,
                ease: Ease::Lin,
            },
        ],
    };
    a.play_anim(&mut cx, anim);
    a.calc_area(&mut cx, area(), 0, &lerp);
    assert_eq!(a.calc_vec2(&mut cx, SHIFT, 50, &lerp), Vec2 { x: 1.0, y: 2.0 });
    assert_eq!(a.calc_color(&mut cx, TINT, 50, &lerp), Color { r: 0.5, g: 0.5, b: 0.5, a: 0.5 });
    assert_eq!(a.last_color(&cx, TINT), Color { r: 0.5, g: 0.5, b: 0.5, a: 0.5 });
}

#[test]
fn push_last_values() {
    let mut cx = context();
    cx.views[0].draw_calls[0].instance.clear();
    let mut a = animator();
    a.set_last_float(OPACITY, 1.0);
    a.set_last_vec2(SHIFT, Vec2 { x: 2.0, y: 3.0 });
    a.set_last_vec4(TINT, Vec4 { x: 4.0, y: 5.0, z: 6.0, w: 7.0 });
    let inst = InstanceArea { view_id: 0, draw_call_id: 0, instance_offset: 0, instance_count: 1, redraw_id: 1 };
    assert_eq!(inst.push_last_float(&mut cx, &a, OPACITY), 1.0);
    assert_eq!(inst.push_last_vec2(&mut cx, &a, SHIFT), Vec2 { x: 2.0, y: 3.0 });
    assert_eq!(inst.push_last_vec4(&mut cx, &a, TINT), Vec4 { x: 4.0, y: 5.0, z: 6.0, w: 7.0 });
    assert_eq!(inst.push_last_vec3(&mut cx, &a, TINT), Vec3 { x: 0.0, y: 0.0, z: 0.0 });
    assert_eq!(inst.push_last_color(&mut cx, &a, TINT), Color { r: 0.0, g: 0.0, b: 0.0, a: 0.0 });
    assert_eq!(
        cx.views[0].draw_calls[0].instance,
        vec![1.0, 2.0, 3.0, 4.0, 5.0, 6.0, 7.0, 0.0, 0.0, 0.0, 0.0, 0.0, 0.0, 0.0]
    );
}

#[test]
fn keyless_track_caches_kind_zero() {
    let cx = context();
    let mut a = animator();
    a.set_last_float(TINT, 9.0);
    a.set_last_float(OPACITY, 4.0);
    let anim = Anim {
        play: play(Policy::Cut, 100),
        tracks: vec![
            Track::Vec2 { bind_to: OPACITY, keys: Vec::new(), cut_init: false, ease: Ease::Lin },
            Track::Float { bind_to: SHIFT, keys: vec![(0, 3.0)], cut_init: false, ease: Ease::Lin },
        ],
    };
    a.set_anim_as_last_values(&cx, &anim);
    assert_eq!(
        a.last_values,
        vec![
            (TINT, AnimLastValue::Float(9.0)),
            (OPACITY, AnimLastValue::Vec2(Vec2 { x: 0.0, y: 0.0 })),
            (SHIFT, AnimLastValue::Float(3.0)),
        ]
    );
}

#[test]
fn chain_extends_current_total() {
    let mut cx = context();
    let mut a = animator();
    a.play_anim(&mut cx, float_anim(Policy::Cut, 1000, 0.0, 10.0));
    cx.live_update_id = 2;
    a.init(&mut cx, |_cx: &Cx<f32>| float_anim(Policy::Cut, 10, 5.0, 6.0));
    assert_eq!(entry(&cx), Some(AnimInfo { start_time: None, total_time: 0 }));
    a.play_anim(&mut cx, float_anim(Policy::Chain, 400, 20.0, 40.0));
    assert_eq!(entry(&cx), Some(AnimInfo { start_time: None, total_time: 400 }));
}
