use vstd::prelude::*;
use crate::anim::{Anim, Play, Policy, Sample, Track, sample_keys, sample_spec};
use crate::area::{Area, InstanceArea};
use crate::cx::Cx;
use crate::keyed::{distinct_keys, find_key, first_with_key, lookup, remove_key, set_key};
use crate::math::{Color, LiveItemId, Ty, Vec2, Vec3, Vec4};

verus! {

/// Registry entry of an area with an animation in flight.
#[derive(Clone, Copy, Debug, PartialEq, Eq, Structural)]
pub struct AnimInfo {
    /// When the current animation started; `None` until the clock is first observed.
    pub start_time: Option<u64>,
    /// Time left for the current animation and any queued one, from `start_time`.
    pub total_time: u64,
}

/// A property value as last resolved, tagged with its kind.
#[derive(Clone, Copy, Debug, PartialEq, Eq)]
pub enum AnimLastValue<S> {
    Float(S),
    Vec2(Vec2<S>),
    Vec3(Vec3<S>),
    Vec4(Vec4<S>),
    Color(Color<S>),
}

/// The value a track ends on: its last key, or the zero of its kind for a track
/// without keys.
pub open spec fn closing_value<S>(track: Track<S>, zero: S) -> AnimLastValue<S> {
    match track {
        Track::Float { keys, .. } => AnimLastValue::Float(
            if keys@.len() > 0 { keys@.last().1 } else { zero },
        ),
        Track::Vec2 { keys, .. } => AnimLastValue::Vec2(
            if keys@.len() > 0 { keys@.last().1 } else { Vec2 { x: zero, y: zero } },
        ),
        Track::Vec3 { keys, .. } => AnimLastValue::Vec3(
            if keys@.len() > 0 { keys@.last().1 } else { Vec3 { x: zero, y: zero, z: zero } },
        ),
        Track::Vec4 { keys, .. } => AnimLastValue::Vec4(
            if keys@.len() > 0 { keys@.last().1 } else { Vec4 { x: zero, y: zero, z: zero, w: zero } },
        ),
        Track::Color { keys, .. } => AnimLastValue::Color(
            if keys@.len() > 0 { keys@.last().1 } else { Color { r: zero, g: zero, b: zero, a: zero } },
        ),
    }
}

/// The last track of `tracks` bound to `id`.
pub open spec fn last_track_for<S>(tracks: Seq<Track<S>>, id: LiveItemId) -> Option<Track<S>>
    decreases tracks.len(),
{
    if tracks.len() == 0 {
        None
    } else if tracks.last().bound_to() == id {
        Some(tracks.last())
    } else {
        last_track_for(tracks.drop_last(), id)
    }
}

/// The cached value of `id` after snapshotting the closing values of `tracks` over
/// the cached value `before`: the closing value of the last track bound to `id`, with
/// `zero` as the zero of the kinds.
pub open spec fn after_closing<S>(tracks: Seq<Track<S>>, id: LiveItemId, before: Option<AnimLastValue<S>>, zero: S) -> Option<AnimLastValue<S>> {
    match last_track_for(tracks, id) {
        Some(t) => Some(closing_value(t, zero)),
        None => before,
    }
}

/// Every entry of `post` past the length of `pre` is bound by one of `tracks`.
pub open spec fn appended_from<S, V>(pre: Seq<(LiveItemId, V)>, post: Seq<(LiveItemId, V)>, tracks: Seq<Track<S>>) -> bool {
    &&& pre.len() <= post.len()
    &&& forall|i: int| 0 <= i < pre.len() ==> #[trigger] post[i].0 == pre[i].0
    &&& forall|i: int| pre.len() <= i < post.len() ==> exists|j: int| 0 <= j < tracks.len() && #[trigger] tracks[j].bound_to() == #[trigger] post[i].0
}

pub open spec fn float_or<S>(v: Option<AnimLastValue<S>>, zero: S) -> S {
    match v {
        Some(AnimLastValue::Float(x)) => x,
        _ => zero,
    }
}

pub open spec fn vec2_or<S>(v: Option<AnimLastValue<S>>, zero: S) -> Vec2<S> {
    match v {
        Some(AnimLastValue::Vec2(x)) => x,
        _ => Vec2 { x: zero, y: zero },
    }
}

pub open spec fn vec3_or<S>(v: Option<AnimLastValue<S>>, zero: S) -> Vec3<S> {
    match v {
        Some(AnimLastValue::Vec3(x)) => x,
        _ => Vec3 { x: zero, y: zero, z: zero },
    }
}

pub open spec fn vec4_or<S>(v: Option<AnimLastValue<S>>, zero: S) -> Vec4<S> {
    match v {
        Some(AnimLastValue::Vec4(x)) => x,
        _ => Vec4 { x: zero, y: zero, z: zero, w: zero },
    }
}

pub open spec fn color_or<S>(v: Option<AnimLastValue<S>>, zero: S) -> Color<S> {
    match v {
        Some(AnimLastValue::Color(x)) => x,
        _ => Color { r: zero, g: zero, b: zero, a: zero },
    }
}

/// The registry entry of `area` in `cx`.
pub open spec fn entry<S>(cx: Cx<S>, area: Area) -> Option<AnimInfo> {
    lookup(cx.playing_anim_areas@, area)
}

/// `post` differs from `pre` at most in the registry entry of `area`.
pub open spec fn registry_changed_at<S>(pre: Cx<S>, post: Cx<S>, area: Area) -> bool {
    &&& post.zero == pre.zero
    &&& post.views == pre.views
    &&& post.passes == pre.passes
    &&& post.shaders == pre.shaders
    &&& post.live_update_id == pre.live_update_id
    &&& forall|a: Area| a != area ==> #[trigger] entry(post, a) == entry(pre, a)
    &&& distinct_keys(pre.playing_anim_areas@) ==> distinct_keys(post.playing_anim_areas@)
}

/// Start of the current animation once the clock reads `time`: the recorded start,
/// or `time` itself if none was recorded yet.
pub open spec fn stamped(info: AnimInfo, time: u64) -> u64 {
    match info.start_time {
        Some(s) => s,
        None => time,
    }
}

/// Ticks from `start` to `time`, zero if `time` is earlier.
pub open spec fn elapsed_since(time: u64, start: u64) -> u64 {
    if time >= start {
        (time - start) as u64
    } else {
        0
    }
}

/// Whether the queued animation takes over at `time`: one is queued and the current
/// one has run its full duration.
pub open spec fn promotes(info: AnimInfo, cur: Play, has_next: bool, time: u64) -> bool {
    has_next && elapsed_since(time, stamped(info, time)) >= cur.duration
}

/// The registry entry once the clock reads `time`: the start stamped, and on a
/// hand-over to the queued animation, moved on by the finished duration, which is also
/// taken off the total.
pub open spec fn advanced_info(info: AnimInfo, cur: Play, has_next: bool, time: u64) -> AnimInfo {
    let s = stamped(info, time);
    if promotes(info, cur, has_next, time) {
        AnimInfo {
            start_time: Some((s + cur.duration) as u64),
            total_time: info.total_time.saturating_sub(cur.duration),
        }
    } else {
        AnimInfo { start_time: Some(s), total_time: info.total_time }
    }
}

/// Tracks paired with the property each is bound to.
pub open spec fn track_keys<S>(tracks: Seq<Track<S>>) -> Seq<(LiveItemId, Track<S>)> {
    tracks.map_values(|t: Track<S>| (t.bound_to(), t))
}

/// `r` is what sample `smp` resolves to: the kind's zero for a track without keys,
/// `last` while holding, a key's value, or between two keys what `lerp` returns for
/// their values and the eased fraction.
pub open spec fn resolves_float<S, F: Fn(S, S, u64) -> S>(smp: Sample<S>, last: S, zero: S, lerp: F, r: S) -> bool {
    match smp {
        Sample::Zero => r == zero,
        Sample::Hold => r == last,
        Sample::At(v) => r == v,
        Sample::Between(a, b, f) => call_ensures(lerp, (a, b, f), r),
    }
}

/// As `resolves_float`, component by component.
pub open spec fn resolves_vec2<S, F: Fn(S, S, u64) -> S>(smp: Sample<Vec2<S>>, last: Vec2<S>, zero: S, lerp: F, r: Vec2<S>) -> bool {
    match smp {
        Sample::Zero => r == Vec2 { x: zero, y: zero },
        Sample::Hold => r == last,
        Sample::At(v) => r == v,
        Sample::Between(a, b, f) => call_ensures(lerp, (a.x, b.x, f), r.x) && call_ensures(lerp, (a.y, b.y, f), r.y),
    }
}

pub open spec fn resolves_vec3<S, F: Fn(S, S, u64) -> S>(smp: Sample<Vec3<S>>, last: Vec3<S>, zero: S, lerp: F, r: Vec3<S>) -> bool {
    match smp {
        Sample::Zero => r == Vec3 { x: zero, y: zero, z: zero },
        Sample::Hold => r == last,
        Sample::At(v) => r == v,
        Sample::Between(a, b, f) => call_ensures(lerp, (a.x, b.x, f), r.x) && call_ensures(lerp, (a.y, b.y, f), r.y)
            && call_ensures(lerp, (a.z, b.z, f), r.z),
    }
}

pub open spec fn resolves_vec4<S, F: Fn(S, S, u64) -> S>(smp: Sample<Vec4<S>>, last: Vec4<S>, zero: S, lerp: F, r: Vec4<S>) -> bool {
    match smp {
        Sample::Zero => r == Vec4 { x: zero, y: zero, z: zero, w: zero },
        Sample::Hold => r == last,
        Sample::At(v) => r == v,
        Sample::Between(a, b, f) => call_ensures(lerp, (a.x, b.x, f), r.x) && call_ensures(lerp, (a.y, b.y, f), r.y)
            && call_ensures(lerp, (a.z, b.z, f), r.z) && call_ensures(lerp, (a.w, b.w, f), r.w),
    }
}

pub open spec fn resolves_color<S, F: Fn(S, S, u64) -> S>(smp: Sample<Color<S>>, last: Color<S>, zero: S, lerp: F, r: Color<S>) -> bool {
    match smp {
        Sample::Zero => r == Color { r: zero, g: zero, b: zero, a: zero },
        Sample::Hold => r == last,
        Sample::At(v) => r == v,
        Sample::Between(a, b, f) => call_ensures(lerp, (a.r, b.r, f), r.r) && call_ensures(lerp, (a.g, b.g, f), r.g)
            && call_ensures(lerp, (a.b, b.b, f), r.b) && call_ensures(lerp, (a.a, b.a, f), r.a),
    }
}

/// `lerp` may be called on any scalars and fraction.
pub open spec fn lerp_total<S, F: Fn(S, S, u64) -> S>(lerp: F) -> bool {
    forall|a: S, b: S, f: u64| call_requires(lerp, (a, b, f))
}

fn resolve_float<S: Copy, F: Fn(S, S, u64) -> S>(smp: Sample<S>, last: S, zero: S, lerp: &F) -> (r: S)
    requires
        lerp_total(*lerp),
    ensures
        resolves_float(smp, last, zero, *lerp, r),
{
    match smp {
        Sample::Zero => zero,
        Sample::Hold => last,
        Sample::At(v) => v,
        Sample::Between(a, b, f) => lerp(a, b, f),
    }
}

fn resolve_vec2<S: Copy, F: Fn(S, S, u64) -> S>(smp: Sample<Vec2<S>>, last: Vec2<S>, zero: S, lerp: &F) -> (r: Vec2<S>)
    requires
        lerp_total(*lerp),
    ensures
        resolves_vec2(smp, last, zero, *lerp, r),
{
    match smp {
        Sample::Zero => Vec2 { x: zero, y: zero },
        Sample::Hold => last,
        Sample::At(v) => v,
        Sample::Between(a, b, f) => Vec2 { x: lerp(a.x, b.x, f), y: lerp(a.y, b.y, f) },
    }
}

fn resolve_vec3<S: Copy, F: Fn(S, S, u64) -> S>(smp: Sample<Vec3<S>>, last: Vec3<S>, zero: S, lerp: &F) -> (r: Vec3<S>)
    requires
        lerp_total(*lerp),
    ensures
        resolves_vec3(smp, last, zero, *lerp, r),
{
    match smp {
        Sample::Zero => Vec3 { x: zero, y: zero, z: zero },
        Sample::Hold => last,
        Sample::At(v) => v,
        Sample::Between(a, b, f) => Vec3 { x: lerp(a.x, b.x, f), y: lerp(a.y, b.y, f), z: lerp(a.z, b.z, f) },
    }
}

fn resolve_vec4<S: Copy, F: Fn(S, S, u64) -> S>(smp: Sample<Vec4<S>>, last: Vec4<S>, zero: S, lerp: &F) -> (r: Vec4<S>)
    requires
        lerp_total(*lerp),
    ensures
        resolves_vec4(smp, last, zero, *lerp, r),
{
    match smp {
        Sample::Zero => Vec4 { x: zero, y: zero, z: zero, w: zero },
        Sample::Hold => last,
        Sample::At(v) => v,
        Sample::Between(a, b, f) => Vec4 {
            x: lerp(a.x, b.x, f),
            y: lerp(a.y, b.y, f),
            z: lerp(a.z, b.z, f),
            w: lerp(a.w, b.w, f),
        },
    }
}

fn resolve_color<S: Copy, F: Fn(S, S, u64) -> S>(smp: Sample<Color<S>>, last: Color<S>, zero: S, lerp: &F) -> (r: Color<S>)
    requires
        lerp_total(*lerp),
    ensures
        resolves_color(smp, last, zero, *lerp, r),
{
    match smp {
        Sample::Zero => Color { r: zero, g: zero, b: zero, a: zero },
        Sample::Hold => last,
        Sample::At(v) => v,
        Sample::Between(a, b, f) => Color {
            r: lerp(a.r, b.r, f),
            g: lerp(a.g, b.g, f),
            b: lerp(a.b, b.b, f),
            a: lerp(a.a, b.a, f),
        },
    }
}

/// `v` is what `track` resolves to at normalized time `t`, falling back on `prev`.
pub open spec fn resolved_track<S, F: Fn(S, S, u64) -> S>(track: Track<S>, t: u64, prev: Option<AnimLastValue<S>>, zero: S, lerp: F, v: AnimLastValue<S>) -> bool {
    match (track, v) {
        (Track::Float { keys, cut_init, ease, .. }, AnimLastValue::Float(x)) => resolves_float(
            sample_spec(keys@, t as int, cut_init, ease), float_or(prev, zero), zero, lerp, x),
        (Track::Vec2 { keys, cut_init, ease, .. }, AnimLastValue::Vec2(x)) => resolves_vec2(
            sample_spec(keys@, t as int, cut_init, ease), vec2_or(prev, zero), zero, lerp, x),
        (Track::Vec3 { keys, cut_init, ease, .. }, AnimLastValue::Vec3(x)) => resolves_vec3(
            sample_spec(keys@, t as int, cut_init, ease), vec3_or(prev, zero), zero, lerp, x),
        (Track::Vec4 { keys, cut_init, ease, .. }, AnimLastValue::Vec4(x)) => resolves_vec4(
            sample_spec(keys@, t as int, cut_init, ease), vec4_or(prev, zero), zero, lerp, x),
        (Track::Color { keys, cut_init, ease, .. }, AnimLastValue::Color(x)) => resolves_color(
            sample_spec(keys@, t as int, cut_init, ease), color_or(prev, zero), zero, lerp, x),
        _ => false,
    }
}

/// `post` is `pre` after the typed write of `v` into property `id` through `area`;
/// nothing is written for a property without a value.
pub open spec fn value_written<S>(area: Area, pre: Cx<S>, post: Cx<S>, id: LiveItemId, v: Option<AnimLastValue<S>>) -> bool {
    match v {
        Some(AnimLastValue::Float(x)) => area.write_spec(pre, post, id, Ty::Float, seq![x]),
        Some(AnimLastValue::Vec2(x)) => area.write_spec(pre, post, id, Ty::Vec2, seq![x.y, x.x]),
        Some(AnimLastValue::Vec3(x)) => area.write_spec(pre, post, id, Ty::Vec3, seq![x.x, x.y, x.z]),
        Some(AnimLastValue::Vec4(x)) => area.write_spec(pre, post, id, Ty::Vec4, seq![x.x, x.y, x.z, x.w]),
        Some(AnimLastValue::Color(x)) => area.write_spec(pre, post, id, Ty::Vec4, seq![x.r, x.g, x.b, x.a]),
        None => post == pre,
    }
}

/// `post` is `pre` after the writes `ws`, in order.
pub open spec fn values_written<S>(area: Area, pre: Cx<S>, post: Cx<S>, ws: Seq<(LiveItemId, Option<AnimLastValue<S>>)>) -> bool
    decreases ws.len(),
{
    if ws.len() == 0 {
        post == pre
    } else {
        exists|mid: Cx<S>| values_written(area, pre, mid, ws.drop_last()) && #[trigger] value_written(area, mid, post, ws.last().0, ws.last().1)
    }
}

/// No two tracks are bound to the same property.
pub open spec fn unique_binds<S>(tracks: Seq<Track<S>>) -> bool {
    forall|i: int, j: int| 0 <= i < j < tracks.len() ==> tracks[i].bound_to() != tracks[j].bound_to()
}

/// `post` has the playback of `pre`, with the registry entry of `pre.area` moved to
/// `area`, if `pre.area` is not empty and has one.
pub open spec fn registry_moved<S>(pre: Cx<S>, post: Cx<S>, from: Area, to: Area) -> bool {
    if from != Area::Empty && entry(pre, from).is_some() {
        &&& post.zero == pre.zero
        &&& post.views == pre.views
        &&& post.passes == pre.passes
        &&& post.shaders == pre.shaders
        &&& post.live_update_id == pre.live_update_id
        &&& entry(post, to) == entry(pre, from)
        &&& to != from ==> entry(post, from).is_none()
        &&& forall|a: Area| a != from && a != to ==> #[trigger] entry(post, a) == entry(pre, a)
        &&& distinct_keys(pre.playing_anim_areas@) ==> distinct_keys(post.playing_anim_areas@)
    } else {
        post == pre
    }
}

fn resolve_track<S: Copy, F: Fn(S, S, u64) -> S>(
    track: &Track<S>,
    t: u64,
    cache: &Vec<(LiveItemId, AnimLastValue<S>)>,
    zero: S,
    lerp: &F,
) -> (r: AnimLastValue<S>)
    requires
        lerp_total(*lerp),
    ensures
        resolved_track(*track, t, lookup(cache@, track.bound_to()), zero, *lerp, r),
{
    let prev = match find_key(cache, track.bind_id()) {
        Some(i) => Some(cache[i].1),
        None => None,
    };
    match track {
        Track::Float { keys, cut_init, ease, .. } => {
            let last = match prev {
                Some(AnimLastValue::Float(v)) => v,
                _ => zero,
            };
            AnimLastValue::Float(resolve_float(sample_keys(keys, t, *cut_init, *ease), last, zero, lerp))
        },
        Track::Vec2 { keys, cut_init, ease, .. } => {
            let last = match prev {
                Some(AnimLastValue::Vec2(v)) => v,
                _ => Vec2 { x: zero, y: zero },
            };
            AnimLastValue::Vec2(resolve_vec2(sample_keys(keys, t, *cut_init, *ease), last, zero, lerp))
        },
        Track::Vec3 { keys, cut_init, ease, .. } => {
            let last = match prev {
                Some(AnimLastValue::Vec3(v)) => v,
                _ => Vec3 { x: zero, y: zero, z: zero },
            };
            AnimLastValue::Vec3(resolve_vec3(sample_keys(keys, t, *cut_init, *ease), last, zero, lerp))
        },
        Track::Vec4 { keys, cut_init, ease, .. } => {
            let last = match prev {
                Some(AnimLastValue::Vec4(v)) => v,
                _ => Vec4 { x: zero, y: zero, z: zero, w: zero },
            };
            AnimLastValue::Vec4(resolve_vec4(sample_keys(keys, t, *cut_init, *ease), last, zero, lerp))
        },
        Track::Color { keys, cut_init, ease, .. } => {
            let last = match prev {
                Some(AnimLastValue::Color(v)) => v,
                _ => Color { r: zero, g: zero, b: zero, a: zero },
            };
            AnimLastValue::Color(resolve_color(sample_keys(keys, t, *cut_init, *ease), last, zero, lerp))
        },
    }
}

fn write_value<S: Copy>(area: &Area, cx: &mut Cx<S>, id: LiveItemId, v: Option<AnimLastValue<S>>)
    ensures
        value_written(*area, *old(cx), *final(cx), id, v),
{
    match v {
        Some(AnimLastValue::Float(x)) => area.write_float(cx, id, x),
        Some(AnimLastValue::Vec2(x)) => area.write_vec2(cx, id, x),
        Some(AnimLastValue::Vec3(x)) => area.write_vec3(cx, id, x),
        Some(AnimLastValue::Vec4(x)) => area.write_vec4(cx, id, x),
        Some(AnimLastValue::Color(x)) => area.write_color(cx, id, x),
        None => {},
    }
}

/// Playback state of one animated object: the animation playing, at most one queued
/// behind it, the area it animates, and the last value resolved for each property.
///
/// Each `calc_*` call advances playback on its own, so a queued animation may take
/// over between two properties evaluated one by one. To evaluate all properties of an
/// animation against one clock reading, use `calc_area`, which advances once.
pub struct Animator<S> {
    pub current: Option<Anim<S>>,
    pub next: Option<Anim<S>>,
    pub area: Area,
    pub live_update_id: u64,
    /// Last resolved value per property, read as a map by the first entry of each.
    /// Every method keeps its keys distinct when they were distinct before.
    pub last_values: Vec<(LiveItemId, AnimLastValue<S>)>,
}

impl<S> Default for Animator<S> {
    fn default() -> (r: Animator<S>)
        ensures
            r.current_anim().is_none(),
            r.next_anim().is_none(),
            r.area == Area::Empty,
            r.live_update_id == 0,
            forall|id: LiveItemId| r.last_value(id).is_none(),
            distinct_keys(r.last_values@),
    {
        let r = Animator {
            current: None,
            next: None,
            area: Area::Empty,
            live_update_id: 0,
            last_values: Vec::new(),
        };
        proof {
            assert forall|id: LiveItemId| r.last_value(id).is_none() by {
                crate::keyed::lemma_lookup_absent(r.last_values@, id);
            }
        }
        r
    }
}

impl<S> Animator<S> {
    pub open spec fn current_anim(&self) -> Option<Anim<S>> {
        self.current
    }

    pub open spec fn next_anim(&self) -> Option<Anim<S>> {
        self.next
    }

    /// The value last resolved for property `id`, with its kind.
    pub open spec fn last_value(&self, id: LiveItemId) -> Option<AnimLastValue<S>> {
        lookup(self.last_values@, id)
    }

    /// `post` has the playback state of `self` and the given cache.
    pub open spec fn same_playback(&self, post: &Self) -> bool {
        &&& post.current_anim() == self.current_anim()
        &&& post.next_anim() == self.next_anim()
        &&& post.area == self.area
        &&& post.live_update_id == self.live_update_id
    }

    pub open spec fn terminal_playing(&self) -> bool {
        self.current.is_some() && self.current.unwrap().play.terminal
    }

    /// The first track of the current animation bound to `id`.
    pub open spec fn track_for(&self, id: LiveItemId) -> Option<Track<S>> {
        match self.current {
            Some(c) => lookup(track_keys(c.tracks@), id),
            None => None,
        }
    }

    /// What `play_anim` does: `post` and `post_cx` follow from `pre` and `pre_cx` by
    /// a request to play `anim`.
    pub open spec fn play_spec(pre: Self, pre_cx: Cx<S>, post: Self, post_cx: Cx<S>, anim: Anim<S>) -> bool {
        &&& post.live_update_id == pre_cx.live_update_id
        &&& post.area == pre.area
        &&& registry_changed_at(pre_cx, post_cx, pre.area)
        &&& if pre.terminal_playing() {
            &&& post.current == pre.current
            &&& post.next == pre.next
            &&& post.last_values == pre.last_values
            &&& entry(post_cx, pre.area) == entry(pre_cx, pre.area)
        } else if !pre.area.is_valid_spec(pre_cx) {
            &&& post.current == Some(anim)
            &&& post.next == pre.next
            &&& forall|id: LiveItemId| #[trigger] post.last_value(id) == after_closing(anim.tracks@, id, pre.last_value(id), pre_cx.zero)
            &&& distinct_keys(pre.last_values@) ==> distinct_keys(post.last_values@)
            &&& appended_from(pre.last_values@, post.last_values@, anim.tracks@)
            &&& entry(post_cx, pre.area) == entry(pre_cx, pre.area)
        } else {
            &&& post.last_values == pre.last_values
            &&& match entry(pre_cx, pre.area) {
                Some(info) => if anim.play.policy == Policy::Cut || pre.current.is_none() {
                    &&& post.current == Some(anim)
                    &&& post.next == None::<Anim<S>>
                    &&& entry(post_cx, pre.area) == Some(AnimInfo { start_time: None, total_time: anim.play.duration })
                } else {
                    &&& post.current == pre.current
                    &&& post.next == Some(anim)
                    &&& entry(post_cx, pre.area) == Some(AnimInfo {
                        start_time: info.start_time,
                        total_time: info.total_time.saturating_add(anim.play.duration),
                    })
                },
                None => {
                    &&& post.current == Some(anim)
                    &&& post.next == None::<Anim<S>>
                    &&& entry(post_cx, pre.area) == Some(AnimInfo { start_time: None, total_time: anim.play.duration })
                },
            }
        }
    }

    /// Playback in `post` and `post_cx` is that of `pre` and `pre_cx` advanced to
    /// `time`; everything else but the cache is unchanged.
    pub open spec fn advanced(pre: Self, pre_cx: Cx<S>, post: Self, post_cx: Cx<S>, time: u64) -> bool {
        let (cur, nxt, e, _) = pre.advance_spec(entry(pre_cx, pre.area), time);
        &&& post.current == cur
        &&& post.next == nxt
        &&& entry(post_cx, pre.area) == e
        &&& post.area == pre.area
        &&& post.live_update_id == pre.live_update_id
        &&& registry_changed_at(pre_cx, post_cx, pre.area)
    }

    /// Normalized time of the animation playing once playback advances to `time`.
    pub open spec fn local_time(&self, cx: Cx<S>, time: u64) -> Option<u64> {
        self.advance_spec(entry(cx, self.area), time).3
    }

    /// What `end` does: the current animation stops and the values it ends on are
    /// cached, `zero` standing for the zero of the kinds.
    pub open spec fn end_spec(pre: Self, post: Self, zero: S) -> bool {
        &&& post.current.is_none()
        &&& post.next == pre.next
        &&& post.area == pre.area
        &&& post.live_update_id == pre.live_update_id
        &&& distinct_keys(pre.last_values@) ==> distinct_keys(post.last_values@)
        &&& match pre.current {
            Some(a) => appended_from(pre.last_values@, post.last_values@, a.tracks@),
            None => post.last_values == pre.last_values,
        }
        &&& forall|id: LiveItemId| #[trigger] post.last_value(id) == match pre.current {
            Some(a) => after_closing(a.tracks@, id, pre.last_value(id), zero),
            None => pre.last_value(id),
        }
    }

    /// Advancing playback to `time` against the registry entry `e`: the current and
    /// queued animations, the entry, and the normalized time of the current animation.
    /// With nothing playing the entry is dropped; with no entry nothing moves.
    pub open spec fn advance_spec(&self, e: Option<AnimInfo>, time: u64) -> (Option<Anim<S>>, Option<Anim<S>>, Option<AnimInfo>, Option<u64>) {
        match self.current {
            None => (None, self.next, None, None),
            Some(c) => match e {
                None => (self.current, self.next, None, None),
                Some(info) => {
                    let p = promotes(info, c.play, self.next.is_some(), time);
                    let ni = advanced_info(info, c.play, self.next.is_some(), time);
                    let cur = if p { self.next } else { self.current };
                    let nxt = if p { None } else { self.next };
                    (cur, nxt, Some(ni), Some(cur.unwrap().play.compute_time_spec(elapsed_since(time, ni.start_time.unwrap()) as int) as u64))
                },
            },
        }
    }
}

impl<S: Copy> Animator<S> {
    fn set_cached(&mut self, id: LiveItemId, v: AnimLastValue<S>)
        ensures
            distinct_keys(old(self).last_values@) ==> distinct_keys(final(self).last_values@),
            old(self).same_playback(&*final(self)),
            final(self).last_value(id) == Some(v),
            forall|k: LiveItemId| k != id ==> final(self).last_value(k) == old(self).last_value(k),
            old(self).last_values@.len() <= final(self).last_values@.len() <= old(self).last_values@.len() + 1,
            forall|i: int| 0 <= i < old(self).last_values@.len() ==> #[trigger] final(self).last_values@[i].0 == old(self).last_values@[i].0,
            final(self).last_values@.len() == old(self).last_values@.len() + 1 ==> final(self).last_values@.last() == (id, v),
    {
        set_key(&mut self.last_values, id, v);
    }

    /// Caches the value each track of `anim` ends on, without starting playback; a
    /// track without keys caches the zero of its kind. Cached properties keep their
    /// places, and new ones are appended.
    pub fn set_anim_as_last_values(&mut self, cx: &Cx<S>, anim: &Anim<S>)
        ensures
            old(self).same_playback(&*final(self)),
            forall|id: LiveItemId| #[trigger] final(self).last_value(id) == after_closing(anim.tracks@, id, old(self).last_value(id), cx.zero),
            distinct_keys(old(self).last_values@) ==> distinct_keys(final(self).last_values@),
            appended_from(old(self).last_values@, final(self).last_values@, anim.tracks@),
    {
        let zero = cx.zero;
        let mut i: usize = 0;
        while i < anim.tracks.len()
            invariant
                i <= anim.tracks@.len(),
                zero == cx.zero,
                old(self).same_playback(&*self),
                distinct_keys(old(self).last_values@) ==> distinct_keys(self.last_values@),
                appended_from(old(self).last_values@, self.last_values@, anim.tracks@),
                forall|id: LiveItemId| #[trigger] self.last_value(id) == after_closing(
                    anim.tracks@.subrange(0, i as int),
                    id,
                    old(self).last_value(id),
                    zero,
                ),
            decreases anim.tracks@.len() - i,
        {
            let track = &anim.tracks[i];
            let bind_id = track.bind_id();
            let closing: AnimLastValue<S> = match track {
                Track::Float { keys, .. } => AnimLastValue::Float(
                    if keys.len() > 0 { keys[keys.len() - 1].1 } else { zero },
                ),
                Track::Vec2 { keys, .. } => AnimLastValue::Vec2(
                    if keys.len() > 0 { keys[keys.len() - 1].1 } else { Vec2 { x: zero, y: zero } },
                ),
                Track::Vec3 { keys, .. } => AnimLastValue::Vec3(
                    if keys.len() > 0 { keys[keys.len() - 1].1 } else { Vec3 { x: zero, y: zero, z: zero } },
                ),
                Track::Vec4 { keys, .. } => AnimLastValue::Vec4(
                    if keys.len() > 0 {
                        keys[keys.len() - 1].1
                    } else {
                        Vec4 { x: zero, y: zero, z: zero, w: zero }
                    },
                ),
                Track::Color { keys, .. } => AnimLastValue::Color(
                    if keys.len() > 0 {
                        keys[keys.len() - 1].1
                    } else {
                        Color { r: zero, g: zero, b: zero, a: zero }
                    },
                ),
            };
            assert(closing == closing_value(*track, zero));
            let ghost before = self.last_values@;
            self.set_cached(bind_id, closing);
            proof {
                let pre = anim.tracks@.subrange(0, i as int);
                let post = anim.tracks@.subrange(0, i + 1);
                assert(post.drop_last() =~= pre);
                assert(post.last() == *track);
                assert forall|k: int| old(self).last_values@.len() <= k < self.last_values@.len() implies exists|j: int|
                    0 <= j < anim.tracks@.len() && #[trigger] anim.tracks@[j].bound_to() == #[trigger] self.last_values@[k].0 by {
                    if k < before.len() {
                    } else {
                        assert(self.last_values@[k].0 == anim.tracks@[i as int].bound_to());
                    }
                }
            }
            i = i + 1;
        }
        assert(anim.tracks@.subrange(0, anim.tracks@.len() as int) =~= anim.tracks@);
    }

    /// Stops the current animation, caching the values it ends on; `cx` gives the zero
    /// for tracks without keys.
    pub fn end(&mut self, cx: &Cx<S>)
        ensures
            Self::end_spec(*old(self), *final(self), cx.zero),
    {
        if let Some(current) = self.current.take() {
            self.set_anim_as_last_values(cx, &current);
        }
    }

    /// Stops the current animation and caches the values `anim` ends on; `cx` gives
    /// the zero for tracks without keys.
    pub fn end_and_set(&mut self, cx: &Cx<S>, anim: Anim<S>)
        ensures
            final(self).current_anim().is_none(),
            final(self).next_anim() == old(self).next_anim(),
            final(self).area == old(self).area,
            final(self).live_update_id == old(self).live_update_id,
            forall|id: LiveItemId| #[trigger] final(self).last_value(id) == after_closing(anim.tracks@, id, old(self).last_value(id), cx.zero),
            distinct_keys(old(self).last_values@) ==> distinct_keys(final(self).last_values@),
            appended_from(old(self).last_values@, final(self).last_values@, anim.tracks@),
    {
        self.current = None;
        self.set_anim_as_last_values(cx, &anim);
    }

    /// Whether the animation playing cannot be replaced.
    pub fn term_anim_playing(&self) -> (r: bool)
        ensures
            r == (self.current_anim().is_some() && self.current_anim().unwrap().play.terminal),
    {
        match &self.current {
            Some(current) => current.play.term(),
            None => false,
        }
    }

    /// Starts `anim`, or queues it behind the current animation.
    ///
    /// A terminal animation that is playing is never replaced. If the area is not
    /// live, `anim` becomes current at once, its closing values are cached, and the
    /// registry is left alone. Otherwise a cut (or an idle animator) makes `anim`
    /// current with a fresh registry entry of its duration and an unset start; a chain
    /// queues it, keeps the entry's start, and extends the entry's total by its
    /// duration (saturating).
    pub fn play_anim(&mut self, cx: &mut Cx<S>, anim: Anim<S>)
        ensures
            Self::play_spec(*old(self), *old(cx), *final(self), *final(cx), anim),
    {
        if self.term_anim_playing() {
            self.live_update_id = cx.live_update_id;
            return ;
        }
        self.live_update_id = cx.live_update_id;
        if !self.area.is_valid(cx) {
            let ghost pre = *self;
            self.set_anim_as_last_values(cx, &anim);
            let ghost mid = *self;
            self.current = Some(anim);
            proof {
                assert forall|id: LiveItemId| #[trigger] self.last_value(id) == after_closing(
                    anim.tracks@,
                    id,
                    old(self).last_value(id),
                    old(cx).zero,
                ) by {
                    assert(mid.last_value(id) == after_closing(anim.tracks@, id, pre.last_value(id), old(cx).zero));
                }
            }
            return ;
        }
        let area = self.area;
        match find_key(&cx.playing_anim_areas, area) {
            Some(i) => {
                let info = cx.playing_anim_areas[i].1;
                if anim.play.cut() || self.current.is_none() {
                    let total_time = anim.play.total_time();
                    self.current = Some(anim);
                    self.next = None;
                    set_key(&mut cx.playing_anim_areas, area, AnimInfo { start_time: None, total_time });
                } else {
                    let total_time = info.total_time.saturating_add(anim.play.total_time());
                    self.next = Some(anim);
                    set_key(
                        &mut cx.playing_anim_areas,
                        area,
                        AnimInfo { start_time: info.start_time, total_time },
                    );
                }
            },
            None => {
                if !area.is_empty() {
                    let total_time = anim.play.total_time();
                    self.current = Some(anim);
                    self.next = None;
                    set_key(&mut cx.playing_anim_areas, area, AnimInfo { start_time: None, total_time });
                }
            },
        }
    }

    /// Advances playback to `time` and returns the normalized time of the current
    /// animation; see `advance_spec`.
    pub fn update_anim_track(&mut self, cx: &mut Cx<S>, time: u64) -> (r: Option<u64>)
        ensures
            Self::advanced(*old(self), *old(cx), *final(self), *final(cx), time),
            r == old(self).local_time(*old(cx), time),
            final(self).last_values == old(self).last_values,
    {
        let area = self.area;
        if self.current.is_none() {
            remove_key(&mut cx.playing_anim_areas, area);
            return None;
        }
        let i = match find_key(&cx.playing_anim_areas, area) {
            Some(i) => i,
            None => return None,
        };
        let info = cx.playing_anim_areas[i].1;
        let start = match info.start_time {
            Some(s) => s,
            None => time,
        };
        let current_total = match &self.current {
            Some(current) => current.play.total_time(),
            None => 0,
        };
        let elapsed = if time >= start {
            time - start
        } else {
            0
        };
        if elapsed >= current_total && self.next.is_some() {
            self.current = self.next.take();
            let new_start = start + current_total;
            let new_total = info.total_time.saturating_sub(current_total);
            set_key(&mut cx.playing_anim_areas, area, AnimInfo { start_time: Some(new_start), total_time: new_total });
            match &self.current {
                Some(current) => Some(current.play.compute_time(if time >= new_start { time - new_start } else { 0 })),
                None => None,
            }
        } else {
            set_key(&mut cx.playing_anim_areas, area, AnimInfo { start_time: Some(start), total_time: info.total_time });
            match &self.current {
                Some(current) => Some(current.play.compute_time(elapsed)),
                None => None,
            }
        }
    }

    /// Index of the first track of the current animation bound to `bind_id`.
    pub fn find_track_index(&self, bind_id: LiveItemId) -> (r: Option<usize>)
        ensures
            match r {
                Some(i) => self.current.is_some() && first_with_key(track_keys(self.current.unwrap().tracks@), bind_id, i as int),
                None => self.track_for(bind_id).is_none(),
            },
            match r {
                Some(i) => self.track_for(bind_id) == Some(self.current.unwrap().tracks@[i as int]),
                None => true,
            },
    {
        if self.current.is_none() {
            return None;
        }
        let current = self.current.as_ref().unwrap();
        let ghost keys = track_keys(current.tracks@);
        let mut i: usize = 0;
        while i < current.tracks.len()
            invariant
                i <= current.tracks@.len(),
                self.current == Some(*current),
                keys == track_keys(current.tracks@),
                forall|j: int| 0 <= j < i ==> keys[j].0 != bind_id,
            decreases current.tracks@.len() - i,
        {
            assert(keys[i as int] == (current.tracks@[i as int].bound_to(), current.tracks@[i as int]));
            if current.tracks[i].bind_id() == bind_id {
                proof {
                    crate::keyed::lemma_lookup_first(keys, bind_id, i as int);
                }
                return Some(i);
            }
            i = i + 1;
        }
        proof {
            crate::keyed::lemma_lookup_absent(keys, bind_id);
        }
        None
    }

    /// The value last resolved for `bind_id` if it was a float, else zero.
    pub fn last_float(&self, cx: &Cx<S>, bind_id: LiveItemId) -> (r: S)
        ensures
            r == float_or(self.last_value(bind_id), cx.zero),
    {
        match find_key(&self.last_values, bind_id) {
            Some(i) => match self.last_values[i].1 {
                AnimLastValue::Float(v) => v,
                _ => cx.zero,
            },
            None => cx.zero,
        }
    }

    pub fn set_last_float(&mut self, bind_id: LiveItemId, value: S)
        ensures
            old(self).same_playback(&*final(self)),
            final(self).last_value(bind_id) == Some(AnimLastValue::Float(value)),
            distinct_keys(old(self).last_values@) ==> distinct_keys(final(self).last_values@),
            forall|k: LiveItemId| k != bind_id ==> #[trigger] final(self).last_value(k) == old(self).last_value(k),
    {
        self.set_cached(bind_id, AnimLastValue::Float(value));
    }

    /// What `calc_float` does: playback advances to `time`, and `r`, the value now
    /// cached for `bind_id`, resolves the current animation's float track for it, or
    /// is the last resolved value when no animation plays or no such track exists.
    pub open spec fn calc_float_spec<F: Fn(S, S, u64) -> S>(
        pre: Self,
        pre_cx: Cx<S>,
        post: Self,
        post_cx: Cx<S>,
        bind_id: LiveItemId,
        time: u64,
        lerp: F,
        r: S,
    ) -> bool {
        &&& Self::advanced(pre, pre_cx, post, post_cx, time)
        &&& ({
            let last = float_or(pre.last_value(bind_id), pre_cx.zero);
            match (pre.local_time(pre_cx, time), post.track_for(bind_id)) {
                (Some(t), Some(Track::Float { keys, cut_init, ease, .. })) => resolves_float(
                    sample_spec(keys@, t as int, cut_init, ease),
                    last,
                    pre_cx.zero,
                    lerp,
                    r,
                ),
                _ => r == last,
            }
        })
        &&& post.last_value(bind_id) == Some(AnimLastValue::Float(r))
        &&& distinct_keys(pre.last_values@) ==> distinct_keys(post.last_values@)
        &&& forall|k: LiveItemId| k != bind_id ==> #[trigger] post.last_value(k) == pre.last_value(k)
    }

    /// Advances playback to `time` and resolves property `bind_id` from the current
    /// animation's track for it; without a playing animation or such a track, the
    /// last resolved value holds. The result is cached.
    pub fn calc_float<F: Fn(S, S, u64) -> S>(&mut self, cx: &mut Cx<S>, bind_id: LiveItemId, time: u64, lerp: &F) -> (r: S)
        requires
            lerp_total(*lerp),
        ensures
            Self::calc_float_spec(*old(self), *old(cx), *final(self), *final(cx), bind_id, time, *lerp, r),
    {
        let last = self.last_float(cx, bind_id);
        let mut ret = last;
        if let Some(t) = self.update_anim_track(cx, time) {
            if let Some(idx) = self.find_track_index(bind_id) {
                if let Some(current) = &self.current {
                    if let Track::Float { keys, cut_init, ease, .. } = &current.tracks[idx] {
                        ret = resolve_float(sample_keys(keys, t, *cut_init, *ease), last, cx.zero, lerp);
                    }
                }
            }
        }
        self.set_last_float(bind_id, ret);
        ret
    }

    /// The value last resolved for `bind_id` if it was a vec2, else zero.
    pub fn last_vec2(&self, cx: &Cx<S>, bind_id: LiveItemId) -> (r: Vec2<S>)
        ensures
            r == vec2_or(self.last_value(bind_id), cx.zero),
    {
        match find_key(&self.last_values, bind_id) {
            Some(i) => match self.last_values[i].1 {
                AnimLastValue::Vec2(v) => v,
                _ => Vec2 { x: cx.zero, y: cx.zero },
            },
            None => Vec2 { x: cx.zero, y: cx.zero },
        }
    }

    pub fn set_last_vec2(&mut self, bind_id: LiveItemId, value: Vec2<S>)
        ensures
            old(self).same_playback(&*final(self)),
            final(self).last_value(bind_id) == Some(AnimLastValue::Vec2(value)),
            distinct_keys(old(self).last_values@) ==> distinct_keys(final(self).last_values@),
            forall|k: LiveItemId| k != bind_id ==> #[trigger] final(self).last_value(k) == old(self).last_value(k),
    {
        self.set_cached(bind_id, AnimLastValue::Vec2(value));
    }

    /// Advances playback to `time` and resolves property `bind_id` from the current
    /// animation's track for it; without a playing animation or such a track, the
    /// last resolved value holds. The result is cached.
    pub fn calc_vec2<F: Fn(S, S, u64) -> S>(&mut self, cx: &mut Cx<S>, bind_id: LiveItemId, time: u64, lerp: &F) -> (r: Vec2<S>)
        requires
            lerp_total(*lerp),
        ensures
            Self::advanced(*old(self), *old(cx), *final(self), *final(cx), time),
            ({
                let last = vec2_or(old(self).last_value(bind_id), old(cx).zero);
                match (old(self).local_time(*old(cx), time), final(self).track_for(bind_id)) {
                    (Some(t), Some(Track::Vec2 { keys, cut_init, ease, .. })) => resolves_vec2(
                        sample_spec(keys@, t as int, cut_init, ease),
                        last,
                        old(cx).zero,
                        *lerp,
                        r,
                    ),
                    _ => r == last,
                }
            }),
            final(self).last_value(bind_id) == Some(AnimLastValue::Vec2(r)),
            distinct_keys(old(self).last_values@) ==> distinct_keys(final(self).last_values@),
            forall|k: LiveItemId| k != bind_id ==> #[trigger] final(self).last_value(k) == old(self).last_value(k),
    {
        let last = self.last_vec2(cx, bind_id);
        let mut ret = last;
        if let Some(t) = self.update_anim_track(cx, time) {
            if let Some(idx) = self.find_track_index(bind_id) {
                if let Some(current) = &self.current {
                    if let Track::Vec2 { keys, cut_init, ease, .. } = &current.tracks[idx] {
                        ret = resolve_vec2(sample_keys(keys, t, *cut_init, *ease), last, cx.zero, lerp);
                    }
                }
            }
        }
        self.set_last_vec2(bind_id, ret);
        ret
    }

    /// The value last resolved for `bind_id` if it was a vec3, else zero.
    pub fn last_vec3(&self, cx: &Cx<S>, bind_id: LiveItemId) -> (r: Vec3<S>)
        ensures
            r == vec3_or(self.last_value(bind_id), cx.zero),
    {
        match find_key(&self.last_values, bind_id) {
            Some(i) => match self.last_values[i].1 {
                AnimLastValue::Vec3(v) => v,
                _ => Vec3 { x: cx.zero, y: cx.zero, z: cx.zero },
            },
            None => Vec3 { x: cx.zero, y: cx.zero, z: cx.zero },
        }
    }

    pub fn set_last_vec3(&mut self, bind_id: LiveItemId, value: Vec3<S>)
        ensures
            old(self).same_playback(&*final(self)),
            final(self).last_value(bind_id) == Some(AnimLastValue::Vec3(value)),
            distinct_keys(old(self).last_values@) ==> distinct_keys(final(self).last_values@),
            forall|k: LiveItemId| k != bind_id ==> #[trigger] final(self).last_value(k) == old(self).last_value(k),
    {
        self.set_cached(bind_id, AnimLastValue::Vec3(value));
    }

    /// Advances playback to `time` and resolves property `bind_id` from the current
    /// animation's track for it; without a playing animation or such a track, the
    /// last resolved value holds. The result is cached.
    pub fn calc_vec3<F: Fn(S, S, u64) -> S>(&mut self, cx: &mut Cx<S>, bind_id: LiveItemId, time: u64, lerp: &F) -> (r: Vec3<S>)
        requires
            lerp_total(*lerp),
        ensures
            Self::advanced(*old(self), *old(cx), *final(self), *final(cx), time),
            ({
                let last = vec3_or(old(self).last_value(bind_id), old(cx).zero);
                match (old(self).local_time(*old(cx), time), final(self).track_for(bind_id)) {
                    (Some(t), Some(Track::Vec3 { keys, cut_init, ease, .. })) => resolves_vec3(
                        sample_spec(keys@, t as int, cut_init, ease),
                        last,
                        old(cx).zero,
                        *lerp,
                        r,
                    ),
                    _ => r == last,
                }
            }),
            final(self).last_value(bind_id) == Some(AnimLastValue::Vec3(r)),
            distinct_keys(old(self).last_values@) ==> distinct_keys(final(self).last_values@),
            forall|k: LiveItemId| k != bind_id ==> #[trigger] final(self).last_value(k) == old(self).last_value(k),
    {
        let last = self.last_vec3(cx, bind_id);
        let mut ret = last;
        if let Some(t) = self.update_anim_track(cx, time) {
            if let Some(idx) = self.find_track_index(bind_id) {
                if let Some(current) = &self.current {
                    if let Track::Vec3 { keys, cut_init, ease, .. } = &current.tracks[idx] {
                        ret = resolve_vec3(sample_keys(keys, t, *cut_init, *ease), last, cx.zero, lerp);
                    }
                }
            }
        }
        self.set_last_vec3(bind_id, ret);
        ret
    }

    /// The value last resolved for `bind_id` if it was a vec4, else zero.
    pub fn last_vec4(&self, cx: &Cx<S>, bind_id: LiveItemId) -> (r: Vec4<S>)
        ensures
            r == vec4_or(self.last_value(bind_id), cx.zero),
    {
        match find_key(&self.last_values, bind_id) {
            Some(i) => match self.last_values[i].1 {
                AnimLastValue::Vec4(v) => v,
                _ => Vec4 { x: cx.zero, y: cx.zero, z: cx.zero, w: cx.zero },
            },
            None => Vec4 { x: cx.zero, y: cx.zero, z: cx.zero, w: cx.zero },
        }
    }

    pub fn set_last_vec4(&mut self, bind_id: LiveItemId, value: Vec4<S>)
        ensures
            old(self).same_playback(&*final(self)),
            final(self).last_value(bind_id) == Some(AnimLastValue::Vec4(value)),
            distinct_keys(old(self).last_values@) ==> distinct_keys(final(self).last_values@),
            forall|k: LiveItemId| k != bind_id ==> #[trigger] final(self).last_value(k) == old(self).last_value(k),
    {
        self.set_cached(bind_id, AnimLastValue::Vec4(value));
    }

    /// Advances playback to `time` and resolves property `bind_id` from the current
    /// animation's track for it; without a playing animation or such a track, the
    /// last resolved value holds. The result is cached.
    pub fn calc_vec4<F: Fn(S, S, u64) -> S>(&mut self, cx: &mut Cx<S>, bind_id: LiveItemId, time: u64, lerp: &F) -> (r: Vec4<S>)
        requires
            lerp_total(*lerp),
        ensures
            Self::advanced(*old(self), *old(cx), *final(self), *final(cx), time),
            ({
                let last = vec4_or(old(self).last_value(bind_id), old(cx).zero);
                match (old(self).local_time(*old(cx), time), final(self).track_for(bind_id)) {
                    (Some(t), Some(Track::Vec4 { keys, cut_init, ease, .. })) => resolves_vec4(
                        sample_spec(keys@, t as int, cut_init, ease),
                        last,
                        old(cx).zero,
                        *lerp,
                        r,
                    ),
                    _ => r == last,
                }
            }),
            final(self).last_value(bind_id) == Some(AnimLastValue::Vec4(r)),
            distinct_keys(old(self).last_values@) ==> distinct_keys(final(self).last_values@),
            forall|k: LiveItemId| k != bind_id ==> #[trigger] final(self).last_value(k) == old(self).last_value(k),
    {
        let last = self.last_vec4(cx, bind_id);
        let mut ret = last;
        if let Some(t) = self.update_anim_track(cx, time) {
            if let Some(idx) = self.find_track_index(bind_id) {
                if let Some(current) = &self.current {
                    if let Track::Vec4 { keys, cut_init, ease, .. } = &current.tracks[idx] {
                        ret = resolve_vec4(sample_keys(keys, t, *cut_init, *ease), last, cx.zero, lerp);
                    }
                }
            }
        }
        self.set_last_vec4(bind_id, ret);
        ret
    }

    /// The value last resolved for `bind_id` if it was a color, else zero.
    pub fn last_color(&self, cx: &Cx<S>, bind_id: LiveItemId) -> (r: Color<S>)
        ensures
            r == color_or(self.last_value(bind_id), cx.zero),
    {
        match find_key(&self.last_values, bind_id) {
            Some(i) => match self.last_values[i].1 {
                AnimLastValue::Color(v) => v,
                _ => Color { r: cx.zero, g: cx.zero, b: cx.zero, a: cx.zero },
            },
            None => Color { r: cx.zero, g: cx.zero, b: cx.zero, a: cx.zero },
        }
    }

    pub fn set_last_color(&mut self, bind_id: LiveItemId, value: Color<S>)
        ensures
            old(self).same_playback(&*final(self)),
            final(self).last_value(bind_id) == Some(AnimLastValue::Color(value)),
            distinct_keys(old(self).last_values@) ==> distinct_keys(final(self).last_values@),
            forall|k: LiveItemId| k != bind_id ==> #[trigger] final(self).last_value(k) == old(self).last_value(k),
    {
        self.set_cached(bind_id, AnimLastValue::Color(value));
    }

    /// Advances playback to `time` and resolves property `bind_id` from the current
    /// animation's track for it; without a playing animation or such a track, the
    /// last resolved value holds. The result is cached.
    pub fn calc_color<F: Fn(S, S, u64) -> S>(&mut self, cx: &mut Cx<S>, bind_id: LiveItemId, time: u64, lerp: &F) -> (r: Color<S>)
        requires
            lerp_total(*lerp),
        ensures
            Self::advanced(*old(self), *old(cx), *final(self), *final(cx), time),
            ({
                let last = color_or(old(self).last_value(bind_id), old(cx).zero);
                match (old(self).local_time(*old(cx), time), final(self).track_for(bind_id)) {
                    (Some(t), Some(Track::Color { keys, cut_init, ease, .. })) => resolves_color(
                        sample_spec(keys@, t as int, cut_init, ease),
                        last,
                        old(cx).zero,
                        *lerp,
                        r,
                    ),
                    _ => r == last,
                }
            }),
            final(self).last_value(bind_id) == Some(AnimLastValue::Color(r)),
            distinct_keys(old(self).last_values@) ==> distinct_keys(final(self).last_values@),
            forall|k: LiveItemId| k != bind_id ==> #[trigger] final(self).last_value(k) == old(self).last_value(k),
    {
        let last = self.last_color(cx, bind_id);
        let mut ret = last;
        if let Some(t) = self.update_anim_track(cx, time) {
            if let Some(idx) = self.find_track_index(bind_id) {
                if let Some(current) = &self.current {
                    if let Track::Color { keys, cut_init, ease, .. } = &current.tracks[idx] {
                        ret = resolve_color(sample_keys(keys, t, *cut_init, *ease), last, cx.zero, lerp);
                    }
                }
            }
        }
        self.set_last_color(bind_id, ret);
        ret
    }


    /// Takes in the animation definition when the live definitions changed since the
    /// last call: halts the animation in flight (its registry total drops to zero)
    /// and caches the closing values of the definition `cb` builds, without playing it.
    pub fn init<F: Fn(&Cx<S>) -> Anim<S>>(&mut self, cx: &mut Cx<S>, cb: F)
        requires
            forall|c: &Cx<S>| call_requires(cb, (c,)),
        ensures
            if old(self).live_update_id == old(cx).live_update_id {
                *final(self) == *old(self) && *final(cx) == *old(cx)
            } else {
                &&& final(self).live_update_id == old(cx).live_update_id
                &&& final(self).current == old(self).current
                &&& final(self).next == old(self).next
                &&& final(self).area == old(self).area
                &&& registry_changed_at(*old(cx), *final(cx), old(self).area)
                &&& entry(*final(cx), old(self).area) == match entry(*old(cx), old(self).area) {
                    Some(info) => Some(AnimInfo { total_time: 0, ..info }),
                    None => None,
                }
                &&& distinct_keys(old(self).last_values@) ==> distinct_keys(final(self).last_values@)
                &&& exists|anim: Anim<S>| call_ensures(cb, (&*old(cx),), anim) && forall|id: LiveItemId| #[trigger] final(self).last_value(id)
                    == after_closing(anim.tracks@, id, old(self).last_value(id), old(cx).zero)
                    && appended_from(old(self).last_values@, final(self).last_values@, anim.tracks@)
            },
    {
        if self.live_update_id != cx.live_update_id {
            self.live_update_id = cx.live_update_id;
            let anim = cb(cx);
            let area = self.area;
            if let Some(i) = find_key(&cx.playing_anim_areas, area) {
                let info = cx.playing_anim_areas[i].1;
                set_key(&mut cx.playing_anim_areas, area, AnimInfo { start_time: info.start_time, total_time: 0 });
            }
            self.set_anim_as_last_values(cx, &anim);
        }
    }

    /// Points the animator at `area`, carrying over the registry entry of the area it
    /// animated before.
    pub fn set_area(&mut self, cx: &mut Cx<S>, area: Area)
        ensures
            final(self).area == area,
            final(self).current == old(self).current,
            final(self).next == old(self).next,
            final(self).live_update_id == old(self).live_update_id,
            final(self).last_values == old(self).last_values,
            registry_moved(*old(cx), *final(cx), old(self).area, area),
    {
        let from = self.area;
        if !from.is_empty() {
            if let Some(i) = find_key(&cx.playing_anim_areas, from) {
                let info = cx.playing_anim_areas[i].1;
                remove_key(&mut cx.playing_anim_areas, from);
                set_key(&mut cx.playing_anim_areas, area, info);
            }
        }
        self.area = area;
    }

    /// What `calc_area` does: playback advances to `time`; each track of the animation
    /// then playing is resolved and cached under its property, and the cached values
    /// are written through `area`, track by track.
    pub open spec fn calc_area_spec<F: Fn(S, S, u64) -> S>(
        pre: Self,
        pre_cx: Cx<S>,
        post: Self,
        post_cx: Cx<S>,
        area: Area,
        time: u64,
        lerp: F,
    ) -> bool {
        exists|mid: Cx<S>| #[trigger] Self::calc_area_via(pre, pre_cx, post, post_cx, mid, area, time, lerp)
    }

    /// `calc_area_spec`, with `mid` the context once playback has advanced.
    pub open spec fn calc_area_via<F: Fn(S, S, u64) -> S>(
        pre: Self,
        pre_cx: Cx<S>,
        post: Self,
        post_cx: Cx<S>,
        mid: Cx<S>,
        area: Area,
        time: u64,
        lerp: F,
    ) -> bool {
        Self::advanced(pre, pre_cx, post, mid, time) && post_cx.zero == mid.zero
                && post_cx.playing_anim_areas == mid.playing_anim_areas && match (pre.local_time(pre_cx, time), post.current) {
                (Some(t), Some(cur)) => {
                    let tracks = cur.tracks@;
                    &&& distinct_keys(pre.last_values@) ==> distinct_keys(post.last_values@)
                    &&& forall|id: LiveItemId| (forall|j: int| 0 <= j < tracks.len() ==> tracks[j].bound_to() != id)
                        ==> #[trigger] post.last_value(id) == pre.last_value(id)
                    &&& forall|j: int| 0 <= j < tracks.len() ==> #[trigger] post.last_value(tracks[j].bound_to()).is_some()
                    &&& unique_binds(tracks) ==> forall|j: int| 0 <= j < tracks.len() ==> resolved_track(
                        tracks[j],
                        t,
                        pre.last_value(tracks[j].bound_to()),
                        pre_cx.zero,
                        lerp,
                        #[trigger] post.last_value(tracks[j].bound_to()).unwrap(),
                    )
                    &&& values_written(
                        area,
                        mid,
                        post_cx,
                        Seq::new(tracks.len(), |j: int| (tracks[j].bound_to(), post.last_value(tracks[j].bound_to()))),
                    )
                },
                _ => post.last_values == pre.last_values && post_cx == mid,
            }
    }

    /// Advances playback once to `time`, then resolves every track of the animation
    /// playing, caches each value, and writes it through `area`.
    pub fn calc_area<F: Fn(S, S, u64) -> S>(&mut self, cx: &mut Cx<S>, area: Area, time: u64, lerp: &F)
        requires
            lerp_total(*lerp),
        ensures
            Self::calc_area_spec(*old(self), *old(cx), *final(self), *final(cx), area, time, *lerp),
    {
        let t = match self.update_anim_track(cx, time) {
            Some(t) => t,
            None => {
                assert(Self::calc_area_via(*old(self), *old(cx), *self, *cx, *cx, area, time, *lerp));
                return ;
            },
        };
        let ghost mid = *cx;
        let ghost pre = *old(self);
        let ghost adv = *self;
        assert(Self::advanced(*old(self), *old(cx), adv, mid, time));
        let current = match &self.current {
            Some(current) => current,
            None => {
                assert(Self::calc_area_via(*old(self), *old(cx), *self, *cx, *cx, area, time, *lerp));
                return ;
            },
        };
        let ghost tracks = current.tracks@;
        let n = current.tracks.len();
        let mut i: usize = 0;
        while i < n
            invariant
                n == tracks.len(),
                i <= n,
                adv.same_playback(&*self),
                distinct_keys(pre.last_values@) ==> distinct_keys(self.last_values@),
                *cx == mid,
                tracks == current.tracks@,
                lerp_total(*lerp),
                forall|id: LiveItemId| (forall|j: int| 0 <= j < i ==> tracks[j].bound_to() != id)
                    ==> #[trigger] lookup(self.last_values@, id) == pre.last_value(id),
                forall|j: int| 0 <= j < i ==> #[trigger] lookup(self.last_values@, tracks[j].bound_to()).is_some(),
                unique_binds(tracks) ==> forall|j: int| 0 <= j < i ==> resolved_track(
                    tracks[j],
                    t,
                    pre.last_value(tracks[j].bound_to()),
                    cx.zero,
                    *lerp,
                    #[trigger] lookup(self.last_values@, tracks[j].bound_to()).unwrap(),
                ),
            decreases n - i,
        {
            let track = &current.tracks[i];
            let id = track.bind_id();
            let v = resolve_track(track, t, &self.last_values, cx.zero, lerp);
            proof {
                if unique_binds(tracks) {
                    assert forall|j: int| 0 <= j < i implies tracks[j].bound_to() != id by {}
                }
            }
            set_key(&mut self.last_values, id, v);
            i = i + 1;
        }
        let ghost cache = self.last_values@;
        let ghost ws = Seq::new(
            tracks.len(),
            |j: int| (tracks[j].bound_to(), lookup(cache, tracks[j].bound_to())),
        );
        let mut k: usize = 0;
        while k < n
            invariant
                n == tracks.len(),
                k <= n,
                adv.same_playback(&*self),
                tracks == current.tracks@,
                self.last_values@ == cache,
                ws == Seq::new(
                    tracks.len(),
                    |j: int| (tracks[j].bound_to(), lookup(cache, tracks[j].bound_to())),
                ),
                values_written(area, mid, *cx, ws.subrange(0, k as int)),
                cx.zero == mid.zero,
                cx.playing_anim_areas == mid.playing_anim_areas,
            decreases n - k,
        {
            let id = current.tracks[k].bind_id();
            let v = match find_key(&self.last_values, id) {
                Some(j) => Some(self.last_values[j].1),
                None => None,
            };
            let ghost before = *cx;
            write_value(&area, cx, id, v);
            proof {
                let done = ws.subrange(0, k + 1);
                assert(done.drop_last() =~= ws.subrange(0, k as int));
                assert(done.last() == (id, v));
                assert(value_written(area, before, *cx, done.last().0, done.last().1));
            }
            k = k + 1;
        }
        proof {
            assert(ws.subrange(0, n as int) =~= ws);
            assert(ws =~= Seq::new(
                tracks.len(),
                |j: int| (tracks[j].bound_to(), self.last_value(tracks[j].bound_to())),
            ));
            assert(Self::calc_area_via(*old(self), *old(cx), *self, *cx, mid, area, time, *lerp));
        }
    }
}

impl InstanceArea {
    /// Appends the value `animator` last resolved for `live_item_id` and returns it.
    pub fn push_last_float<S: Copy>(&self, cx: &mut Cx<S>, animator: &Animator<S>, live_item_id: LiveItemId) -> (ret: S)
        ensures
            ret == float_or(animator.last_value(live_item_id), old(cx).zero),
            self.pushed(*old(cx), *final(cx), seq![ret]),
    {
        let ret = animator.last_float(cx, live_item_id);
        self.push_float(cx, ret);
        ret
    }

    /// Appends the value `animator` last resolved for `live_item_id` and returns it.
    pub fn push_last_vec2<S: Copy>(&self, cx: &mut Cx<S>, animator: &Animator<S>, live_item_id: LiveItemId) -> (ret: Vec2<S>)
        ensures
            ret == vec2_or(animator.last_value(live_item_id), old(cx).zero),
            self.pushed(*old(cx), *final(cx), seq![ret.x, ret.y]),
    {
        let ret = animator.last_vec2(cx, live_item_id);
        self.push_vec2(cx, ret);
        ret
    }

    /// Appends the value `animator` last resolved for `live_item_id` and returns it.
    pub fn push_last_vec3<S: Copy>(&self, cx: &mut Cx<S>, animator: &Animator<S>, live_item_id: LiveItemId) -> (ret: Vec3<S>)
        ensures
            ret == vec3_or(animator.last_value(live_item_id), old(cx).zero),
            self.pushed(*old(cx), *final(cx), seq![ret.x, ret.y, ret.z]),
    {
        let ret = animator.last_vec3(cx, live_item_id);
        self.push_vec3(cx, ret);
        ret
    }

    /// Appends the value `animator` last resolved for `live_item_id` and returns it.
    pub fn push_last_vec4<S: Copy>(&self, cx: &mut Cx<S>, animator: &Animator<S>, live_item_id: LiveItemId) -> (ret: Vec4<S>)
        ensures
            ret == vec4_or(animator.last_value(live_item_id), old(cx).zero),
            self.pushed(*old(cx), *final(cx), seq![ret.x, ret.y, ret.z, ret.w]),
    {
        let ret = animator.last_vec4(cx, live_item_id);
        self.push_vec4(cx, ret);
        ret
    }

    /// Appends the value `animator` last resolved for `live_item_id` and returns it.
    pub fn push_last_color<S: Copy>(&self, cx: &mut Cx<S>, animator: &Animator<S>, live_item_id: LiveItemId) -> (ret: Color<S>)
        ensures
            ret == color_or(animator.last_value(live_item_id), old(cx).zero),
            self.pushed(*old(cx), *final(cx), seq![ret.r, ret.g, ret.b, ret.a]),
    {
        let ret = animator.last_color(cx, live_item_id);
        self.push_color(cx, ret);
        ret
    }
}

/// Chaining after a cut: a cut play of `a` on a live area, a first clock reading at
/// `t0` and a chained play of `b` leave `a` playing, `b` queued, and a registry total
/// of both durations. Once the clock reads `t1`, at least `a`'s duration after `t0`,
/// `b` plays, its start lies exactly `a`'s duration after `t0`, and `b`'s time is
/// measured from there.
pub proof fn lemma_chain_after_cut<S>(
    s0: Animator<S>, c0: Cx<S>, s1: Animator<S>, c1: Cx<S>, s2: Animator<S>, c2: Cx<S>,
    s3: Animator<S>, c3: Cx<S>, s4: Animator<S>, c4: Cx<S>, a: Anim<S>, b: Anim<S>, t0: u64, t1: u64,
)
    requires
        !s0.terminal_playing(),
        s0.area.is_valid_spec(c0),
        a.play.policy == Policy::Cut,
        !a.play.terminal,
        b.play.policy == Policy::Chain,
        a.play.duration + b.play.duration <= u64::MAX,
        t1 >= t0 + a.play.duration,
        Animator::play_spec(s0, c0, s1, c1, a),
        Animator::advanced(s1, c1, s2, c2, t0),
        Animator::play_spec(s2, c2, s3, c3, b),
        Animator::advanced(s3, c3, s4, c4, t1),
    ensures
        s3.current == Some(a),
        s3.next == Some(b),
        entry(c3, s0.area) == Some(AnimInfo {
            start_time: Some(t0),
            total_time: (a.play.duration + b.play.duration) as u64,
        }),
        s4.current == Some(b),
        s4.next.is_none(),
        entry(c4, s0.area) == Some(AnimInfo {
            start_time: Some((t0 + a.play.duration) as u64),
            total_time: b.play.duration,
        }),
        s3.local_time(c3, t1) == Some(b.play.compute_time_spec(t1 - t0 - a.play.duration) as u64),
{
}

/// A terminal animation, once playing, is not displaced: a later play request leaves
/// the animation playing, the queue, the cache and the registry entry as they were.
pub proof fn lemma_terminal_lock<S>(
    s0: Animator<S>, c0: Cx<S>, s1: Animator<S>, c1: Cx<S>, s2: Animator<S>, c2: Cx<S>,
    term: Anim<S>, other: Anim<S>,
)
    requires
        !s0.terminal_playing(),
        term.play.terminal,
        term.play.policy == Policy::Cut,
        Animator::play_spec(s0, c0, s1, c1, term),
        Animator::play_spec(s1, c1, s2, c2, other),
    ensures
        s1.current == Some(term),
        s2.current == Some(term),
        s2.next == s1.next,
        s2.last_values == s1.last_values,
        entry(c2, s0.area) == entry(c1, s0.area),
{
}

/// Ending keeps the closing values: after `end`, a property bound by the animation
/// that was playing holds the value of the last key of its last track there, not
/// what was cached before.
pub proof fn lemma_end_caches_closing_value<S>(pre: Animator<S>, post: Animator<S>, id: LiveItemId, zero: S)
    requires
        Animator::end_spec(pre, post, zero),
        pre.current.is_some(),
        last_track_for(pre.current.unwrap().tracks@, id).is_some(),
    ensures
        post.last_value(id) == Some(closing_value(last_track_for(pre.current.unwrap().tracks@, id).unwrap(), zero)),
        match last_track_for(pre.current.unwrap().tracks@, id).unwrap() {
            Track::Float { keys, .. } => keys@.len() > 0 ==> float_or(post.last_value(id), zero) == keys@.last().1,
            _ => true,
        },
{
    assert(post.last_value(id) == after_closing(pre.current.unwrap().tracks@, id, pre.last_value(id), zero));
}

/// `lerp` gives one result for each input.
pub open spec fn lerp_deterministic<S, F: Fn(S, S, u64) -> S>(lerp: F) -> bool {
    forall|a: S, b: S, f: u64, r1: S, r2: S| call_ensures(lerp, (a, b, f), r1) && call_ensures(lerp, (a, b, f), r2) ==> r1 == r2
}

proof fn lemma_resolved_stable<S, F: Fn(S, S, u64) -> S>(
    tr: Track<S>,
    t: u64,
    prev: Option<AnimLastValue<S>>,
    zero: S,
    lerp: F,
    v1: AnimLastValue<S>,
    v2: AnimLastValue<S>,
)
    requires
        lerp_deterministic(lerp),
        resolved_track(tr, t, prev, zero, lerp, v1),
        resolved_track(tr, t, Some(v1), zero, lerp, v2),
    ensures
        v1 == v2,
{
}

/// Evaluating twice at one clock reading changes nothing the second time: playback,
/// the registry entry, the normalized time and every cached value come out the same,
/// given tracks bound to distinct properties and a `lerp` with one result per input.
pub proof fn lemma_calc_area_idempotent<S: Copy, F: Fn(S, S, u64) -> S>(
    s0: Animator<S>, c0: Cx<S>, s1: Animator<S>, c1: Cx<S>, s2: Animator<S>, c2: Cx<S>,
    area: Area, time: u64, lerp: F,
)
    requires
        Animator::calc_area_spec(s0, c0, s1, c1, area, time, lerp),
        Animator::calc_area_spec(s1, c1, s2, c2, area, time, lerp),
        lerp_deterministic(lerp),
        s1.current.is_some() ==> unique_binds(s1.current.unwrap().tracks@),
    ensures
        s2.current == s1.current,
        s2.next == s1.next,
        entry(c2, s0.area) == entry(c1, s0.area),
        s1.local_time(c1, time) == s0.local_time(c0, time),
        forall|id: LiveItemId| #[trigger] s2.last_value(id) == s1.last_value(id),
{
    let mid1 = choose|mid: Cx<S>| #[trigger] Animator::calc_area_via(s0, c0, s1, c1, mid, area, time, lerp);
    let mid2 = choose|mid: Cx<S>| #[trigger] Animator::calc_area_via(s1, c1, s2, c2, mid, area, time, lerp);
    assert(entry(c1, s1.area) == entry(mid1, s0.area));
    assert(entry(c2, s0.area) == entry(mid2, s0.area));
    match (s0.local_time(c0, time), s1.current) {
        (Some(t), Some(cur)) => {
            let tracks = cur.tracks@;
            assert forall|id: LiveItemId| #[trigger] s2.last_value(id) == s1.last_value(id) by {
                if exists|j: int| 0 <= j < tracks.len() && tracks[j].bound_to() == id {
                    let j = choose|j: int| 0 <= j < tracks.len() && tracks[j].bound_to() == id;
                    lemma_resolved_stable(
                        tracks[j],
                        t,
                        s0.last_value(id),
                        c0.zero,
                        lerp,
                        s1.last_value(tracks[j].bound_to()).unwrap(),
                        s2.last_value(tracks[j].bound_to()).unwrap(),
                    );
                }
            }
        },
        _ => {},
    }
}

/// Hand-over to a queued animation: once the clock has run the current animation's
/// full duration from the recorded start, advancing makes the queued one current,
/// moves the start on by exactly the finished duration, takes that duration off the
/// total, and measures the new animation's time from the new start.
pub proof fn lemma_chain_handover<S>(pre: Animator<S>, pre_cx: Cx<S>, post: Animator<S>, post_cx: Cx<S>, time: u64, start: u64, total: u64)
    requires
        pre.current.is_some(),
        pre.next.is_some(),
        entry(pre_cx, pre.area) == Some(AnimInfo { start_time: Some(start), total_time: total }),
        total >= pre.current.unwrap().play.duration,
        time >= start + pre.current.unwrap().play.duration,
        Animator::advanced(pre, pre_cx, post, post_cx, time),
    ensures
        ({
            let d = pre.current.unwrap().play.duration;
            &&& post.current == pre.next
            &&& post.next.is_none()
            &&& entry(post_cx, pre.area) == Some(AnimInfo {
                start_time: Some((start + d) as u64),
                total_time: (total - d) as u64,
            })
            &&& pre.local_time(pre_cx, time) == Some(
                pre.next.unwrap().play.compute_time_spec(time - (start + d)) as u64,
            )
        }),
{
}

/// With tracks bound to distinct properties, the last track bound to a property is the
/// one bound to it.
pub proof fn lemma_last_track_unique<S>(tracks: Seq<Track<S>>, j: int)
    requires
        unique_binds(tracks),
        0 <= j < tracks.len(),
    ensures
        last_track_for(tracks, tracks[j].bound_to()) == Some(tracks[j]),
    decreases tracks.len(),
{
    if j < tracks.len() - 1 {
        assert(tracks.last().bound_to() != tracks[j].bound_to());
        let rest = tracks.drop_last();
        assert forall|a: int, b: int| 0 <= a < b < rest.len() implies rest[a].bound_to() != rest[b].bound_to() by {
            assert(rest[a] == tracks[a] && rest[b] == tracks[b]);
        }
        assert(rest[j] == tracks[j]);
        lemma_last_track_unique(rest, j);
    }
}

/// Continuity after `end`: with tracks bound to distinct properties, each property
/// bound by the animation that was playing holds that track's closing value, its last
/// key as a value of its kind, or that kind's zero for a track without keys.
pub proof fn lemma_end_caches_each_track<S>(pre: Animator<S>, post: Animator<S>, j: int, zero: S)
    requires
        Animator::end_spec(pre, post, zero),
        pre.current.is_some(),
        unique_binds(pre.current.unwrap().tracks@),
        0 <= j < pre.current.unwrap().tracks@.len(),
    ensures
        ({
            let tr = pre.current.unwrap().tracks@[j];
            &&& post.last_value(tr.bound_to()) == Some(closing_value(tr, zero))
            &&& match tr {
                Track::Float { keys, .. } => float_or(post.last_value(tr.bound_to()), zero) == if keys@.len() > 0 {
                    keys@.last().1
                } else {
                    zero
                },
                _ => true,
            }
        }),
{
    let tracks = pre.current.unwrap().tracks@;
    lemma_last_track_unique(tracks, j);
    assert(post.last_value(tracks[j].bound_to()) == after_closing(tracks, tracks[j].bound_to(), pre.last_value(tracks[j].bound_to()), zero));
}

/// Past the last key: when the normalized time has reached the last key of the float
/// track for a property, past its first key, `calc_float` returns exactly that key's
/// value and caches it.
pub proof fn lemma_calc_float_at_end<S: Copy, F: Fn(S, S, u64) -> S>(
    pre: Animator<S>,
    pre_cx: Cx<S>,
    post: Animator<S>,
    post_cx: Cx<S>,
    bind_id: LiveItemId,
    time: u64,
    lerp: F,
    r: S,
    t: u64,
    keys: Seq<(u64, S)>,
)
    requires
        Animator::calc_float_spec(pre, pre_cx, post, post_cx, bind_id, time, lerp, r),
        pre.local_time(pre_cx, time) == Some(t),
        post.track_for(bind_id) matches Some(Track::Float { keys: k, .. }) && k@ == keys,
        keys.len() > 0,
        t >= keys.last().0,
        t > keys[0].0,
    ensures
        r == keys.last().1,
        post.last_value(bind_id) == Some(AnimLastValue::Float(keys.last().1)),
{
    match post.track_for(bind_id) {
        Some(Track::Float { keys: k, cut_init, ease, .. }) => {
            crate::anim::lemma_sample_at_end(keys, t as int, cut_init, ease);
        },
        _ => {},
    }
}

} // verus!
