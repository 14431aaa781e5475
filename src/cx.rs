use vstd::prelude::*;
use crate::math::{LiveItemId, Rect, Ty, Vec2};
use crate::area::Area;
use crate::animator::AnimInfo;

verus! {

/// Where a property sits inside one instance's slots, as the shader layout reports it.
#[derive(Clone, Copy, Debug, PartialEq, Eq, Structural)]
pub struct PropDef {
    pub live_item_id: LiveItemId,
    pub ty: Ty,
    pub offset: usize,
}

/// Slots, within one instance, of the rectangle a shader draws, where it has them.
#[derive(Clone, Copy, Debug, PartialEq, Eq, Structural)]
pub struct RectInstanceProps {
    pub x: Option<usize>,
    pub y: Option<usize>,
    pub w: Option<usize>,
    pub h: Option<usize>,
}

/// The layout a compiled shader exposes: instance properties with their slot offsets,
/// user uniforms, and texture slots.
pub struct CxShader {
    pub instance_props: Vec<PropDef>,
    pub total_slots: usize,
    pub user_uniform_props: Vec<PropDef>,
    pub textures: Vec<LiveItemId>,
    pub rect_instance_props: RectInstanceProps,
}

/// One draw call: its instance data, user uniforms and texture bindings, with the
/// flags that tell the renderer what to upload again.
pub struct DrawCall<S> {
    pub shader_id: usize,
    pub instance: Vec<S>,
    pub user_uniforms: Vec<S>,
    pub textures_2d: Vec<u32>,
    pub instance_dirty: bool,
    pub uniforms_dirty: bool,
    pub do_h_scroll: bool,
    pub do_v_scroll: bool,
    pub draw_scroll: Vec2<S>,
}

/// A view: a region of the screen with its own draw calls.
pub struct CxView<S> {
    /// Generation of this view: bumped on every rebuild, invalidating older handles.
    pub redraw_id: u64,
    pub pass_id: usize,
    pub rect: Rect<S>,
    pub draw_calls: Vec<DrawCall<S>>,
    pub unsnapped_scroll: Vec2<S>,
    pub parent_scroll: Vec2<S>,
}

/// A texture known to the context by its slot id.
#[derive(Clone, Copy, Debug, PartialEq, Eq, Structural)]
pub struct Texture {
    pub texture_id: usize,
}

/// A render pass; `paint_dirty` asks for it to be painted again.
pub struct CxPass {
    pub paint_dirty: bool,
}

/// The rendering context: views with their draw calls, passes, shader layouts, and
/// the registry of areas with animations in flight.
pub struct Cx<S> {
    /// The scalar that stands for zero: what a failed read yields.
    pub zero: S,
    pub views: Vec<CxView<S>>,
    pub passes: Vec<CxPass>,
    pub shaders: Vec<CxShader>,
    /// Generation of the live style definitions.
    pub live_update_id: u64,
    /// Areas with an animation in flight, read as a map by their first entry. Every
    /// operation of the animator keeps its keys distinct when they were distinct
    /// before, so each area has at most one entry.
    pub playing_anim_areas: Vec<(Area, AnimInfo)>,
}

/// The first property of `props` with identity `id`.
pub open spec fn lookup_prop(props: Seq<PropDef>, id: LiveItemId) -> Option<PropDef>
    decreases props.len(),
{
    if props.len() == 0 {
        None
    } else if props[0].live_item_id == id {
        Some(props[0])
    } else {
        lookup_prop(props.drop_first(), id)
    }
}

/// Looks up `id` in `props` and returns its offset when its kind is `ty`.
pub fn find_prop_offset(props: &Vec<PropDef>, id: LiveItemId, ty: Ty) -> (r: Option<usize>)
    ensures
        r == (match lookup_prop(props@, id) {
            Some(p) => if p.ty == ty { Some(p.offset) } else { None },
            None => None,
        }),
{
    let mut i: usize = 0;
    assert(props@.subrange(0, props@.len() as int) =~= props@);
    while i < props.len()
        invariant
            i <= props@.len(),
            lookup_prop(props@, id) == lookup_prop(props@.subrange(i as int, props@.len() as int), id),
        decreases props@.len() - i,
    {
        let p = props[i];
        proof {
            assert(props@.subrange(i as int, props@.len() as int).drop_first() =~= props@.subrange(
                i + 1,
                props@.len() as int,
            ));
        }
        if p.live_item_id == id {
            if p.ty == ty {
                return Some(p.offset);
            }
            return None;
        }
        i = i + 1;
    }
    None
}

} // verus!

verus! {

/// Pass `p` of `post` is marked for repaint; every other pass is as in `pre`.
pub open spec fn pass_marked(pre: Seq<CxPass>, post: Seq<CxPass>, p: usize) -> bool {
    &&& post.len() == pre.len()
    &&& forall|i: int| 0 <= i < pre.len() && i != p ==> post[i] == pre[i]
    &&& p < pre.len() ==> post[p as int].paint_dirty
}

/// Apart from its passes, `post` differs from `pre` at most in draw call `d` of view `v`.
pub open spec fn only_draw_call_changed<S>(pre: Cx<S>, post: Cx<S>, v: int, d: int) -> bool {
    let pv = pre.views@[v];
    let qv = post.views@[v];
    &&& 0 <= v < pre.views.len()
    &&& 0 <= d < pv.draw_calls.len()
    &&& post.zero == pre.zero
    &&& post.shaders == pre.shaders
    &&& post.live_update_id == pre.live_update_id
    &&& post.playing_anim_areas == pre.playing_anim_areas
    &&& post.views.len() == pre.views.len()
    &&& forall|w: int| 0 <= w < pre.views.len() && w != v ==> post.views@[w] == pre.views@[w]
    &&& qv.redraw_id == pv.redraw_id
    &&& qv.pass_id == pv.pass_id
    &&& qv.rect == pv.rect
    &&& qv.unsnapped_scroll == pv.unsnapped_scroll
    &&& qv.parent_scroll == pv.parent_scroll
    &&& qv.draw_calls.len() == pv.draw_calls.len()
    &&& forall|e: int| 0 <= e < pv.draw_calls.len() && e != d ==> qv.draw_calls@[e] == pv.draw_calls@[e]
    &&& qv.draw_calls@[d].shader_id == pv.draw_calls@[d].shader_id
}

/// Marks the pass `p` for repaint, if there is such a pass.
pub fn mark_pass_dirty(passes: &mut Vec<CxPass>, p: usize)
    ensures
        pass_marked(old(passes)@, final(passes)@, p),
{
    if p < passes.len() {
        passes[p] = CxPass { paint_dirty: true };
    }
}

} // verus!
