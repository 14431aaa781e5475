use vstd::prelude::*;
use vstd::arithmetic::div_mod::{lemma_fundamental_div_mod, lemma_fundamental_div_mod_converse};
use crate::math::{Color, LiveItemId, Mat4, Rect, Ty, Vec2, Vec3, Vec4};
use crate::cx::{
    Cx, CxPass, CxShader, CxView, DrawCall, RectInstanceProps, Texture, find_prop_offset, lookup_prop, mark_pass_dirty, only_draw_call_changed,
    pass_marked,
};

verus! {

/// A range of instances inside one draw call of one view, stamped with the view's
/// generation at the time it was drawn.
#[derive(Clone, Copy, Debug, PartialEq, Eq, Structural, Hash, PartialOrd, Ord, Default)]
pub struct InstanceArea {
    pub view_id: usize,
    pub draw_call_id: usize,
    pub instance_offset: usize,
    pub instance_count: usize,
    pub redraw_id: u64,
}

/// A whole view, stamped with the view's generation.
#[derive(Clone, Copy, Debug, PartialEq, Eq, Structural, Hash, PartialOrd, Ord, Default)]
pub struct ViewArea {
    pub view_id: usize,
    pub redraw_id: u64,
}

/// A logical handle to storage that is rebuilt every redraw.
#[derive(Clone, Copy, Debug, PartialEq, Eq, Structural, Hash, PartialOrd, Ord)]
pub enum Area {
    Empty,
    All,
    Instance(InstanceArea),
    View(ViewArea),
}

impl Default for Area {
    fn default() -> (r: Area)
        ensures
            r == Area::Empty,
    {
        Area::Empty
    }
}

impl From<InstanceArea> for Area {
    fn from(inst: InstanceArea) -> Area {
        Area::Instance(inst)
    }
}

impl vstd::std_specs::convert::FromSpecImpl<InstanceArea> for Area {
    open spec fn obeys_from_spec() -> bool {
        true
    }

    open spec fn from_spec(inst: InstanceArea) -> Area {
        Area::Instance(inst)
    }
}

/// Location of the instance data a live handle addresses.
#[derive(Clone, Copy, Debug, PartialEq, Eq, Structural)]
pub struct InstanceReadRef {
    pub view_id: usize,
    pub draw_call_id: usize,
    pub offset: usize,
    pub slots: usize,
    pub count: usize,
}

/// Location of the instance data a live handle addresses, handed out after the
/// draw call and its pass were marked dirty.
#[derive(Clone, Copy, Debug, PartialEq, Eq, Structural)]
pub struct InstanceWriteRef {
    pub view_id: usize,
    pub draw_call_id: usize,
    pub offset: usize,
    pub slots: usize,
    pub count: usize,
}

/// Location of the user uniforms of the draw call a live handle addresses.
#[derive(Clone, Copy, Debug, PartialEq, Eq, Structural)]
pub struct UniformsWriteRef {
    pub view_id: usize,
    pub draw_call_id: usize,
}

/// `buf` with `comps` stored from index `off` on.
pub open spec fn splice<S>(buf: Seq<S>, off: int, comps: Seq<S>) -> Seq<S> {
    Seq::new(buf.len(), |k: int| if off <= k < off + comps.len() { comps[k - off] } else { buf[k] })
}

/// `buf` with `v` stored at `base + slot`, for a slot that exists and lies inside it.
pub open spec fn put_slot<S>(buf: Seq<S>, base: int, slot: Option<usize>, v: S) -> Seq<S> {
    match slot {
        Some(i) => if base + i < buf.len() {
            buf.update(base + i, v)
        } else {
            buf
        },
        None => buf,
    }
}

fn store_slot<S: Copy>(buf: &mut Vec<S>, base: usize, slot: Option<usize>, v: S)
    ensures
        final(buf)@ == put_slot(old(buf)@, base as int, slot, v),
{
    if let Some(i) = slot {
        if base <= buf.len() && i < buf.len() - base {
            buf.set(base + i, v);
        }
    }
}

/// Index of the first texture slot named `id`.
pub open spec fn is_first_texture(textures: Seq<LiveItemId>, id: LiveItemId, i: int) -> bool {
    &&& 0 <= i < textures.len()
    &&& textures[i] == id
    &&& forall|j: int| 0 <= j < i ==> textures[j] != id
}

/// Generation of view `view_id`, if there is such a view.
pub open spec fn view_generation<S>(cx: Cx<S>, view_id: usize) -> Option<u64> {
    if view_id < cx.views.len() {
        Some(cx.views@[view_id as int].redraw_id)
    } else {
        None
    }
}

/// `buf` with `comps` stored at `base + i * stride` for every instance `i < count`.
pub open spec fn broadcast<S>(buf: Seq<S>, base: int, stride: int, count: int, comps: Seq<S>) -> Seq<S> {
    Seq::new(
        buf.len(),
        |k: int|
            if base <= k && (k - base) / stride < count && (k - base) % stride < comps.len() {
                comps[(k - base) % stride]
            } else {
                buf[k]
            },
    )
}

impl InstanceArea {
    /// The draw call this range lies in, if the view and draw call exist.
    pub open spec fn draw_call<S>(self, cx: Cx<S>) -> Option<DrawCall<S>> {
        if self.view_id < cx.views.len() && self.draw_call_id
            < cx.views@[self.view_id as int].draw_calls.len() {
            Some(cx.views@[self.view_id as int].draw_calls@[self.draw_call_id as int])
        } else {
            None
        }
    }

    /// Offset and stride of property `id` of kind `ty` in this range's shader layout,
    /// when the layout has it with that kind and it fits in one instance's slots.
    pub open spec fn prop_layout<S>(self, cx: Cx<S>, id: LiveItemId, ty: Ty) -> Option<(int, int)> {
        match self.draw_call(cx) {
            Some(dc) => if dc.shader_id < cx.shaders.len() {
                let sh = cx.shaders@[dc.shader_id as int];
                match lookup_prop(sh.instance_props@, id) {
                    Some(p) => if p.ty == ty && p.offset + ty.width_spec() <= sh.total_slots {
                        Some((p.offset as int, sh.total_slots as int))
                    } else {
                        None
                    },
                    None => None,
                }
            } else {
                None
            },
            None => None,
        }
    }
}

impl Area {
    pub open spec fn is_valid_spec<S>(self, cx: Cx<S>) -> bool {
        match self {
            Area::Instance(inst) => inst.instance_count > 0 && view_generation(cx, inst.view_id)
                == Some(inst.redraw_id),
            Area::View(va) => view_generation(cx, va.view_id) == Some(va.redraw_id),
            _ => false,
        }
    }

    pub fn is_empty(&self) -> (r: bool)
        ensures
            r == (*self == Area::Empty),
    {
        if let Area::Empty = self {
            return true;
        }
        false
    }

    /// Whether the handle still addresses the storage it was made for: its stamp
    /// equals the view's current generation. `Empty` and `All` are never valid.
    pub fn is_valid<S>(&self, cx: &Cx<S>) -> (r: bool)
        ensures
            r == self.is_valid_spec(*cx),
    {
        match self {
            Area::Instance(inst) => {
                if inst.instance_count == 0 {
                    return false;
                }
                if inst.view_id >= cx.views.len() {
                    return false;
                }
                cx.views[inst.view_id].redraw_id == inst.redraw_id
            },
            Area::View(view_area) => {
                if view_area.view_id >= cx.views.len() {
                    return false;
                }
                cx.views[view_area.view_id].redraw_id == view_area.redraw_id
            },
            _ => false,
        }
    }

    /// The instance range of a live handle whose view and draw call exist and whose
    /// draw call names an existing shader.
    pub open spec fn live_instance<S>(self, cx: Cx<S>) -> Option<InstanceArea> {
        match self {
            Area::Instance(inst) => if self.is_valid_spec(cx) && inst.draw_call(cx).is_some()
                && inst.draw_call(cx).unwrap().shader_id < cx.shaders.len() {
                Some(inst)
            } else {
                None
            },
            _ => None,
        }
    }

    /// Offset of instance property `id` of kind `ty` in the shader of the addressed
    /// draw call, when the shader has it with that kind.
    pub open spec fn instance_offset_spec<S>(self, cx: Cx<S>, id: LiveItemId, ty: Ty) -> Option<usize> {
        match self {
            Area::Instance(inst) => match inst.draw_call(cx) {
                Some(dc) => if dc.shader_id < cx.shaders.len() {
                    match lookup_prop(cx.shaders@[dc.shader_id as int].instance_props@, id) {
                        Some(p) => if p.ty == ty { Some(p.offset) } else { None },
                        None => None,
                    }
                } else {
                    None
                },
                None => None,
            },
            _ => None,
        }
    }

    /// The scroll offset of the view a handle lies in; zero for a stale handle.
    pub fn get_local_scroll_pos<S: Copy>(&self, cx: &Cx<S>) -> (r: Vec2<S>)
        ensures
            r == (match *self {
                Area::Instance(inst) => if self.is_valid_spec(*cx) {
                    cx.views@[inst.view_id as int].unsnapped_scroll
                } else {
                    Vec2 { x: cx.zero, y: cx.zero }
                },
                Area::View(va) => if self.is_valid_spec(*cx) {
                    cx.views@[va.view_id as int].unsnapped_scroll
                } else {
                    Vec2 { x: cx.zero, y: cx.zero }
                },
                _ => Vec2 { x: cx.zero, y: cx.zero },
            }),
    {
        let zero = Vec2 { x: cx.zero, y: cx.zero };
        match self {
            Area::Instance(_) => {
                if self.is_valid(cx) {
                    if let Area::Instance(inst) = self {
                        return cx.views[inst.view_id].unsnapped_scroll;
                    }
                }
                zero
            },
            Area::View(view_area) => {
                if self.is_valid(cx) {
                    cx.views[view_area.view_id].unsnapped_scroll
                } else {
                    zero
                }
            },
            _ => zero,
        }
    }

    /// The scroll applied to what a handle addresses: the draw call's scroll for an
    /// instance range, the parent's scroll for a view; zero when stale or absent.
    pub fn get_scroll_pos<S: Copy>(&self, cx: &Cx<S>) -> (r: Vec2<S>)
        ensures
            r == (match *self {
                Area::Instance(inst) => if self.is_valid_spec(*cx) && inst.draw_call(*cx).is_some() {
                    inst.draw_call(*cx).unwrap().draw_scroll
                } else {
                    Vec2 { x: cx.zero, y: cx.zero }
                },
                Area::View(va) => if self.is_valid_spec(*cx) {
                    cx.views@[va.view_id as int].parent_scroll
                } else {
                    Vec2 { x: cx.zero, y: cx.zero }
                },
                _ => Vec2 { x: cx.zero, y: cx.zero },
            }),
    {
        let zero = Vec2 { x: cx.zero, y: cx.zero };
        match self {
            Area::Instance(inst) => {
                if !self.is_valid(cx) {
                    return zero;
                }
                let cxview = &cx.views[inst.view_id];
                if inst.draw_call_id < cxview.draw_calls.len() {
                    cxview.draw_calls[inst.draw_call_id].draw_scroll
                } else {
                    zero
                }
            },
            Area::View(view_area) => {
                if self.is_valid(cx) {
                    cx.views[view_area.view_id].parent_scroll
                } else {
                    zero
                }
            },
            _ => zero,
        }
    }

    /// Offset of instance property `id` of kind `ty`; `None` when the layout lacks it
    /// or has it with another kind.
    pub fn get_instance_offset<S>(&self, cx: &Cx<S>, live_item_id: LiveItemId, ty: Ty) -> (r: Option<usize>)
        ensures
            r == self.instance_offset_spec(*cx, live_item_id, ty),
    {
        match self {
            Area::Instance(inst) => {
                if inst.view_id >= cx.views.len() {
                    return None;
                }
                let cxview = &cx.views[inst.view_id];
                if inst.draw_call_id >= cxview.draw_calls.len() {
                    return None;
                }
                let draw_call = &cxview.draw_calls[inst.draw_call_id];
                if draw_call.shader_id >= cx.shaders.len() {
                    return None;
                }
                let sh = &cx.shaders[draw_call.shader_id];
                find_prop_offset(&sh.instance_props, live_item_id, ty)
            },
            _ => None,
        }
    }

    /// Offset of user uniform `id` of kind `ty` in the shader of the addressed draw call.
    pub fn get_user_uniform_offset<S>(&self, cx: &Cx<S>, live_item_id: LiveItemId, ty: Ty) -> (r: Option<usize>)
        ensures
            r == (match *self {
                Area::Instance(inst) => match inst.draw_call(*cx) {
                    Some(dc) => if dc.shader_id < cx.shaders.len() {
                        match lookup_prop(cx.shaders@[dc.shader_id as int].user_uniform_props@, live_item_id) {
                            Some(p) => if p.ty == ty { Some(p.offset) } else { None },
                            None => None,
                        }
                    } else {
                        None
                    },
                    None => None,
                },
                _ => None,
            }),
    {
        match self {
            Area::Instance(inst) => {
                if inst.view_id >= cx.views.len() {
                    return None;
                }
                let cxview = &cx.views[inst.view_id];
                if inst.draw_call_id >= cxview.draw_calls.len() {
                    return None;
                }
                let draw_call = &cxview.draw_calls[inst.draw_call_id];
                if draw_call.shader_id >= cx.shaders.len() {
                    return None;
                }
                find_prop_offset(&cx.shaders[draw_call.shader_id].user_uniform_props, live_item_id, ty)
            },
            _ => None,
        }
    }

    /// Where the instance data of a live handle lies: its draw call, first slot, the
    /// stride of one instance, and the number of instances.
    pub fn get_read_ref<S>(&self, cx: &Cx<S>) -> (r: Option<InstanceReadRef>)
        ensures
            r == (match self.live_instance(*cx) {
                Some(inst) => Some(InstanceReadRef {
                    view_id: inst.view_id,
                    draw_call_id: inst.draw_call_id,
                    offset: inst.instance_offset,
                    slots: cx.shaders@[inst.draw_call(*cx).unwrap().shader_id as int].total_slots,
                    count: inst.instance_count,
                }),
                None => None,
            }),
    {
        if !self.is_valid(cx) {
            return None;
        }
        match self {
            Area::Instance(inst) => {
                let cxview = &cx.views[inst.view_id];
                if inst.draw_call_id >= cxview.draw_calls.len() {
                    return None;
                }
                let draw_call = &cxview.draw_calls[inst.draw_call_id];
                if draw_call.shader_id >= cx.shaders.len() {
                    return None;
                }
                Some(
                    InstanceReadRef {
                        view_id: inst.view_id,
                        draw_call_id: inst.draw_call_id,
                        offset: inst.instance_offset,
                        slots: cx.shaders[draw_call.shader_id].total_slots,
                        count: inst.instance_count,
                    },
                )
            },
            _ => None,
        }
    }

    /// Like `get_read_ref`, and marks the draw call's instance data and its view's
    /// pass dirty; leaves `cx` as it was for a handle that is not live.
    pub fn get_write_ref<S>(&self, cx: &mut Cx<S>) -> (r: Option<InstanceWriteRef>)
        ensures
            match self.live_instance(*old(cx)) {
                Some(inst) => {
                    let pv = old(cx).views@[inst.view_id as int];
                    let pd = pv.draw_calls@[inst.draw_call_id as int];
                    let qd = final(cx).views@[inst.view_id as int].draw_calls@[inst.draw_call_id as int];
                    &&& r == Some(InstanceWriteRef {
                        view_id: inst.view_id,
                        draw_call_id: inst.draw_call_id,
                        offset: inst.instance_offset,
                        slots: old(cx).shaders@[pd.shader_id as int].total_slots,
                        count: inst.instance_count,
                    })
                    &&& only_draw_call_changed(*old(cx), *final(cx), inst.view_id as int, inst.draw_call_id as int)
                    &&& pass_marked(old(cx).passes@, final(cx).passes@, pv.pass_id)
                    &&& qd == (DrawCall { instance_dirty: true, ..pd })
                },
                None => r.is_none() && *final(cx) == *old(cx),
            },
    {
        let read = match self.get_read_ref(cx) {
            Some(read) => read,
            None => return None,
        };
        let pass_id = cx.views[read.view_id].pass_id;
        cx.views[read.view_id].draw_calls[read.draw_call_id].instance_dirty = true;
        mark_pass_dirty(&mut cx.passes, pass_id);
        Some(
            InstanceWriteRef {
                view_id: read.view_id,
                draw_call_id: read.draw_call_id,
                offset: read.offset,
                slots: read.slots,
                count: read.count,
            },
        )
    }

    /// First slot and stride of property `id` for a live handle, when the property of
    /// every instance in the range lies inside the draw call's buffer.
    pub open spec fn write_target<S>(self, cx: Cx<S>, id: LiveItemId, ty: Ty) -> Option<(InstanceArea, int, int)> {
        match self.live_instance(cx) {
            Some(inst) => match inst.prop_layout(cx, id, ty) {
                Some((off, stride)) => {
                    let base = inst.instance_offset + off;
                    if base + (inst.instance_count - 1) * stride + ty.width_spec()
                        <= inst.draw_call(cx).unwrap().instance.len() {
                        Some((inst, base, stride))
                    } else {
                        None
                    }
                },
                None => None,
            },
            None => None,
        }
    }

    /// First slot of property `id` in the first instance of a live handle, when the
    /// property lies inside the draw call's buffer.
    pub open spec fn read_target<S>(self, cx: Cx<S>, id: LiveItemId, ty: Ty) -> Option<(InstanceArea, int)> {
        match self.live_instance(cx) {
            Some(inst) => match inst.prop_layout(cx, id, ty) {
                Some((off, _)) => {
                    let base = inst.instance_offset + off;
                    if base + ty.width_spec() <= inst.draw_call(cx).unwrap().instance.len() {
                        Some((inst, base))
                    } else {
                        None
                    }
                },
                None => None,
            },
            None => None,
        }
    }

    /// Component `c` of property `id` as stored for the first instance; zero when the
    /// handle is stale or the property absent.
    pub open spec fn read_spec<S>(self, cx: Cx<S>, id: LiveItemId, ty: Ty, c: int) -> S {
        match self.read_target(cx, id, ty) {
            Some((inst, base)) => inst.draw_call(cx).unwrap().instance@[base + c],
            None => cx.zero,
        }
    }

    /// `post` is `pre` after storing `comps` into property `id` of every instance the
    /// handle covers, with the draw call and its pass marked dirty; or `pre` itself
    /// when the handle is stale or the property absent.
    pub open spec fn write_spec<S>(self, pre: Cx<S>, post: Cx<S>, id: LiveItemId, ty: Ty, comps: Seq<S>) -> bool {
        match self.write_target(pre, id, ty) {
            Some((inst, base, stride)) => {
                let v = inst.view_id as int;
                let d = inst.draw_call_id as int;
                let pd = pre.views@[v].draw_calls@[d];
                let qd = post.views@[v].draw_calls@[d];
                &&& only_draw_call_changed(pre, post, v, d)
                &&& pass_marked(pre.passes@, post.passes@, pre.views@[v].pass_id)
                &&& qd == (DrawCall { instance: qd.instance, instance_dirty: true, ..pd })
                &&& qd.instance@ == broadcast(pd.instance@, base, stride, inst.instance_count as int, comps)
            },
            None => post == pre,
        }
    }

    fn write_slots<S: Copy>(&self, cx: &mut Cx<S>, live_item_id: LiveItemId, ty: Ty, comps: &Vec<S>)
        requires
            comps@.len() == ty.width_spec(),
        ensures
            self.write_spec(*old(cx), *final(cx), live_item_id, ty, comps@),
    {
        let off = match self.get_instance_offset(cx, live_item_id, ty) {
            Some(off) => off,
            None => return ,
        };
        let read = match self.get_read_ref(cx) {
            Some(read) => read,
            None => return ,
        };
        let width = ty.width();
        if off > read.slots || width > read.slots - off {
            return ;
        }
        let len = cx.views[read.view_id].draw_calls[read.draw_call_id].instance.len();
        let base = match read.offset.checked_add(off) {
            Some(base) => base,
            None => return ,
        };
        let span = match (read.count - 1).checked_mul(read.slots) {
            Some(span) => span,
            None => return ,
        };
        if base > len || span > len - base || width > len - base - span {
            return ;
        }
        let write = match self.get_write_ref(cx) {
            Some(write) => write,
            None => return ,
        };
        let ghost pre_buf = old(cx).views@[read.view_id as int].draw_calls@[read.draw_call_id as int].instance@;
        let ghost pd = cx.views@[read.view_id as int].draw_calls@[read.draw_call_id as int];
        let ghost mid = *cx;
        let stride = write.slots;
        let count = write.count;
        assert(broadcast_upto(pre_buf, base as int, stride as int, comps@, 0) =~= pre_buf);
        let mut i: usize = 0;
        while i < count
            invariant
                0 <= i <= count,
                count == read.count,
                count >= 1,
                write.view_id == read.view_id,
                write.draw_call_id == read.draw_call_id,
                width == comps@.len(),
                width <= stride,
                span == (count - 1) * stride,
                base + span + width <= len,
                len == pre_buf.len(),
                pd.instance@ == pre_buf,
                only_draw_call_changed(mid, *cx, read.view_id as int, read.draw_call_id as int),
                cx.passes == mid.passes,
                cx.views@[read.view_id as int].draw_calls@[read.draw_call_id as int] == (DrawCall {
                    instance: cx.views@[read.view_id as int].draw_calls@[read.draw_call_id as int].instance,
                    ..pd
                }),
                cx.views@[read.view_id as int].draw_calls@[read.draw_call_id as int].instance@
                    == broadcast_upto(pre_buf, base as int, stride as int, comps@, i * width),
            decreases count - i,
        {
            assert(i * stride <= span) by (nonlinear_arith)
                requires
                    i < count,
                    span == (count - 1) * stride,
            ;
            let row = base + i * stride;
            let mut c: usize = 0;
            while c < width
                invariant
                    0 <= i < count,
                    0 <= c <= width,
                    count == read.count,
                    write.view_id == read.view_id,
                    write.draw_call_id == read.draw_call_id,
                    width == comps@.len(),
                    width <= stride,
                    row == base + i * stride,
                    row + width <= len,
                    len == pre_buf.len(),
                    only_draw_call_changed(mid, *cx, read.view_id as int, read.draw_call_id as int),
                    cx.passes == mid.passes,
                    cx.views@[read.view_id as int].draw_calls@[read.draw_call_id as int] == (DrawCall {
                        instance: cx.views@[read.view_id as int].draw_calls@[read.draw_call_id as int].instance,
                        ..pd
                    }),
                    cx.views@[read.view_id as int].draw_calls@[read.draw_call_id as int].instance@
                        == broadcast_upto(pre_buf, base as int, stride as int, comps@, i * width + c),
                decreases width - c,
            {
                proof {
                    lemma_upto_step(pre_buf, base as int, stride as int, comps@, i as int, c as int);
                }
                cx.views[write.view_id].draw_calls[write.draw_call_id].instance.set(row + c, comps[c]);
                c = c + 1;
            }
            assert(i * width + width == (i + 1) * width) by (nonlinear_arith);
            i = i + 1;
        }
        proof {
            lemma_upto_whole(pre_buf, base as int, stride as int, count as int, comps@);
        }
    }
}

impl Area {
    fn read_base<S>(&self, cx: &Cx<S>, live_item_id: LiveItemId, ty: Ty) -> (r: Option<(usize, usize, usize)>)
        ensures
            match self.read_target(*cx, live_item_id, ty) {
                Some((inst, base)) => r == Some((inst.view_id, inst.draw_call_id, base as usize)),
                None => r.is_none(),
            },
    {
        let off = match self.get_instance_offset(cx, live_item_id, ty) {
            Some(off) => off,
            None => return None,
        };
        let read = match self.get_read_ref(cx) {
            Some(read) => read,
            None => return None,
        };
        let len = cx.views[read.view_id].draw_calls[read.draw_call_id].instance.len();
        let base = match read.offset.checked_add(off) {
            Some(base) => base,
            None => return None,
        };
        if off > read.slots || ty.width() > read.slots - off {
            return None;
        }
        if base > len || ty.width() > len - base {
            return None;
        }
        Some((read.view_id, read.draw_call_id, base))
    }

    fn read_slot<S: Copy>(&self, cx: &Cx<S>, live_item_id: LiveItemId, ty: Ty, c: usize) -> (r: S)
        requires
            c < ty.width_spec(),
        ensures
            r == self.read_spec(*cx, live_item_id, ty, c as int),
    {
        match self.read_base(cx, live_item_id, ty) {
            Some((v, d, base)) => cx.views[v].draw_calls[d].instance[base + c],
            None => cx.zero,
        }
    }

    /// Broadcasts `value` into float property `live_item_id` of every instance.
    pub fn write_float<S: Copy>(&self, cx: &mut Cx<S>, live_item_id: LiveItemId, value: S)
        ensures
            self.write_spec(*old(cx), *final(cx), live_item_id, Ty::Float, seq![value]),
    {
        let comps = vec![value];
        assert(comps@ =~= seq![value]);
        self.write_slots(cx, live_item_id, Ty::Float, &comps);
    }

    pub fn read_float<S: Copy>(&self, cx: &Cx<S>, live_item_id: LiveItemId) -> (r: S)
        ensures
            r == self.read_spec(*cx, live_item_id, Ty::Float, 0),
    {
        self.read_slot(cx, live_item_id, Ty::Float, 0)
    }

    /// Broadcasts `value` into a two-component property, `y` in the first slot and
    /// `x` in the second: the order shader layouts expect.
    pub fn write_vec2<S: Copy>(&self, cx: &mut Cx<S>, live_item_id: LiveItemId, value: Vec2<S>)
        ensures
            self.write_spec(*old(cx), *final(cx), live_item_id, Ty::Vec2, seq![value.y, value.x]),
    {
        let comps = vec![value.y, value.x];
        assert(comps@ =~= seq![value.y, value.x]);
        self.write_slots(cx, live_item_id, Ty::Vec2, &comps);
    }

    /// Reads a two-component property of the first instance, `x` from the first slot
    /// and `y` from the second. This is deliberately not the inverse of `write_vec2`,
    /// which stores `y` first: a write followed by a read swaps the components. Both
    /// orders are what existing shader layouts expect.
    pub fn read_vec2<S: Copy>(&self, cx: &Cx<S>, live_item_id: LiveItemId) -> (r: Vec2<S>)
        ensures
            r == (Vec2 {
                x: self.read_spec(*cx, live_item_id, Ty::Vec2, 0),
                y: self.read_spec(*cx, live_item_id, Ty::Vec2, 1),
            }),
    {
        Vec2 {
            x: self.read_slot(cx, live_item_id, Ty::Vec2, 0),
            y: self.read_slot(cx, live_item_id, Ty::Vec2, 1),
        }
    }

    pub fn write_vec3<S: Copy>(&self, cx: &mut Cx<S>, live_item_id: LiveItemId, value: Vec3<S>)
        ensures
            self.write_spec(*old(cx), *final(cx), live_item_id, Ty::Vec3, seq![value.x, value.y, value.z]),
    {
        let comps = vec![value.x, value.y, value.z];
        assert(comps@ =~= seq![value.x, value.y, value.z]);
        self.write_slots(cx, live_item_id, Ty::Vec3, &comps);
    }

    pub fn read_vec3<S: Copy>(&self, cx: &Cx<S>, live_item_id: LiveItemId) -> (r: Vec3<S>)
        ensures
            r == (Vec3 {
                x: self.read_spec(*cx, live_item_id, Ty::Vec3, 0),
                y: self.read_spec(*cx, live_item_id, Ty::Vec3, 1),
                z: self.read_spec(*cx, live_item_id, Ty::Vec3, 2),
            }),
    {
        Vec3 {
            x: self.read_slot(cx, live_item_id, Ty::Vec3, 0),
            y: self.read_slot(cx, live_item_id, Ty::Vec3, 1),
            z: self.read_slot(cx, live_item_id, Ty::Vec3, 2),
        }
    }

    pub fn write_vec4<S: Copy>(&self, cx: &mut Cx<S>, live_item_id: LiveItemId, value: Vec4<S>)
        ensures
            self.write_spec(
                *old(cx),
                *final(cx),
                live_item_id,
                Ty::Vec4,
                seq![value.x, value.y, value.z, value.w],
            ),
    {
        let comps = vec![value.x, value.y, value.z, value.w];
        assert(comps@ =~= seq![value.x, value.y, value.z, value.w]);
        self.write_slots(cx, live_item_id, Ty::Vec4, &comps);
    }

    pub fn read_vec4<S: Copy>(&self, cx: &Cx<S>, live_item_id: LiveItemId) -> (r: Vec4<S>)
        ensures
            r == (Vec4 {
                x: self.read_spec(*cx, live_item_id, Ty::Vec4, 0),
                y: self.read_spec(*cx, live_item_id, Ty::Vec4, 1),
                z: self.read_spec(*cx, live_item_id, Ty::Vec4, 2),
                w: self.read_spec(*cx, live_item_id, Ty::Vec4, 3),
            }),
    {
        Vec4 {
            x: self.read_slot(cx, live_item_id, Ty::Vec4, 0),
            y: self.read_slot(cx, live_item_id, Ty::Vec4, 1),
            z: self.read_slot(cx, live_item_id, Ty::Vec4, 2),
            w: self.read_slot(cx, live_item_id, Ty::Vec4, 3),
        }
    }

    /// A color is stored as a four-component property, in `r g b a` order.
    pub fn write_color<S: Copy>(&self, cx: &mut Cx<S>, live_item_id: LiveItemId, value: Color<S>)
        ensures
            self.write_spec(
                *old(cx),
                *final(cx),
                live_item_id,
                Ty::Vec4,
                seq![value.r, value.g, value.b, value.a],
            ),
    {
        let comps = vec![value.r, value.g, value.b, value.a];
        assert(comps@ =~= seq![value.r, value.g, value.b, value.a]);
        self.write_slots(cx, live_item_id, Ty::Vec4, &comps);
    }

    pub fn read_color<S: Copy>(&self, cx: &Cx<S>, live_item_id: LiveItemId) -> (r: Color<S>)
        ensures
            r == (Color {
                r: self.read_spec(*cx, live_item_id, Ty::Vec4, 0),
                g: self.read_spec(*cx, live_item_id, Ty::Vec4, 1),
                b: self.read_spec(*cx, live_item_id, Ty::Vec4, 2),
                a: self.read_spec(*cx, live_item_id, Ty::Vec4, 3),
            }),
    {
        Color {
            r: self.read_slot(cx, live_item_id, Ty::Vec4, 0),
            g: self.read_slot(cx, live_item_id, Ty::Vec4, 1),
            b: self.read_slot(cx, live_item_id, Ty::Vec4, 2),
            a: self.read_slot(cx, live_item_id, Ty::Vec4, 3),
        }
    }

    pub fn write_mat4<S: Copy>(&self, cx: &mut Cx<S>, live_item_id: LiveItemId, value: &Mat4<S>)
        ensures
            self.write_spec(*old(cx), *final(cx), live_item_id, Ty::Mat4, value.v@),
    {
        let mut comps: Vec<S> = Vec::new();
        let mut j: usize = 0;
        while j < 16
            invariant
                j <= 16,
                comps@ =~= value.v@.subrange(0, j as int),
            decreases 16 - j,
        {
            comps.push(value.v[j]);
            j = j + 1;
        }
        assert(comps@ =~= value.v@);
        self.write_slots(cx, live_item_id, Ty::Mat4, &comps);
    }

    pub fn read_mat4<S: Copy>(&self, cx: &Cx<S>, live_item_id: LiveItemId) -> (r: Mat4<S>)
        ensures
            forall|j: int| 0 <= j < 16 ==> #[trigger] r.v@[j] == self.read_spec(*cx, live_item_id, Ty::Mat4, j),
    {
        let mut v = [cx.zero; 16];
        let mut j: usize = 0;
        while j < 16
            invariant
                j <= 16,
                forall|k: int| 0 <= k < j ==> #[trigger] v@[k] == self.read_spec(*cx, live_item_id, Ty::Mat4, k),
            decreases 16 - j,
        {
            v[j] = self.read_slot(cx, live_item_id, Ty::Mat4, j);
            j = j + 1;
        }
        Mat4 { v }
    }
}

impl Area {
    /// Offset of user uniform `id` of kind `ty` for a live handle, when it lies inside
    /// the draw call's uniform buffer.
    pub open spec fn uniform_target<S>(self, cx: Cx<S>, id: LiveItemId, ty: Ty) -> Option<(InstanceArea, int)> {
        match self {
            Area::Instance(inst) => if self.is_valid_spec(cx) && inst.draw_call(cx).is_some() {
                let dc = inst.draw_call(cx).unwrap();
                if dc.shader_id < cx.shaders.len() {
                    match lookup_prop(cx.shaders@[dc.shader_id as int].user_uniform_props@, id) {
                        Some(p) => if p.ty == ty && p.offset + ty.width_spec() <= dc.user_uniforms.len() {
                            Some((inst, p.offset as int))
                        } else {
                            None
                        },
                        None => None,
                    }
                } else {
                    None
                }
            } else {
                None
            },
            _ => None,
        }
    }

    /// `post` is `pre` after storing `comps` into user uniform `id`, with the draw
    /// call's uniforms and its pass marked dirty; or `pre` itself when the handle is
    /// stale or the uniform absent.
    pub open spec fn uniform_write_spec<S>(self, pre: Cx<S>, post: Cx<S>, id: LiveItemId, ty: Ty, comps: Seq<S>) -> bool {
        match self.uniform_target(pre, id, ty) {
            Some((inst, off)) => {
                let v = inst.view_id as int;
                let d = inst.draw_call_id as int;
                let pd = pre.views@[v].draw_calls@[d];
                let qd = post.views@[v].draw_calls@[d];
                &&& only_draw_call_changed(pre, post, v, d)
                &&& pass_marked(pre.passes@, post.passes@, pre.views@[v].pass_id)
                &&& qd == (DrawCall { user_uniforms: qd.user_uniforms, uniforms_dirty: true, ..pd })
                &&& qd.user_uniforms@ == splice(pd.user_uniforms@, off, comps)
            },
            None => post == pre,
        }
    }

    /// For a live handle whose draw call exists: marks the draw call's uniforms and
    /// its view's pass dirty, and says where the uniforms are.
    pub fn get_user_uniforms_write_ref<S>(&self, cx: &mut Cx<S>) -> (r: Option<UniformsWriteRef>)
        ensures
            match *self {
                Area::Instance(inst) => if self.is_valid_spec(*old(cx)) && inst.draw_call(*old(cx)).is_some() {
                    let v = inst.view_id as int;
                    let d = inst.draw_call_id as int;
                    let pd = old(cx).views@[v].draw_calls@[d];
                    &&& r == Some(UniformsWriteRef { view_id: inst.view_id, draw_call_id: inst.draw_call_id })
                    &&& only_draw_call_changed(*old(cx), *final(cx), v, d)
                    &&& pass_marked(old(cx).passes@, final(cx).passes@, old(cx).views@[v].pass_id)
                    &&& final(cx).views@[v].draw_calls@[d] == (DrawCall { uniforms_dirty: true, ..pd })
                } else {
                    r.is_none() && *final(cx) == *old(cx)
                },
                _ => r.is_none() && *final(cx) == *old(cx),
            },
    {
        if !self.is_valid(cx) {
            return None;
        }
        match self {
            Area::Instance(inst) => {
                if inst.draw_call_id >= cx.views[inst.view_id].draw_calls.len() {
                    return None;
                }
                let pass_id = cx.views[inst.view_id].pass_id;
                cx.views[inst.view_id].draw_calls[inst.draw_call_id].uniforms_dirty = true;
                mark_pass_dirty(&mut cx.passes, pass_id);
                Some(UniformsWriteRef { view_id: inst.view_id, draw_call_id: inst.draw_call_id })
            },
            _ => None,
        }
    }

    fn write_uniform_slots<S: Copy>(&self, cx: &mut Cx<S>, live_item_id: LiveItemId, ty: Ty, comps: &Vec<S>)
        requires
            comps@.len() == ty.width_spec(),
        ensures
            self.uniform_write_spec(*old(cx), *final(cx), live_item_id, ty, comps@),
    {
        if !self.is_valid(cx) {
            return ;
        }
        let off = match self.get_user_uniform_offset(cx, live_item_id, ty) {
            Some(off) => off,
            None => return ,
        };
        let (v, d) = match self {
            Area::Instance(inst) => (inst.view_id, inst.draw_call_id),
            _ => return ,
        };
        let len = cx.views[v].draw_calls[d].user_uniforms.len();
        if off > len || ty.width() > len - off {
            return ;
        }
        let write = match self.get_user_uniforms_write_ref(cx) {
            Some(write) => write,
            None => return ,
        };
        let ghost pre_buf = old(cx).views@[v as int].draw_calls@[d as int].user_uniforms@;
        let ghost pd = cx.views@[v as int].draw_calls@[d as int];
        let ghost mid = *cx;
        let width = ty.width();
        let mut c: usize = 0;
        while c < width
            invariant
                0 <= c <= width,
                width == comps@.len(),
                off + width <= len,
                len == pre_buf.len(),
                write.view_id == v,
                write.draw_call_id == d,
                pd.user_uniforms@ == pre_buf,
                only_draw_call_changed(mid, *cx, v as int, d as int),
                cx.passes == mid.passes,
                cx.views@[v as int].draw_calls@[d as int] == (DrawCall {
                    user_uniforms: cx.views@[v as int].draw_calls@[d as int].user_uniforms,
                    ..pd
                }),
                cx.views@[v as int].draw_calls@[d as int].user_uniforms@ == splice(
                    pre_buf,
                    off as int,
                    comps@.subrange(0, c as int),
                ),
            decreases width - c,
        {
            cx.views[write.view_id].draw_calls[write.draw_call_id].user_uniforms.set(off + c, comps[c]);
            c = c + 1;
            assert(cx.views@[v as int].draw_calls@[d as int].user_uniforms@ =~= splice(
                pre_buf,
                off as int,
                comps@.subrange(0, c as int),
            ));
        }
        assert(comps@.subrange(0, width as int) =~= comps@);
    }

    pub fn write_uniform_float<S: Copy>(&self, cx: &mut Cx<S>, live_item_id: LiveItemId, v: S)
        ensures
            self.uniform_write_spec(*old(cx), *final(cx), live_item_id, Ty::Float, seq![v]),
    {
        let comps = vec![v];
        assert(comps@ =~= seq![v]);
        self.write_uniform_slots(cx, live_item_id, Ty::Float, &comps);
    }

    pub fn write_uniform_vec3<S: Copy>(&self, cx: &mut Cx<S>, live_item_id: LiveItemId, v: Vec3<S>)
        ensures
            self.uniform_write_spec(*old(cx), *final(cx), live_item_id, Ty::Vec3, seq![v.x, v.y, v.z]),
    {
        let comps = vec![v.x, v.y, v.z];
        assert(comps@ =~= seq![v.x, v.y, v.z]);
        self.write_uniform_slots(cx, live_item_id, Ty::Vec3, &comps);
    }
}

impl InstanceArea {
    /// `post` is `pre` with at most this range's draw call changed and passes
    /// untouched; `pre` itself when the draw call does not exist.
    pub open spec fn draw_call_edited<S>(self, pre: Cx<S>, post: Cx<S>) -> bool {
        match self.draw_call(pre) {
            Some(_) => only_draw_call_changed(pre, post, self.view_id as int, self.draw_call_id as int)
                && post.passes == pre.passes,
            None => post == pre,
        }
    }

    /// `post` is `pre` with `vals` appended to this range's instance data.
    pub open spec fn pushed<S>(self, pre: Cx<S>, post: Cx<S>, vals: Seq<S>) -> bool {
        &&& self.draw_call_edited(pre, post)
        &&& match self.draw_call(pre) {
            Some(pd) => {
                let qd = self.draw_call(post).unwrap();
                qd == (DrawCall { instance: qd.instance, ..pd }) && qd.instance@ == pd.instance@ + vals
            },
            None => true,
        }
    }

    /// Appends `data` to the instance data of this range's draw call.
    pub fn push_slice<S: Copy>(&self, cx: &mut Cx<S>, data: &[S])
        ensures
            self.pushed(*old(cx), *final(cx), data@),
    {
        if self.view_id >= cx.views.len() || self.draw_call_id >= cx.views[self.view_id].draw_calls.len() {
            return ;
        }
        let ghost pd = cx.views@[self.view_id as int].draw_calls@[self.draw_call_id as int];
        let mut i: usize = 0;
        while i < data.len()
            invariant
                i <= data@.len(),
                only_draw_call_changed(*old(cx), *cx, self.view_id as int, self.draw_call_id as int),
                cx.passes == old(cx).passes,
                cx.views@[self.view_id as int].draw_calls@[self.draw_call_id as int] == (DrawCall {
                    instance: cx.views@[self.view_id as int].draw_calls@[self.draw_call_id as int].instance,
                    ..pd
                }),
                cx.views@[self.view_id as int].draw_calls@[self.draw_call_id as int].instance@
                    == pd.instance@ + data@.subrange(0, i as int),
            decreases data@.len() - i,
        {
            cx.views[self.view_id].draw_calls[self.draw_call_id].instance.push(data[i]);
            i = i + 1;
            assert(cx.views@[self.view_id as int].draw_calls@[self.draw_call_id as int].instance@
                =~= pd.instance@ + data@.subrange(0, i as int));
        }
        assert(data@.subrange(0, data@.len() as int) =~= data@);
    }

    pub fn push_float<S: Copy>(&self, cx: &mut Cx<S>, value: S)
        ensures
            self.pushed(*old(cx), *final(cx), seq![value]),
    {
        let vals = vec![value];
        assert(vals@ =~= seq![value]);
        self.push_slice(cx, vals.as_slice());
    }

    /// Appends a two-component value in `x y` order.
    pub fn push_vec2<S: Copy>(&self, cx: &mut Cx<S>, value: Vec2<S>)
        ensures
            self.pushed(*old(cx), *final(cx), seq![value.x, value.y]),
    {
        let vals = vec![value.x, value.y];
        assert(vals@ =~= seq![value.x, value.y]);
        self.push_slice(cx, vals.as_slice());
    }

    pub fn push_vec3<S: Copy>(&self, cx: &mut Cx<S>, value: Vec3<S>)
        ensures
            self.pushed(*old(cx), *final(cx), seq![value.x, value.y, value.z]),
    {
        let vals = vec![value.x, value.y, value.z];
        assert(vals@ =~= seq![value.x, value.y, value.z]);
        self.push_slice(cx, vals.as_slice());
    }

    pub fn push_vec4<S: Copy>(&self, cx: &mut Cx<S>, value: Vec4<S>)
        ensures
            self.pushed(*old(cx), *final(cx), seq![value.x, value.y, value.z, value.w]),
    {
        let vals = vec![value.x, value.y, value.z, value.w];
        assert(vals@ =~= seq![value.x, value.y, value.z, value.w]);
        self.push_slice(cx, vals.as_slice());
    }

    pub fn push_color<S: Copy>(&self, cx: &mut Cx<S>, value: Color<S>)
        ensures
            self.pushed(*old(cx), *final(cx), seq![value.r, value.g, value.b, value.a]),
    {
        let vals = vec![value.r, value.g, value.b, value.a];
        assert(vals@ =~= seq![value.r, value.g, value.b, value.a]);
        self.push_slice(cx, vals.as_slice());
    }

    pub fn set_do_scroll<S>(&self, cx: &mut Cx<S>, hor: bool, ver: bool)
        ensures
            self.draw_call_edited(*old(cx), *final(cx)),
            match self.draw_call(*old(cx)) {
                Some(pd) => self.draw_call(*final(cx)) == Some(DrawCall { do_h_scroll: hor, do_v_scroll: ver, ..pd }),
                None => true,
            },
    {
        if self.view_id >= cx.views.len() || self.draw_call_id >= cx.views[self.view_id].draw_calls.len() {
            return ;
        }
        cx.views[self.view_id].draw_calls[self.draw_call_id].do_h_scroll = hor;
        cx.views[self.view_id].draw_calls[self.draw_call_id].do_v_scroll = ver;
    }

    pub fn is_first_instance(&self) -> (r: bool)
        ensures
            r == (self.instance_offset == 0),
    {
        self.instance_offset == 0
    }

    /// Offset of user uniform `id` of kind `ty` in the layout `sh`.
    pub fn get_user_uniform_offset(sh: &CxShader, live_item_id: LiveItemId, ty: Ty) -> (r: Option<usize>)
        ensures
            r == (match lookup_prop(sh.user_uniform_props@, live_item_id) {
                Some(p) => if p.ty == ty { Some(p.offset) } else { None },
                None => None,
            }),
    {
        find_prop_offset(&sh.user_uniform_props, live_item_id, ty)
    }

    /// Stores `v` into float uniform `id` of this range's draw call, without marking
    /// anything dirty.
    pub fn write_uniform_float<S: Copy>(&self, cx: &mut Cx<S>, live_item_id: LiveItemId, v: S)
        ensures
            self.draw_call_edited(*old(cx), *final(cx)),
            match self.draw_call(*old(cx)) {
                Some(pd) => {
                    let qd = self.draw_call(*final(cx)).unwrap();
                    &&& qd == (DrawCall { user_uniforms: qd.user_uniforms, ..pd })
                    &&& qd.user_uniforms@ == (if pd.shader_id < old(cx).shaders.len() {
                        match lookup_prop(old(cx).shaders@[pd.shader_id as int].user_uniform_props@, live_item_id) {
                            Some(p) => if p.ty == Ty::Float && p.offset < pd.user_uniforms.len() {
                                pd.user_uniforms@.update(p.offset as int, v)
                            } else {
                                pd.user_uniforms@
                            },
                            None => pd.user_uniforms@,
                        }
                    } else {
                        pd.user_uniforms@
                    })
                },
                None => true,
            },
    {
        if self.view_id >= cx.views.len() || self.draw_call_id >= cx.views[self.view_id].draw_calls.len() {
            return ;
        }
        let shader_id = cx.views[self.view_id].draw_calls[self.draw_call_id].shader_id;
        if shader_id >= cx.shaders.len() {
            return ;
        }
        if let Some(uni_offset) = Self::get_user_uniform_offset(&cx.shaders[shader_id], live_item_id, Ty::Float) {
            if uni_offset < cx.views[self.view_id].draw_calls[self.draw_call_id].user_uniforms.len() {
                cx.views[self.view_id].draw_calls[self.draw_call_id].user_uniforms.set(uni_offset, v);
            }
        }
    }

    /// Slot of the first texture named `id` in the layout `sh`.
    pub fn get_texture_offset(sh: &CxShader, live_item_id: LiveItemId) -> (r: Option<usize>)
        ensures
            match r {
                Some(i) => is_first_texture(sh.textures@, live_item_id, i as int),
                None => forall|j: int| 0 <= j < sh.textures@.len() ==> sh.textures@[j] != live_item_id,
            },
    {
        let mut i: usize = 0;
        while i < sh.textures.len()
            invariant
                i <= sh.textures@.len(),
                forall|j: int| 0 <= j < i ==> sh.textures@[j] != live_item_id,
            decreases sh.textures@.len() - i,
        {
            if sh.textures[i] == live_item_id {
                return Some(i);
            }
            i = i + 1;
        }
        None
    }

    /// Binds texture slot `texture_id` to the texture named `id` in this range's draw call.
    pub fn write_texture_2d_id<S>(&self, cx: &mut Cx<S>, live_item_id: LiveItemId, texture_id: usize)
        ensures
            self.draw_call_edited(*old(cx), *final(cx)),
            match self.draw_call(*old(cx)) {
                Some(pd) => {
                    let qd = self.draw_call(*final(cx)).unwrap();
                    &&& qd == (DrawCall { textures_2d: qd.textures_2d, ..pd })
                    &&& if pd.shader_id < old(cx).shaders.len() && exists|i: int|
                        is_first_texture(old(cx).shaders@[pd.shader_id as int].textures@, live_item_id, i)
                        && i < pd.textures_2d.len() {
                        exists|i: int|
                            is_first_texture(old(cx).shaders@[pd.shader_id as int].textures@, live_item_id, i)
                            && qd.textures_2d@ == pd.textures_2d@.update(i, texture_id as u32)
                    } else {
                        qd.textures_2d@ == pd.textures_2d@
                    }
                },
                None => true,
            },
    {
        if self.view_id >= cx.views.len() || self.draw_call_id >= cx.views[self.view_id].draw_calls.len() {
            return ;
        }
        let shader_id = cx.views[self.view_id].draw_calls[self.draw_call_id].shader_id;
        if shader_id >= cx.shaders.len() {
            return ;
        }
        let ghost textures = cx.shaders@[shader_id as int].textures@;
        if let Some(tex_offset) = Self::get_texture_offset(&cx.shaders[shader_id], live_item_id) {
            proof {
                assert forall|i: int| is_first_texture(textures, live_item_id, i) implies i == tex_offset by {
                    if i < tex_offset {
                    } else if i > tex_offset {
                        assert(textures[tex_offset as int] == live_item_id);
                    }
                }
            }
            if tex_offset < cx.views[self.view_id].draw_calls[self.draw_call_id].textures_2d.len() {
                cx.views[self.view_id].draw_calls[self.draw_call_id].textures_2d.set(tex_offset, texture_id as u32);
            }
        }
    }

    pub fn write_texture_2d<S>(&self, cx: &mut Cx<S>, live_item_id: LiveItemId, texture: Texture)
        ensures
            self.draw_call_edited(*old(cx), *final(cx)),
            match self.draw_call(*old(cx)) {
                Some(pd) => {
                    let qd = self.draw_call(*final(cx)).unwrap();
                    &&& qd == (DrawCall { textures_2d: qd.textures_2d, ..pd })
                    &&& if pd.shader_id < old(cx).shaders.len() && exists|i: int|
                        is_first_texture(old(cx).shaders@[pd.shader_id as int].textures@, live_item_id, i)
                        && i < pd.textures_2d.len() {
                        exists|i: int|
                            is_first_texture(old(cx).shaders@[pd.shader_id as int].textures@, live_item_id, i)
                            && qd.textures_2d@ == pd.textures_2d@.update(i, texture.texture_id as u32)
                    } else {
                        qd.textures_2d@ == pd.textures_2d@
                    }
                },
                None => true,
            },
    {
        self.write_texture_2d_id(cx, live_item_id, texture.texture_id);
    }
}

impl Area {
    /// The value in slot `slot` of the first instance of a live handle, when the
    /// shader has that slot and it lies inside the draw call's buffer.
    pub open spec fn rect_slot<S>(self, cx: Cx<S>, slot: Option<usize>) -> Option<S> {
        match self.live_instance(cx) {
            Some(inst) => match slot {
                Some(i) => {
                    let buf = inst.draw_call(cx).unwrap().instance@;
                    if inst.instance_offset + i < buf.len() {
                        Some(buf[inst.instance_offset + i])
                    } else {
                        None
                    }
                },
                None => None,
            },
            None => None,
        }
    }

    /// The rectangle slots of a live instance range with its draw call, when the
    /// shader names all four and they lie inside the buffer.
    pub open spec fn rect_source<S>(self, cx: Cx<S>) -> Option<(DrawCall<S>, S, S, S, S)> {
        match self.live_instance(cx) {
            Some(inst) => {
                let dc = inst.draw_call(cx).unwrap();
                let props = cx.shaders@[dc.shader_id as int].rect_instance_props;
                match (
                    self.rect_slot(cx, props.x),
                    self.rect_slot(cx, props.y),
                    self.rect_slot(cx, props.w),
                    self.rect_slot(cx, props.h),
                ) {
                    (Some(x), Some(y), Some(w), Some(h)) => Some((dc, x, y, w, h)),
                    _ => None,
                }
            },
            None => None,
        }
    }

    /// The position slots of a live instance range with its draw call, when the
    /// shader names both and they lie inside the buffer.
    pub open spec fn origin_source<S>(self, cx: Cx<S>) -> Option<(DrawCall<S>, S, S)> {
        match self.live_instance(cx) {
            Some(inst) => {
                let dc = inst.draw_call(cx).unwrap();
                let props = cx.shaders@[dc.shader_id as int].rect_instance_props;
                match (self.rect_slot(cx, props.x), self.rect_slot(cx, props.y)) {
                    (Some(x), Some(y)) => Some((dc, x, y)),
                    _ => None,
                }
            },
            None => None,
        }
    }

    fn read_rect_slot<S: Copy>(&self, cx: &Cx<S>, slot: Option<usize>) -> (r: Option<S>)
        requires
            self.live_instance(*cx).is_some(),
        ensures
            r == self.rect_slot(*cx, slot),
    {
        match self {
            Area::Instance(inst) => {
                let buf = &cx.views[inst.view_id].draw_calls[inst.draw_call_id].instance;
                match slot {
                    Some(i) => {
                        if i < buf.len() && inst.instance_offset < buf.len() - i {
                            Some(buf[inst.instance_offset + i])
                        } else {
                            None
                        }
                    },
                    None => None,
                }
            },
            _ => None,
        }
    }

    fn rect_props<S>(&self, cx: &Cx<S>) -> (r: Option<RectInstanceProps>)
        ensures
            match self.live_instance(*cx) {
                Some(inst) => r == Some(
                    cx.shaders@[inst.draw_call(*cx).unwrap().shader_id as int].rect_instance_props,
                ),
                None => r.is_none(),
            },
    {
        if !self.is_valid(cx) {
            return None;
        }
        match self {
            Area::Instance(inst) => {
                let cxview = &cx.views[inst.view_id];
                if inst.draw_call_id >= cxview.draw_calls.len() {
                    return None;
                }
                let shader_id = cxview.draw_calls[inst.draw_call_id].shader_id;
                if shader_id >= cx.shaders.len() {
                    return None;
                }
                Some(cx.shaders[shader_id].rect_instance_props)
            },
            _ => None,
        }
    }

    /// The screen rectangle of what the handle addresses. For an instance range it is
    /// what `clip_and_scroll` makes of the draw call and the four rectangle slots; for
    /// a view, the view's rectangle moved back by the parent's scroll, each coordinate
    /// through `minus`. Zero for a stale handle or a shader without rectangle slots.
    pub fn get_rect<S: Copy, C: Fn(&DrawCall<S>, S, S, S, S) -> Rect<S>, D: Fn(S, S) -> S>(
        &self,
        cx: &Cx<S>,
        clip_and_scroll: &C,
        minus: &D,
    ) -> (r: Rect<S>)
        requires
            forall|d: &DrawCall<S>, x: S, y: S, w: S, h: S| call_requires(*clip_and_scroll, (d, x, y, w, h)),
            forall|a: S, b: S| call_requires(*minus, (a, b)),
        ensures
            match *self {
                Area::Instance(_) => match self.rect_source(*cx) {
                    Some((dc, x, y, w, h)) => call_ensures(*clip_and_scroll, (&dc, x, y, w, h), r),
                    None => r == (Rect { x: cx.zero, y: cx.zero, w: cx.zero, h: cx.zero }),
                },
                Area::View(va) => if self.is_valid_spec(*cx) {
                    let v = cx.views@[va.view_id as int];
                    &&& call_ensures(*minus, (v.rect.x, v.parent_scroll.x), r.x)
                    &&& call_ensures(*minus, (v.rect.y, v.parent_scroll.y), r.y)
                    &&& r.w == v.rect.w
                    &&& r.h == v.rect.h
                } else {
                    r == (Rect { x: cx.zero, y: cx.zero, w: cx.zero, h: cx.zero })
                },
                _ => r == (Rect { x: cx.zero, y: cx.zero, w: cx.zero, h: cx.zero }),
            },
    {
        let empty = Rect { x: cx.zero, y: cx.zero, w: cx.zero, h: cx.zero };
        match self {
            Area::Instance(inst) => {
                let props = match self.rect_props(cx) {
                    Some(props) => props,
                    None => return empty,
                };
                let x = self.read_rect_slot(cx, props.x);
                let y = self.read_rect_slot(cx, props.y);
                let w = self.read_rect_slot(cx, props.w);
                let h = self.read_rect_slot(cx, props.h);
                match (x, y, w, h) {
                    (Some(x), Some(y), Some(w), Some(h)) => {
                        let draw_call = &cx.views[inst.view_id].draw_calls[inst.draw_call_id];
                        clip_and_scroll(draw_call, x, y, w, h)
                    },
                    _ => empty,
                }
            },
            Area::View(view_area) => {
                if !self.is_valid(cx) {
                    return empty;
                }
                let view = &cx.views[view_area.view_id];
                Rect {
                    x: minus(view.rect.x, view.parent_scroll.x),
                    y: minus(view.rect.y, view.parent_scroll.y),
                    w: view.rect.w,
                    h: view.rect.h,
                }
            },
            _ => empty,
        }
    }

    /// The position `abs` relative to what the handle addresses. For an instance range:
    /// `abs` minus the position slots, plus the draw call's scroll. For a view: `x` is
    /// `abs.x - rect.x + parent_scroll.x + unsnapped_scroll.x` and `y` is
    /// `abs.y - rect.y - parent_scroll.y + unsnapped_scroll.y`, the parent scroll
    /// entering the two coordinates with opposite signs. Each step goes through `plus`
    /// or `minus`. `abs` itself for a stale handle or one without position slots.
    pub fn abs_to_rel<S: Copy, P: Fn(S, S) -> S, D: Fn(S, S) -> S>(
        &self,
        cx: &Cx<S>,
        abs: Vec2<S>,
        plus: &P,
        minus: &D,
    ) -> (r: Vec2<S>)
        requires
            forall|a: S, b: S| call_requires(*plus, (a, b)),
            forall|a: S, b: S| call_requires(*minus, (a, b)),
        ensures
            match *self {
                Area::Instance(_) => match self.origin_source(*cx) {
                    Some((dc, x, y)) => {
                        &&& exists|m: S| call_ensures(*minus, (abs.x, x), m) && call_ensures(*plus, (m, dc.draw_scroll.x), r.x)
                        &&& exists|m: S| call_ensures(*minus, (abs.y, y), m) && call_ensures(*plus, (m, dc.draw_scroll.y), r.y)
                    },
                    None => r == abs,
                },
                Area::View(va) => if self.is_valid_spec(*cx) {
                    let v = cx.views@[va.view_id as int];
                    &&& exists|m: S, n: S| call_ensures(*minus, (abs.x, v.rect.x), m)
                        && call_ensures(*plus, (m, v.parent_scroll.x), n) && call_ensures(*plus, (n, v.unsnapped_scroll.x), r.x)
                    &&& exists|m: S, n: S| call_ensures(*minus, (abs.y, v.rect.y), m)
                        && call_ensures(*minus, (m, v.parent_scroll.y), n) && call_ensures(*plus, (n, v.unsnapped_scroll.y), r.y)
                } else {
                    r == abs
                },
                _ => r == abs,
            },
    {
        match self {
            Area::Instance(inst) => {
                let props = match self.rect_props(cx) {
                    Some(props) => props,
                    None => return abs,
                };
                let x = self.read_rect_slot(cx, props.x);
                let y = self.read_rect_slot(cx, props.y);
                match (x, y) {
                    (Some(x), Some(y)) => {
                        let scroll = cx.views[inst.view_id].draw_calls[inst.draw_call_id].draw_scroll;
                        let mx = minus(abs.x, x);
                        let my = minus(abs.y, y);
                        Vec2 { x: plus(mx, scroll.x), y: plus(my, scroll.y) }
                    },
                    _ => abs,
                }
            },
            Area::View(view_area) => {
                if !self.is_valid(cx) {
                    return abs;
                }
                let view = &cx.views[view_area.view_id];
                let mx = minus(abs.x, view.rect.x);
                let nx = plus(mx, view.parent_scroll.x);
                let my = minus(abs.y, view.rect.y);
                let ny = minus(my, view.parent_scroll.y);
                Vec2 { x: plus(nx, view.unsnapped_scroll.x), y: plus(ny, view.unsnapped_scroll.y) }
            },
            _ => abs,
        }
    }
}

impl Area {
    /// Stores `rect` where the handle's geometry lives: in the rectangle slots of the
    /// first instance of a live instance range, or as the rectangle of a view.
    pub fn set_rect<S: Copy>(&self, cx: &mut Cx<S>, rect: &Rect<S>)
        ensures
            match *self {
                Area::Instance(inst) => if inst.draw_call(*old(cx)).is_some()
                    && old(cx).views@[inst.view_id as int].redraw_id == inst.redraw_id
                    && inst.draw_call(*old(cx)).unwrap().shader_id < old(cx).shaders.len() {
                    let pd = inst.draw_call(*old(cx)).unwrap();
                    let qd = inst.draw_call(*final(cx)).unwrap();
                    let props = old(cx).shaders@[pd.shader_id as int].rect_instance_props;
                    let base = inst.instance_offset as int;
                    &&& only_draw_call_changed(*old(cx), *final(cx), inst.view_id as int, inst.draw_call_id as int)
                    &&& final(cx).passes == old(cx).passes
                    &&& qd == (DrawCall { instance: qd.instance, ..pd })
                    &&& qd.instance@ == put_slot(
                        put_slot(put_slot(put_slot(pd.instance@, base, props.x, rect.x), base, props.y, rect.y), base, props.w, rect.w),
                        base,
                        props.h,
                        rect.h,
                    )
                } else {
                    *final(cx) == *old(cx)
                },
                Area::View(va) => if va.view_id < old(cx).views.len() {
                    &&& final(cx).views@ == old(cx).views@.update(
                        va.view_id as int,
                        CxView { rect: *rect, ..old(cx).views@[va.view_id as int] },
                    )
                    &&& *final(cx) == (Cx { views: final(cx).views, ..*old(cx) })
                } else {
                    *final(cx) == *old(cx)
                },
                _ => *final(cx) == *old(cx),
            },
    {
        match self {
            Area::Instance(inst) => {
                if inst.view_id >= cx.views.len() || inst.draw_call_id >= cx.views[inst.view_id].draw_calls.len() {
                    return ;
                }
                if cx.views[inst.view_id].redraw_id != inst.redraw_id {
                    return ;
                }
                let shader_id = cx.views[inst.view_id].draw_calls[inst.draw_call_id].shader_id;
                if shader_id >= cx.shaders.len() {
                    return ;
                }
                let props = cx.shaders[shader_id].rect_instance_props;
                let base = inst.instance_offset;
                let buf = &mut cx.views[inst.view_id].draw_calls[inst.draw_call_id].instance;
                store_slot(buf, base, props.x, rect.x);
                store_slot(buf, base, props.y, rect.y);
                store_slot(buf, base, props.w, rect.w);
                store_slot(buf, base, props.h, rect.h);
            },
            Area::View(view_area) => {
                if view_area.view_id < cx.views.len() {
                    cx.views[view_area.view_id].rect = *rect;
                }
            },
            _ => {},
        }
    }
}

/// `buf` with the first `n` component stores of a broadcast done, instance by
/// instance and component by component.
spec fn broadcast_upto<S>(buf: Seq<S>, base: int, stride: int, comps: Seq<S>, n: int) -> Seq<S> {
    Seq::new(
        buf.len(),
        |k: int|
            if base <= k && (k - base) % stride < comps.len() && ((k - base) / stride) * comps.len()
                + (k - base) % stride < n {
                comps[(k - base) % stride]
            } else {
                buf[k]
            },
    )
}

proof fn lemma_upto_step<S>(buf: Seq<S>, base: int, stride: int, comps: Seq<S>, i: int, c: int)
    requires
        0 <= c < comps.len() <= stride,
        0 <= i,
        0 <= base,
        base + i * stride + c < buf.len(),
    ensures
        broadcast_upto(buf, base, stride, comps, i * comps.len() + c).update(
            base + i * stride + c,
            comps[c],
        ) =~= broadcast_upto(buf, base, stride, comps, i * comps.len() + c + 1),
{
    let w = comps.len() as int;
    let n = i * w + c;
    let idx = base + i * stride + c;
    let lhs = broadcast_upto(buf, base, stride, comps, n).update(idx, comps[c]);
    let rhs = broadcast_upto(buf, base, stride, comps, n + 1);
    lemma_fundamental_div_mod_converse(idx - base, stride, i, c);
    assert forall|k: int| 0 <= k < buf.len() implies #[trigger] lhs[k] == rhs[k] by {
        if k != idx && base <= k {
            let q = (k - base) / stride;
            let r = (k - base) % stride;
            lemma_fundamental_div_mod(k - base, stride);
            if r < w && q * w + r == n {
                assert(r >= 0);
                lemma_fundamental_div_mod_converse(n, w, q, r);
                lemma_fundamental_div_mod_converse(n, w, i, c);
                assert(k - base == i * stride + c) by (nonlinear_arith)
                    requires
                        k - base == stride * q + r,
                        q == i,
                        r == c,
                ;
            }
        }
    }
    assert(lhs =~= rhs);
}

proof fn lemma_upto_whole<S>(buf: Seq<S>, base: int, stride: int, count: int, comps: Seq<S>)
    requires
        0 < comps.len() <= stride,
        0 <= count,
    ensures
        broadcast_upto(buf, base, stride, comps, count * comps.len()) =~= broadcast(
            buf,
            base,
            stride,
            count,
            comps,
        ),
{
    let w = comps.len() as int;
    let lhs = broadcast_upto(buf, base, stride, comps, count * w);
    let rhs = broadcast(buf, base, stride, count, comps);
    assert forall|k: int| 0 <= k < buf.len() implies #[trigger] lhs[k] == rhs[k] by {
        if base <= k {
            let q = (k - base) / stride;
            let r = (k - base) % stride;
            lemma_fundamental_div_mod(k - base, stride);
            assert(q >= 0) by (nonlinear_arith)
                requires
                    k - base >= 0,
                    stride > 0,
                    q == (k - base) / stride,
            ;
            assert(r >= 0);
            if r < w {
                assert((q * w + r < count * w) == (q < count)) by (nonlinear_arith)
                    requires
                        0 <= r < w,
                        q >= 0,
                ;
            }
        }
    }
    assert(lhs =~= rhs);
}

/// A handle whose view was rebuilt after the handle was stamped addresses nothing:
/// every read gives zero and every write leaves the context as it was.
pub proof fn lemma_stale_handle_inert<S>(
    area: Area,
    cx: Cx<S>,
    post: Cx<S>,
    id: LiveItemId,
    ty: Ty,
    comps: Seq<S>,
    c: int,
)
    requires
        match area {
            Area::Instance(inst) => inst.view_id < cx.views.len() && cx.views@[inst.view_id as int].redraw_id
                != inst.redraw_id,
            Area::View(va) => va.view_id < cx.views.len() && cx.views@[va.view_id as int].redraw_id != va.redraw_id,
            _ => true,
        },
    ensures
        !area.is_valid_spec(cx),
        area.read_spec(cx, id, ty, c) == cx.zero,
        area.write_spec(cx, post, id, ty, comps) ==> post == cx,
        area.uniform_write_spec(cx, post, id, ty, comps) ==> post == cx,
{
}

/// A two-component write stores `y` in the property's first slot and `x` in the
/// second, in every instance the handle covers.
pub proof fn lemma_vec2_slot_order<S>(area: Area, pre: Cx<S>, post: Cx<S>, id: LiveItemId, value: Vec2<S>, i: int)
    requires
        area.write_spec(pre, post, id, Ty::Vec2, seq![value.y, value.x]),
        area.write_target(pre, id, Ty::Vec2).is_some(),
        0 <= i < area.write_target(pre, id, Ty::Vec2).unwrap().0.instance_count,
    ensures
        ({
            let (inst, base, stride) = area.write_target(pre, id, Ty::Vec2).unwrap();
            let buf = post.views@[inst.view_id as int].draw_calls@[inst.draw_call_id as int].instance@;
            &&& buf[base + i * stride] == value.y
            &&& buf[base + i * stride + 1] == value.x
        }),
{
    let (inst, base, stride) = area.write_target(pre, id, Ty::Vec2).unwrap();
    let pd = pre.views@[inst.view_id as int].draw_calls@[inst.draw_call_id as int];
    let count = inst.instance_count as int;
    assert(base + i * stride + 2 <= pd.instance.len()) by (nonlinear_arith)
        requires
            base + (count - 1) * stride + 2 <= pd.instance.len(),
            0 <= i < count,
            stride >= 0,
    ;
    lemma_fundamental_div_mod_converse(i * stride, stride, i, 0);
    lemma_fundamental_div_mod_converse(i * stride + 1, stride, i, 1);
}

} // verus!
