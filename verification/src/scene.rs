//! The interaction engine: which element a pick belongs to, what a frame
//! does to the elements and to the shared state, and where each part of an
//! element's model is drawn.
//!
//! The engine draws nothing and reads no pixel. Whoever renders hands it the
//! pick of the frame, tag and position, and gets back the coordinate to
//! commit, if the frame commits one.

use crate::coord::{Axis, Coord};
use crate::element::coloraxis::ColorAxis;
use crate::element::colorchips::ColorChips;
use crate::element::colorspace::ColorSpace;
use crate::element::embedswitcher::EmbedSwitcher;
use crate::element::{ColorElement, ModelGraph, SceneElement, TaggedColorModel};
use crate::embed::{Embedding, SharedEmbedding};
use crate::embed::AxisRepresentation;
use crate::input::InputState;
use vstd::prelude::*;

verus! {

/// What the pick target holds under the cursor: the tag of the element drawn
/// there, or 0 where none is, and the position that element wrote.
#[derive(Debug, Clone, Copy, PartialEq)]
pub struct Pick<S> {
    pub tag: u8,
    pub pos: Coord<S>,
}

/// The hover calls that one frame makes, each by the tag of the element
/// called.
#[derive(Debug, Clone, Copy, PartialEq, Eq, Structural)]
pub struct HoverChange {
    pub exited: Option<u8>,
    pub entered: Option<u8>,
}

/// The two targets of a frame, each as the list of what is drawn into it, in
/// drawing order.
#[derive(Debug, Clone, PartialEq)]
pub struct Target<M> {
    /// The visible target.
    pub target: Vec<M>,
    /// The pick target.
    pub pos_target: Vec<TaggedColorModel<M>>,
}

/// A list of elements and the tag that was under the cursor in the frame
/// before. The element at place `i` of the list has tag `i + 1`.
pub struct ColorScene<El> {
    pub elements: Vec<El>,
    pub prev_tag: u8,
}

/// The hover calls of a frame in which the tag under the cursor goes from
/// `prev` to `tag`: none while the tag stays, else `exited` for the element
/// left and `entered` for the element reached, as far as there is one.
pub open spec fn hover_change_spec(prev: u8, tag: u8) -> HoverChange {
    if tag == prev {
        HoverChange { exited: None, entered: None }
    } else {
        HoverChange {
            exited: if prev > 0 {
                Some(prev)
            } else {
                None
            },
            entered: if tag > 0 {
                Some(tag)
            } else {
                None
            },
        }
    }
}

/// The hover calls of a frame in which the tag under the cursor goes from
/// `prev` to `tag`.
pub fn hover_change(prev: u8, tag: u8) -> (r: HoverChange)
    ensures
        r == hover_change_spec(prev, tag),
{
    if tag == prev {
        HoverChange { exited: None, entered: None }
    } else {
        HoverChange {
            exited: if prev > 0 {
                Some(prev)
            } else {
                None
            },
            entered: if tag > 0 {
                Some(tag)
            } else {
                None
            },
        }
    }
}

/// The elements after the hover calls of a frame: first `exited`, then
/// `entered`.
pub open spec fn after_hover<S, E: ?Sized, El: ColorElement<S, E>>(
    elements: Seq<El>,
    change: HoverChange,
) -> Seq<El> {
    let left = match change.exited {
        Some(tag) => elements.update(tag - 1, elements[tag - 1].exited_spec()),
        None => elements,
    };
    match change.entered {
        Some(tag) => left.update(tag - 1, left[tag - 1].entered_spec()),
        None => left,
    }
}

/// The elements after the click of a frame, if it has one: `clicked` for the
/// element under the cursor when the button went down on it.
pub open spec fn after_click<S, E: ?Sized, El: ColorElement<S, E>>(
    elements: Seq<El>,
    tag: u8,
    press: bool,
) -> Seq<El> {
    if tag > 0 && press {
        elements.update(tag - 1, elements[tag - 1].clicked_spec())
    } else {
        elements
    }
}

/// The state after a hit at `hit` on `element`.
///
/// The coordinate becomes what the element makes of the hit, and stays where
/// the element makes nothing of it; the colour becomes the image of the
/// coordinate under the colour embedding; then the element adjusts the state.
/// Where the button went down in this frame, the coordinate reached is
/// committed.
pub open spec fn resolve_spec<S, E: Embedding<Coord<S>> + ?Sized, El: ColorElement<S, E>>(
    element: El,
    state: InputState<S, E>,
    hit: Coord<S>,
) -> InputState<S, E> {
    let pos = match element.invert_space_spec(hit) {
        Some(pos) => pos,
        None => state.pos,
    };
    let placed = InputState {
        pos,
        color: state.color_embedding.embedding.embed_spec(pos),
        ..state
    };
    let adjusted = element.update_state_spec(placed);
    if state.press {
        InputState { saved_pos: adjusted.pos, ..adjusted }
    } else {
        adjusted
    }
}

/// The leaves of one kind in a model graph, in drawing order: the `Space`
/// leaves where `space` is set, the `Color` leaves where it is not.
pub open spec fn leaves<M>(graph: ModelGraph<M>, space: bool) -> Seq<M>
    decreases graph,
{
    match graph {
        ModelGraph::Color(model) => if space {
            Seq::empty()
        } else {
            seq![model]
        },
        ModelGraph::Space(model) => if space {
            seq![model]
        } else {
            Seq::empty()
        },
        ModelGraph::Vec(graphs) => leaves_of(graphs@, space),
    }
}

/// The leaves of one kind in a list of model graphs, graph after graph.
pub open spec fn leaves_of<M>(graphs: Seq<ModelGraph<M>>, space: bool) -> Seq<M>
    decreases graphs,
{
    if graphs.len() == 0 {
        Seq::empty()
    } else {
        leaves_of(graphs.drop_last(), space) + leaves(graphs.last(), space)
    }
}

/// Each model of a list under one tag.
pub open spec fn tagged<M>(models: Seq<M>, tag: u16) -> Seq<TaggedColorModel<M>> {
    models.map_values(|model: M| TaggedColorModel { model, tag })
}

/// What the pick target receives from the models of a scene's elements: the
/// `Space` leaves of each model under the tag of its element, element after
/// element.
pub open spec fn picked<M>(graphs: Seq<ModelGraph<M>>) -> Seq<TaggedColorModel<M>>
    decreases graphs.len(),
{
    if graphs.len() == 0 {
        Seq::empty()
    } else {
        picked(graphs.drop_last()) + tagged(leaves(graphs.last(), true), graphs.len() as u16)
    }
}

/// The leaves of a list are those of all but its last graph, then those of
/// the last.
proof fn lemma_leaves_step<M>(graphs: Seq<ModelGraph<M>>, i: int, space: bool)
    requires
        0 <= i < graphs.len(),
    ensures
        leaves_of(graphs.take(i + 1), space) == leaves_of(graphs.take(i), space) + leaves(
            graphs[i],
            space,
        ),
        picked(graphs.take(i + 1)) == picked(graphs.take(i)) + tagged(
            leaves(graphs[i], true),
            (i + 1) as u16,
        ),
{
    assert(graphs.take(i + 1).drop_last() == graphs.take(i));
    assert(graphs.take(i + 1).last() == graphs[i]);
}

impl<El> ColorScene<El> {
    /// Every element keeps its invariant, each has a tag that fits, and the
    /// tag of the frame before names an element or none.
    pub open spec fn wf<S, E: ?Sized>(&self) -> bool where El: ColorElement<S, E> {
        &&& self.elements@.len() <= u8::MAX
        &&& self.prev_tag <= self.elements@.len()
        &&& forall|i: int| 0 <= i < self.elements@.len() ==> (#[trigger] self.elements@[i]).wf()
    }

    /// The elements after the hover calls and the click of a frame with `tag`
    /// under the cursor.
    pub open spec fn elements_after<S, E: ?Sized>(&self, tag: u8, press: bool) -> Seq<El> where
        El: ColorElement<S, E>,
     {
        after_click::<S, E, El>(
            after_hover::<S, E, El>(self.elements@, hover_change_spec(self.prev_tag, tag)),
            tag,
            press,
        )
    }

    /// A scene of `elements`, with nothing under the cursor yet.
    pub fn new(elements: Vec<El>) -> (r: Self)
        requires
            elements@.len() <= u8::MAX,
        ensures
            r.elements == elements,
            r.prev_tag == 0,
    {
        ColorScene { elements, prev_tag: 0 }
    }

    /// Whether `tag` is 0 or the tag of an element of the scene.
    pub fn has_tag(&self, tag: u8) -> (r: bool)
        ensures
            r == (tag <= self.elements@.len()),
    {
        tag as usize <= self.elements.len()
    }

    /// Refreshes every element from the state.
    pub fn update<S, E: ?Sized>(&mut self, state: &InputState<S, E>) where El: ColorElement<S, E>
        requires
            old(self).wf::<S, E>(),
        ensures
            final(self).wf::<S, E>(),
            final(self).prev_tag == old(self).prev_tag,
            final(self).elements@.len() == old(self).elements@.len(),
            forall|i: int|
                0 <= i < old(self).elements@.len() ==> #[trigger] final(self).elements@[i] == old(
                    self,
                ).elements@[i].update_spec(*state),
    {
        let len = self.elements.len();
        let mut i: usize = 0;
        while i < len
            invariant
                i <= len,
                len == self.elements@.len(),
                len == old(self).elements@.len(),
                self.prev_tag == old(self).prev_tag,
                self.elements@.len() <= u8::MAX,
                self.prev_tag <= self.elements@.len(),
                forall|k: int| 0 <= k < len ==> (#[trigger] self.elements@[k]).wf(),
                forall|k: int|
                    0 <= k < i ==> #[trigger] self.elements@[k] == old(
                        self,
                    ).elements@[k].update_spec(*state),
                forall|k: int| i <= k < len ==> #[trigger] self.elements@[k] == old(self).elements@[k],
            decreases len - i,
        {
            self.elements[i].update(state);
            i += 1;
        }
    }

    /// Draws one model graph of the element with tag `tag`: each `Color` leaf
    /// goes to the visible target, each `Space` leaf to the pick target under
    /// `tag`, both in the order of the graph and after what the targets hold
    /// already.
    pub fn render_graph<M: Copy>(&self, target: &mut Target<M>, graph: &ModelGraph<M>, tag: u16)
        ensures
            final(target).target@ == old(target).target@ + leaves(*graph, false),
            final(target).pos_target@ == old(target).pos_target@ + tagged(
                leaves(*graph, true),
                tag,
            ),
        decreases graph,
    {
        match graph {
            ModelGraph::Color(model) => {
                target.target.push(*model);
                assert(tagged(leaves(*graph, true), tag) == Seq::<TaggedColorModel<M>>::empty());
            },
            ModelGraph::Space(model) => {
                target.pos_target.push(TaggedColorModel { model: *model, tag });
                assert(tagged(leaves(*graph, true), tag) == seq![
                    TaggedColorModel { model: *model, tag },
                ]);
            },
            ModelGraph::Vec(graphs) => {
                let len = graphs.len();
                let mut i: usize = 0;
                assert(graphs@.take(0) == Seq::<ModelGraph<M>>::empty());
                assert(tagged(Seq::<M>::empty(), tag) == Seq::<TaggedColorModel<M>>::empty());
                while i < len
                    invariant
                        i <= len,
                        len == graphs@.len(),
                        *graph == ModelGraph::Vec(*graphs),
                        target.target@ == old(target).target@ + leaves_of(
                            graphs@.take(i as int),
                            false,
                        ),
                        target.pos_target@ == old(target).pos_target@ + tagged(
                            leaves_of(graphs@.take(i as int), true),
                            tag,
                        ),
                    decreases len - i,
                {
                    proof {
                        vstd::std_specs::vec::axiom_vec_index_decreases(*graphs, i as int);
                        assert(decreases_to!(*graph => graph->Vec_0));
                        lemma_leaves_step(graphs@, i as int, false);
                        lemma_leaves_step(graphs@, i as int, true);
                        assert(tagged(
                            leaves_of(graphs@.take(i as int), true) + leaves(graphs@[i as int], true),
                            tag,
                        ) == tagged(leaves_of(graphs@.take(i as int), true), tag) + tagged(
                            leaves(graphs@[i as int], true),
                            tag,
                        ));
                    }
                    self.render_graph(target, &graphs[i], tag);
                    i += 1;
                }
                assert(graphs@.take(len as int) == graphs@);
            },
        }
    }

    /// Draws the models of the scene's elements, `graphs[i]` being the model
    /// of the element at place `i`, into two empty targets.
    pub fn render<M: Copy>(&self, graphs: &Vec<ModelGraph<M>>) -> (target: Target<M>)
        requires
            graphs@.len() == self.elements@.len(),
            self.elements@.len() <= u8::MAX,
        ensures
            target.target@ == leaves_of(graphs@, false),
            target.pos_target@ == picked(graphs@),
    {
        let mut target = Target { target: Vec::new(), pos_target: Vec::new() };
        let len = graphs.len();
        let mut i: usize = 0;
        assert(graphs@.take(0) == Seq::<ModelGraph<M>>::empty());
        while i < len
            invariant
                i <= len,
                len == graphs@.len(),
                len <= u8::MAX,
                target.target@ == leaves_of(graphs@.take(i as int), false),
                target.pos_target@ == picked(graphs@.take(i as int)),
            decreases len - i,
        {
            proof {
                lemma_leaves_step(graphs@, i as int, false);
                lemma_leaves_step(graphs@, i as int, true);
            }
            self.render_graph(&mut target, &graphs[i], (i + 1) as u16);
            i += 1;
        }
        assert(graphs@.take(len as int) == graphs@);
        target
    }

    /// Handles the pick of a frame, in three steps.
    ///
    /// First the hit. With no element under the cursor the coordinate falls
    /// back to the committed one. Otherwise the element under the cursor owns
    /// the hit: see [`resolve_spec`].
    ///
    /// Then the hover. Where the tag under the cursor has changed since the
    /// frame before, the element left is told so and then the element
    /// reached; while the tag stays, neither call is made.
    ///
    /// Last the click. Where the button went down on an element, the
    /// coordinate reached is committed and the element is told of the click.
    /// The result is the coordinate that this frame commits, if it commits
    /// one.
    pub fn dispatch<S: Copy, E: Embedding<Coord<S>> + ?Sized>(
        &mut self,
        state: &mut InputState<S, E>,
        pick: Pick<S>,
    ) -> (commit: Option<Coord<S>>) where El: ColorElement<S, E>
        requires
            old(self).wf::<S, E>(),
            pick.tag <= old(self).elements@.len(),
        ensures
            final(self).wf::<S, E>(),
            final(self).prev_tag == pick.tag,
            final(self).elements@ == old(self).elements_after::<S, E>(pick.tag, old(state).press),
            pick.tag == 0 ==> *final(state) == (InputState {
                pos: old(state).saved_pos,
                ..*old(state)
            }),
            pick.tag > 0 ==> *final(state) == resolve_spec(
                old(self).elements@[pick.tag - 1],
                *old(state),
                pick.pos,
            ),
            commit == if pick.tag > 0 && old(state).press {
                Some(final(state).pos)
            } else {
                None
            },
    {
        let tag = pick.tag;
        let press = state.press;
        if tag > 0 {
            let place = (tag - 1) as usize;
            let found = self.elements[place].invert_space(pick.pos);
            if let Some(pos) = found {
                state.pos = pos;
            }
            state.color = state.color_embedding.embedding.embed(state.pos);
            self.elements[place].update_state(state);
        } else {
            state.pos = state.saved_pos;
        }
        let change = hover_change(self.prev_tag, tag);
        if let Some(left) = change.exited {
            self.elements[(left - 1) as usize].exited();
        }
        if let Some(reached) = change.entered {
            self.elements[(reached - 1) as usize].entered();
        }
        self.prev_tag = tag;
        if tag > 0 && press {
            state.saved_pos = state.pos;
            self.elements[(tag - 1) as usize].clicked();
            Some(state.pos)
        } else {
            None
        }
    }
}

/// The elements of the standard scene in the order of their tags: the colour
/// volume, the sliders of the three axes, the palette, the switcher of the
/// colour embedding and the switcher of the space embedding.
pub open spec fn standard_elements<S, E: ?Sized>(
    origin: Coord<S>,
    chips: usize,
    colors: Vec<SharedEmbedding<E>>,
    spaces: Vec<SharedEmbedding<E>>,
) -> Seq<SceneElement<S, E>> {
    seq![
        SceneElement::Space(ColorSpace { key: None, previous: None }),
        SceneElement::Axis(
            ColorAxis {
                axis: Axis::X,
                pos: origin,
                color: origin,
                space: origin,
                hover: false,
                representation: AxisRepresentation::Cylindrical,
            },
        ),
        SceneElement::Axis(
            ColorAxis {
                axis: Axis::Y,
                pos: origin,
                color: origin,
                space: origin,
                hover: false,
                representation: AxisRepresentation::Cylindrical,
            },
        ),
        SceneElement::Axis(
            ColorAxis {
                axis: Axis::Z,
                pos: origin,
                color: origin,
                space: origin,
                hover: false,
                representation: AxisRepresentation::Cylindrical,
            },
        ),
        SceneElement::Chips(ColorChips { origin, count: chips, hover: false }),
        SceneElement::Switcher(EmbedSwitcher { embeddings: colors, index: 0, color: true }),
        SceneElement::Switcher(EmbedSwitcher { embeddings: spaces, index: 0, color: false }),
    ]
}

impl<S: Copy, E: Embedding<Coord<S>> + ?Sized> ColorScene<SceneElement<S, E>> {
    /// The standard scene, with nothing under the cursor yet: see
    /// [`standard_elements`]. `colors` and `spaces` are what the two
    /// switchers step through; each starts at the first of its list.
    pub fn standard(
        origin: Coord<S>,
        chips: usize,
        colors: Vec<SharedEmbedding<E>>,
        spaces: Vec<SharedEmbedding<E>>,
    ) -> (r: Self)
        requires
            colors@.len() > 0,
            spaces@.len() > 0,
        ensures
            r.wf::<S, E>(),
            r.prev_tag == 0,
            r.elements@ == standard_elements(origin, chips, colors, spaces),
    {
        let mut elements: Vec<SceneElement<S, E>> = Vec::new();
        elements.push(SceneElement::Space(ColorSpace::new()));
        elements.push(SceneElement::Axis(ColorAxis::new(Axis::X, origin)));
        elements.push(SceneElement::Axis(ColorAxis::new(Axis::Y, origin)));
        elements.push(SceneElement::Axis(ColorAxis::new(Axis::Z, origin)));
        elements.push(SceneElement::Chips(ColorChips::new(chips, origin)));
        elements.push(SceneElement::Switcher(EmbedSwitcher::new(colors, true)));
        elements.push(SceneElement::Switcher(EmbedSwitcher::new(spaces, false)));
        assert(elements@ =~= standard_elements(origin, chips, colors, spaces));
        ColorScene { elements, prev_tag: 0 }
    }
}

/// The tag that was under the cursor in the frame before frame `i` of
/// `tags`, where it was `prev` before the first.
pub open spec fn tag_before(prev: u8, tags: Seq<u8>, i: int) -> u8 {
    if i <= 0 {
        prev
    } else {
        tags[i - 1]
    }
}

/// The hover calls of a run of frames, frame by frame, as the engine makes
/// them: it starts with `prev` as the tag of the frame before, and after each
/// frame keeps that frame's tag.
pub open spec fn hover_trace(prev: u8, tags: Seq<u8>) -> Seq<HoverChange>
    decreases tags.len(),
{
    if tags.len() == 0 {
        Seq::empty()
    } else {
        seq![hover_change_spec(prev, tags.first())] + hover_trace(tags.first(), tags.drop_first())
    }
}

/// The calls of frame `k` depend on the tag of that frame and of the one
/// before it, and on nothing else.
pub proof fn lemma_hover_trace_at(prev: u8, tags: Seq<u8>, k: int)
    requires
        0 <= k < tags.len(),
    ensures
        hover_trace(prev, tags).len() == tags.len(),
        hover_trace(prev, tags)[k] == hover_change_spec(tag_before(prev, tags, k), tags[k]),
    decreases tags.len(),
{
    lemma_hover_trace_len(prev, tags);
    if k > 0 {
        let rest = tags.drop_first();
        lemma_hover_trace_at(tags.first(), rest, k - 1);
        assert(rest[k - 1] == tags[k]);
        assert(tag_before(tags.first(), rest, k - 1) == tag_before(prev, tags, k));
    }
}

/// One frame, one entry.
pub proof fn lemma_hover_trace_len(prev: u8, tags: Seq<u8>)
    ensures
        hover_trace(prev, tags).len() == tags.len(),
    decreases tags.len(),
{
    if tags.len() > 0 {
        lemma_hover_trace_len(tags.first(), tags.drop_first());
    }
}

/// The life of a hover. Let the frames `i` up to, not including, `j` be a
/// whole run under the tag `t` of an element: the frame before `i` had
/// another tag, and so has frame `j` if there is one. Then `entered` is
/// called for `t` in frame `i` and in no other frame up to `j`, no hover call
/// at all is made in the frames between, and `exited` is called for `t` in
/// frame `j` and in no frame of the run.
pub proof fn hover_lifecycle(prev: u8, tags: Seq<u8>, t: u8, i: int, j: int)
    requires
        t > 0,
        0 <= i < j <= tags.len(),
        tag_before(prev, tags, i) != t,
        forall|k: int| i <= k < j ==> tags[k] == t,
        j < tags.len() ==> tags[j] != t,
    ensures
        hover_trace(prev, tags).len() == tags.len(),
        hover_trace(prev, tags)[i].entered == Some(t),
        forall|k: int|
            i < k < j ==> #[trigger] hover_trace(prev, tags)[k] == (HoverChange {
                exited: None,
                entered: None,
            }),
        forall|k: int| i <= k < j ==> (#[trigger] hover_trace(prev, tags)[k]).exited != Some(t),
        j < tags.len() ==> hover_trace(prev, tags)[j].exited == Some(t),
        j < tags.len() ==> hover_trace(prev, tags)[j].entered != Some(t),
{
    lemma_hover_trace_len(prev, tags);
    lemma_hover_trace_at(prev, tags, i);
    assert forall|k: int| i < k < j implies #[trigger] hover_trace(prev, tags)[k] == (HoverChange {
        exited: None,
        entered: None,
    }) by {
        lemma_hover_trace_at(prev, tags, k);
    }
    if j < tags.len() {
        lemma_hover_trace_at(prev, tags, j);
    }
}

/// A frame tells two elements at most anything: the one the cursor has left
/// and the one it is on. Every other element is after the frame what it was
/// before.
pub proof fn frame_leaves_other_elements<S, E: ?Sized, El: ColorElement<S, E>>(
    scene: ColorScene<El>,
    tag: u8,
    press: bool,
    i: int,
)
    requires
        scene.prev_tag <= scene.elements@.len(),
        tag <= scene.elements@.len(),
        0 <= i < scene.elements@.len(),
        i != tag - 1,
        i != scene.prev_tag - 1,
    ensures
        scene.elements_after::<S, E>(tag, press).len() == scene.elements@.len(),
        scene.elements_after::<S, E>(tag, press)[i] == scene.elements@[i],
{
}

/// While the tag under the cursor stays, a frame makes no hover call: the
/// elements stay as they are, but for the element under the cursor where the
/// button went down on it, which is told of the click and of nothing else.
pub proof fn stable_tag_makes_no_hover_call<S, E: ?Sized, El: ColorElement<S, E>>(
    scene: ColorScene<El>,
    press: bool,
)
    requires
        scene.prev_tag <= scene.elements@.len(),
    ensures
        hover_change_spec(scene.prev_tag, scene.prev_tag) == (HoverChange {
            exited: None,
            entered: None,
        }),
        !press || scene.prev_tag == 0 ==> scene.elements_after::<S, E>(scene.prev_tag, press)
            == scene.elements@,
        press && scene.prev_tag > 0 ==> scene.elements_after::<S, E>(scene.prev_tag, press)
            == scene.elements@.update(
            scene.prev_tag - 1,
            scene.elements@[scene.prev_tag - 1].clicked_spec(),
        ),
{
}

/// Where the tag under the cursor changes, the element left is told that it
/// was left and the element reached that it was reached, each once and in
/// this order, and the element reached is then told of the click if the
/// button went down.
pub proof fn changed_tag_makes_both_hover_calls<S, E: ?Sized, El: ColorElement<S, E>>(
    scene: ColorScene<El>,
    tag: u8,
    press: bool,
)
    requires
        0 < scene.prev_tag <= scene.elements@.len(),
        0 < tag <= scene.elements@.len(),
        tag != scene.prev_tag,
    ensures
        scene.elements_after::<S, E>(tag, press)[scene.prev_tag - 1]
            == scene.elements@[scene.prev_tag - 1].exited_spec(),
        !press ==> scene.elements_after::<S, E>(tag, press)[tag - 1]
            == scene.elements@[tag - 1].entered_spec(),
        press ==> scene.elements_after::<S, E>(tag, press)[tag - 1]
            == scene.elements@[tag - 1].entered_spec().clicked_spec(),
{
}

/// A hit on a slider whose anchor is in step with the state moves the
/// coordinate along the slider's own axis and nowhere else: the owned
/// component is taken from the hit, the other two stay. The colour is the
/// image of the coordinate reached, and the chunk takes the owned component
/// in its own slot.
pub proof fn slider_hit_moves_one_component<S: Copy, E: Embedding<Coord<S>> + ?Sized>(
    slider: ColorAxis<S>,
    state: InputState<S, E>,
    hit: Coord<S>,
    other: Axis,
)
    requires
        slider.pos == state.pos,
        other != slider.axis,
    ensures
        resolve_spec(slider, state, hit).pos == state.pos.spec_with(
            slider.axis,
            hit.spec_get(slider.axis),
        ),
        resolve_spec(slider, state, hit).pos.spec_get(slider.axis) == hit.spec_get(slider.axis),
        resolve_spec(slider, state, hit).pos.spec_get(other) == state.pos.spec_get(other),
        resolve_spec(slider, state, hit).color == state.color_embedding.embedding.embed_spec(
            resolve_spec(slider, state, hit).pos,
        ),
        resolve_spec(slider, state, hit).chunk == state.chunk.spec_with(
            slider.axis,
            hit.spec_get(slider.axis),
        ),
{
}

/// An idle slider that has just been updated from the state has its anchor
/// in step with it, so a hit on it changes the owned component of the
/// state's coordinate and no other.
pub proof fn idle_slider_hit_moves_one_component<S: Copy, E: Embedding<Coord<S>> + ?Sized>(
    slider: ColorAxis<S>,
    state: InputState<S, E>,
    hit: Coord<S>,
)
    requires
        !slider.hover,
    ensures
        resolve_spec(slider.update_spec(state), state, hit).pos == state.pos.spec_with(
            slider.axis,
            hit.spec_get(slider.axis),
        ),
        resolve_spec(slider.update_spec(state), state, hit).color
            == state.color_embedding.embedding.embed_spec(
            state.pos.spec_with(slider.axis, hit.spec_get(slider.axis)),
        ),
{
}

/// A hit on the colour volume is the coordinate: the state moves to the hit
/// itself, its colour is the image of the hit, and its chunk stays.
pub proof fn volume_hit_is_coordinate<S: Copy, E: Embedding<Coord<S>> + ?Sized>(
    volume: ColorSpace<S>,
    state: InputState<S, E>,
    hit: Coord<S>,
)
    ensures
        resolve_spec(volume, state, hit).pos == hit,
        resolve_spec(volume, state, hit).color == state.color_embedding.embedding.embed_spec(hit),
        resolve_spec(volume, state, hit).chunk == state.chunk,
{
}

/// A hit on a chip or on a switcher leaves the coordinate where it is; the
/// switcher puts its selected embedding into the slot it switches and leaves
/// the other slot alone.
pub proof fn fixed_elements_keep_coordinate<S: Copy, E: Embedding<Coord<S>> + ?Sized>(
    chips: ColorChips<S>,
    switcher: EmbedSwitcher<E>,
    state: InputState<S, E>,
    hit: Coord<S>,
)
    ensures
        resolve_spec(chips, state, hit).pos == state.pos,
        resolve_spec(switcher, state, hit).pos == state.pos,
        switcher.color ==> resolve_spec(switcher, state, hit).color_embedding.id
            == switcher.selected().id && resolve_spec(switcher, state, hit).space_embedding
            == state.space_embedding,
        !switcher.color ==> resolve_spec(switcher, state, hit).space_embedding.id
            == switcher.selected().id && resolve_spec(switcher, state, hit).color_embedding
            == state.color_embedding,
{
}

} // verus!
