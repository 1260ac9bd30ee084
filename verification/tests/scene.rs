use colorview::coord::{Axis, Coord};
use colorview::element::coloraxis::ColorAxis;
use colorview::element::colorspace::ColorSpace;
use colorview::element::{ColorElement, ModelGraph, SceneElement, TaggedColorModel};
use colorview::embed::{
    AxisRepresentation, ChunkRepresentation, Embedding, IdentityEmbedding, SharedEmbedding,
    SwapAxesEmbedding,
};
use colorview::input::InputState;
use colorview::scene::{hover_change, ColorScene, HoverChange, Pick, Target};
use std::rc::Rc;

type Any = dyn Embedding<Coord<f32>>;

/// Turns a coordinate into a colour by mirroring every component in 1.
struct Mirror;

impl Embedding<Coord<f32>> for Mirror {
    fn embed_spec(&self, pos: Coord<f32>) -> Coord<f32> {
        self.embed(pos)
    }

    fn invert_spec(&self, pos: Coord<f32>) -> Coord<f32> {
        self.invert(pos)
    }

    fn axis(&self) -> AxisRepresentation {
        self.axis_representation()
    }

    fn chunk(&self) -> ChunkRepresentation {
        self.chunk_representation()
    }

    fn embed(&self, pos: Coord<f32>) -> Coord<f32> {
        Coord::new(1.0 - pos.x, 1.0 - pos.y, 1.0 - pos.z)
    }

    fn invert(&self, pos: Coord<f32>) -> Coord<f32> {
        Coord::new(1.0 - pos.x, 1.0 - pos.y, 1.0 - pos.z)
    }

    fn axis_representation(&self) -> AxisRepresentation {
        AxisRepresentation::Linear
    }

    fn chunk_representation(&self) -> ChunkRepresentation {
        ChunkRepresentation::Scale
    }
}

/// Counts what it is told, answers every hit with the hit, and records in
/// the state's `input` flag that it was asked to adjust the state.
#[derive(Debug, Clone, Copy, PartialEq, Default)]
struct Probe {
    updated: u32,
    entered: u32,
    exited: u32,
    clicked: u32,
}

impl ColorElement<f32, Any> for Probe {
    fn wf(&self) -> bool {
        true
    }

    fn update_spec(self, state: InputState<f32, Any>) -> Self {
        let mut next = self;
        next.update(&state);
        next
    }

    fn entered_spec(self) -> Self {
        let mut next = self;
        next.entered();
        next
    }

    fn exited_spec(self) -> Self {
        let mut next = self;
        next.exited();
        next
    }

    fn clicked_spec(self) -> Self {
        let mut next = self;
        next.clicked();
        next
    }

    fn update_state_spec(&self, state: InputState<f32, Any>) -> InputState<f32, Any> {
        let mut next = state;
        self.update_state(&mut next);
        next
    }

    fn invert_space_spec(&self, pos: Coord<f32>) -> Option<Coord<f32>> {
        self.invert_space(pos)
    }

    fn update(&mut self, _state: &InputState<f32, Any>) {
        self.updated += 1;
    }

    fn entered(&mut self) {
        self.entered += 1;
    }

    fn exited(&mut self) {
        self.exited += 1;
    }

    fn clicked(&mut self) {
        self.clicked += 1;
    }

    fn update_state(&self, state: &mut InputState<f32, Any>) {
        state.input = true;
    }

    fn invert_space(&self, pos: Coord<f32>) -> Option<Coord<f32>> {
        Some(pos)
    }
}

/// Answers a hit with its counters, so that the answer shows what the
/// element had been told when it was asked.
#[derive(Debug, Clone, Copy, PartialEq, Default)]
struct Witness {
    entered: u32,
    clicked: u32,
}

impl ColorElement<f32, Any> for Witness {
    fn wf(&self) -> bool {
        true
    }

    fn update_spec(self, _state: InputState<f32, Any>) -> Self {
        self
    }

    fn entered_spec(self) -> Self {
        Witness { entered: self.entered + 1, ..self }
    }

    fn exited_spec(self) -> Self {
        self
    }

    fn clicked_spec(self) -> Self {
        Witness { clicked: self.clicked + 1, ..self }
    }

    fn update_state_spec(&self, state: InputState<f32, Any>) -> InputState<f32, Any> {
        state
    }

    fn invert_space_spec(&self, pos: Coord<f32>) -> Option<Coord<f32>> {
        self.invert_space(pos)
    }

    fn update(&mut self, _state: &InputState<f32, Any>) {}

    fn entered(&mut self) {
        self.entered += 1;
    }

    fn exited(&mut self) {}

    fn clicked(&mut self) {
        self.clicked += 1;
    }

    fn update_state(&self, _state: &mut InputState<f32, Any>) {}

    fn invert_space(&self, _pos: Coord<f32>) -> Option<Coord<f32>> {
        Some(Coord::new(self.entered as f32, self.clicked as f32, 0.0))
    }
}

fn any(id: u64, e: Rc<Any>) -> SharedEmbedding<Any> {
    SharedEmbedding::new(id, e)
}

fn unit() -> Coord<f32> {
    Coord::new(1.0, 1.0, 1.0)
}

fn origin() -> Coord<f32> {
    Coord::new(0.0, 0.0, 0.0)
}

fn start() -> InputState<f32, Any> {
    InputState::new(
        unit(),
        unit(),
        origin(),
        (0.0, 0.0),
        any(1, Rc::new(Mirror)),
        any(2, Rc::new(IdentityEmbedding {})),
    )
}

fn standard_scene() -> ColorScene<SceneElement<f32, Any>> {
    ColorScene::standard(
        origin(),
        6,
        vec![
            any(1, Rc::new(Mirror)),
            any(3, Rc::new(IdentityEmbedding {})),
        ],
        vec![
            any(2, Rc::new(IdentityEmbedding {})),
            any(4, Rc::new(SwapAxesEmbedding::new(Axis::X, Axis::Y))),
        ],
    )
}

fn probes(count: usize) -> ColorScene<Probe> {
    ColorScene::new(vec![Probe::default(); count])
}

fn at(tag: u8) -> Pick<f32> {
    Pick { tag, pos: Coord::new(0.5, 0.5, 0.5) }
}

#[test]
fn hover_change_while_tag_stays_is_empty() {
    for tag in [0u8, 1, 2, 255] {
        assert_eq!(
            hover_change(tag, tag),
            HoverChange { exited: None, entered: None }
        );
    }
}

#[test]
fn hover_change_names_the_element_left_and_the_element_reached() {
    assert_eq!(
        hover_change(0, 3),
        HoverChange { exited: None, entered: Some(3) }
    );
    assert_eq!(
        hover_change(3, 0),
        HoverChange { exited: Some(3), entered: None }
    );
    assert_eq!(
        hover_change(2, 5),
        HoverChange { exited: Some(2), entered: Some(5) }
    );
}

#[test]
fn scene_new_starts_with_nothing_hovered() {
    let scene = probes(3);
    assert_eq!(scene.prev_tag, 0);
    assert_eq!(scene.elements.len(), 3);
}

#[test]
fn scene_has_tag_up_to_number_of_elements() {
    let scene = probes(3);
    assert!(scene.has_tag(0));
    assert!(scene.has_tag(1));
    assert!(scene.has_tag(3));
    assert!(!scene.has_tag(4));
    assert!(!scene.has_tag(255));
}

#[test]
fn standard_scene_has_seven_elements_in_tag_order() {
    let scene = standard_scene();
    assert_eq!(scene.prev_tag, 0);
    assert_eq!(scene.elements.len(), 7);
    assert!(matches!(scene.elements[0], SceneElement::Space(_)));
    match &scene.elements[1] {
        SceneElement::Axis(slider) => assert_eq!(slider.axis, Axis::X),
        _ => unreachable!(),
    }
    match &scene.elements[2] {
        SceneElement::Axis(slider) => assert_eq!(slider.axis, Axis::Y),
        _ => unreachable!(),
    }
    match &scene.elements[3] {
        SceneElement::Axis(slider) => assert_eq!(slider.axis, Axis::Z),
        _ => unreachable!(),
    }
    match &scene.elements[4] {
        SceneElement::Chips(chips) => assert_eq!(chips.count, 6),
        _ => unreachable!(),
    }
    match &scene.elements[5] {
        SceneElement::Switcher(switcher) => {
            assert!(switcher.color);
            assert_eq!(switcher.index, 0);
            assert_eq!(switcher.embeddings[0].id, 1);
        }
        _ => unreachable!(),
    }
    match &scene.elements[6] {
        SceneElement::Switcher(switcher) => {
            assert!(!switcher.color);
            assert_eq!(switcher.embeddings[1].id, 4);
        }
        _ => unreachable!(),
    }
}

#[test]
fn scene_update_reaches_every_element_once() {
    let mut scene = probes(4);
    let state = start();
    scene.update(&state);
    for probe in &scene.elements {
        assert_eq!(probe.updated, 1);
    }
    scene.update(&state);
    for probe in &scene.elements {
        assert_eq!(probe.updated, 2);
        assert_eq!(probe.entered, 0);
    }
    assert_eq!(scene.prev_tag, 0);
}

#[test]
fn pick_resolves_to_the_owner_of_the_tag() {
    let mut scene = probes(3);
    let mut state = start();
    let hit = Coord::new(0.25, 0.5, 0.75);
    let commit = scene.dispatch(&mut state, Pick { tag: 2, pos: hit });
    assert_eq!(commit, None);
    assert_eq!(state.pos, hit);
    assert_eq!(state.color, Coord::new(0.75, 0.5, 0.25));
    // only the element with tag 2 was told anything
    assert_eq!(scene.elements[0], Probe::default());
    assert_eq!(scene.elements[2], Probe::default());
    assert_eq!(scene.elements[1].entered, 1);
    // and it was the one asked to adjust the state
    assert!(state.input);
    assert_eq!(scene.prev_tag, 2);
}

#[test]
fn pick_on_single_volume_sets_coordinate_to_hit() {
    let mut scene: ColorScene<ColorSpace<f32>> = ColorScene::new(vec![ColorSpace::new()]);
    let mut state = start();
    scene.update(&state);
    let hit = Coord::new(0.125, 0.25, 0.375);
    scene.dispatch(&mut state, Pick { tag: 1, pos: hit });
    let expected: Option<Coord<f32>> =
        ColorElement::<f32, Any>::invert_space(&scene.elements[0], hit);
    assert_eq!(Some(state.pos), expected);
    assert_eq!(state.pos, hit);
}

#[test]
fn no_hit_falls_back_to_committed_coordinate() {
    let mut scene = probes(2);
    let mut state = start();
    state.saved_pos = Coord::new(0.2, 0.4, 0.6);
    state.pos = Coord::new(0.9, 0.9, 0.9);
    state.color = Coord::new(0.3, 0.3, 0.3);
    let commit = scene.dispatch(&mut state, Pick { tag: 0, pos: Coord::new(0.0, 0.0, 0.0) });
    assert_eq!(commit, None);
    assert_eq!(state.pos, Coord::new(0.2, 0.4, 0.6));
    assert_eq!(state.saved_pos, Coord::new(0.2, 0.4, 0.6));
    assert_eq!(state.color, Coord::new(0.3, 0.3, 0.3));
    assert_eq!(state.chunk, unit());
    assert!(!state.input);
    assert_eq!(scene.elements[0], Probe::default());
    assert_eq!(scene.elements[1], Probe::default());
}

#[test]
fn no_hit_with_button_down_commits_nothing() {
    let mut scene = probes(1);
    let mut state = start();
    state.press = true;
    state.saved_pos = Coord::new(0.2, 0.4, 0.6);
    let commit = scene.dispatch(&mut state, at(0));
    assert_eq!(commit, None);
    assert_eq!(state.saved_pos, Coord::new(0.2, 0.4, 0.6));
    assert_eq!(scene.elements[0].clicked, 0);
}

#[test]
fn hover_calls_fire_once_per_boundary() {
    let mut scene = probes(2);
    let mut state = start();
    // tag 1 for three frames
    for _ in 0..3 {
        scene.dispatch(&mut state, at(1));
    }
    assert_eq!(scene.elements[0].entered, 1);
    assert_eq!(scene.elements[0].exited, 0);
    assert_eq!(scene.elements[1].entered, 0);
    // on to tag 2 for two frames
    for _ in 0..2 {
        scene.dispatch(&mut state, at(2));
    }
    assert_eq!(scene.elements[0].entered, 1);
    assert_eq!(scene.elements[0].exited, 1);
    assert_eq!(scene.elements[1].entered, 1);
    assert_eq!(scene.elements[1].exited, 0);
    // off everything for two frames
    for _ in 0..2 {
        scene.dispatch(&mut state, at(0));
    }
    assert_eq!(scene.elements[1].exited, 1);
    assert_eq!(scene.elements[1].entered, 1);
    // and back onto tag 1
    scene.dispatch(&mut state, at(1));
    assert_eq!(scene.elements[0].entered, 2);
    assert_eq!(scene.elements[0].exited, 1);
    assert_eq!(scene.elements[1].entered, 1);
    assert_eq!(scene.elements[1].exited, 1);
    assert_eq!(scene.prev_tag, 1);
}

#[test]
fn click_commits_and_is_told_to_the_element() {
    let mut scene = probes(2);
    let mut state = start();
    state.press = true;
    let hit = Coord::new(0.25, 0.5, 0.75);
    let commit = scene.dispatch(&mut state, Pick { tag: 1, pos: hit });
    assert_eq!(commit, Some(hit));
    assert_eq!(state.saved_pos, hit);
    assert_eq!(state.pos, hit);
    assert_eq!(scene.elements[0].clicked, 1);
    assert_eq!(scene.elements[1].clicked, 0);
}

#[test]
fn hover_without_click_commits_nothing() {
    let mut scene = probes(1);
    let mut state = start();
    let commit = scene.dispatch(&mut state, Pick { tag: 1, pos: Coord::new(0.25, 0.5, 0.75) });
    assert_eq!(commit, None);
    assert_eq!(state.saved_pos, unit());
    assert_eq!(scene.elements[0].clicked, 0);
}

#[test]
fn hit_on_y_slider_changes_only_y() {
    let mut scene = standard_scene();
    let mut state = start();
    assert_eq!(state.pos, unit());
    scene.update(&state);
    // tag 3 is the slider of the y axis
    let commit = scene.dispatch(&mut state, Pick { tag: 3, pos: Coord::new(0.9, 0.3, 0.0) });
    assert_eq!(commit, None);
    assert_eq!(state.pos, Coord::new(1.0, 0.3, 1.0));
    assert_eq!(
        state.color,
        state.color_embedding.embedding.embed(Coord::new(1.0, 0.3, 1.0))
    );
    assert_eq!(state.color, Coord::new(0.0, 0.7, 0.0));
    assert_eq!(state.chunk, Coord::new(1.0, 0.3, 1.0));
    assert_eq!(state.saved_pos, unit());
}

#[test]
fn drag_along_slider_keeps_the_other_components_of_the_anchor() {
    let mut scene = standard_scene();
    let mut state = start();
    state.pos = Coord::new(0.2, 0.4, 0.6);
    scene.update(&state);
    // onto the x slider (tag 2) and along it for three frames
    for x in [0.1f32, 0.5, 0.9] {
        scene.dispatch(&mut state, Pick { tag: 2, pos: Coord::new(x, 0.0, 0.0) });
        assert_eq!(state.pos, Coord::new(x, 0.4, 0.6));
        scene.update(&state);
    }
    match &scene.elements[1] {
        SceneElement::Axis(slider) => {
            assert!(slider.hover);
            assert_eq!(slider.pos, Coord::new(0.2, 0.4, 0.6));
        }
        _ => unreachable!(),
    }
    // off the slider: the coordinate falls back, the anchor follows again
    scene.dispatch(&mut state, at(0));
    assert_eq!(state.pos, unit());
    scene.update(&state);
    match &scene.elements[1] {
        SceneElement::Axis(slider) => {
            assert!(!slider.hover);
            assert_eq!(slider.pos, unit());
        }
        _ => unreachable!(),
    }
}

#[test]
fn click_on_switcher_selects_next_embedding_for_the_frames_after() {
    let mut scene = standard_scene();
    let mut state = start();
    scene.update(&state);
    // hover the colour switcher (tag 6): the active embedding is its first
    scene.dispatch(&mut state, at(6));
    assert_eq!(state.color_embedding.id, 1);
    assert_eq!(state.pos, unit());
    // click it: the hit is resolved with the selection as it was, then the
    // selection moves on
    state.press = true;
    let commit = scene.dispatch(&mut state, at(6));
    assert_eq!(commit, Some(unit()));
    assert_eq!(state.color_embedding.id, 1);
    match &scene.elements[5] {
        SceneElement::Switcher(switcher) => assert_eq!(switcher.index, 1),
        _ => unreachable!(),
    }
    // the next frame on the switcher installs the new selection
    state.press = false;
    scene.dispatch(&mut state, at(6));
    assert_eq!(state.color_embedding.id, 3);
    assert_eq!(state.space_embedding.id, 2);
    // a second click wraps around to the first
    state.press = true;
    scene.dispatch(&mut state, at(6));
    state.press = false;
    scene.dispatch(&mut state, at(6));
    assert_eq!(state.color_embedding.id, 1);
    // the space switcher (tag 7) changes the other slot
    state.press = true;
    scene.dispatch(&mut state, at(7));
    state.press = false;
    scene.dispatch(&mut state, at(7));
    assert_eq!(state.space_embedding.id, 4);
    assert_eq!(state.color_embedding.id, 1);
}

#[test]
fn hit_is_resolved_before_the_element_hears_of_hover_or_click() {
    let mut scene = ColorScene::new(vec![Witness::default()]);
    let mut state = start();
    state.press = true;
    let commit = scene.dispatch(&mut state, at(1));
    assert_eq!(state.pos, Coord::new(0.0, 0.0, 0.0));
    assert_eq!(commit, Some(Coord::new(0.0, 0.0, 0.0)));
    assert_eq!(scene.elements[0], Witness { entered: 1, clicked: 1 });
    let commit = scene.dispatch(&mut state, at(1));
    assert_eq!(commit, Some(Coord::new(1.0, 1.0, 0.0)));
    assert_eq!(scene.elements[0], Witness { entered: 1, clicked: 2 });
}

#[test]
fn slider_scene_of_one_kind_works_without_the_enum() {
    let mut scene: ColorScene<ColorAxis<f32>> = ColorScene::new(vec![
        ColorAxis::new(Axis::X, origin()),
        ColorAxis::new(Axis::Y, origin()),
        ColorAxis::new(Axis::Z, origin()),
    ]);
    let mut state = start();
    scene.update(&state);
    scene.dispatch(&mut state, Pick { tag: 3, pos: Coord::new(0.1, 0.2, 0.3) });
    assert_eq!(state.pos, Coord::new(1.0, 1.0, 0.3));
    assert!(scene.elements[2].hover);
    assert!(!scene.elements[0].hover);
}

fn two_leaf_graph(color: u32, space: u32) -> ModelGraph<u32> {
    ModelGraph::Vec(vec![ModelGraph::Color(color), ModelGraph::Space(space)])
}

#[test]
fn render_graph_sends_leaves_to_their_targets() {
    let scene = probes(1);
    let mut target = Target { target: vec![], pos_target: vec![] };
    scene.render_graph(&mut target, &ModelGraph::Color(10u32), 4);
    assert_eq!(target.target, vec![10]);
    assert_eq!(target.pos_target, vec![]);
    scene.render_graph(&mut target, &ModelGraph::Space(11u32), 4);
    assert_eq!(target.target, vec![10]);
    assert_eq!(target.pos_target, vec![TaggedColorModel { model: 11, tag: 4 }]);
}

#[test]
fn render_graph_walks_nested_graphs_in_order() {
    let scene = probes(1);
    let graph = ModelGraph::Vec(vec![
        ModelGraph::Color(1u32),
        ModelGraph::Vec(vec![
            ModelGraph::Space(2),
            ModelGraph::Color(3),
            ModelGraph::Vec(vec![]),
            ModelGraph::Vec(vec![ModelGraph::Space(4)]),
        ]),
        ModelGraph::Color(5),
        ModelGraph::Space(6),
    ]);
    let mut target = Target { target: vec![0], pos_target: vec![] };
    scene.render_graph(&mut target, &graph, 9);
    assert_eq!(target.target, vec![0, 1, 3, 5]);
    assert_eq!(
        target.pos_target,
        vec![
            TaggedColorModel { model: 2, tag: 9 },
            TaggedColorModel { model: 4, tag: 9 },
            TaggedColorModel { model: 6, tag: 9 },
        ]
    );
}

#[test]
fn render_tags_each_element_with_its_place_plus_one() {
    let scene = probes(3);
    let graphs = vec![
        two_leaf_graph(10, 11),
        ModelGraph::Color(20),
        two_leaf_graph(30, 31),
    ];
    let target = scene.render(&graphs);
    assert_eq!(target.target, vec![10, 20, 30]);
    assert_eq!(
        target.pos_target,
        vec![
            TaggedColorModel { model: 11, tag: 1 },
            TaggedColorModel { model: 31, tag: 3 },
        ]
    );
}

#[test]
fn render_of_empty_scene_draws_nothing() {
    let scene = probes(0);
    let graphs: Vec<ModelGraph<u32>> = vec![];
    let target = scene.render(&graphs);
    assert_eq!(target, Target { target: vec![], pos_target: vec![] });
}
