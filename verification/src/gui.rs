//! The editor panel's state and how it answers UI messages. `F` is the type
//! of the frame-rate reading and slider values, carried as they are.

use vstd::prelude::*;

verus! {

/// Message type for the editor panel.
#[derive(Debug, Clone)]
pub enum EditorMessage<F> {
    /// User selected an entity in the hierarchy panel.
    EntitySelected(u64),
    /// Toggle the physics debug overlay.
    TogglePhysicsDebug,
    /// Toggle wireframe rendering.
    ToggleWireframe,
    /// Slider changed a value (field name, new value).
    FloatChanged(String, F),
    /// Play / Pause the simulation.
    PlayPause,
    /// Step one frame.
    Step,
}

/// State for the editor UI.
#[derive(Debug, Clone)]
pub struct EditorState<F> {
    pub selected_entity: Option<u64>,
    pub physics_debug: bool,
    pub wireframe: bool,
    pub playing: bool,
    pub fps: F,
    pub frame: u64,
    pub entity_count: usize,
}

impl<F: Default> Default for EditorState<F> {
    fn default() -> (s: Self)
        ensures
            s.selected_entity is None,
            !s.physics_debug,
            !s.wireframe,
            !s.playing,
            s.frame == 0,
            s.entity_count == 0,
    {
        EditorState {
            selected_entity: None,
            physics_debug: false,
            wireframe: false,
            playing: false,
            fps: F::default(),
            frame: 0,
            entity_count: 0,
        }
    }
}

/// The editor state after a message: a selection replaces the selected
/// entity, the toggles flip their flag, and the other messages change nothing.
pub open spec fn after_message<F>(s: EditorState<F>, msg: EditorMessage<F>) -> EditorState<F> {
    match msg {
        EditorMessage::EntitySelected(id) => EditorState { selected_entity: Some(id), ..s },
        EditorMessage::TogglePhysicsDebug => EditorState { physics_debug: !s.physics_debug, ..s },
        EditorMessage::ToggleWireframe => EditorState { wireframe: !s.wireframe, ..s },
        EditorMessage::PlayPause => EditorState { playing: !s.playing, ..s },
        _ => s,
    }
}

/// Holds the editor state shown over the engine window.
pub struct GuiManager<F> {
    state: EditorState<F>,
}

impl<F: Default> GuiManager<F> {
    /// A manager with the default editor state.
    pub fn new() -> (g: Self)
        ensures
            g.view().selected_entity is None,
            !g.view().physics_debug,
            !g.view().wireframe,
            !g.view().playing,
            g.view().frame == 0,
            g.view().entity_count == 0,
    {
        GuiManager { state: EditorState::default() }
    }
}

impl<F> GuiManager<F> {
    /// The editor state.
    pub closed spec fn view(&self) -> EditorState<F> {
        self.state
    }

    /// Update stats displayed in the HUD.
    pub fn set_stats(&mut self, fps: F, frame: u64, entities: usize)
        ensures
            final(self).view() == (EditorState {
                fps,
                frame,
                entity_count: entities,
                ..old(self).view()
            }),
    {
        self.state.fps = fps;
        self.state.frame = frame;
        self.state.entity_count = entities;
    }

    /// Process a message from the UI (see `after_message`); no follow-up
    /// messages are produced.
    pub fn process(&mut self, msg: EditorMessage<F>) -> (r: Vec<EditorMessage<F>>)
        ensures
            final(self).view() == after_message(old(self).view(), msg),
            r@.len() == 0,
    {
        match msg {
            EditorMessage::EntitySelected(id) => {
                self.state.selected_entity = Some(id);
            },
            EditorMessage::TogglePhysicsDebug => {
                self.state.physics_debug = !self.state.physics_debug;
            },
            EditorMessage::ToggleWireframe => {
                self.state.wireframe = !self.state.wireframe;
            },
            EditorMessage::PlayPause => {
                self.state.playing = !self.state.playing;
            },
            _ => {},
        }
        Vec::new()
    }

    /// The editor state.
    pub fn state(&self) -> (r: &EditorState<F>)
        ensures
            *r == self.view(),
    {
        &self.state
    }
}

/// A toggle message sent twice leaves the editor state as it was.
pub proof fn lemma_toggle_twice<F>(s: EditorState<F>, msg: EditorMessage<F>)
    requires
        msg is TogglePhysicsDebug || msg is ToggleWireframe || msg is PlayPause,
    ensures
        after_message(after_message(s, msg), msg) == s,
{
}

/// Selecting an entity overrides any earlier selection.
pub proof fn lemma_select_overrides<F>(s: EditorState<F>, a: u64, b: u64)
    ensures
        after_message(after_message(s, EditorMessage::EntitySelected(a)), EditorMessage::EntitySelected(b))
            == after_message(s, EditorMessage::EntitySelected(b)),
{
}

/// Each message changes only its own part of the editor state: a selection
/// sets the selected entity, each toggle flips its own flag and play/pause
/// flips `playing`; every other field keeps its value, and the remaining
/// messages change nothing.
pub proof fn lemma_message_changes_only_its_field<F>(s: EditorState<F>, msg: EditorMessage<F>)
    ensures
        after_message(s, msg).fps == s.fps,
        after_message(s, msg).frame == s.frame,
        after_message(s, msg).entity_count == s.entity_count,
        after_message(s, msg).selected_entity == match msg {
            EditorMessage::EntitySelected(id) => Some(id),
            _ => s.selected_entity,
        },
        after_message(s, msg).physics_debug == (if msg is TogglePhysicsDebug {
            !s.physics_debug
        } else {
            s.physics_debug
        }),
        after_message(s, msg).wireframe == (if msg is ToggleWireframe {
            !s.wireframe
        } else {
            s.wireframe
        }),
        after_message(s, msg).playing == (if msg is PlayPause {
            !s.playing
        } else {
            s.playing
        }),
{
}

/// The label of the play button: pause while playing, play otherwise.
pub fn play_button_label(playing: bool) -> (r: &'static str)
    ensures
        playing ==> r@ == "⏸ Pause"@,
        !playing ==> r@ == "▶ Play"@,
{
    if playing {
        "⏸ Pause"
    } else {
        "▶ Play"
    }
}

} // verus!
