//! The editor's plugins: one-shot commands (save, load, debug overlay), the
//! snackbar component, and the remote-sync collaborator's decision core.
//!
//! Each plugin's `startup` registers its keyboard shortcut and its toolbar or
//! ribbon control; `shortkey_pressed` maps a chord to the one-shot command it
//! is bound to. All I/O (storage, network, rendering) lives outside the
//! library: the plugins here only decide, and hand commands out as values.

use vstd::prelude::*;

use crate::ui::{
    action_view, button_view, chord_view, chords_equal, App, EditorError, Shortkey,
    ToolbarPosition,
};

verus! {

/// A modifier key of a shortcut chord.
#[derive(Clone, Copy, PartialEq, Eq, Structural, Debug)]
pub enum SpecialKey {
    Ctrl,
    Shift,
    Alt,
}

impl SpecialKey {
    /// The key name this modifier contributes to a chord.
    pub fn key_name(&self) -> (r: &'static str)
        ensures
            r@ == (match *self {
                SpecialKey::Ctrl => "Control"@,
                SpecialKey::Shift => "Shift"@,
                SpecialKey::Alt => "Alt"@,
            }),
    {
        match self {
            SpecialKey::Ctrl => "Control",
            SpecialKey::Shift => "Shift",
            SpecialKey::Alt => "Alt",
        }
    }
}

/// A one-shot command a shortcut resolves to; the shell around the editor
/// performs it.
#[derive(Clone, Copy, PartialEq, Eq, Structural, Debug)]
pub enum EditorCommand {
    LoadMap,
    SaveMap,
    ToggleDebug,
    ActivateMode(crate::editor::ModeKind),
}

/// Builds a two-key chord.
pub fn chord2(a: &str, b: &str) -> (r: Shortkey)
    ensures
        chord_view(r@) == seq![a@, b@],
{
    let mut c: Vec<String> = Vec::new();
    c.push(a.to_owned());
    c.push(b.to_owned());
    proof {
        assert(chord_view(c@) =~= seq![a@, b@]);
    }
    c
}

/// The one registration a plugin's startup makes on a toolbar: the shortcut
/// chord is bound (it was free), and the button hangs at the end of the
/// toolbar with the given id, which is appended first if absent. Nothing
/// else of the shell changes.
pub open spec fn registered_button_effect<Data>(
    app0: App<Data>,
    app1: App<Data>,
    chord: Seq<Seq<char>>,
    toolbar_id: Seq<char>,
    icon: Seq<char>,
    identifier: Seq<char>,
    title: Seq<char>,
) -> bool {
    &&& app1.data == app0.data
    &&& app1.ribbon_tabs@ == app0.ribbon_tabs@
    &&& app1.shortkeys@.len() == app0.shortkeys@.len() + 1
    &&& app1.shortkeys@.drop_last() == app0.shortkeys@
    &&& chord_view(app1.shortkeys@.last()@) == chord
    &&& app1.has_toolbar_spec(toolbar_id)
    &&& {
        let k = app1.toolbar_idx(toolbar_id);
        let t1 = app1.toolbars@[k];
        &&& t1.buttons@.len() >= 1
        &&& button_view(t1.buttons@.last()) == (icon, identifier, title)
        &&& if app0.has_toolbar_spec(toolbar_id) {
            app1.toolbars@.len() == app0.toolbars@.len() && k == app0.toolbar_idx(toolbar_id) && (
            forall|j: int|
                0 <= j < app0.toolbars@.len() && j != k ==> #[trigger] app1.toolbars@[j]
                    == app0.toolbars@[j]) && t1.id@ == app0.toolbars@[k].id@ && t1.position
                == app0.toolbars@[k].position && t1.buttons@.len() == app0.toolbars@[k].buttons@.len()
                + 1 && (forall|j: int|
                0 <= j < app0.toolbars@[k].buttons@.len() ==> #[trigger] t1.buttons@[j]
                    == app0.toolbars@[k].buttons@[j])
        } else {
            app1.toolbars@.len() == app0.toolbars@.len() + 1 && k == app0.toolbars@.len() && (
            forall|j: int|
                0 <= j < app0.toolbars@.len() ==> #[trigger] app1.toolbars@[j]
                    == app0.toolbars@[j]) && t1.buttons@.len() == 1
        }
    }
}

/// Registers a chord and a toolbar button, the shared shape of the plugin
/// startups.
fn register_shortcut_and_button<Data>(
    app: &mut App<Data>,
    chord: Shortkey,
    toolbar_id: &str,
    position: ToolbarPosition,
    icon: &str,
    identifier: &str,
    title: &str,
) -> (r: Result<(), EditorError>)
    requires
        old(app).wf(),
    ensures
        final(app).wf(),
        old(app).has_shortkey_spec(chord_view(chord@)) ==> r == Result::<(), EditorError>::Err(
            EditorError::ShortkeyInUse,
        ) && final(app).data == old(app).data && final(app).shortkeys@ == old(app).shortkeys@
            && final(app).toolbars@ == old(app).toolbars@ && final(app).ribbon_tabs@ == old(app).ribbon_tabs@,
        !old(app).has_shortkey_spec(chord_view(chord@)) ==> r == Result::<(), EditorError>::Ok(())
            && registered_button_effect(
            *old(app),
            *final(app),
            chord_view(chord@),
            toolbar_id@,
            icon@,
            identifier@,
            title@,
        ),
        final(app).has_shortkey_spec(chord_view(chord@)),
{
    let ghost a0 = *app;
    let ghost cv = chord_view(chord@);
    match app.add_shortkey(chord) {
        Err(e) => {
            return Err(e);
        },
        Ok(()) => {},
    }
    let ghost a1 = *app;
    let tb = app.get_or_add_toolbar(toolbar_id, position);
    let ghost a2 = *app;
    let bt = app.add_toggle_button(toolbar_id, icon, identifier, title.to_owned());
    proof {
        assert(a1.shortkeys@.drop_last() =~= a0.shortkeys@);
        // the toolbar created or found in `a2` keeps its index in the final app
        let k2 = a2.toolbar_idx(toolbar_id@);
        assert(0 <= k2 < a2.toolbars@.len() && a2.toolbars@[k2].id@ == toolbar_id@);
        assert(app.toolbars@[k2].id@ == toolbar_id@);
        app.lemma_toolbar_idx_is(k2, toolbar_id@);
        if a0.has_toolbar_spec(toolbar_id@) {
            let k0 = a0.toolbar_idx(toolbar_id@);
            assert(0 <= k0 < a0.toolbars@.len() && a0.toolbars@[k0].id@ == toolbar_id@);
            assert(a2.toolbars@[k0].id@ == toolbar_id@);
            a2.lemma_toolbar_idx_is(k0, toolbar_id@);
            assert(k2 == k0);
        } else {
            assert(a2.toolbars@[a0.toolbars@.len() as int].id@ == toolbar_id@);
            a2.lemma_toolbar_idx_is(a0.toolbars@.len() as int, toolbar_id@);
        }
        assert(app.shortkeys@ == a1.shortkeys@);
        assert(chord_view(app.shortkeys@[a0.shortkeys@.len() as int]@) == cv);
    }
    Ok(())
}

/// Shows transient messages; other plugins push snackbars here and the UI
/// layer drains them.
#[derive(Debug)]
pub struct ComponentsPlugin {
    pub elements: Vec<Snackbar>,
}

/// Where a snackbar pops up.
#[derive(Clone, Copy, PartialEq, Eq, Structural, Debug)]
pub enum SnackbarPosition {
    Bottom,
    Top,
}

impl Default for SnackbarPosition {
    /// Snackbars pop up at the bottom unless asked otherwise.
    fn default() -> (r: SnackbarPosition)
        ensures
            r == SnackbarPosition::Bottom,
    {
        SnackbarPosition::Bottom
    }
}

/// The action offered on a snackbar.
#[derive(Debug)]
pub struct SnackbarAction {
    pub label: String,
}

/// One transient message with a retry affordance.
#[derive(Debug)]
pub struct Snackbar {
    pub message: String,
    pub position: SnackbarPosition,
    pub action_label: String,
}

impl ComponentsPlugin {
    pub fn new() -> (r: ComponentsPlugin)
        ensures
            r.elements@.len() == 0,
    {
        ComponentsPlugin { elements: Vec::new() }
    }

    /// Queues a snackbar with the given text at the given position (bottom
    /// by default). As in the rest of the shell, the offered action is the
    /// fixed retry affordance; a caller-supplied action is ignored.
    pub fn show_snackbar(
        &mut self,
        text: &str,
        position: Option<SnackbarPosition>,
        action: Option<SnackbarAction>,
    )
        ensures
            final(self).elements@.len() == old(self).elements@.len() + 1,
            final(self).elements@.drop_last() == old(self).elements@,
            final(self).elements@.last().message@ == text@,
            final(self).elements@.last().position == (match position {
                Some(p) => p,
                None => SnackbarPosition::Bottom,
            }),
            final(self).elements@.last().action_label@ == "Retry"@,
    {
        let pos = match position {
            Some(p) => p,
            None => SnackbarPosition::Bottom,
        };
        let ghost pre = *self;
        self.elements.push(
            Snackbar {
                message: text.to_owned(),
                position: pos,
                action_label: "Retry".to_owned(),
            },
        );
        proof {
            assert(self.elements@.drop_last() =~= pre.elements@);
        }
    }

    /// The queued messages, for the UI layer to render.
    pub fn editor_elements(&self) -> (r: &Vec<Snackbar>)
        ensures
            r@ == self.elements@,
    {
        &self.elements
    }

    pub fn startup<Data>(&mut self, app: &mut App<Data>) -> (r: Result<(), EditorError>)
        ensures
            *final(self) == *old(self),
            *final(app) == *old(app),
            r is Ok,
    {
        Ok(())
    }

    pub fn shortkey_pressed(&mut self, key: &Shortkey)
        ensures
            *final(self) == *old(self),
    {
    }
}

impl Default for ComponentsPlugin {
    /// The component host with no queued messages.
    fn default() -> (r: ComponentsPlugin)
        ensures
            r.elements@.len() == 0,
    {
        ComponentsPlugin::new()
    }
}

/// Loads the saved map, replacing the in-memory graph; the storage access
/// itself happens in the surrounding shell.
#[derive(Clone, Copy, PartialEq, Eq, Structural, Debug)]
pub struct Load {}

impl Load {
    /// The chord bound to loading.
    pub open spec fn chord_spec() -> Seq<Seq<char>> {
        seq!["Control"@, "o"@]
    }

    pub fn new() -> (r: Load)
        ensures
            r == (Load {  }),
    {
        Load {  }
    }

    /// Binds Control+o and puts the load button on the primary actions
    /// toolbar.
    pub fn startup<Data>(&mut self, editor: &mut App<Data>) -> (r: Result<(), EditorError>)
        requires
            old(editor).wf(),
        ensures
            final(editor).wf(),
            *final(self) == *old(self),
            final(editor).has_shortkey_spec(Load::chord_spec()),
            old(editor).has_shortkey_spec(Load::chord_spec()) ==> r == Result::<
                (),
                EditorError,
            >::Err(EditorError::ShortkeyInUse) && final(editor).data == old(editor).data && final(editor).shortkeys@ == old(editor).shortkeys@ && final(editor).toolbars@ == old(editor).toolbars@ && final(editor).ribbon_tabs@ == old(editor).ribbon_tabs@,
            !old(editor).has_shortkey_spec(Load::chord_spec()) ==> r == Result::<
                (),
                EditorError,
            >::Ok(()) && registered_button_effect(
                *old(editor),
                *final(editor),
                Load::chord_spec(),
                "primary.actions"@,
                "open_in_browser"@,
                "load"@,
                "Load"@,
            ),
    {
        register_shortcut_and_button(
            editor,
            chord2("Control", "o"),
            "primary.actions",
            ToolbarPosition::Left,
            "open_in_browser",
            "load",
            "Load",
        )
    }

    /// Maps the load chord to the load command.
    pub fn shortkey_pressed(&self, key: &Shortkey) -> (r: Option<EditorCommand>)
        ensures
            r == (if chord_view(key@) == Load::chord_spec() {
                Some(EditorCommand::LoadMap)
            } else {
                Option::<EditorCommand>::None
            }),
    {
        if chords_equal(key, &chord2("Control", "o")) {
            Some(EditorCommand::LoadMap)
        } else {
            None
        }
    }
}

impl Default for Load {
    /// The load plugin has no state.
    fn default() -> (r: Load)
        ensures
            r == (Load {  }),
    {
        Load {  }
    }
}

/// Saves the map through the key-value storage collaborator; the storage
/// access itself happens in the surrounding shell.
#[derive(Clone, Copy, PartialEq, Eq, Structural, Debug)]
pub struct Save {}

impl Save {
    /// The chord bound to saving.
    pub open spec fn chord_spec() -> Seq<Seq<char>> {
        seq!["Control"@, "s"@]
    }

    pub fn new() -> (r: Save)
        ensures
            r == (Save {  }),
    {
        Save {  }
    }

    /// Binds Control+s and puts the save button on the primary actions
    /// toolbar.
    pub fn startup<Data>(&mut self, editor: &mut App<Data>) -> (r: Result<(), EditorError>)
        requires
            old(editor).wf(),
        ensures
            final(editor).wf(),
            *final(self) == *old(self),
            final(editor).has_shortkey_spec(Save::chord_spec()),
            old(editor).has_shortkey_spec(Save::chord_spec()) ==> r == Result::<
                (),
                EditorError,
            >::Err(EditorError::ShortkeyInUse) && final(editor).data == old(editor).data && final(editor).shortkeys@ == old(editor).shortkeys@ && final(editor).toolbars@ == old(editor).toolbars@ && final(editor).ribbon_tabs@ == old(editor).ribbon_tabs@,
            !old(editor).has_shortkey_spec(Save::chord_spec()) ==> r == Result::<
                (),
                EditorError,
            >::Ok(()) && registered_button_effect(
                *old(editor),
                *final(editor),
                Save::chord_spec(),
                "primary.actions"@,
                "save"@,
                "save"@,
                "Save"@,
            ),
    {
        register_shortcut_and_button(
            editor,
            chord2("Control", "s"),
            "primary.actions",
            ToolbarPosition::Left,
            "save",
            "save",
            "Save",
        )
    }

    /// Maps the save chord to the save command.
    pub fn shortkey_pressed(&self, key: &Shortkey) -> (r: Option<EditorCommand>)
        ensures
            r == (if chord_view(key@) == Save::chord_spec() {
                Some(EditorCommand::SaveMap)
            } else {
                Option::<EditorCommand>::None
            }),
    {
        if chords_equal(key, &chord2("Control", "s")) {
            Some(EditorCommand::SaveMap)
        } else {
            None
        }
    }
}

impl Default for Save {
    /// The save plugin has no state.
    fn default() -> (r: Save)
        ensures
            r == (Save {  }),
    {
        Save {  }
    }
}

/// Shows or hides the debug overlay; the overlay itself is drawn by the
/// render layer.
#[derive(Clone, Copy, PartialEq, Eq, Structural, Debug)]
pub struct Debug {
    pub enabled: bool,
}

impl Debug {
    /// The chord bound to the debug toggle.
    pub open spec fn chord_spec() -> Seq<Seq<char>> {
        seq!["Control"@, "u"@]
    }

    pub fn new() -> (r: Debug)
        ensures
            r == (Debug { enabled: false }),
    {
        Debug { enabled: false }
    }

    /// Binds Control+u and puts the debug button on the primary actions
    /// toolbar.
    pub fn startup<Data>(&mut self, editor: &mut App<Data>) -> (r: Result<(), EditorError>)
        requires
            old(editor).wf(),
        ensures
            final(editor).wf(),
            *final(self) == *old(self),
            final(editor).has_shortkey_spec(Debug::chord_spec()),
            old(editor).has_shortkey_spec(Debug::chord_spec()) ==> r == Result::<
                (),
                EditorError,
            >::Err(EditorError::ShortkeyInUse) && final(editor).data == old(editor).data && final(editor).shortkeys@ == old(editor).shortkeys@ && final(editor).toolbars@ == old(editor).toolbars@ && final(editor).ribbon_tabs@ == old(editor).ribbon_tabs@,
            !old(editor).has_shortkey_spec(Debug::chord_spec()) ==> r == Result::<
                (),
                EditorError,
            >::Ok(()) && registered_button_effect(
                *old(editor),
                *final(editor),
                Debug::chord_spec(),
                "primary.actions"@,
                "info"@,
                "debug"@,
                "Show/Hide debug information"@,
            ),
    {
        register_shortcut_and_button(
            editor,
            chord2("Control", "u"),
            "primary.actions",
            ToolbarPosition::Left,
            "info",
            "debug",
            "Show/Hide debug information",
        )
    }

    /// Toggles the overlay when its chord is pressed.
    pub fn shortkey_pressed(&mut self, key: &Shortkey)
        ensures
            chord_view(key@) == Debug::chord_spec() ==> final(self).enabled == !old(self).enabled,
            chord_view(key@) != Debug::chord_spec() ==> *final(self) == *old(self),
    {
        if chords_equal(key, &chord2("Control", "u")) {
            self.enabled = !self.enabled;
        }
    }
}

impl Default for Debug {
    /// The overlay starts hidden.
    fn default() -> (r: Debug)
        ensures
            r == (Debug { enabled: false }),
    {
        Debug::new()
    }
}

/// Lifecycle of the remote-sync connection, as reported by the transport.
#[derive(Clone, Copy, PartialEq, Eq, Structural, Debug)]
pub enum ConnectionStatus {
    Disconnected,
    Connecting,
    Open,
    Closed,
    Failed,
}

/// One event from the transport's status channel.
#[derive(Clone, Copy, PartialEq, Eq, Structural, Debug)]
pub enum ConnectionEvent {
    Opened,
    Closed,
    Errored,
}

/// Streams the map to a remote peer. The core here holds the connection
/// state machine and the send gate; connecting, serializing and writing are
/// done by the surrounding shell, which reports lifecycle events back.
#[derive(Debug)]
pub struct Sync {
    pub url: String,
    pub port: String,
    pub status: ConnectionStatus,
}

impl Sync {
    pub fn new() -> (r: Sync)
        ensures
            r.url@ == Seq::<char>::empty(),
            r.port@ == Seq::<char>::empty(),
            r.status == ConnectionStatus::Disconnected,
    {
        Sync { url: String::new(), port: String::new(), status: ConnectionStatus::Disconnected }
    }

    /// Registers the cast control on the ribbon and greets through the
    /// snackbar.
    pub fn startup<Data>(
        &mut self,
        editor: &mut App<Data>,
        components: &mut ComponentsPlugin,
    ) -> (r: Result<(), EditorError>)
        requires
            old(editor).wf(),
        ensures
            final(editor).wf(),
            *final(self) == *old(self),
            r is Ok,
            final(editor).data == old(editor).data,
            final(editor).shortkeys@ == old(editor).shortkeys@,
            final(editor).toolbars@ == old(editor).toolbars@,
            final(editor).has_ribbon_tab_spec("default"@),
            ({
                let k = final(editor).ribbon_tab_idx("default"@);
                let t = final(editor).ribbon_tabs@[k];
                t.actions@.len() >= 1 && action_view(t.actions@.last()) == ("sync"@, "cast"@, "cast"@)
            }),
            final(components).elements@.len() == old(components).elements@.len() + 1,
            final(components).elements@.drop_last() == old(components).elements@,
            final(components).elements@.last().message@ == "Hello :)"@,
    {
        let tab = editor.get_or_add_tab("default", "Default");
        let ghost a1 = *editor;
        let act = editor.ribbon_add_action("default", "sync", "cast", "cast");
        proof {
            let k1 = a1.ribbon_tab_idx("default"@);
            assert(0 <= k1 < a1.ribbon_tabs@.len() && a1.ribbon_tabs@[k1].id@ == "default"@);
            assert(editor.ribbon_tabs@[k1].id@ == "default"@);
            editor.lemma_ribbon_tab_idx_is(k1, "default"@);
        }
        components.show_snackbar("Hello :)", None, None);
        Ok(())
    }

    /// Whether the connection is open.
    pub fn connected(&self) -> (r: bool)
        ensures
            r == (self.status == ConnectionStatus::Open),
    {
        match self.status {
            ConnectionStatus::Open => true,
            _ => false,
        }
    }

    /// Begins a connection attempt; the transport will report the outcome.
    pub fn start_connect(&mut self)
        ensures
            final(self).status == ConnectionStatus::Connecting,
            final(self).url == old(self).url,
            final(self).port == old(self).port,
    {
        self.status = ConnectionStatus::Connecting;
    }

    /// Applies one lifecycle event from the transport's status channel.
    pub fn apply_connection_event(&mut self, event: ConnectionEvent)
        ensures
            final(self).url == old(self).url,
            final(self).port == old(self).port,
            final(self).status == (match event {
                ConnectionEvent::Opened => ConnectionStatus::Open,
                ConnectionEvent::Closed => ConnectionStatus::Closed,
                ConnectionEvent::Errored => ConnectionStatus::Failed,
            }),
    {
        self.status = match event {
            ConnectionEvent::Opened => ConnectionStatus::Open,
            ConnectionEvent::Closed => ConnectionStatus::Closed,
            ConnectionEvent::Errored => ConnectionStatus::Failed,
        };
    }

    /// Stores an updated option value; unknown names change nothing.
    pub fn property_updated(&mut self, name: &str, value: String)
        ensures
            final(self).status == old(self).status,
            name@ == "url"@ ==> final(self).url == value && final(self).port == old(self).port,
            name@ == "port"@ ==> final(self).port == value && final(self).url == old(self).url,
            name@ != "url"@ && name@ != "port"@ ==> *final(self) == *old(self),
    {
        proof {
            reveal_strlit("url");
            reveal_strlit("port");
            assert("url"@ != "port"@) by {
                assert("url"@.len() == 3);
                assert("port"@.len() == 4);
            }
        }
        let n = name.to_owned();
        let url_key = "url".to_owned();
        let port_key = "port".to_owned();
        if n == url_key {
            self.url = value;
        } else if n == port_key {
            self.port = value;
        }
    }
}

impl Default for Sync {
    /// Disconnected, with no endpoint configured.
    fn default() -> (r: Sync)
        ensures
            r.url@ == Seq::<char>::empty(),
            r.port@ == Seq::<char>::empty(),
            r.status == ConnectionStatus::Disconnected,
    {
        Sync::new()
    }
}

impl crate::modes::CreateDistrict {
    /// The chord bound to activating district creation.
    pub open spec fn chord_spec() -> Seq<Seq<char>> {
        seq!["Control"@, "d"@]
    }

    /// Binds Control+d and puts the create-district button on the district
    /// modes toolbar.
    pub fn startup<Data>(&mut self, editor: &mut App<Data>) -> (r: Result<(), EditorError>)
        requires
            old(editor).wf(),
        ensures
            final(editor).wf(),
            *final(self) == *old(self),
            final(editor).has_shortkey_spec(crate::modes::CreateDistrict::chord_spec()),
            old(editor).has_shortkey_spec(crate::modes::CreateDistrict::chord_spec()) ==> r
                == Result::<(), EditorError>::Err(EditorError::ShortkeyInUse) && final(editor).data
                == old(editor).data && final(editor).shortkeys@ == old(editor).shortkeys@ && final(editor).toolbars@ == old(editor).toolbars@ && final(editor).ribbon_tabs@ == old(editor).ribbon_tabs@,
            !old(editor).has_shortkey_spec(crate::modes::CreateDistrict::chord_spec()) ==> r
                == Result::<(), EditorError>::Ok(()) && registered_button_effect(
                *old(editor),
                *final(editor),
                crate::modes::CreateDistrict::chord_spec(),
                "primary.edit.modes.district"@,
                "maps_home_work"@,
                "create_district"@,
                "Create District"@,
            ),
    {
        register_shortcut_and_button(
            editor,
            chord2("Control", "d"),
            "primary.edit.modes.district",
            ToolbarPosition::Left,
            "maps_home_work",
            "create_district",
            "Create District",
        )
    }

    /// Maps the chord to activating this mode.
    pub fn shortkey_pressed(&self, key: &Shortkey) -> (r: Option<EditorCommand>)
        ensures
            r == (if chord_view(key@) == crate::modes::CreateDistrict::chord_spec() {
                Some(EditorCommand::ActivateMode(crate::editor::ModeKind::CreateDistrict))
            } else {
                Option::<EditorCommand>::None
            }),
    {
        if chords_equal(key, &chord2("Control", "d")) {
            Some(EditorCommand::ActivateMode(crate::editor::ModeKind::CreateDistrict))
        } else {
            None
        }
    }
}

impl crate::modes::DeleteDistrict {
    /// The chord bound to activating district deletion.
    pub open spec fn chord_spec() -> Seq<Seq<char>> {
        seq!["Control"@, "f"@]
    }

    /// Binds Control+f and puts the delete-district button on the district
    /// modes toolbar.
    pub fn startup<Data>(&mut self, editor: &mut App<Data>) -> (r: Result<(), EditorError>)
        requires
            old(editor).wf(),
        ensures
            final(editor).wf(),
            *final(self) == *old(self),
            final(editor).has_shortkey_spec(crate::modes::DeleteDistrict::chord_spec()),
            old(editor).has_shortkey_spec(crate::modes::DeleteDistrict::chord_spec()) ==> r
                == Result::<(), EditorError>::Err(EditorError::ShortkeyInUse) && final(editor).data
                == old(editor).data && final(editor).shortkeys@ == old(editor).shortkeys@ && final(editor).toolbars@ == old(editor).toolbars@ && final(editor).ribbon_tabs@ == old(editor).ribbon_tabs@,
            !old(editor).has_shortkey_spec(crate::modes::DeleteDistrict::chord_spec()) ==> r
                == Result::<(), EditorError>::Ok(()) && registered_button_effect(
                *old(editor),
                *final(editor),
                crate::modes::DeleteDistrict::chord_spec(),
                "primary.edit.modes.district"@,
                "delete_outline"@,
                "delete_district"@,
                "Delete District"@,
            ),
    {
        register_shortcut_and_button(
            editor,
            chord2("Control", "f"),
            "primary.edit.modes.district",
            ToolbarPosition::Left,
            "delete_outline",
            "delete_district",
            "Delete District",
        )
    }

    /// Maps the chord to activating this mode.
    pub fn shortkey_pressed(&self, key: &Shortkey) -> (r: Option<EditorCommand>)
        ensures
            r == (if chord_view(key@) == crate::modes::DeleteDistrict::chord_spec() {
                Some(EditorCommand::ActivateMode(crate::editor::ModeKind::DeleteDistrict))
            } else {
                Option::<EditorCommand>::None
            }),
    {
        if chords_equal(key, &chord2("Control", "f")) {
            Some(EditorCommand::ActivateMode(crate::editor::ModeKind::DeleteDistrict))
        } else {
            None
        }
    }
}

} // verus!
