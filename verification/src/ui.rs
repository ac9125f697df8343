//! The editor shell around the core: the application value that owns the
//! edited data, the keyboard-shortcut registry, the toolbars and the ribbon.
//!
//! Shortcuts are chords of key names; exactly one shortcut may be bound per
//! chord. Toolbars and ribbon tabs are registries keyed by string ids; all
//! contracts speak of their views (id and label character sequences), since
//! the carriers are heap strings.

use vstd::prelude::*;

verus! {

/// A chord of key names bound to one command.
pub type Shortkey = Vec<String>;

/// Errors of the shell registries.
#[derive(Clone, Copy, PartialEq, Eq, Structural, Debug)]
pub enum EditorError {
    /// The chord is already bound.
    ShortkeyInUse,
    /// No toolbar, tab or group with the given id exists.
    UnknownContainer,
}

/// Where a toolbar docks.
#[derive(Clone, Copy, PartialEq, Eq, Structural, Debug)]
pub enum ToolbarPosition {
    Left,
    Right,
    Top,
    Bottom,
}

/// One toolbar button: an icon, a unique identifier and a title.
#[derive(Debug)]
pub struct ToolbarButton {
    pub icon: String,
    pub identifier: String,
    pub title: String,
}

/// The character-level content of a button.
pub open spec fn button_view(b: ToolbarButton) -> (Seq<char>, Seq<char>, Seq<char>) {
    (b.icon@, b.identifier@, b.title@)
}

/// A toolbar: an id, a dock position and its buttons.
#[derive(Debug)]
pub struct Toolbar {
    pub id: String,
    pub position: ToolbarPosition,
    pub buttons: Vec<ToolbarButton>,
}

impl Toolbar {
    /// The character-level content of the toolbar.
    pub open spec fn view_spec(self) -> (Seq<char>, ToolbarPosition, Seq<
        (Seq<char>, Seq<char>, Seq<char>),
    >) {
        (self.id@, self.position, self.buttons@.map_values(|b: ToolbarButton| button_view(b)))
    }

    pub open spec fn has_button_spec(self, identifier: Seq<char>) -> bool {
        exists|i: int|
            0 <= i < self.buttons@.len() && (#[trigger] self.buttons@[i]).identifier@ == identifier
    }

    /// Whether a button with this identifier is on the toolbar.
    pub fn has_button(&self, identifier: &str) -> (r: bool)
        ensures
            r == self.has_button_spec(identifier@),
    {
        let n = self.buttons.len();
        let mut i: usize = 0;
        while i < n
            invariant
                n == self.buttons@.len(),
                i <= n,
                forall|j: int|
                    0 <= j < i ==> (#[trigger] self.buttons@[j]).identifier@ != identifier@,
            decreases n - i,
        {
            let id_string = identifier.to_owned();
            if self.buttons[i].identifier == id_string {
                return true;
            }
            i += 1;
        }
        false
    }

    /// A field-wise copy with the same content.
    pub fn duplicate(&self) -> (r: Toolbar)
        ensures
            r.view_spec() == self.view_spec(),
            r.id@ == self.id@,
            r.position == self.position,
            r.buttons@.len() == self.buttons@.len(),
            forall|i: int|
                0 <= i < self.buttons@.len() ==> button_view(#[trigger] r.buttons@[i])
                    == button_view(self.buttons@[i]),
    {
        let n = self.buttons.len();
        let mut buttons: Vec<ToolbarButton> = Vec::new();
        let mut i: usize = 0;
        while i < n
            invariant
                n == self.buttons@.len(),
                i <= n,
                buttons@.len() == i,
                forall|j: int|
                    0 <= j < i ==> button_view(#[trigger] buttons@[j]) == button_view(
                        self.buttons@[j],
                    ),
            decreases n - i,
        {
            let b = &self.buttons[i];
            buttons.push(
                ToolbarButton {
                    icon: b.icon.clone(),
                    identifier: b.identifier.clone(),
                    title: b.title.clone(),
                },
            );
            i += 1;
        }
        let r = Toolbar { id: self.id.clone(), position: self.position, buttons };
        proof {
            assert(r.buttons@.map_values(|b: ToolbarButton| button_view(b))
                =~= self.buttons@.map_values(|b: ToolbarButton| button_view(b)));
        }
        r
    }
}

/// One ribbon action: the group it shows under, an icon and an identifier.
#[derive(Debug)]
pub struct RibbonAction {
    pub group: String,
    pub icon: String,
    pub identifier: String,
}

/// The character-level content of a ribbon action.
pub open spec fn action_view(a: RibbonAction) -> (Seq<char>, Seq<char>, Seq<char>) {
    (a.group@, a.icon@, a.identifier@)
}

/// One ribbon tab, holding actions grouped by a group tag.
#[derive(Debug)]
pub struct RibbonTab {
    pub id: String,
    pub label: String,
    pub actions: Vec<RibbonAction>,
}

/// The character sequences of a chord.
pub open spec fn chord_view(c: Seq<String>) -> Seq<Seq<char>> {
    c.map_values(|s: String| s@)
}

/// Whether two chords carry the same key names.
pub fn chords_equal(a: &Shortkey, b: &Shortkey) -> (r: bool)
    ensures
        r == (chord_view(a@) == chord_view(b@)),
{
    let n = a.len();
    if n != b.len() {
        proof {
            assert(chord_view(a@).len() != chord_view(b@).len());
        }
        return false;
    }
    let mut i: usize = 0;
    while i < n
        invariant
            n == a@.len(),
            n == b@.len(),
            i <= n,
            forall|j: int| 0 <= j < i ==> chord_view(a@)[j] == chord_view(b@)[j],
        decreases n - i,
    {
        if !(a[i] == b[i]) {
            proof {
                assert(chord_view(a@)[i as int] != chord_view(b@)[i as int]);
            }
            return false;
        }
        i += 1;
    }
    proof {
        assert(chord_view(a@) =~= chord_view(b@));
    }
    true
}

/// The application shell: the edited data plus the shell registries.
#[derive(Debug)]
pub struct App<Data> {
    pub data: Data,
    pub shortkeys: Vec<Vec<String>>,
    pub toolbars: Vec<Toolbar>,
    pub ribbon_tabs: Vec<RibbonTab>,
}

impl<Data> App<Data> {
    /// Registry sanity: toolbar ids and ribbon tab ids are unique.
    pub open spec fn wf(self) -> bool {
        &&& forall|i: int, j: int|
            0 <= i < j < self.toolbars@.len() ==> (#[trigger] self.toolbars@[i]).id@ != (
            #[trigger] self.toolbars@[j]).id@
        &&& forall|i: int, j: int|
            0 <= i < j < self.ribbon_tabs@.len() ==> (#[trigger] self.ribbon_tabs@[i]).id@ != (
            #[trigger] self.ribbon_tabs@[j]).id@
    }

    /// A shell around the given data, with empty registries.
    pub fn new(data: Data) -> (r: App<Data>)
        ensures
            r.wf(),
            r.data == data,
            r.shortkeys@.len() == 0,
            r.toolbars@.len() == 0,
            r.ribbon_tabs@.len() == 0,
    {
        App { data, shortkeys: Vec::new(), toolbars: Vec::new(), ribbon_tabs: Vec::new() }
    }

    /// A chord with these key names is bound.
    pub open spec fn has_shortkey_spec(self, chord: Seq<Seq<char>>) -> bool {
        exists|i: int|
            0 <= i < self.shortkeys@.len() && chord_view((#[trigger] self.shortkeys@[i])@) == chord
    }

    /// Whether the chord is already bound.
    pub fn has_shortkey(&self, chord: Shortkey) -> (r: bool)
        ensures
            r == self.has_shortkey_spec(chord_view(chord@)),
    {
        let n = self.shortkeys.len();
        let mut i: usize = 0;
        while i < n
            invariant
                n == self.shortkeys@.len(),
                i <= n,
                forall|j: int|
                    0 <= j < i ==> chord_view((#[trigger] self.shortkeys@[j])@) != chord_view(
                        chord@,
                    ),
            decreases n - i,
        {
            if chords_equal(&self.shortkeys[i], &chord) {
                return true;
            }
            i += 1;
        }
        false
    }

    /// Binds a chord; exactly one shortcut may be bound per chord, so a chord
    /// already in use is rejected.
    pub fn add_shortkey(&mut self, chord: Shortkey) -> (r: Result<(), EditorError>)
        requires
            old(self).wf(),
        ensures
            final(self).wf(),
            final(self).data == old(self).data,
            final(self).toolbars@ == old(self).toolbars@,
            final(self).ribbon_tabs@ == old(self).ribbon_tabs@,
            old(self).has_shortkey_spec(chord_view(chord@)) ==> r == Result::<
                (),
                EditorError,
            >::Err(EditorError::ShortkeyInUse) && final(self).shortkeys@ == old(self).shortkeys@,
            !old(self).has_shortkey_spec(chord_view(chord@)) ==> r == Result::<
                (),
                EditorError,
            >::Ok(()) && final(self).shortkeys@ == old(self).shortkeys@.push(chord),
    {
        if self.has_shortkey_dup(&chord) {
            Err(EditorError::ShortkeyInUse)
        } else {
            self.shortkeys.push(chord);
            Ok(())
        }
    }

    /// `has_shortkey` by reference (the public query takes the chord by
    /// value, as callers hand it over).
    fn has_shortkey_dup(&self, chord: &Shortkey) -> (r: bool)
        ensures
            r == self.has_shortkey_spec(chord_view(chord@)),
    {
        let n = self.shortkeys.len();
        let mut i: usize = 0;
        while i < n
            invariant
                n == self.shortkeys@.len(),
                i <= n,
                forall|j: int|
                    0 <= j < i ==> chord_view((#[trigger] self.shortkeys@[j])@) != chord_view(
                        chord@,
                    ),
            decreases n - i,
        {
            if chords_equal(&self.shortkeys[i], chord) {
                return true;
            }
            i += 1;
        }
        false
    }

    /// A toolbar with this id exists.
    pub open spec fn has_toolbar_spec(self, id: Seq<char>) -> bool {
        exists|i: int| 0 <= i < self.toolbars@.len() && (#[trigger] self.toolbars@[i]).id@ == id
    }

    /// Index of the toolbar with this id (meaningful when present).
    pub open spec fn toolbar_idx(self, id: Seq<char>) -> int {
        choose|i: int| 0 <= i < self.toolbars@.len() && (#[trigger] self.toolbars@[i]).id@ == id
    }

    /// The existing toolbar with this id, or a fresh empty one docked at the
    /// given position; the returned copy has the same content as the stored
    /// toolbar.
    pub fn get_or_add_toolbar(&mut self, id: &str, position: ToolbarPosition) -> (r: Result<
        Toolbar,
        EditorError,
    >)
        requires
            old(self).wf(),
        ensures
            final(self).wf(),
            final(self).data == old(self).data,
            final(self).shortkeys@ == old(self).shortkeys@,
            final(self).ribbon_tabs@ == old(self).ribbon_tabs@,
            old(self).has_toolbar_spec(id@) ==> final(self).toolbars@ == old(self).toolbars@,
            !old(self).has_toolbar_spec(id@) ==> final(self).toolbars@.len() == old(self).toolbars@.len() + 1 && final(self).toolbars@.drop_last() == old(self).toolbars@
                && final(self).toolbars@.last().id@ == id@ && final(self).toolbars@.last().position
                == position && final(self).toolbars@.last().buttons@.len() == 0,
            final(self).has_toolbar_spec(id@),
            match r {
                Ok(t) => t.view_spec() == final(self).toolbars@[final(self).toolbar_idx(
                    id@,
                )].view_spec(),
                Err(_) => false,
            },
    {
        let n = self.toolbars.len();
        let mut i: usize = 0;
        while i < n
            invariant
                *self == *old(self),
                self.wf(),
                n == self.toolbars@.len(),
                i <= n,
                forall|j: int| 0 <= j < i ==> (#[trigger] self.toolbars@[j]).id@ != id@,
            decreases n - i,
        {
            let id_string = id.to_owned();
            if self.toolbars[i].id == id_string {
                let t = self.toolbars[i].duplicate();
                proof {
                    self.lemma_toolbar_idx_is(i as int, id@);
                }
                return Ok(t);
            }
            i += 1;
        }
        let ghost pre = *self;
        let fresh = Toolbar { id: id.to_owned(), position, buttons: Vec::new() };
        let out = fresh.duplicate();
        self.toolbars.push(fresh);
        proof {
            let post = *self;
            assert forall|a: int, b: int|
                0 <= a < b < post.toolbars@.len() implies (#[trigger] post.toolbars@[a]).id@ != (
            #[trigger] post.toolbars@[b]).id@ by {
                if b == post.toolbars@.len() - 1 {
                    assert(pre.toolbars@[a].id@ != id@);
                }
            }
            assert(post.toolbars@.drop_last() =~= pre.toolbars@);
            post.lemma_toolbar_idx_is(pre.toolbars@.len() as int, id@);
        }
        Ok(out)
    }

    pub(crate) proof fn lemma_toolbar_idx_is(self, k: int, id: Seq<char>)
        requires
            self.wf(),
            0 <= k < self.toolbars@.len(),
            self.toolbars@[k].id@ == id,
        ensures
            self.toolbar_idx(id) == k,
            self.has_toolbar_spec(id),
    {
        assert(self.has_toolbar_spec(id));
        let i = self.toolbar_idx(id);
        if i != k {
            if i < k {
                assert(self.toolbars@[i].id@ != self.toolbars@[k].id@);
            } else {
                assert(self.toolbars@[k].id@ != self.toolbars@[i].id@);
            }
        }
    }

    /// Adds a toggle button to the toolbar with this id; rejected when no
    /// such toolbar exists.
    pub fn add_toggle_button(
        &mut self,
        toolbar_id: &str,
        icon: &str,
        identifier: &str,
        title: String,
    ) -> (r: Result<(), EditorError>)
        requires
            old(self).wf(),
        ensures
            final(self).wf(),
            final(self).data == old(self).data,
            final(self).shortkeys@ == old(self).shortkeys@,
            final(self).ribbon_tabs@ == old(self).ribbon_tabs@,
            !old(self).has_toolbar_spec(toolbar_id@) ==> r == Result::<(), EditorError>::Err(
                EditorError::UnknownContainer,
            ) && final(self).toolbars@ == old(self).toolbars@,
            old(self).has_toolbar_spec(toolbar_id@) ==> r == Result::<(), EditorError>::Ok(())
                && final(self).toolbars@.len() == old(self).toolbars@.len() && (forall|j: int|
                0 <= j < old(self).toolbars@.len() && j != old(self).toolbar_idx(toolbar_id@)
                    ==> #[trigger] final(self).toolbars@[j] == old(self).toolbars@[j]) && {
                let k = old(self).toolbar_idx(toolbar_id@);
                let t0 = old(self).toolbars@[k];
                let t1 = final(self).toolbars@[k];
                t1.id@ == t0.id@ && t1.position == t0.position && t1.buttons@.len()
                    == t0.buttons@.len() + 1 && (forall|j: int|
                    0 <= j < t0.buttons@.len() ==> #[trigger] t1.buttons@[j] == t0.buttons@[j])
                    && button_view(t1.buttons@.last()) == (icon@, identifier@, title@)
            },
    {
        let n = self.toolbars.len();
        let mut i: usize = 0;
        while i < n
            invariant
                *self == *old(self),
                self.wf(),
                n == self.toolbars@.len(),
                i <= n,
                forall|j: int| 0 <= j < i ==> (#[trigger] self.toolbars@[j]).id@ != toolbar_id@,
            decreases n - i,
        {
            let id_string = toolbar_id.to_owned();
            if self.toolbars[i].id == id_string {
                proof {
                    self.lemma_toolbar_idx_is(i as int, toolbar_id@);
                }
                let ghost pre = *self;
                let mut t = self.toolbars.remove(i);
                t.buttons.push(
                    ToolbarButton {
                        icon: icon.to_owned(),
                        identifier: identifier.to_owned(),
                        title,
                    },
                );
                self.toolbars.insert(i, t);
                proof {
                    let post = *self;
                    assert forall|j: int|
                        0 <= j < pre.toolbars@.len() && j != i implies #[trigger] post.toolbars@[j]
                        == pre.toolbars@[j] by {}
                    assert forall|a: int, b: int|
                        0 <= a < b < post.toolbars@.len() implies (
                    #[trigger] post.toolbars@[a]).id@ != (#[trigger] post.toolbars@[b]).id@ by {
                        if a == i {
                            assert(pre.toolbars@[a].id@ != pre.toolbars@[b].id@);
                        } else if b == i {
                            assert(pre.toolbars@[a].id@ != pre.toolbars@[b].id@);
                        }
                    }
                }
                return Ok(());
            }
            i += 1;
        }
        Err(EditorError::UnknownContainer)
    }

    /// A ribbon tab with this id exists.
    pub open spec fn has_ribbon_tab_spec(self, id: Seq<char>) -> bool {
        exists|i: int|
            0 <= i < self.ribbon_tabs@.len() && (#[trigger] self.ribbon_tabs@[i]).id@ == id
    }

    /// Ensures a ribbon tab with this id exists.
    pub fn get_or_add_tab(&mut self, id: &str, label: &str) -> (r: Result<(), EditorError>)
        requires
            old(self).wf(),
        ensures
            final(self).wf(),
            final(self).data == old(self).data,
            final(self).shortkeys@ == old(self).shortkeys@,
            final(self).toolbars@ == old(self).toolbars@,
            r == Result::<(), EditorError>::Ok(()),
            old(self).has_ribbon_tab_spec(id@) ==> final(self).ribbon_tabs@ == old(self).ribbon_tabs@,
            !old(self).has_ribbon_tab_spec(id@) ==> final(self).ribbon_tabs@.len() == old(self).ribbon_tabs@.len() + 1 && final(self).ribbon_tabs@.drop_last() == old(self).ribbon_tabs@ && final(self).ribbon_tabs@.last().id@ == id@ && final(self).ribbon_tabs@.last().label@ == label@ && final(self).ribbon_tabs@.last().actions@.len() == 0,
            final(self).has_ribbon_tab_spec(id@),
    {
        let n = self.ribbon_tabs.len();
        let mut i: usize = 0;
        while i < n
            invariant
                *self == *old(self),
                self.wf(),
                n == self.ribbon_tabs@.len(),
                i <= n,
                forall|j: int| 0 <= j < i ==> (#[trigger] self.ribbon_tabs@[j]).id@ != id@,
            decreases n - i,
        {
            let id_string = id.to_owned();
            if self.ribbon_tabs[i].id == id_string {
                return Ok(());
            }
            i += 1;
        }
        let ghost pre = *self;
        self.ribbon_tabs.push(
            RibbonTab { id: id.to_owned(), label: label.to_owned(), actions: Vec::new() },
        );
        proof {
            let post = *self;
            assert forall|a: int, b: int|
                0 <= a < b < post.ribbon_tabs@.len() implies (#[trigger] post.ribbon_tabs@[a]).id@
                != (#[trigger] post.ribbon_tabs@[b]).id@ by {
                if b == post.ribbon_tabs@.len() - 1 {
                    assert(pre.ribbon_tabs@[a].id@ != id@);
                }
            }
            assert(post.ribbon_tabs@.drop_last() =~= pre.ribbon_tabs@);
            assert(post.ribbon_tabs@[pre.ribbon_tabs@.len() as int].id@ == id@);
        }
        Ok(())
    }
}

impl<Data> App<Data> {
    /// Index of the ribbon tab with this id (meaningful when present).
    pub open spec fn ribbon_tab_idx(self, id: Seq<char>) -> int {
        choose|i: int|
            0 <= i < self.ribbon_tabs@.len() && (#[trigger] self.ribbon_tabs@[i]).id@ == id
    }

    pub(crate) proof fn lemma_ribbon_tab_idx_is(self, k: int, id: Seq<char>)
        requires
            self.wf(),
            0 <= k < self.ribbon_tabs@.len(),
            self.ribbon_tabs@[k].id@ == id,
        ensures
            self.ribbon_tab_idx(id) == k,
            self.has_ribbon_tab_spec(id),
    {
        assert(self.has_ribbon_tab_spec(id));
        let i = self.ribbon_tab_idx(id);
        if i != k {
            if i < k {
                assert(self.ribbon_tabs@[i].id@ != self.ribbon_tabs@[k].id@);
            } else {
                assert(self.ribbon_tabs@[k].id@ != self.ribbon_tabs@[i].id@);
            }
        }
    }

    /// Appends an action to the ribbon tab with this id, under the given
    /// group tag; rejected when no such tab exists.
    pub fn ribbon_add_action(
        &mut self,
        tab_id: &str,
        group: &str,
        icon: &str,
        identifier: &str,
    ) -> (r: Result<(), EditorError>)
        requires
            old(self).wf(),
        ensures
            final(self).wf(),
            final(self).data == old(self).data,
            final(self).shortkeys@ == old(self).shortkeys@,
            final(self).toolbars@ == old(self).toolbars@,
            !old(self).has_ribbon_tab_spec(tab_id@) ==> r == Result::<(), EditorError>::Err(
                EditorError::UnknownContainer,
            ) && final(self).ribbon_tabs@ == old(self).ribbon_tabs@,
            old(self).has_ribbon_tab_spec(tab_id@) ==> r == Result::<(), EditorError>::Ok(())
                && final(self).ribbon_tabs@.len() == old(self).ribbon_tabs@.len() && (forall|j: int|
                0 <= j < old(self).ribbon_tabs@.len() && j != old(self).ribbon_tab_idx(tab_id@)
                    ==> #[trigger] final(self).ribbon_tabs@[j] == old(self).ribbon_tabs@[j]) && {
                let k = old(self).ribbon_tab_idx(tab_id@);
                let t0 = old(self).ribbon_tabs@[k];
                let t1 = final(self).ribbon_tabs@[k];
                t1.id@ == t0.id@ && t1.label@ == t0.label@ && t1.actions@.len()
                    == t0.actions@.len() + 1 && (forall|j: int|
                    0 <= j < t0.actions@.len() ==> #[trigger] t1.actions@[j] == t0.actions@[j])
                    && action_view(t1.actions@.last()) == (group@, icon@, identifier@)
            },
    {
        let n = self.ribbon_tabs.len();
        let mut i: usize = 0;
        while i < n
            invariant
                *self == *old(self),
                self.wf(),
                n == self.ribbon_tabs@.len(),
                i <= n,
                forall|j: int| 0 <= j < i ==> (#[trigger] self.ribbon_tabs@[j]).id@ != tab_id@,
            decreases n - i,
        {
            let id_string = tab_id.to_owned();
            if self.ribbon_tabs[i].id == id_string {
                proof {
                    self.lemma_ribbon_tab_idx_is(i as int, tab_id@);
                }
                let ghost pre = *self;
                let mut t = self.ribbon_tabs.remove(i);
                t.actions.push(
                    RibbonAction {
                        group: group.to_owned(),
                        icon: icon.to_owned(),
                        identifier: identifier.to_owned(),
                    },
                );
                self.ribbon_tabs.insert(i, t);
                proof {
                    let post = *self;
                    assert forall|j: int|
                        0 <= j < pre.ribbon_tabs@.len() && j != i implies
                        #[trigger] post.ribbon_tabs@[j] == pre.ribbon_tabs@[j] by {}
                    assert forall|a: int, b: int|
                        0 <= a < b < post.ribbon_tabs@.len() implies (
                    #[trigger] post.ribbon_tabs@[a]).id@ != (#[trigger] post.ribbon_tabs@[b]).id@ by {
                        if a == i {
                            assert(pre.ribbon_tabs@[a].id@ != pre.ribbon_tabs@[b].id@);
                        } else if b == i {
                            assert(pre.ribbon_tabs@[a].id@ != pre.ribbon_tabs@[b].id@);
                        }
                    }
                }
                return Ok(());
            }
            i += 1;
        }
        Err(EditorError::UnknownContainer)
    }
}

impl<Data: core::default::Default> Default for App<Data> {
    /// A shell around the data type's default value, with empty registries.
    fn default() -> (r: App<Data>)
        ensures
            r.wf(),
            r.shortkeys@.len() == 0,
            r.toolbars@.len() == 0,
            r.ribbon_tabs@.len() == 0,
    {
        App::new(Data::default())
    }
}

} // verus!
