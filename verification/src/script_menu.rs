//! A menu that a script opens: a title, one entry per choice, and the
//! selection handed back to the script's callback.
use vstd::prelude::*;

use crate::text::TextArgs;

verus! {

/// A choice of a script menu: the text shown and the value handed back.
pub struct ScriptMenuChoice {
    pub display: String,
    pub value: String,
}

/// The value of the choice the player picked.
pub struct ScriptMenuSelection {
    pub value: String,
}

/// A script menu, with the callback (`C`) that receives the selection,
/// and whether it is still open.
pub struct ScriptMenu<C> {
    pub callback: C,
    pub title: String,
    pub choices: Vec<ScriptMenuChoice>,
    pub open: bool,
}

/// What the player does with an open script menu: click the entry at an
/// index, or cancel.
pub enum ScriptMenuEvent {
    Entry(usize),
    Cancel,
}

/// The text arguments of a script menu's widgets: the title, and one
/// entry per choice, in order. The menu is modal and has a cancel button.
pub struct ScriptMenuLayout {
    pub title: TextArgs,
    pub entries: Vec<TextArgs>,
}

impl<C> ScriptMenu<C> {
    pub fn new(callback: C, title: String, choices: Vec<ScriptMenuChoice>) -> (m: ScriptMenu<C>)
        ensures
            m.callback == callback,
            m.title == title,
            m.choices == choices,
            m.open,
    {
        ScriptMenu { callback, title, choices, open: true }
    }

    /// The title widget shows the title as "title"; each entry shows its
    /// choice's display text as "choice".
    pub fn on_add(&self) -> (layout: ScriptMenuLayout)
        ensures
            layout.title@ == seq![("title"@, self.title@)],
            layout.entries@.len() == self.choices@.len(),
            forall|i: int| 0 <= i < self.choices@.len()
                ==> (#[trigger] layout.entries@[i])@ == seq![("choice"@, self.choices@[i].display@)],
    {
        let mut title = TextArgs::new();
        title.add_text_arg("title", self.title.as_str());
        let mut entries: Vec<TextArgs> = Vec::new();
        let n = self.choices.len();
        let mut i: usize = 0;
        while i < n
            invariant
                n == self.choices@.len(),
                i <= n,
                entries@.len() == i,
                forall|j: int| 0 <= j < i
                    ==> (#[trigger] entries@[j])@ == seq![("choice"@, self.choices@[j].display@)],
            decreases n - i,
        {
            let mut args = TextArgs::new();
            args.add_text_arg("choice", self.choices[i].display.as_str());
            proof {
                assert(args@ =~= seq![("choice"@, self.choices@[i as int].display@)]);
            }
            entries.push(args);
            i = i + 1;
        }
        proof {
            assert(title@ =~= seq![("title"@, self.title@)]);
        }
        ScriptMenuLayout { title, entries }
    }

    /// The selection for the entry at `index`: its choice's value.
    pub fn select(&self, index: usize) -> (s: ScriptMenuSelection)
        requires
            index < self.choices@.len(),
        ensures
            s.value@ == self.choices@[index as int].value@,
    {
        ScriptMenuSelection { value: self.choices[index].value.clone() }
    }

    /// Handles a click on an entry or on cancel, which closes the menu
    /// either way. An entry gives the one selection to hand to the
    /// callback, its choice's value; cancel gives none.
    pub fn on_event(&mut self, event: ScriptMenuEvent) -> (s: Option<ScriptMenuSelection>)
        requires
            event matches ScriptMenuEvent::Entry(i) ==> i < old(self).choices@.len(),
        ensures
            !final(self).open,
            final(self).callback == old(self).callback,
            final(self).title == old(self).title,
            final(self).choices == old(self).choices,
            match event {
                ScriptMenuEvent::Entry(i) => s matches Some(sel) && sel.value@ == old(self).choices@[i as int].value@,
                ScriptMenuEvent::Cancel => s is None,
            },
    {
        let s = match event {
            ScriptMenuEvent::Entry(i) => Some(self.select(i)),
            ScriptMenuEvent::Cancel => None,
        };
        self.open = false;
        s
    }
}

} // verus!
