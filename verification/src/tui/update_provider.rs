//! The update provider modal.

use vstd::prelude::*;
use indexmap::IndexMap;
use crate::text;
use crate::text_map::TextMap;
use crate::tui::config_map;
use crate::tui::config_map::{
    config_entries, entry_place, has_entry, same_entries, with_entry,
    without_entry,
};
use crate::tui::create_provider::{flush_config_input, flushes};
use crate::tui::keys::{handle_text_input, typed, KeyCode, KeyEvent};
use crate::tui::model::{UpdateProviderField, UpdateProviderForm};

verus! {

/// What a key press in the modal asks of the interface.
#[derive(Debug, Clone, Copy, PartialEq, Eq, Structural)]
pub enum UpdateOutcome {
    /// Keep the modal open.
    Stay,
    /// Close the modal.
    Close,
    /// Keep the modal open and send the update.
    Update,
}

/// The value under `key`, where there is one.
pub open spec fn value_of(entries: Seq<(Seq<char>, Seq<char>)>, key: Seq<char>) -> Option<
    Seq<char>,
> {
    if has_entry(entries, key) {
        Some(entries[entry_place(entries, key)].1)
    } else {
        None
    }
}

/// What an update sends for `key`: a changed or new value, an empty text for a key that is gone,
/// nothing for one that stayed as it was.
pub open spec fn delta_of(
    original: Seq<(Seq<char>, Seq<char>)>,
    current: Seq<(Seq<char>, Seq<char>)>,
    key: Seq<char>,
) -> Option<Seq<char>> {
    match value_of(current, key) {
        Some(value) => if value_of(original, key) == Some(value) {
            None
        } else {
            Some(value)
        },
        None => if has_entry(original, key) {
            Some(Seq::empty())
        } else {
            None
        },
    }
}

impl UpdateProviderForm {
    /// The cursor can be moved on.
    pub open spec fn wf(self) -> bool {
        self.config_cursor < usize::MAX
    }

    /// The configuration entries.
    pub open spec fn entries(self) -> Seq<(Seq<char>, Seq<char>)> {
        config_entries(self.config)
    }

    /// Whether both parts of the entry being typed are there.
    pub open spec fn entry_ready(self) -> bool {
        flushes(self.config_key_input@, self.config_value_input@)
    }

    /// Whether only one part of the entry being typed is there.
    pub open spec fn entry_partial(self) -> bool {
        !self.entry_ready() && (self.config_key_input@.len() > 0 || self.config_value_input@.len()
            > 0)
    }

    /// The form with the focus on `field`.
    pub open spec fn at(self, field: UpdateProviderField) -> Self {
        UpdateProviderForm { focus: field, ..self }
    }

    /// The form with the focus on entry `row`.
    pub open spec fn at_entry(self, row: int) -> Self {
        UpdateProviderForm {
            focus: UpdateProviderField::ConfigEntry,
            config_cursor: row as usize,
            ..self
        }
    }

    /// The form back on the new key, with the last of `entries` selected.
    pub open spec fn at_new_key(self, entries: nat) -> Self {
        UpdateProviderForm {
            focus: UpdateProviderField::ConfigKey,
            config_cursor: (if entries > 0 {
                entries - 1
            } else {
                0
            }) as usize,
            ..self
        }
    }

    /// The configuration and its inputs after the entry being typed was added, where it was
    /// complete.
    pub open spec fn after_flush(self, post: Self) -> bool {
        if self.entry_ready() {
            &&& post.entries() == with_entry(
                self.entries(),
                self.config_key_input@,
                self.config_value_input@,
            )
            &&& post.config_key_input@ == Seq::<char>::empty()
            &&& post.config_value_input@ == Seq::<char>::empty()
        } else {
            &&& post.config == self.config
            &&& post.config_key_input == self.config_key_input
            &&& post.config_value_input == self.config_value_input
        }
    }

    /// Whether `post` is `rest` but for the configuration and its inputs, which are those after
    /// the entry being typed was added, where it was complete.
    pub open spec fn flushed_into(self, rest: Self, post: Self) -> bool {
        &&& post == (UpdateProviderForm {
            config: post.config,
            config_key_input: post.config_key_input,
            config_value_input: post.config_value_input,
            ..rest
        })
        &&& self.after_flush(post)
    }

    /// Tab on any field.
    pub open spec fn tab_step(self, post: Self) -> bool {
        let n = self.entries().len();
        match self.focus {
            UpdateProviderField::CredentialValue => post == if n == 0 {
                self.at(UpdateProviderField::ConfigKey)
            } else {
                self.at_entry(0)
            },
            UpdateProviderField::ConfigEntry => post == if self.config_cursor + 1 < n {
                self.at_entry(self.config_cursor + 1)
            } else {
                self.at(UpdateProviderField::ConfigKey)
            },
            UpdateProviderField::ConfigKey => post == self.at(UpdateProviderField::ConfigValue),
            UpdateProviderField::ConfigValue => if self.entry_ready() {
                self.flushed_into(self.at_new_key(post.entries().len()), post)
            } else if self.entry_partial() {
                &&& post == (UpdateProviderForm {
                    status: post.status,
                    ..self.at(UpdateProviderField::ConfigKey)
                })
                &&& post.status matches Some(s) && s@
                    == "Both key and value required to add config entry."@
            } else {
                post == self.at(UpdateProviderField::Submit)
            },
            UpdateProviderField::Submit => post == self.at(UpdateProviderField::CredentialValue),
        }
    }

    /// The form with the focus one field back.
    pub open spec fn back_tabbed(self) -> Self {
        let n = self.entries().len();
        match self.focus {
            UpdateProviderField::CredentialValue => self.at(UpdateProviderField::Submit),
            UpdateProviderField::ConfigEntry => if self.config_cursor > 0 {
                self.at_entry(self.config_cursor - 1)
            } else {
                self.at(UpdateProviderField::CredentialValue)
            },
            UpdateProviderField::ConfigKey => if n == 0 {
                self.at(UpdateProviderField::CredentialValue)
            } else {
                self.at_entry(n - 1)
            },
            UpdateProviderField::ConfigValue => self.at(UpdateProviderField::ConfigKey),
            UpdateProviderField::Submit => self.at(UpdateProviderField::ConfigValue),
        }
    }

    /// The key of the selected entry, or the empty text where none is selected.
    pub open spec fn doomed_key(self) -> Seq<char> {
        if self.config_cursor < self.entries().len() {
            self.entries()[self.config_cursor as int].0
        } else {
            Seq::empty()
        }
    }

    /// The deletion of the selected entry, which is remembered among the deleted keys.
    pub open spec fn deleted_step(self, post: Self) -> bool {
        let n = post.entries().len();
        &&& post.entries() == without_entry(
            self.entries(),
            entry_place(self.entries(), self.doomed_key()),
        )
        &&& post == (UpdateProviderForm {
            config: post.config,
            deleted_keys: post.deleted_keys,
            config_cursor: (if n == 0 {
                0
            } else if self.config_cursor < n {
                self.config_cursor as int
            } else {
                n - 1
            }) as usize,
            focus: if n == 0 {
                UpdateProviderField::ConfigKey
            } else {
                self.focus
            },
            ..self
        })
        &&& post.deleted_keys@.len() == self.deleted_keys@.len() + 1
        &&& post.deleted_keys@.drop_last() == self.deleted_keys@
        &&& post.deleted_keys@.last()@ == self.doomed_key()
    }

    /// Any other key on the list of entries.
    pub open spec fn list_step(self, key: KeyEvent, post: Self) -> bool {
        let n = self.entries().len();
        match key.code {
            KeyCode::Up => post == (UpdateProviderForm {
                config_cursor: (if self.config_cursor > 0 {
                    self.config_cursor - 1
                } else {
                    0
                }) as usize,
                ..self
            }),
            KeyCode::Down => if n == 0 {
                post == self
            } else {
                post == (UpdateProviderForm {
                    config_cursor: (if self.config_cursor + 1 < n {
                        self.config_cursor + 1
                    } else {
                        n - 1
                    }) as usize,
                    ..self
                })
            },
            KeyCode::Char(c) => if c == 'd' && key.control && n > 0 {
                self.deleted_step(post)
            } else {
                post == self
            },
            _ => post == self,
        }
    }

    /// The entries that a submit would send, the entry being typed included.
    pub open spec fn submitted_entries(self) -> Seq<(Seq<char>, Seq<char>)> {
        if self.entry_ready() {
            with_entry(self.entries(), self.config_key_input@, self.config_value_input@)
        } else {
            self.entries()
        }
    }

    /// Why a submit is refused, where it is.
    pub open spec fn submit_error(self) -> Option<Seq<char>> {
        if self.entry_partial() {
            Some("Both key and value are required to add config entry."@)
        } else if self.new_value@.len() == 0 && same_entries(
            self.submitted_entries(),
            config_entries(self.original_config),
        ) {
            Some("Credential value or config keys required."@)
        } else {
            None
        }
    }

    /// Enter on the submit field.
    pub open spec fn submit_step(self, post: Self, outcome: UpdateOutcome) -> bool {
        &&& self.after_flush(post)
        &&& post == (UpdateProviderForm {
            config: post.config,
            config_key_input: post.config_key_input,
            config_value_input: post.config_value_input,
            status: post.status,
            ..self
        })
        &&& match self.submit_error() {
            Some(message) => {
                &&& outcome == UpdateOutcome::Stay
                &&& post.status matches Some(s) && s@ == message
            },
            None => outcome == UpdateOutcome::Update && post.status == self.status,
        }
    }

    /// What a key press does to the form: `post` is the form after it, `outcome` what it asks of
    /// the interface.
    pub open spec fn key_step(self, key: KeyEvent, post: Self, outcome: UpdateOutcome) -> bool {
        if key.code == KeyCode::Esc {
            outcome == UpdateOutcome::Close && post == self
        } else if self.focus == UpdateProviderField::Submit && key.code == KeyCode::Enter {
            self.submit_step(post, outcome)
        } else {
            &&& outcome == UpdateOutcome::Stay
            &&& if key.code == KeyCode::Tab {
                self.tab_step(post)
            } else if key.code == KeyCode::BackTab {
                post == self.back_tabbed()
            } else {
                match self.focus {
                    UpdateProviderField::CredentialValue => {
                        &&& post == (UpdateProviderForm { new_value: post.new_value, ..self })
                        &&& post.new_value@ == typed(self.new_value@, key.code)
                    },
                    UpdateProviderField::ConfigEntry => self.list_step(key, post),
                    UpdateProviderField::ConfigKey => if key.code == KeyCode::Enter {
                        self.flushed_into(self, post)
                    } else {
                        &&& post == (UpdateProviderForm {
                            config_key_input: post.config_key_input,
                            ..self
                        })
                        &&& post.config_key_input@ == typed(self.config_key_input@, key.code)
                    },
                    UpdateProviderField::ConfigValue => if key.code != KeyCode::Enter {
                        &&& post == (UpdateProviderForm {
                            config_value_input: post.config_value_input,
                            ..self
                        })
                        &&& post.config_value_input@ == typed(self.config_value_input@, key.code)
                    } else if self.entry_ready() {
                        self.flushed_into(self.at_new_key(post.entries().len()), post)
                    } else {
                        post == self
                    },
                    UpdateProviderField::Submit => post == self,
                }
            }
        }
    }

    fn flush(&mut self) -> (flushed: bool)
        ensures
            flushed == old(self).entry_ready(),
            old(self).flushed_into(*old(self), *final(self)),
            !flushed ==> *final(self) == *old(self),
    {
        flush_config_input(
            &mut self.config,
            &mut self.config_key_input,
            &mut self.config_value_input,
        )
    }

    fn select_new_key(&mut self)
        ensures
            *final(self) == old(self).at_new_key(old(self).entries().len()),
            final(self).config_cursor < usize::MAX,
    {
        self.focus = UpdateProviderField::ConfigKey;
        let n: usize = config_map::len(&self.config);
        self.config_cursor = if n > 0 {
            n - 1
        } else {
            0
        };
    }

    fn handle_tab(&mut self)
        requires
            old(self).wf(),
        ensures
            final(self).wf(),
            old(self).tab_step(*final(self)),
    {
        match self.focus {
            UpdateProviderField::CredentialValue => {
                if config_map::is_empty(&self.config) {
                    self.focus = UpdateProviderField::ConfigKey;
                } else {
                    self.focus = UpdateProviderField::ConfigEntry;
                    self.config_cursor = 0;
                }
            },
            UpdateProviderField::ConfigEntry => {
                let n: usize = config_map::len(&self.config);
                if n > 0 && self.config_cursor < n - 1 {
                    self.config_cursor = self.config_cursor + 1;
                } else {
                    self.focus = UpdateProviderField::ConfigKey;
                }
            },
            UpdateProviderField::ConfigKey => {
                self.focus = UpdateProviderField::ConfigValue;
            },
            UpdateProviderField::ConfigValue => {
                if self.flush() {
                    self.select_new_key();
                } else if self.config_key_input.as_str().is_empty()
                    && self.config_value_input.as_str().is_empty() {
                    self.focus = UpdateProviderField::Submit;
                } else {
                    self.status = Some(
                        "Both key and value required to add config entry.".to_string(),
                    );
                    self.focus = UpdateProviderField::ConfigKey;
                }
            },
            UpdateProviderField::Submit => {
                self.focus = UpdateProviderField::CredentialValue;
            },
        }
    }

    fn handle_back_tab(&mut self)
        requires
            old(self).wf(),
        ensures
            final(self).wf(),
            *final(self) == old(self).back_tabbed(),
    {
        match self.focus {
            UpdateProviderField::CredentialValue => {
                self.focus = UpdateProviderField::Submit;
            },
            UpdateProviderField::ConfigEntry => {
                if self.config_cursor > 0 {
                    self.config_cursor = self.config_cursor - 1;
                } else {
                    self.focus = UpdateProviderField::CredentialValue;
                }
            },
            UpdateProviderField::ConfigKey => {
                let n: usize = config_map::len(&self.config);
                if n == 0 {
                    self.focus = UpdateProviderField::CredentialValue;
                } else {
                    self.focus = UpdateProviderField::ConfigEntry;
                    self.config_cursor = n - 1;
                }
            },
            UpdateProviderField::ConfigValue => {
                self.focus = UpdateProviderField::ConfigKey;
            },
            UpdateProviderField::Submit => {
                self.focus = UpdateProviderField::ConfigValue;
            },
        }
    }

    fn delete_selected(&mut self)
        requires
            old(self).wf(),
        ensures
            final(self).wf(),
            old(self).deleted_step(*final(self)),
    {
        let key = match config_map::entry_at(&self.config, self.config_cursor) {
            Some(entry) => entry.0.clone(),
            None => String::new(),
        };
        self.deleted_keys.push(key.clone());
        config_map::shift_remove(&mut self.config, key.as_str());
        let n: usize = config_map::len(&self.config);
        if n == 0 {
            self.config_cursor = 0;
            self.focus = UpdateProviderField::ConfigKey;
        } else if self.config_cursor > n - 1 {
            self.config_cursor = n - 1;
        }
        assert(self.deleted_keys@.drop_last() =~= old(self).deleted_keys@);
    }

    fn handle_list_key(&mut self, key: KeyEvent)
        requires
            old(self).wf(),
        ensures
            final(self).wf(),
            old(self).list_step(key, *final(self)),
    {
        match key.code {
            KeyCode::Up => {
                self.config_cursor = if self.config_cursor > 0 {
                    self.config_cursor - 1
                } else {
                    0
                };
            },
            KeyCode::Down => {
                let n: usize = config_map::len(&self.config);
                if n > 0 {
                    self.config_cursor = if self.config_cursor < n - 1 {
                        self.config_cursor + 1
                    } else {
                        n - 1
                    };
                }
            },
            KeyCode::Char(c) => if c == 'd' && key.control && !config_map::is_empty(&self.config) {
                self.delete_selected();
            },
            _ => {},
        }
    }

    fn handle_submit(&mut self) -> (outcome: UpdateOutcome)
        requires
            old(self).wf(),
        ensures
            final(self).wf(),
            old(self).submit_step(*final(self), outcome),
    {
        self.flush();
        if !self.config_key_input.as_str().is_empty()
            || !self.config_value_input.as_str().is_empty() {
            self.status = Some("Both key and value are required to add config entry.".to_string());
            return UpdateOutcome::Stay;
        }
        if self.new_value.as_str().is_empty() && config_map::same(
            &self.config,
            &self.original_config,
        ) {
            self.status = Some("Credential value or config keys required.".to_string());
            return UpdateOutcome::Stay;
        }
        UpdateOutcome::Update
    }

    /// Handles a key press.
    pub fn handle_key(&mut self, key: KeyEvent) -> (outcome: UpdateOutcome)
        requires
            old(self).wf(),
        ensures
            final(self).wf(),
            old(self).key_step(key, *final(self), outcome),
    {
        match key.code {
            KeyCode::Esc => {
                return UpdateOutcome::Close;
            },
            KeyCode::Tab => {
                self.handle_tab();
            },
            KeyCode::BackTab => {
                self.handle_back_tab();
            },
            _ => match self.focus {
                UpdateProviderField::CredentialValue => {
                    handle_text_input(&mut self.new_value, key);
                },
                UpdateProviderField::ConfigEntry => {
                    self.handle_list_key(key);
                },
                UpdateProviderField::ConfigKey => {
                    if key.code == KeyCode::Enter {
                        self.flush();
                    } else {
                        handle_text_input(&mut self.config_key_input, key);
                    }
                },
                UpdateProviderField::ConfigValue => {
                    if key.code == KeyCode::Enter {
                        if self.flush() {
                            self.select_new_key();
                        }
                    } else {
                        handle_text_input(&mut self.config_value_input, key);
                    }
                },
                UpdateProviderField::Submit => {
                    if key.code == KeyCode::Enter {
                        return self.handle_submit();
                    }
                },
            },
        }
        UpdateOutcome::Stay
    }
}

/// Whether `delta` holds what an update sends, and nothing else.
pub open spec fn is_delta(
    original: Seq<(Seq<char>, Seq<char>)>,
    current: Seq<(Seq<char>, Seq<char>)>,
    delta: Map<Seq<char>, String>,
) -> bool {
    &&& forall|k: Seq<char>| #[trigger]
        delta.dom().contains(k) <==> delta_of(original, current, k) is Some
    &&& forall|k: Seq<char>| #[trigger]
        delta.dom().contains(k) ==> delta_of(original, current, k) == Some(delta[k]@)
}

/// What an update makes of a value: an empty one in the request takes it away.
pub open spec fn updated(value: Option<Seq<char>>, request: Option<Seq<char>>) -> Option<
    Seq<char>,
> {
    match request {
        None => value,
        Some(new) => if new.len() == 0 {
            None
        } else {
            Some(new)
        },
    }
}

/// An update leads from the original configuration to the current one, for every key whose value
/// is not empty.
pub proof fn lemma_update_leads_to_current(
    original: Seq<(Seq<char>, Seq<char>)>,
    current: Seq<(Seq<char>, Seq<char>)>,
    key: Seq<char>,
)
    requires
        value_of(current, key) matches Some(value) ==> value.len() > 0,
    ensures
        updated(value_of(original, key), delta_of(original, current, key)) == value_of(
            current,
            key,
        ),
{
}

/// The configuration part of an update request: what changed, was added or is gone since
/// `original`.
pub fn config_delta(
    original: &IndexMap<String, String>,
    current: &IndexMap<String, String>,
) -> (delta: TextMap<String>)
    ensures
        is_delta(config_entries(*original), config_entries(*current), delta@),
{
    let ghost old_entries = config_entries(*original);
    let ghost new_entries = config_entries(*current);
    let mut delta: TextMap<String> = TextMap::new();
    let mut i: usize = 0;
    while i < config_map::len(current)
        invariant
            old_entries == config_entries(*original),
            new_entries == config_entries(*current),
            i <= new_entries.len(),
            forall|k: Seq<char>|
                #![trigger delta@.dom().contains(k)]
                delta@.dom().contains(k) <==> (has_entry(new_entries.take(i as int), k)
                    && delta_of(old_entries, new_entries, k) is Some),
            forall|k: Seq<char>| #[trigger]
                delta@.dom().contains(k) ==> delta@[k]@ == value_of(new_entries, k)->0,
        decreases new_entries.len() - i,
    {
        if let Some((key, value)) = config_map::entry_at(current, i) {
            let ghost before = delta@;
            let latest = match config_map::get(current, key.as_str()) {
                Some(v) => v.clone(),
                None => value.clone(),
            };
            let unchanged = match config_map::get(original, key.as_str()) {
                Some(was) => text::same(was.as_str(), latest.as_str()),
                None => false,
            };
            proof {
                assert(new_entries[i as int].0 == key@);
                assert(has_entry(new_entries, key@));
            }
            if !unchanged {
                delta.insert(key.clone(), latest);
            }
            proof {
                let upto = new_entries.take(i as int);
                let next = new_entries.take(i + 1);
                assert forall|k: Seq<char>|
                    #![trigger delta@.dom().contains(k)]
                    delta@.dom().contains(k) <==> (has_entry(next, k) && delta_of(
                        old_entries,
                        new_entries,
                        k,
                    ) is Some) by {
                    if has_entry(upto, k) {
                        let j = choose|j: int| 0 <= j < upto.len() && #[trigger] upto[j].0 == k;
                        assert(next[j].0 == k);
                    }
                    if k == key@ {
                        assert(next[i as int].0 == k);
                    }
                    if has_entry(next, k) && k != key@ {
                        let j = choose|j: int| 0 <= j < next.len() && #[trigger] next[j].0 == k;
                        assert(upto[j].0 == k);
                    }
                    assert(before.dom().contains(k) <==> (has_entry(upto, k) && delta_of(
                        old_entries,
                        new_entries,
                        k,
                    ) is Some));
                }
            }
        }
        i = i + 1;
    }
    proof {
        assert(new_entries.take(new_entries.len() as int) =~= new_entries);
    }
    let mut j: usize = 0;
    while j < config_map::len(original)
        invariant
            old_entries == config_entries(*original),
            new_entries == config_entries(*current),
            j <= old_entries.len(),
            forall|k: Seq<char>|
                #![trigger delta@.dom().contains(k)]
                delta@.dom().contains(k) <==> ((has_entry(new_entries, k) || has_entry(
                    old_entries.take(j as int),
                    k,
                )) && delta_of(old_entries, new_entries, k) is Some),
            forall|k: Seq<char>| #[trigger]
                delta@.dom().contains(k) ==> delta@[k]@ == delta_of(old_entries, new_entries, k)->0,
        decreases old_entries.len() - j,
    {
        if let Some((key, _)) = config_map::entry_at(original, j) {
            let ghost before = delta@;
            proof {
                assert(old_entries[j as int].0 == key@);
                assert(has_entry(old_entries, key@));
            }
            if config_map::get(current, key.as_str()).is_none() {
                delta.insert(key.clone(), String::new());
            }
            proof {
                let upto = old_entries.take(j as int);
                let next = old_entries.take(j + 1);
                assert forall|k: Seq<char>|
                    #![trigger delta@.dom().contains(k)]
                    delta@.dom().contains(k) <==> ((has_entry(new_entries, k) || has_entry(next, k))
                        && delta_of(old_entries, new_entries, k) is Some) by {
                    if has_entry(upto, k) {
                        let m = choose|m: int| 0 <= m < upto.len() && #[trigger] upto[m].0 == k;
                        assert(next[m].0 == k);
                    }
                    if k == key@ {
                        assert(next[j as int].0 == k);
                    }
                    if has_entry(next, k) && k != key@ {
                        let m = choose|m: int| 0 <= m < next.len() && #[trigger] next[m].0 == k;
                        assert(upto[m].0 == k);
                    }
                    assert(before.dom().contains(k) <==> ((has_entry(new_entries, k) || has_entry(
                        upto,
                        k,
                    )) && delta_of(old_entries, new_entries, k) is Some));
                }
            }
        }
        j = j + 1;
    }
    proof {
        assert(old_entries.take(j as int) =~= old_entries);
        assert forall|k: Seq<char>| #[trigger]
            delta@.dom().contains(k) <==> delta_of(old_entries, new_entries, k) is Some by {
            assert(delta@.dom().contains(k) <==> ((has_entry(new_entries, k) || has_entry(
                old_entries,
                k,
            )) && delta_of(old_entries, new_entries, k) is Some));
        }
    }
    delta
}

/// An update is sent by enter on the button alone, where no entry is half typed and something
/// changed; escape closes the modal; and what is refused is said.
pub proof fn lemma_updates_are_sent_by_the_button(
    form: UpdateProviderForm,
    key: KeyEvent,
    post: UpdateProviderForm,
    outcome: UpdateOutcome,
)
    requires
        form.key_step(key, post, outcome),
    ensures
        ({
            let whole = form.config_key_input@.len() > 0 && form.config_value_input@.len() > 0;
            let half = (form.config_key_input@.len() > 0) != (form.config_value_input@.len() > 0);
            let entries = if whole {
                with_entry(form.entries(), form.config_key_input@, form.config_value_input@)
            } else {
                form.entries()
            };
            let changed = form.new_value@.len() > 0 || !same_entries(
                entries,
                config_entries(form.original_config),
            );
            let pressed = key.code == KeyCode::Enter && form.focus == UpdateProviderField::Submit;
            &&& outcome == UpdateOutcome::Update <==> pressed && !half && changed
            &&& outcome == UpdateOutcome::Close <==> key.code == KeyCode::Esc
            &&& outcome == UpdateOutcome::Update ==> post.entries() == entries && post.new_value
                == form.new_value
            &&& pressed && half ==> (post.status matches Some(why) && why@
                == "Both key and value are required to add config entry."@)
            &&& pressed && !half && !changed ==> (post.status matches Some(why) && why@
                == "Credential value or config keys required."@)
            &&& post.provider_name == form.provider_name
            &&& post.provider_type == form.provider_type
            &&& post.credential_key == form.credential_key
            &&& post.original_config == form.original_config
        }),
{
}

/// Each key changes the field in focus alone, by what was typed.
pub proof fn lemma_update_keys_change_the_field_in_focus(
    form: UpdateProviderForm,
    c: char,
    post: UpdateProviderForm,
    outcome: UpdateOutcome,
)
    requires
        form.key_step((KeyEvent { code: KeyCode::Char(c), control: false }), post, outcome),
    ensures
        outcome == UpdateOutcome::Stay,
        post.focus == form.focus,
        post.new_value@ == if form.focus == UpdateProviderField::CredentialValue {
            form.new_value@.push(c)
        } else {
            form.new_value@
        },
        post.config_key_input@ == if form.focus == UpdateProviderField::ConfigKey {
            form.config_key_input@.push(c)
        } else {
            form.config_key_input@
        },
        post.config_value_input@ == if form.focus == UpdateProviderField::ConfigValue {
            form.config_value_input@.push(c)
        } else {
            form.config_value_input@
        },
        post.config == form.config,
        post.deleted_keys == form.deleted_keys,
{
}

/// Tab goes through the fields in their order: the new value of the credential, the entries one by
/// one, the new key, its value, the button, and the credential again.
pub proof fn lemma_update_tab_goes_through_the_fields(
    form: UpdateProviderForm,
    key: KeyEvent,
    post: UpdateProviderForm,
    outcome: UpdateOutcome,
)
    requires
        key.code == KeyCode::Tab,
        form.key_step(key, post, outcome),
        form.entries().len() <= usize::MAX,
    ensures
        form.focus == UpdateProviderField::CredentialValue && form.entries().len() > 0 ==> post.focus
            == UpdateProviderField::ConfigEntry && post.config_cursor == 0,
        form.focus == UpdateProviderField::CredentialValue && form.entries().len() == 0
            ==> post.focus == UpdateProviderField::ConfigKey,
        form.focus == UpdateProviderField::ConfigEntry && form.config_cursor + 1
            < form.entries().len() ==> post.focus == UpdateProviderField::ConfigEntry
            && post.config_cursor == form.config_cursor + 1,
        form.focus == UpdateProviderField::ConfigEntry && form.config_cursor + 1
            >= form.entries().len() ==> post.focus == UpdateProviderField::ConfigKey,
        form.focus == UpdateProviderField::ConfigKey ==> post.focus
            == UpdateProviderField::ConfigValue,
        form.focus == UpdateProviderField::ConfigValue && form.config_key_input@.len() == 0
            && form.config_value_input@.len() == 0 ==> post.focus == UpdateProviderField::Submit,
        form.focus == UpdateProviderField::Submit ==> post.focus
            == UpdateProviderField::CredentialValue,
        post.new_value == form.new_value,
{
}

/// A deletion takes away the selected entry alone, and remembers its key behind those that were
/// deleted before.
pub proof fn lemma_deleted_entry_is_remembered(
    form: UpdateProviderForm,
    post: UpdateProviderForm,
    outcome: UpdateOutcome,
)
    requires
        form.focus == UpdateProviderField::ConfigEntry,
        form.config_cursor < form.entries().len(),
        forall|i: int, j: int|
            0 <= i < j < form.entries().len() ==> #[trigger] form.entries()[i].0
                != #[trigger] form.entries()[j].0,
        form.key_step((KeyEvent { code: KeyCode::Char('d'), control: true }), post, outcome),
    ensures
        post.entries() == form.entries().remove(form.config_cursor as int),
        post.deleted_keys@.len() == form.deleted_keys@.len() + 1,
        post.deleted_keys@.last()@ == form.entries()[form.config_cursor as int].0,
        forall|i: int| 0 <= i < form.deleted_keys@.len() ==> #[trigger] post.deleted_keys@[i]
            == form.deleted_keys@[i],
        outcome == UpdateOutcome::Stay,
{
    config_map::lemma_entry_place(form.entries(), form.config_cursor as int);
    assert forall|i: int| 0 <= i < form.deleted_keys@.len() implies #[trigger] post.deleted_keys@[i]
        == form.deleted_keys@[i] by {
        assert(post.deleted_keys@.drop_last()[i] == post.deleted_keys@[i]);
    }
}

/// What an update sends of the configuration is what differs: every key whose value changed or is
/// new with its value, every key that is gone with an empty one, and no other.
pub proof fn lemma_updates_send_the_difference(
    original: Seq<(Seq<char>, Seq<char>)>,
    current: Seq<(Seq<char>, Seq<char>)>,
    delta: Map<Seq<char>, String>,
    i: int,
)
    requires
        is_delta(original, current, delta),
        forall|i: int, j: int|
            0 <= i < j < current.len() ==> #[trigger] current[i].0 != #[trigger] current[j].0,
        forall|i: int, j: int|
            0 <= i < j < original.len() ==> #[trigger] original[i].0 != #[trigger] original[j].0,
    ensures
        0 <= i < current.len() && !original.contains(current[i]) ==> delta.dom().contains(
            current[i].0,
        ) && delta[current[i].0]@ == current[i].1,
        0 <= i < current.len() && original.contains(current[i]) ==> !delta.dom().contains(
            current[i].0,
        ),
        0 <= i < original.len() && !has_entry(current, original[i].0) ==> delta.dom().contains(
            original[i].0,
        ) && delta[original[i].0]@.len() == 0,
        forall|key: Seq<char>|
            !has_entry(current, key) && !has_entry(original, key) ==> !#[trigger] delta.dom().contains(
                key,
            ),
{
    if 0 <= i < current.len() {
        let key = current[i].0;
        config_map::lemma_entry_place(current, i);
        assert(has_entry(current, key));
        if has_entry(original, key) {
            let j = choose|j: int| 0 <= j < original.len() && #[trigger] original[j].0 == key;
            config_map::lemma_entry_place(original, j);
            if original.contains(current[i]) {
                let k = choose|k: int| 0 <= k < original.len() && original[k] == current[i];
                config_map::lemma_entry_place(original, k);
            } else {
                assert(original[j] != current[i]);
            }
        } else if original.contains(current[i]) {
            let k = choose|k: int| 0 <= k < original.len() && original[k] == current[i];
            assert(original[k].0 == key);
        }
        assert(value_of(current, key) == Some(current[i].1));
        assert(delta.dom().contains(key) <==> delta_of(original, current, key) is Some);
    }
    if 0 <= i < original.len() {
        let key = original[i].0;
        assert(has_entry(original, key));
        assert(delta.dom().contains(key) <==> delta_of(original, current, key) is Some);
    }
}

/// Going back a field undoes going on to it; from a new value only where no entry is typed, which
/// would be added first.
pub proof fn lemma_update_back_tab_undoes_tab(
    form: UpdateProviderForm,
    between: UpdateProviderForm,
    post: UpdateProviderForm,
    outcome: UpdateOutcome,
    other: UpdateOutcome,
)
    requires
        form.key_step((KeyEvent { code: KeyCode::Tab, control: false }), between, outcome),
        between.key_step((KeyEvent { code: KeyCode::BackTab, control: false }), post, other),
        form.focus == UpdateProviderField::ConfigEntry ==> form.config_cursor
            < form.entries().len(),
        form.focus == UpdateProviderField::ConfigValue ==> form.config_key_input@.len() == 0
            && form.config_value_input@.len() == 0,
        form.entries().len() <= usize::MAX,
    ensures
        post.focus == form.focus,
        form.focus == UpdateProviderField::ConfigEntry ==> post.config_cursor
            == form.config_cursor,
        post.new_value == form.new_value,
        post.config == form.config,
        post.deleted_keys == form.deleted_keys,
{
}

/// An entry of which both parts are typed is added by enter on either of them, and by tab on its
/// value; what was typed is then cleared. One that is not whole is not added by any of them.
pub proof fn lemma_update_adds_whole_entries(
    form: UpdateProviderForm,
    key: KeyEvent,
    post: UpdateProviderForm,
    outcome: UpdateOutcome,
)
    requires
        form.key_step(key, post, outcome),
        (key.code == KeyCode::Enter && (form.focus == UpdateProviderField::ConfigKey || form.focus
            == UpdateProviderField::ConfigValue)) || (key.code == KeyCode::Tab && form.focus
            == UpdateProviderField::ConfigValue),
    ensures
        outcome == UpdateOutcome::Stay,
        form.config_key_input@.len() > 0 && form.config_value_input@.len() > 0 ==> {
            &&& post.entries() == with_entry(
                form.entries(),
                form.config_key_input@,
                form.config_value_input@,
            )
            &&& post.config_key_input@.len() == 0
            &&& post.config_value_input@.len() == 0
        },
        form.config_key_input@.len() == 0 || form.config_value_input@.len() == 0 ==> post.config
            == form.config && post.config_key_input == form.config_key_input
            && post.config_value_input == form.config_value_input,
        post.new_value == form.new_value,
        post.original_config == form.original_config,
        post.deleted_keys == form.deleted_keys,
{
}

/// On the list of entries the arrows move the selection by one entry, and not beyond the first or
/// the last; nothing is deleted without the control key.
pub proof fn lemma_update_arrows_move_through_the_entries(
    form: UpdateProviderForm,
    key: KeyEvent,
    post: UpdateProviderForm,
    outcome: UpdateOutcome,
)
    requires
        form.focus == UpdateProviderField::ConfigEntry,
        form.config_cursor < form.entries().len(),
        form.entries().len() <= usize::MAX,
        form.key_step(key, post, outcome),
    ensures
        key.code == KeyCode::Up && form.config_cursor > 0 ==> post.config_cursor + 1
            == form.config_cursor,
        key.code == KeyCode::Up && form.config_cursor == 0 ==> post.config_cursor == 0,
        key.code == KeyCode::Down && form.config_cursor + 1 < form.entries().len()
            ==> post.config_cursor == form.config_cursor + 1,
        key.code == KeyCode::Down && form.config_cursor + 1 == form.entries().len()
            ==> post.config_cursor == form.config_cursor,
        !(key.code == KeyCode::Char('d') && key.control) ==> post.config == form.config
            && post.deleted_keys == form.deleted_keys,
        key.code == KeyCode::Up || key.code == KeyCode::Down ==> post.focus == form.focus,
{
}

} // verus!
