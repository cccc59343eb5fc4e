//! The create provider modal.

use vstd::prelude::*;
use indexmap::IndexMap;
use crate::text;
use crate::text::texts;
use crate::text_map::TextMap;
use crate::tui::config_map;
use crate::tui::config_map::{config_entries, with_entry, without_entry, entry_place};
use crate::tui::context::KeyContext;
use crate::tui::keys::{handle_text_input, typed, KeyCode, KeyEvent};
use crate::tui::model::{CreateProviderForm, CreateProviderPhase, ProviderKeyField};

verus! {

/// What `config`, `key` and `value` hold after the entry being typed was added, where both its
/// parts are there.
pub open spec fn flushes(key: Seq<char>, value: Seq<char>) -> bool {
    key.len() > 0 && value.len() > 0
}

/// Moves the entry being typed into the configuration, where both its parts are there.
pub fn flush_config_input(
    config: &mut IndexMap<String, String>,
    key_input: &mut String,
    value_input: &mut String,
) -> (flushed: bool)
    ensures
        flushed == flushes(old(key_input)@, old(value_input)@),
        flushed ==> {
            &&& config_entries(*final(config)) == with_entry(
                config_entries(*old(config)),
                old(key_input)@,
                old(value_input)@,
            )
            &&& final(key_input)@ == Seq::<char>::empty()
            &&& final(value_input)@ == Seq::<char>::empty()
        },
        !flushed ==> {
            &&& *final(config) == *old(config)
            &&& *final(key_input) == *old(key_input)
            &&& *final(value_input) == *old(value_input)
        },
{
    if key_input.as_str().is_empty() || value_input.as_str().is_empty() {
        return false;
    }
    let mut key = String::new();
    let mut value = String::new();
    std::mem::swap(&mut key, key_input);
    std::mem::swap(&mut value, value_input);
    config_map::insert(config, key, value);
    true
}

/// `base` with the number `i` behind it.
pub open spec fn numbered(base: Seq<char>, i: nat) -> Seq<char> {
    base + "-"@ + text::decimal_of(i)
}

/// Whether `i` is the first number that makes a free name of `base`.
pub open spec fn first_free(base: Seq<char>, existing: Seq<Seq<char>>, i: nat) -> bool {
    &&& 1 <= i
    &&& !existing.contains(numbered(base, i))
    &&& forall|j: nat| 1 <= j < i ==> existing.contains(#[trigger] numbered(base, j))
}

/// `base` where it is not taken, or else the first free `base-i`.
pub open spec fn unique_name(base: Seq<char>, existing: Seq<Seq<char>>) -> Seq<char> {
    if !existing.contains(base) {
        base
    } else {
        numbered(base, choose|i: nat| first_free(base, existing, i))
    }
}

/// There is only one first number that makes a free name.
proof fn lemma_first_free_is_one(base: Seq<char>, existing: Seq<Seq<char>>, i: nat, k: nat)
    requires
        first_free(base, existing, i),
        first_free(base, existing, k),
    ensures
        i == k,
{
    if i < k {
        assert(existing.contains(numbered(base, i)));
    } else if k < i {
        assert(existing.contains(numbered(base, k)));
    }
}

/// Two numbers make two names, and none of them is the base.
proof fn lemma_numbered_differ(base: Seq<char>, i: nat, k: nat)
    ensures
        numbered(base, i) != base,
        i != k ==> numbered(base, i) != numbered(base, k),
{
    reveal_strlit("-");
    text::lemma_decimal_not_empty(i);
    assert(numbered(base, i).len() > base.len());
    let at = base.len() as int + 1;
    assert(numbered(base, i).skip(at) =~= text::decimal_of(i));
    assert(numbered(base, k).skip(at) =~= text::decimal_of(k));
    if i != k {
        text::lemma_decimal_injective(i, k);
    }
}

/// A base and its numbers up to `i` cannot all be taken by fewer names than that.
proof fn lemma_a_number_is_free(base: Seq<char>, existing: Seq<Seq<char>>, i: nat)
    requires
        existing.contains(base),
        forall|j: nat| 1 <= j <= i ==> existing.contains(#[trigger] numbered(base, j)),
    ensures
        i < existing.len(),
{
    let names = Seq::new(
        i + 1,
        |j: int|
            if j == 0 {
                base
            } else {
                numbered(base, j as nat)
            },
    );
    assert forall|a: int, b: int| 0 <= a < names.len() && 0 <= b < names.len() && a != b implies names[
        a] != names[b] by {
        lemma_numbered_differ(base, a as nat, b as nat);
        lemma_numbered_differ(base, b as nat, a as nat);
    }
    names.unique_seq_to_set();
    existing.lemma_cardinality_of_set();
    assert(names.to_set().subset_of(existing.to_set())) by {
        assert forall|n: Seq<char>| names.to_set().contains(n) implies existing.to_set().contains(
            n,
        ) by {
            let j = choose|j: int| 0 <= j < names.len() && names[j] == n;
            if j > 0 {
                assert(existing.contains(numbered(base, j as nat)));
            }
        }
    }
    vstd::set_lib::lemma_len_subset(names.to_set(), existing.to_set());
}

/// Generates a unique provider name by appending `-1`, `-2`, etc. if needed.
pub fn unique_provider_name(base: &str, existing: &Vec<String>) -> (name: String)
    ensures
        name@ == unique_name(base@, texts(existing@)),
        !texts(existing@).contains(name@),
        texts(existing@).contains(base@) ==> exists|i: nat| #[trigger]
            first_free(base@, texts(existing@), i) && name@ == numbered(base@, i),
{
    if !text::is_one_of(existing, base) {
        return base.to_string();
    }
    let n: usize = existing.len();
    let mut i: u64 = 1;
    loop
        invariant
            1 <= i <= n,
            n == existing@.len(),
            texts(existing@).contains(base@),
            forall|j: nat|
                1 <= j < i ==> texts(existing@).contains(#[trigger] numbered(base@, j)),
        decreases n - i,
    {
        let mut candidate = base.to_string();
        candidate.append("-");
        let digits = text::decimal(i);
        candidate.append(digits.as_str());
        if !text::is_one_of(existing, candidate.as_str()) {
            proof {
                assert(first_free(base@, texts(existing@), i as nat));
                let first = choose|k: nat| first_free(base@, texts(existing@), k);
                lemma_first_free_is_one(base@, texts(existing@), i as nat, first);
            }
            return candidate;
        }
        proof {
            lemma_a_number_is_free(base@, texts(existing@), i as nat);
        }
        i = i + 1;
    }
}

/// A number that makes a free name, counted from `i` on, where the numbers before are taken.
proof fn lemma_first_free_exists(base: Seq<char>, existing: Seq<Seq<char>>, i: nat)
    requires
        existing.contains(base),
        1 <= i <= existing.len(),
        forall|j: nat| 1 <= j < i ==> existing.contains(#[trigger] numbered(base, j)),
    ensures
        exists|k: nat| first_free(base, existing, k),
    decreases existing.len() - i,
{
    if existing.contains(numbered(base, i)) {
        lemma_a_number_is_free(base, existing, i);
        lemma_first_free_exists(base, existing, i + 1);
    } else {
        assert(first_free(base, existing, i));
    }
}

/// A generated name is none of the existing ones. It is the base where that is free, or else the
/// base with the first number that makes a free name.
pub proof fn lemma_unique_name_is_free(base: Seq<char>, existing: Seq<Seq<char>>)
    ensures
        !existing.contains(unique_name(base, existing)),
        existing.contains(base) ==> exists|i: nat| #[trigger]
            first_free(base, existing, i) && unique_name(base, existing) == numbered(base, i),
{
    if existing.contains(base) {
        lemma_first_free_exists(base, existing, 1);
        let i = choose|i: nat| first_free(base, existing, i);
        assert(unique_name(base, existing) == numbered(base, i));
    }
}

/// What a key press in the modal asks of the interface.
#[derive(Debug, Clone, Copy, PartialEq, Eq, Structural)]
pub enum FormOutcome {
    /// Keep the modal open.
    Stay,
    /// Close the modal.
    Close,
    /// Keep the modal open and create the provider.
    Create,
}

/// The credentials to send: the rows that have a value, a later row of a name winning.
pub open spec fn filled_credentials(rows: Seq<(String, String)>) -> Map<Seq<char>, String>
    decreases rows.len(),
{
    if rows.len() == 0 {
        Map::empty()
    } else if rows.last().1@.len() > 0 {
        filled_credentials(rows.drop_last()).insert(rows.last().0@, rows.last().1)
    } else {
        filled_credentials(rows.drop_last())
    }
}

impl CreateProviderForm {
    /// The cursors stand in their lists. There may be no types but where the type decides what comes
    /// next.
    pub open spec fn wf(self) -> bool {
        &&& self.type_cursor < self.types@.len() || (self.types@.len() == 0 && self.type_cursor
            == 0 && self.phase != CreateProviderPhase::ChooseMethod)
        &&& self.method_cursor <= 1
        &&& self.config_cursor < usize::MAX
    }

    /// Whether there is a type to take where `key` takes one.
    pub open spec fn has_choice(self, key: KeyEvent) -> bool {
        self.phase == CreateProviderPhase::SelectType && key.code == KeyCode::Enter
            ==> self.types@.len() > 0
    }

    /// Tells whether there is a type to take where `key` takes one.
    pub fn can_choose(&self, key: KeyEvent) -> (yes: bool)
        ensures
            yes == self.has_choice(key),
    {
        !(self.phase == CreateProviderPhase::SelectType && key.code == KeyCode::Enter)
            || self.types.len() > 0
    }

    /// The configuration entries.
    pub open spec fn entries(self) -> Seq<(Seq<char>, Seq<char>)> {
        config_entries(self.config)
    }

    /// The form with the focus on `field`.
    pub open spec fn at_field(self, field: ProviderKeyField) -> Self {
        CreateProviderForm { key_field: field, ..self }
    }

    /// The form with the focus on the first of the configuration fields.
    pub open spec fn at_config(self) -> Self {
        if self.entries().len() == 0 {
            self.at_field(ProviderKeyField::ConfigKeyName)
        } else {
            CreateProviderForm {
                key_field: ProviderKeyField::ConfigList,
                config_cursor: 0,
                ..self
            }
        }
    }

    /// The form with the focus on the first or on the last credential row.
    pub open spec fn at_credential(self, row: int) -> Self {
        CreateProviderForm {
            key_field: ProviderKeyField::Credential,
            cred_cursor: row as usize,
            ..self
        }
    }

    /// The form one step further down the list of entries, and then on the new key.
    pub open spec fn down_list(self) -> Self {
        if self.config_cursor + 1 < self.entries().len() {
            CreateProviderForm { config_cursor: (self.config_cursor + 1) as usize, ..self }
        } else {
            self.at_field(ProviderKeyField::ConfigKeyName)
        }
    }

    /// The form with the focus one field further on, from any field but the new value.
    pub open spec fn tabbed(self) -> Self {
        match self.key_field {
            ProviderKeyField::Name => if self.is_generic {
                self.at_field(ProviderKeyField::EnvVarName)
            } else if self.credentials@.len() == 0 {
                self.at_config()
            } else {
                self.at_credential(0)
            },
            ProviderKeyField::EnvVarName => if self.is_generic {
                self.at_field(ProviderKeyField::GenericValue)
            } else {
                self.at_field(ProviderKeyField::Name)
            },
            ProviderKeyField::GenericValue => if self.is_generic {
                self.at_config()
            } else {
                self.at_field(ProviderKeyField::Name)
            },
            ProviderKeyField::Credential => if self.is_generic {
                self.at_field(ProviderKeyField::Name)
            } else if self.cred_cursor + 1 < self.credentials@.len() {
                self.at_credential(self.cred_cursor + 1)
            } else {
                self.at_config()
            },
            ProviderKeyField::ConfigList => self.down_list(),
            ProviderKeyField::ConfigKeyName => self.at_field(ProviderKeyField::ConfigKeyValue),
            _ => self.at_field(ProviderKeyField::Name),
        }
    }

    /// Whether `post` is the form after the entry being typed was moved into the configuration,
    /// with everything else as `rest` has it.
    pub open spec fn flushed_into(self, rest: Self, post: Self) -> bool {
        &&& post == (CreateProviderForm {
            config: post.config,
            config_key_input: post.config_key_input,
            config_value_input: post.config_value_input,
            ..rest
        })
        &&& post.entries() == with_entry(
            self.entries(),
            self.config_key_input@,
            self.config_value_input@,
        )
        &&& post.config_key_input@ == Seq::<char>::empty()
        &&& post.config_value_input@ == Seq::<char>::empty()
    }

    /// The form back on the new key, with the last entry selected.
    pub open spec fn at_new_key(self, entries: nat) -> Self {
        CreateProviderForm {
            key_field: ProviderKeyField::ConfigKeyName,
            config_cursor: (if entries > 0 {
                entries - 1
            } else {
                0
            }) as usize,
            ..self
        }
    }

    /// Whether both parts of the entry being typed are there.
    pub open spec fn entry_ready(self) -> bool {
        flushes(self.config_key_input@, self.config_value_input@)
    }

    /// Whether only one part of the entry being typed is there.
    pub open spec fn entry_partial(self) -> bool {
        !self.entry_ready() && (self.config_key_input@.len() > 0 || self.config_value_input@.len()
            > 0)
    }

    /// Tab on any field.
    pub open spec fn tab_step(self, post: Self) -> bool {
        if self.key_field != ProviderKeyField::ConfigKeyValue {
            post == self.tabbed()
        } else if self.entry_ready() {
            self.flushed_into(self.at_new_key(post.entries().len()), post)
        } else if self.entry_partial() {
            &&& post == (CreateProviderForm {
                status: post.status,
                ..self.at_field(ProviderKeyField::ConfigKeyName)
            })
            &&& post.status matches Some(s) && s@
                == "Both key and value required to add config entry."@
        } else {
            post == self.at_field(ProviderKeyField::Submit)
        }
    }

    /// The form with the focus on the last of the fields before the configuration.
    pub open spec fn before_config(self) -> Self {
        if self.is_generic {
            self.at_field(ProviderKeyField::GenericValue)
        } else if self.credentials@.len() == 0 {
            self.at_field(ProviderKeyField::Name)
        } else {
            self.at_credential(self.credentials@.len() - 1)
        }
    }

    /// The form with the focus one field back.
    pub open spec fn back_tabbed(self) -> Self {
        match self.key_field {
            ProviderKeyField::EnvVarName => if self.is_generic {
                self.at_field(ProviderKeyField::Name)
            } else {
                self.at_field(ProviderKeyField::Submit)
            },
            ProviderKeyField::GenericValue => if self.is_generic {
                self.at_field(ProviderKeyField::EnvVarName)
            } else {
                self.at_field(ProviderKeyField::Submit)
            },
            ProviderKeyField::Credential => if self.is_generic {
                self.at_field(ProviderKeyField::Submit)
            } else if self.cred_cursor > 0 {
                self.at_credential(self.cred_cursor - 1)
            } else {
                self.at_field(ProviderKeyField::Name)
            },
            ProviderKeyField::ConfigList => if self.config_cursor > 0 {
                CreateProviderForm { config_cursor: (self.config_cursor - 1) as usize, ..self }
            } else {
                self.before_config()
            },
            ProviderKeyField::ConfigKeyName => if self.entries().len() == 0 {
                self.before_config()
            } else {
                CreateProviderForm {
                    key_field: ProviderKeyField::ConfigList,
                    config_cursor: (self.entries().len() - 1) as usize,
                    ..self
                }
            },
            ProviderKeyField::ConfigKeyValue => self.at_field(ProviderKeyField::ConfigKeyName),
            ProviderKeyField::Submit => self.at_field(ProviderKeyField::ConfigKeyValue),
            ProviderKeyField::Name => self.at_field(ProviderKeyField::Submit),
        }
    }

    /// Any other key on the list of entries.
    pub open spec fn list_step(self, key: KeyEvent, post: Self) -> bool {
        let n = self.entries().len();
        match key.code {
            KeyCode::Up => post == (CreateProviderForm {
                config_cursor: (if self.config_cursor > 0 {
                    self.config_cursor - 1
                } else {
                    0
                }) as usize,
                ..self
            }),
            KeyCode::Down => if n == 0 {
                post == self
            } else {
                post == (CreateProviderForm {
                    config_cursor: (if self.config_cursor + 1 < n {
                        self.config_cursor + 1
                    } else {
                        n - 1
                    }) as usize,
                    ..self
                })
            },
            KeyCode::Char(c) => if c == 'd' && key.control && n > 0 {
                self.deleted_step(post)
            } else {
                post == self
            },
            _ => post == self,
        }
    }

    /// The entry that a deletion takes away: the selected one, or the one with the empty key
    /// where none is selected.
    pub open spec fn doomed(self) -> int {
        if self.config_cursor < self.entries().len() {
            entry_place(self.entries(), self.entries()[self.config_cursor as int].0)
        } else {
            entry_place(self.entries(), Seq::empty())
        }
    }

    /// The deletion of the selected entry.
    pub open spec fn deleted_step(self, post: Self) -> bool {
        let n = post.entries().len();
        &&& post.entries() == without_entry(self.entries(), self.doomed())
        &&& post == (CreateProviderForm {
            config: post.config,
            config_cursor: (if n == 0 {
                0
            } else if self.config_cursor < n {
                self.config_cursor as int
            } else {
                n - 1
            }) as usize,
            key_field: if n == 0 {
                ProviderKeyField::ConfigKeyName
            } else {
                self.key_field
            },
            ..self
        })
    }

    /// Whether `post` is the form after the submit was refused with `message`, the entry being
    /// typed having been added before where it was complete.
    pub open spec fn refused(self, post: Self, message: Seq<char>) -> bool {
        &&& post == (CreateProviderForm {
            config: post.config,
            config_key_input: post.config_key_input,
            config_value_input: post.config_value_input,
            status: post.status,
            ..self
        })
        &&& post.status matches Some(s) && s@ == message
        &&& self.after_flush(post)
    }

    /// The configuration and its inputs after the entry being typed was added, where it was
    /// complete.
    pub open spec fn after_flush(self, post: Self) -> bool {
        if self.entry_ready() {
            &&& post.entries() == with_entry(
                self.entries(),
                self.config_key_input@,
                self.config_value_input@,
            )
            &&& post.config_key_input@ == Seq::<char>::empty()
            &&& post.config_value_input@ == Seq::<char>::empty()
        } else {
            &&& post.config == self.config
            &&& post.config_key_input == self.config_key_input
            &&& post.config_value_input == self.config_value_input
        }
    }

    /// The credentials that a submit sends.
    pub open spec fn submitted_credentials(self) -> Map<Seq<char>, String> {
        if self.is_generic {
            Map::empty().insert(self.generic_env_name@, self.generic_value)
        } else {
            filled_credentials(self.credentials@)
        }
    }

    /// Why a submit is refused, where it is.
    pub open spec fn submit_error(self) -> Option<Seq<char>> {
        if self.entry_partial() {
            Some("Both key and value are required to add config entry."@)
        } else if self.is_generic && self.generic_env_name@.len() == 0 {
            Some("Env var name is required."@)
        } else if self.is_generic && self.generic_value@.len() == 0 {
            Some("Value is required."@)
        } else if !self.is_generic && filled_credentials(self.credentials@) == Map::<
            Seq<char>,
            String,
        >::empty() {
            Some("At least one credential is required."@)
        } else {
            None
        }
    }

    /// Enter on the submit field.
    pub open spec fn submit_step(self, now: u64, post: Self, outcome: FormOutcome) -> bool {
        match self.submit_error() {
            Some(message) => outcome == FormOutcome::Stay && self.refused(post, message),
            None => {
                &&& outcome == FormOutcome::Create
                &&& post == (CreateProviderForm {
                    config: post.config,
                    config_key_input: post.config_key_input,
                    config_value_input: post.config_value_input,
                    discovered_credentials: post.discovered_credentials,
                    phase: CreateProviderPhase::Creating,
                    anim_start: Some(now),
                    status: None,
                    ..self
                })
                &&& self.after_flush(post)
                &&& post.discovered_credentials matches Some(m) && m@
                    == self.submitted_credentials()
            },
        }
    }

    /// Any other key on a field of the key entry.
    pub open spec fn field_step(
        self,
        key: KeyEvent,
        now: u64,
        post: Self,
        outcome: FormOutcome,
    ) -> bool {
        if self.key_field == ProviderKeyField::Submit {
            if key.code == KeyCode::Enter {
                self.submit_step(now, post, outcome)
            } else {
                outcome == FormOutcome::Stay && post == self
            }
        } else {
            &&& outcome == FormOutcome::Stay
            &&& match self.key_field {
                ProviderKeyField::Name => {
                    &&& post == (CreateProviderForm { name: post.name, ..self })
                    &&& post.name@ == typed(self.name@, key.code)
                },
                ProviderKeyField::Credential => {
                    &&& post == (CreateProviderForm { credentials: post.credentials, ..self })
                    &&& post.credentials@.len() == self.credentials@.len()
                    &&& forall|i: int|
                        0 <= i < self.credentials@.len() ==> {
                            &&& (#[trigger] post.credentials@[i]).0 == self.credentials@[i].0
                            &&& post.credentials@[i].1@ == if i == self.cred_cursor {
                                typed(self.credentials@[i].1@, key.code)
                            } else {
                                self.credentials@[i].1@
                            }
                        }
                },
                ProviderKeyField::ConfigList => self.list_step(key, post),
                ProviderKeyField::ConfigKeyName => if key.code == KeyCode::Enter {
                    if self.entry_ready() {
                        self.flushed_into(self, post)
                    } else {
                        post == self
                    }
                } else {
                    &&& post == (CreateProviderForm {
                        config_key_input: post.config_key_input,
                        ..self
                    })
                    &&& post.config_key_input@ == typed(self.config_key_input@, key.code)
                },
                ProviderKeyField::ConfigKeyValue => if key.code == KeyCode::Enter {
                    if self.entry_ready() {
                        self.flushed_into(self.at_new_key(post.entries().len()), post)
                    } else {
                        post == self
                    }
                } else {
                    &&& post == (CreateProviderForm {
                        config_value_input: post.config_value_input,
                        ..self
                    })
                    &&& post.config_value_input@ == typed(self.config_value_input@, key.code)
                },
                ProviderKeyField::EnvVarName => {
                    &&& post == (CreateProviderForm {
                        generic_env_name: post.generic_env_name,
                        ..self
                    })
                    &&& post.generic_env_name@ == typed(self.generic_env_name@, key.code)
                },
                ProviderKeyField::GenericValue => {
                    &&& post == (CreateProviderForm { generic_value: post.generic_value, ..self })
                    &&& post.generic_value@ == typed(self.generic_value@, key.code)
                },
                ProviderKeyField::Submit => true,
            }
        }
    }

    /// Escape from the key entry: back to the choice of a type, with the entries emptied.
    pub open spec fn abandoned(self, post: Self) -> bool {
        &&& post == (CreateProviderForm {
            phase: CreateProviderPhase::SelectType,
            status: None,
            warning: None,
            name: post.name,
            credentials: post.credentials,
            cred_cursor: 0,
            config: post.config,
            config_cursor: 0,
            config_key_input: post.config_key_input,
            config_value_input: post.config_value_input,
            generic_env_name: post.generic_env_name,
            generic_value: post.generic_value,
            ..self
        })
        &&& post.name@ == Seq::<char>::empty()
        &&& post.credentials@ == Seq::<(String, String)>::empty()
        &&& post.entries() == Seq::<(Seq<char>, Seq<char>)>::empty()
        &&& post.config_key_input@ == Seq::<char>::empty()
        &&& post.config_value_input@ == Seq::<char>::empty()
        &&& post.generic_env_name@ == Seq::<char>::empty()
        &&& post.generic_value@ == Seq::<char>::empty()
    }

    /// A key in the key entry phase.
    pub open spec fn enter_key_step(
        self,
        key: KeyEvent,
        now: u64,
        post: Self,
        outcome: FormOutcome,
    ) -> bool {
        match key.code {
            KeyCode::Esc => outcome == FormOutcome::Stay && self.abandoned(post),
            KeyCode::Tab => outcome == FormOutcome::Stay && self.tab_step(post),
            KeyCode::BackTab => outcome == FormOutcome::Stay && post == self.back_tabbed(),
            _ => self.field_step(key, now, post, outcome),
        }
    }

    /// Enter on a provider type.
    pub open spec fn type_chosen(
        self,
        context: KeyContext,
        names: Seq<Seq<char>>,
        post: Self,
    ) -> bool {
        let selected = self.types@[self.type_cursor as int]@;
        let env_vars = context.env_vars(selected);
        let generic = env_vars.len() == 0;
        &&& post == (CreateProviderForm {
            is_generic: generic,
            credentials: post.credentials,
            cred_cursor: 0,
            name: post.name,
            phase: if generic {
                CreateProviderPhase::EnterKey
            } else {
                CreateProviderPhase::ChooseMethod
            },
            key_field: if generic {
                ProviderKeyField::Name
            } else {
                self.key_field
            },
            status: if generic {
                None
            } else {
                self.status
            },
            warning: if generic {
                None
            } else {
                self.warning
            },
            method_cursor: if generic {
                self.method_cursor
            } else {
                0
            },
            ..self
        })
        &&& post.name@ == unique_name(selected, names)
        &&& post.credentials@.len() == env_vars.len()
        &&& forall|i: int|
            0 <= i < env_vars.len() ==> (#[trigger] post.credentials@[i]).0@ == env_vars[i]
                && post.credentials@[i].1@ == Seq::<char>::empty()
    }

    /// A key in the phase that picks a provider type.
    pub open spec fn select_type_step(
        self,
        key: KeyEvent,
        context: KeyContext,
        names: Seq<Seq<char>>,
        post: Self,
        outcome: FormOutcome,
    ) -> bool {
        if key.code == KeyCode::Esc {
            outcome == FormOutcome::Close && post == self
        } else {
            &&& outcome == FormOutcome::Stay
            &&& if key.code == KeyCode::Down || key.code == KeyCode::Char('j') {
                post == (CreateProviderForm {
                    type_cursor: (if self.type_cursor + 1 < self.types@.len() {
                        self.type_cursor + 1
                    } else {
                        self.type_cursor as int
                    }) as usize,
                    ..self
                })
            } else if key.code == KeyCode::Up || key.code == KeyCode::Char('k') {
                post == (CreateProviderForm {
                    type_cursor: (if self.type_cursor > 0 {
                        self.type_cursor - 1
                    } else {
                        0
                    }) as usize,
                    ..self
                })
            } else if key.code == KeyCode::Enter {
                self.type_chosen(context, names, post)
            } else {
                post == self
            }
        }
    }

    /// The form on its way to the key entry, with `warning` shown there.
    pub open spec fn manual(self, post: Self) -> bool {
        post == (CreateProviderForm {
            phase: CreateProviderPhase::EnterKey,
            key_field: ProviderKeyField::Name,
            warning: post.warning,
            status: None,
            ..self
        })
    }

    /// A key in the phase that chooses how the credentials are found.
    pub open spec fn choose_method_step(
        self,
        key: KeyEvent,
        context: KeyContext,
        names: Seq<Seq<char>>,
        post: Self,
        outcome: FormOutcome,
    ) -> bool {
        if key.code == KeyCode::Esc {
            &&& outcome == FormOutcome::Stay
            &&& post == (CreateProviderForm {
                phase: CreateProviderPhase::SelectType,
                status: None,
                warning: None,
                ..self
            })
        } else if key.code == KeyCode::Down || key.code == KeyCode::Up || key.code == KeyCode::Char(
            'j',
        ) || key.code == KeyCode::Char('k') {
            &&& outcome == FormOutcome::Stay
            &&& post == (CreateProviderForm {
                method_cursor: (1 - self.method_cursor) as usize,
                ..self
            })
        } else if key.code != KeyCode::Enter {
            outcome == FormOutcome::Stay && post == self
        } else if self.method_cursor != 0 {
            outcome == FormOutcome::Stay && self.manual(post) && post.warning is None
        } else if context.discovered is None {
            &&& outcome == FormOutcome::Stay
            &&& self.manual(post)
            &&& post.warning matches Some(w) && w@
                == "No credentials found in environment. Enter manually."@
        } else {
            &&& outcome == FormOutcome::Create
            &&& post == (CreateProviderForm {
                discovered_credentials: post.discovered_credentials,
                name: post.name,
                phase: CreateProviderPhase::Creating,
                anim_start: Some(context.now),
                ..self
            })
            &&& post.discovered_credentials matches Some(m) && m@ == context.discovered->0@
            &&& post.name@ == if self.name@.len() == 0 {
                unique_name(self.types@[self.type_cursor as int]@, names)
            } else {
                self.name@
            }
        }
    }

    /// What a key press does to the form: `post` is the form after it, `outcome` what it asks of
    /// the interface.
    pub open spec fn key_step(
        self,
        key: KeyEvent,
        context: KeyContext,
        names: Seq<Seq<char>>,
        post: Self,
        outcome: FormOutcome,
    ) -> bool {
        match self.phase {
            CreateProviderPhase::SelectType => self.select_type_step(
                key,
                context,
                names,
                post,
                outcome,
            ),
            CreateProviderPhase::ChooseMethod => self.choose_method_step(
                key,
                context,
                names,
                post,
                outcome,
            ),
            CreateProviderPhase::EnterKey => self.enter_key_step(key, context.now, post, outcome),
            CreateProviderPhase::Creating => outcome == FormOutcome::Stay && post == self,
        }
    }

    fn focus_config(&mut self)
        ensures
            *final(self) == old(self).at_config(),
    {
        if config_map::is_empty(&self.config) {
            self.key_field = ProviderKeyField::ConfigKeyName;
        } else {
            self.key_field = ProviderKeyField::ConfigList;
            self.config_cursor = 0;
        }
    }

    fn focus_before_config(&mut self)
        ensures
            *final(self) == old(self).before_config(),
    {
        if self.is_generic {
            self.key_field = ProviderKeyField::GenericValue;
        } else if self.credentials.len() == 0 {
            self.key_field = ProviderKeyField::Name;
        } else {
            self.key_field = ProviderKeyField::Credential;
            self.cred_cursor = self.credentials.len() - 1;
        }
    }

    fn flush(&mut self) -> (flushed: bool)
        ensures
            flushed == old(self).entry_ready(),
            flushed ==> old(self).flushed_into(*old(self), *final(self)),
            !flushed ==> *final(self) == *old(self),
    {
        flush_config_input(
            &mut self.config,
            &mut self.config_key_input,
            &mut self.config_value_input,
        )
    }

    fn select_new_key(&mut self)
        ensures
            *final(self) == old(self).at_new_key(old(self).entries().len()),
            final(self).config_cursor < usize::MAX,
    {
        self.key_field = ProviderKeyField::ConfigKeyName;
        let n: usize = config_map::len(&self.config);
        self.config_cursor = if n > 0 {
            n - 1
        } else {
            0
        };
    }

    fn handle_tab(&mut self)
        requires
            old(self).wf(),
        ensures
            final(self).wf(),
            old(self).tab_step(*final(self)),
    {
        match self.key_field {
            ProviderKeyField::Name => if self.is_generic {
                self.key_field = ProviderKeyField::EnvVarName;
            } else if self.credentials.len() == 0 {
                self.focus_config();
            } else {
                self.key_field = ProviderKeyField::Credential;
                self.cred_cursor = 0;
            },
            ProviderKeyField::EnvVarName => if self.is_generic {
                self.key_field = ProviderKeyField::GenericValue;
            } else {
                self.key_field = ProviderKeyField::Name;
            },
            ProviderKeyField::GenericValue => if self.is_generic {
                self.focus_config();
            } else {
                self.key_field = ProviderKeyField::Name;
            },
            ProviderKeyField::Credential => {
                let n: usize = self.credentials.len();
                if self.is_generic {
                    self.key_field = ProviderKeyField::Name;
                } else if n > 0 && self.cred_cursor < n - 1 {
                    self.cred_cursor = self.cred_cursor + 1;
                } else {
                    self.focus_config();
                }
            },
            ProviderKeyField::ConfigList => {
                let n: usize = config_map::len(&self.config);
                if n > 0 && self.config_cursor < n - 1 {
                    self.config_cursor = self.config_cursor + 1;
                } else {
                    self.key_field = ProviderKeyField::ConfigKeyName;
                }
            },
            ProviderKeyField::ConfigKeyName => {
                self.key_field = ProviderKeyField::ConfigKeyValue;
            },
            ProviderKeyField::ConfigKeyValue => {
                if self.flush() {
                    self.select_new_key();
                } else if self.config_key_input.as_str().is_empty()
                    && self.config_value_input.as_str().is_empty() {
                    self.key_field = ProviderKeyField::Submit;
                } else {
                    self.status = Some(
                        "Both key and value required to add config entry.".to_string(),
                    );
                    self.key_field = ProviderKeyField::ConfigKeyName;
                }
            },
            ProviderKeyField::Submit => {
                self.key_field = ProviderKeyField::Name;
            },
        }
    }

    fn handle_back_tab(&mut self)
        requires
            old(self).wf(),
        ensures
            final(self).wf(),
            *final(self) == old(self).back_tabbed(),
    {
        match self.key_field {
            ProviderKeyField::EnvVarName => if self.is_generic {
                self.key_field = ProviderKeyField::Name;
            } else {
                self.key_field = ProviderKeyField::Submit;
            },
            ProviderKeyField::GenericValue => if self.is_generic {
                self.key_field = ProviderKeyField::EnvVarName;
            } else {
                self.key_field = ProviderKeyField::Submit;
            },
            ProviderKeyField::Credential => if self.is_generic {
                self.key_field = ProviderKeyField::Submit;
            } else if self.cred_cursor > 0 {
                self.cred_cursor = self.cred_cursor - 1;
            } else {
                self.key_field = ProviderKeyField::Name;
            },
            ProviderKeyField::ConfigList => if self.config_cursor > 0 {
                self.config_cursor = self.config_cursor - 1;
            } else {
                self.focus_before_config();
            },
            ProviderKeyField::ConfigKeyName => {
                let n: usize = config_map::len(&self.config);
                if n == 0 {
                    self.focus_before_config();
                } else {
                    self.config_cursor = n - 1;
                    self.key_field = ProviderKeyField::ConfigList;
                }
            },
            ProviderKeyField::ConfigKeyValue => {
                self.key_field = ProviderKeyField::ConfigKeyName;
            },
            ProviderKeyField::Submit => {
                self.key_field = ProviderKeyField::ConfigKeyValue;
            },
            ProviderKeyField::Name => {
                self.key_field = ProviderKeyField::Submit;
            },
        }
    }

    fn delete_selected(&mut self)
        requires
            old(self).wf(),
        ensures
            final(self).wf(),
            old(self).deleted_step(*final(self)),
    {
        let key = match config_map::entry_at(&self.config, self.config_cursor) {
            Some(entry) => entry.0.clone(),
            None => String::new(),
        };
        config_map::shift_remove(&mut self.config, key.as_str());
        let n: usize = config_map::len(&self.config);
        if n == 0 {
            self.config_cursor = 0;
            self.key_field = ProviderKeyField::ConfigKeyName;
        } else if self.config_cursor > n - 1 {
            self.config_cursor = n - 1;
        }
    }

    fn handle_list_key(&mut self, key: KeyEvent)
        requires
            old(self).wf(),
        ensures
            final(self).wf(),
            old(self).list_step(key, *final(self)),
    {
        match key.code {
            KeyCode::Up => {
                self.config_cursor = if self.config_cursor > 0 {
                    self.config_cursor - 1
                } else {
                    0
                };
            },
            KeyCode::Down => {
                let n: usize = config_map::len(&self.config);
                if n > 0 {
                    self.config_cursor = if self.config_cursor < n - 1 {
                        self.config_cursor + 1
                    } else {
                        n - 1
                    };
                }
            },
            KeyCode::Char(c) => if c == 'd' && key.control && !config_map::is_empty(&self.config) {
                self.delete_selected();
            },
            _ => {},
        }
    }

    /// The credential rows that have a value.
    fn collect_credentials(&self) -> (map: TextMap<String>)
        ensures
            map@ == filled_credentials(self.credentials@),
    {
        let mut map: TextMap<String> = TextMap::new();
        let mut i: usize = 0;
        assert(self.credentials@.take(0) =~= Seq::empty());
        while i < self.credentials.len()
            invariant
                i <= self.credentials@.len(),
                map@ == filled_credentials(self.credentials@.take(i as int)),
            decreases self.credentials@.len() - i,
        {
            if !self.credentials[i].1.as_str().is_empty() {
                map.insert(self.credentials[i].0.clone(), self.credentials[i].1.clone());
            }
            proof {
                let now = self.credentials@.take(i + 1);
                assert(now.drop_last() =~= self.credentials@.take(i as int));
                assert(now.last() == self.credentials@[i as int]);
            }
            i = i + 1;
        }
        assert(self.credentials@.take(self.credentials@.len() as int) =~= self.credentials@);
        map
    }

    fn handle_submit(&mut self, now: u64) -> (outcome: FormOutcome)
        requires
            old(self).wf(),
            old(self).phase == CreateProviderPhase::EnterKey,
        ensures
            final(self).wf(),
            old(self).submit_step(now, *final(self), outcome),
    {
        self.flush();
        if !self.config_key_input.as_str().is_empty()
            || !self.config_value_input.as_str().is_empty() {
            self.status = Some("Both key and value are required to add config entry.".to_string());
            return FormOutcome::Stay;
        }
        let mut creds: TextMap<String> = TextMap::new();
        if self.is_generic {
            if self.generic_env_name.as_str().is_empty() {
                self.status = Some("Env var name is required.".to_string());
                return FormOutcome::Stay;
            }
            if self.generic_value.as_str().is_empty() {
                self.status = Some("Value is required.".to_string());
                return FormOutcome::Stay;
            }
            creds.insert(self.generic_env_name.clone(), self.generic_value.clone());
        } else {
            creds = self.collect_credentials();
            if creds.is_empty() {
                self.status = Some("At least one credential is required.".to_string());
                return FormOutcome::Stay;
            }
        }
        self.discovered_credentials = Some(creds);
        self.phase = CreateProviderPhase::Creating;
        self.anim_start = Some(now);
        self.status = None;
        FormOutcome::Create
    }

    fn handle_field_key(&mut self, key: KeyEvent, now: u64) -> (outcome: FormOutcome)
        requires
            old(self).wf(),
            old(self).phase == CreateProviderPhase::EnterKey,
        ensures
            final(self).wf(),
            old(self).field_step(key, now, *final(self), outcome),
    {
        match self.key_field {
            ProviderKeyField::Name => {
                handle_text_input(&mut self.name, key);
            },
            ProviderKeyField::Credential => {
                if self.cred_cursor < self.credentials.len() {
                    let at: usize = self.cred_cursor;
                    let name = self.credentials[at].0.clone();
                    let mut value = self.credentials[at].1.clone();
                    handle_text_input(&mut value, key);
                    self.credentials.set(at, (name, value));
                }
            },
            ProviderKeyField::ConfigList => {
                self.handle_list_key(key);
            },
            ProviderKeyField::ConfigKeyName => if key.code == KeyCode::Enter {
                self.flush();
            } else {
                handle_text_input(&mut self.config_key_input, key);
            },
            ProviderKeyField::ConfigKeyValue => if key.code == KeyCode::Enter {
                if self.flush() {
                    self.select_new_key();
                }
            } else {
                handle_text_input(&mut self.config_value_input, key);
            },
            ProviderKeyField::EnvVarName => {
                handle_text_input(&mut self.generic_env_name, key);
            },
            ProviderKeyField::GenericValue => {
                handle_text_input(&mut self.generic_value, key);
            },
            ProviderKeyField::Submit => if key.code == KeyCode::Enter {
                return self.handle_submit(now);
            },
        }
        FormOutcome::Stay
    }

    fn abandon(&mut self)
        requires
            old(self).wf(),
        ensures
            final(self).wf(),
            old(self).abandoned(*final(self)),
    {
        self.phase = CreateProviderPhase::SelectType;
        self.status = None;
        self.warning = None;
        self.name.clear();
        self.credentials.clear();
        self.cred_cursor = 0;
        config_map::clear(&mut self.config);
        self.config_cursor = 0;
        self.config_key_input.clear();
        self.config_value_input.clear();
        self.generic_env_name.clear();
        self.generic_value.clear();
    }

    fn choose_type(&mut self, context: &KeyContext, provider_names: &Vec<String>)
        requires
            old(self).wf(),
            old(self).types@.len() > 0,
        ensures
            final(self).wf(),
            old(self).type_chosen(*context, texts(provider_names@), *final(self)),
    {
        let selected = self.types[self.type_cursor].clone();
        let env_vars = context.credential_env_vars(selected.as_str());
        self.is_generic = env_vars.len() == 0;
        let mut rows: Vec<(String, String)> = Vec::new();
        let mut i: usize = 0;
        while i < env_vars.len()
            invariant
                i <= env_vars@.len(),
                rows@.len() == i,
                forall|j: int|
                    0 <= j < i ==> (#[trigger] rows@[j]).0@ == env_vars@[j]@ && rows@[j].1@ == Seq::<
                        char,
                    >::empty(),
            decreases env_vars@.len() - i,
        {
            rows.push((env_vars[i].clone(), String::new()));
            i = i + 1;
        }
        self.credentials = rows;
        self.cred_cursor = 0;
        self.name = unique_provider_name(selected.as_str(), provider_names);
        if self.is_generic {
            self.phase = CreateProviderPhase::EnterKey;
            self.key_field = ProviderKeyField::Name;
            self.status = None;
            self.warning = None;
        } else {
            self.phase = CreateProviderPhase::ChooseMethod;
            self.method_cursor = 0;
        }
        proof {
            let names = context.env_vars(selected@);
            assert forall|j: int| 0 <= j < names.len() implies (
            #[trigger] self.credentials@[j]).0@ == names[j] && self.credentials@[j].1@ == Seq::<
                char,
            >::empty() by {
                assert(names[j] == texts(env_vars@)[j]);
            }
        }
    }

    fn handle_select_type_key(
        &mut self,
        key: KeyEvent,
        context: &KeyContext,
        provider_names: &Vec<String>,
    ) -> (outcome: FormOutcome)
        requires
            old(self).wf(),
            old(self).phase == CreateProviderPhase::SelectType,
            old(self).has_choice(key),
        ensures
            final(self).wf(),
            old(self).select_type_step(
                key,
                *context,
                texts(provider_names@),
                *final(self),
                outcome,
            ),
    {
        match key.code {
            KeyCode::Esc => {
                return FormOutcome::Close;
            },
            KeyCode::Char('j') | KeyCode::Down => {
                if self.types.len() > 0 && self.type_cursor < self.types.len() - 1 {
                    self.type_cursor = self.type_cursor + 1;
                }
            },
            KeyCode::Char('k') | KeyCode::Up => {
                self.type_cursor = if self.type_cursor > 0 {
                    self.type_cursor - 1
                } else {
                    0
                };
            },
            KeyCode::Enter => {
                self.choose_type(context, provider_names);
            },
            _ => {},
        }
        FormOutcome::Stay
    }

    fn handle_choose_method_key(
        &mut self,
        key: KeyEvent,
        context: &KeyContext,
        provider_names: &Vec<String>,
    ) -> (outcome: FormOutcome)
        requires
            old(self).wf(),
            old(self).phase == CreateProviderPhase::ChooseMethod,
        ensures
            final(self).wf(),
            old(self).choose_method_step(
                key,
                *context,
                texts(provider_names@),
                *final(self),
                outcome,
            ),
    {
        match key.code {
            KeyCode::Esc => {
                self.phase = CreateProviderPhase::SelectType;
                self.status = None;
                self.warning = None;
            },
            KeyCode::Char('j') | KeyCode::Char('k') | KeyCode::Down | KeyCode::Up => {
                self.method_cursor = 1 - self.method_cursor;
            },
            KeyCode::Enter => {
                if self.method_cursor == 0 {
                    match &context.discovered {
                        Some(found) => {
                            self.discovered_credentials = Some(found.copy());
                            if self.name.as_str().is_empty() {
                                self.name = unique_provider_name(
                                    self.types[self.type_cursor].as_str(),
                                    provider_names,
                                );
                            }
                            self.phase = CreateProviderPhase::Creating;
                            self.anim_start = Some(context.now);
                            return FormOutcome::Create;
                        },
                        None => {
                            self.phase = CreateProviderPhase::EnterKey;
                            self.key_field = ProviderKeyField::Name;
                            self.warning = Some(
                                "No credentials found in environment. Enter manually.".to_string(),
                            );
                            self.status = None;
                        },
                    }
                } else {
                    self.phase = CreateProviderPhase::EnterKey;
                    self.key_field = ProviderKeyField::Name;
                    self.warning = None;
                    self.status = None;
                }
            },
            _ => {},
        }
        FormOutcome::Stay
    }

    /// Handles a key press; `provider_names` are the names already taken.
    pub fn handle_key(
        &mut self,
        key: KeyEvent,
        context: &KeyContext,
        provider_names: &Vec<String>,
    ) -> (outcome: FormOutcome)
        requires
            old(self).wf(),
            old(self).has_choice(key),
        ensures
            final(self).wf(),
            old(self).key_step(key, *context, texts(provider_names@), *final(self), outcome),
    {
        match self.phase {
            CreateProviderPhase::SelectType => self.handle_select_type_key(
                key,
                context,
                provider_names,
            ),
            CreateProviderPhase::ChooseMethod => self.handle_choose_method_key(
                key,
                context,
                provider_names,
            ),
            CreateProviderPhase::EnterKey => {
                match key.code {
                    KeyCode::Esc => {
                        self.abandon();
                    },
                    KeyCode::Tab => {
                        self.handle_tab();
                    },
                    KeyCode::BackTab => {
                        self.handle_back_tab();
                    },
                    _ => {
                        return self.handle_field_key(key, context.now);
                    },
                }
                FormOutcome::Stay
            },
            CreateProviderPhase::Creating => FormOutcome::Stay,
        }
    }
}

/// A form with a half-typed configuration entry is not submitted: it says what is missing, and
/// nothing else of it changes.
pub proof fn lemma_half_typed_entry_is_refused(
    form: CreateProviderForm,
    key: KeyEvent,
    context: KeyContext,
    names: Seq<Seq<char>>,
    post: CreateProviderForm,
    outcome: FormOutcome,
)
    requires
        form.phase == CreateProviderPhase::EnterKey,
        form.key_field == ProviderKeyField::Submit,
        form.entry_partial(),
        key.code == KeyCode::Enter,
        form.key_step(key, context, names, post, outcome),
    ensures
        outcome == FormOutcome::Stay,
        post == (CreateProviderForm { status: post.status, ..form }),
        post.status matches Some(s) && s@ == "Both key and value are required to add config entry."@,
{
}

/// Whether a row of credentials has a value under `name`.
pub open spec fn row_fills(row: (String, String), name: Seq<char>) -> bool {
    row.0@ == name && row.1@.len() > 0
}

proof fn lemma_filled(rows: Seq<(String, String)>, name: Seq<char>)
    ensures
        filled_credentials(rows).dom().contains(name) <==> exists|i: int|
            0 <= i < rows.len() && row_fills(#[trigger] rows[i], name),
        forall|i: int|
            0 <= i < rows.len() && row_fills(#[trigger] rows[i], name) && (forall|j: int|
                i < j < rows.len() ==> !row_fills(#[trigger] rows[j], name)) ==> filled_credentials(
                rows,
            )[name] == rows[i].1,
    decreases rows.len(),
{
    if rows.len() > 0 {
        let before = rows.drop_last();
        let n = rows.len() - 1;
        lemma_filled(before, name);
        if filled_credentials(rows).dom().contains(name) {
            if row_fills(rows[n], name) {
            } else {
                let i = choose|i: int| 0 <= i < before.len() && row_fills(#[trigger] before[i], name);
                assert(row_fills(rows[i], name));
            }
        }
        if exists|i: int| 0 <= i < rows.len() && row_fills(#[trigger] rows[i], name) {
            let i = choose|i: int| 0 <= i < rows.len() && row_fills(#[trigger] rows[i], name);
            if i < n {
                assert(row_fills(before[i], name));
            }
        }
        assert forall|i: int|
            0 <= i < rows.len() && row_fills(#[trigger] rows[i], name) && (forall|j: int|
                i < j < rows.len() ==> !row_fills(#[trigger] rows[j], name)) implies filled_credentials(
            rows,
        )[name] == rows[i].1 by {
            if i < n {
                assert(!row_fills(rows[n], name));
                assert(row_fills(before[i], name));
                assert forall|j: int| i < j < before.len() implies !row_fills(
                    #[trigger] before[j],
                    name,
                ) by {
                    assert(!row_fills(rows[j], name));
                }
            }
        }
    }
}

/// A provider is asked for in two ways alone: by enter on the button, where no entry is half
/// typed and there is a credential, or by enter on the first method, where credentials were found
/// in the environment. It is then being created, and no key changes the form.
pub proof fn lemma_providers_are_created_with_credentials(
    form: CreateProviderForm,
    key: KeyEvent,
    context: KeyContext,
    names: Seq<Seq<char>>,
    post: CreateProviderForm,
    outcome: FormOutcome,
)
    requires
        form.key_step(key, context, names, post, outcome),
    ensures
        ({
            let whole = form.config_key_input@.len() > 0 && form.config_value_input@.len() > 0;
            let none = form.config_key_input@.len() == 0 && form.config_value_input@.len() == 0;
            let credited = if form.is_generic {
                form.generic_env_name@.len() > 0 && form.generic_value@.len() > 0
            } else {
                exists|i: int|
                    0 <= i < form.credentials@.len() && (#[trigger] form.credentials@[i]).1@.len()
                        > 0
            };
            let typed_in = form.phase == CreateProviderPhase::EnterKey && form.key_field
                == ProviderKeyField::Submit && key.code == KeyCode::Enter;
            let found = form.phase == CreateProviderPhase::ChooseMethod && key.code
                == KeyCode::Enter && form.method_cursor == 0 && context.discovered is Some;
            &&& outcome == FormOutcome::Create <==> (typed_in && (whole || none) && credited)
                || found
            &&& outcome == FormOutcome::Create ==> post.phase == CreateProviderPhase::Creating
                && post.anim_start == Some(context.now) && post.discovered_credentials is Some
            &&& outcome == FormOutcome::Create && found ==> post.discovered_credentials->0@
                == context.discovered->0@
            &&& outcome == FormOutcome::Create && typed_in && form.is_generic
                ==> post.discovered_credentials->0@ == Map::<Seq<char>, String>::empty().insert(
                form.generic_env_name@,
                form.generic_value,
            )
            &&& post.phase == CreateProviderPhase::Creating && form.phase
                != CreateProviderPhase::Creating ==> outcome == FormOutcome::Create
            &&& form.phase == CreateProviderPhase::Creating ==> post == form && outcome
                == FormOutcome::Stay
            &&& outcome == FormOutcome::Close <==> form.phase == CreateProviderPhase::SelectType
                && key.code == KeyCode::Esc
        }),
{
    let rows = form.credentials@;
    if exists|i: int| 0 <= i < rows.len() && (#[trigger] rows[i]).1@.len() > 0 {
        let i = choose|i: int| 0 <= i < rows.len() && (#[trigger] rows[i]).1@.len() > 0;
        lemma_filled(rows, rows[i].0@);
        assert(row_fills(rows[i], rows[i].0@));
        assert(filled_credentials(rows).dom().contains(rows[i].0@));
    } else {
        assert forall|name: Seq<char>| !filled_credentials(rows).dom().contains(name) by {
            lemma_filled(rows, name);
        }
        assert(filled_credentials(rows) =~= Map::<Seq<char>, String>::empty());
    }
}

/// The credentials that are sent are those of the rows with a value, each under the name of its
/// row; of two rows with the same name the later one counts.
pub proof fn lemma_filled_rows_are_sent(
    form: CreateProviderForm,
    key: KeyEvent,
    context: KeyContext,
    names: Seq<Seq<char>>,
    post: CreateProviderForm,
    name: Seq<char>,
)
    requires
        form.key_step(key, context, names, post, FormOutcome::Create),
        form.phase == CreateProviderPhase::EnterKey,
        !form.is_generic,
    ensures
        ({
            let rows = form.credentials@;
            let sent = post.discovered_credentials->0@;
            &&& sent.dom().contains(name) <==> exists|i: int|
                0 <= i < rows.len() && row_fills(#[trigger] rows[i], name)
            &&& forall|i: int|
                0 <= i < rows.len() && row_fills(#[trigger] rows[i], name) && (forall|j: int|
                    i < j < rows.len() ==> !row_fills(#[trigger] rows[j], name)) ==> sent[name]
                    == rows[i].1
        }),
{
    lemma_filled(form.credentials@, name);
}

/// What is refused on the button is said: the entry that is half typed, the name of the variable
/// or its value where one is asked for, or that no credential is there.
pub proof fn lemma_refused_providers_say_why(
    form: CreateProviderForm,
    key: KeyEvent,
    context: KeyContext,
    names: Seq<Seq<char>>,
    post: CreateProviderForm,
    outcome: FormOutcome,
)
    requires
        form.key_step(key, context, names, post, outcome),
        form.phase == CreateProviderPhase::EnterKey,
        form.key_field == ProviderKeyField::Submit,
        key.code == KeyCode::Enter,
        outcome == FormOutcome::Stay,
    ensures
        post.phase == form.phase,
        post.status matches Some(why) && {
            let half = (form.config_key_input@.len() > 0) != (form.config_value_input@.len() > 0);
            &&& half ==> why@ == "Both key and value are required to add config entry."@
            &&& !half && form.is_generic && form.generic_env_name@.len() == 0 ==> why@
                == "Env var name is required."@
            &&& !half && form.is_generic && form.generic_env_name@.len() > 0 ==> why@
                == "Value is required."@
            &&& !half && !form.is_generic ==> why@ == "At least one credential is required."@
        },
{
}

/// In the key entry each key changes the field in focus alone, by what was typed.
pub proof fn lemma_keys_change_the_field_in_focus(
    form: CreateProviderForm,
    c: char,
    context: KeyContext,
    names: Seq<Seq<char>>,
    post: CreateProviderForm,
    outcome: FormOutcome,
)
    requires
        form.phase == CreateProviderPhase::EnterKey,
        form.key_step(
            (KeyEvent { code: KeyCode::Char(c), control: false }),
            context,
            names,
            post,
            outcome,
        ),
    ensures
        outcome == FormOutcome::Stay,
        post.key_field == form.key_field,
        post.phase == form.phase,
        post.name@ == if form.key_field == ProviderKeyField::Name {
            form.name@.push(c)
        } else {
            form.name@
        },
        post.generic_env_name@ == if form.key_field == ProviderKeyField::EnvVarName {
            form.generic_env_name@.push(c)
        } else {
            form.generic_env_name@
        },
        post.generic_value@ == if form.key_field == ProviderKeyField::GenericValue {
            form.generic_value@.push(c)
        } else {
            form.generic_value@
        },
        post.config_key_input@ == if form.key_field == ProviderKeyField::ConfigKeyName {
            form.config_key_input@.push(c)
        } else {
            form.config_key_input@
        },
        post.config_value_input@ == if form.key_field == ProviderKeyField::ConfigKeyValue {
            form.config_value_input@.push(c)
        } else {
            form.config_value_input@
        },
        post.config == form.config,
        post.credentials@.len() == form.credentials@.len(),
        forall|i: int|
            0 <= i < form.credentials@.len() ==> (#[trigger] post.credentials@[i]).0
                == form.credentials@[i].0 && post.credentials@[i].1@ == if form.key_field
                == ProviderKeyField::Credential && i == form.cred_cursor {
                form.credentials@[i].1@.push(c)
            } else {
                form.credentials@[i].1@
            },
{
}

/// Tab goes through the fields in their order: the name, the credentials one by one, the entries
/// one by one, the new key, the new value, the button, and the name again.
pub proof fn lemma_tab_goes_through_the_fields(
    form: CreateProviderForm,
    key: KeyEvent,
    context: KeyContext,
    names: Seq<Seq<char>>,
    post: CreateProviderForm,
    outcome: FormOutcome,
)
    requires
        form.phase == CreateProviderPhase::EnterKey,
        key.code == KeyCode::Tab,
        !form.is_generic,
        form.key_step(key, context, names, post, outcome),
    ensures
        outcome == FormOutcome::Stay,
        form.key_field == ProviderKeyField::Name && form.credentials@.len() > 0 ==> post.key_field
            == ProviderKeyField::Credential && post.cred_cursor == 0,
        form.key_field == ProviderKeyField::Credential && form.cred_cursor + 1
            < form.credentials@.len() && form.credentials@.len() <= usize::MAX ==> post.key_field
            == ProviderKeyField::Credential && post.cred_cursor == form.cred_cursor + 1,
        form.key_field == ProviderKeyField::Credential && form.cred_cursor + 1
            >= form.credentials@.len() ==> post.key_field == if form.entries().len() == 0 {
            ProviderKeyField::ConfigKeyName
        } else {
            ProviderKeyField::ConfigList
        },
        form.key_field == ProviderKeyField::ConfigKeyName ==> post.key_field
            == ProviderKeyField::ConfigKeyValue,
        form.key_field == ProviderKeyField::ConfigKeyValue && form.config_key_input@.len() == 0
            && form.config_value_input@.len() == 0 ==> post.key_field == ProviderKeyField::Submit,
        form.key_field == ProviderKeyField::ConfigKeyValue && form.config_key_input@.len() > 0
            && form.config_value_input@.len() > 0 ==> post.key_field
            == ProviderKeyField::ConfigKeyName && post.entries() == with_entry(
            form.entries(),
            form.config_key_input@,
            form.config_value_input@,
        ),
        form.key_field == ProviderKeyField::Submit ==> post.key_field == ProviderKeyField::Name,
        post.name == form.name,
        post.credentials == form.credentials,
{
}

/// The chosen type decides what is asked next: one without variables asks for a variable of any
/// name, and others for how to find the values of theirs, which start empty. The name is made from
/// the type, and is none that is taken.
pub proof fn lemma_types_decide_what_is_asked(
    form: CreateProviderForm,
    key: KeyEvent,
    context: KeyContext,
    names: Seq<Seq<char>>,
    post: CreateProviderForm,
    outcome: FormOutcome,
)
    requires
        form.phase == CreateProviderPhase::SelectType,
        form.wf(),
        form.has_choice(key),
        form.key_step(key, context, names, post, outcome),
    ensures
        key.code == KeyCode::Enter ==> {
            let chosen = form.types@[form.type_cursor as int]@;
            let vars = context.env_vars(chosen);
            &&& post.is_generic <==> vars.len() == 0
            &&& post.phase == if vars.len() == 0 {
                CreateProviderPhase::EnterKey
            } else {
                CreateProviderPhase::ChooseMethod
            }
            &&& !names.contains(post.name@)
            &&& !names.contains(chosen) ==> post.name@ == chosen
            &&& post.credentials@.len() == vars.len()
            &&& forall|i: int|
                0 <= i < vars.len() ==> (#[trigger] post.credentials@[i]).0@ == vars[i]
                    && post.credentials@[i].1@.len() == 0
        },
        (key.code == KeyCode::Down || key.code == KeyCode::Char('j')) && form.type_cursor + 1
            < form.types@.len() ==> post.type_cursor == form.type_cursor + 1 && post.phase
            == form.phase,
        (key.code == KeyCode::Up || key.code == KeyCode::Char('k')) && form.type_cursor > 0
            ==> post.type_cursor == form.type_cursor - 1 && post.phase == form.phase,
        key.code != KeyCode::Enter ==> post.phase == CreateProviderPhase::SelectType,
{
    lemma_unique_name_is_free(form.types@[form.type_cursor as int]@, names);
    assert(form.types.len() == form.types@.len());
}

/// The second method leads to the key entry, and so does the first where nothing was found in the
/// environment, which is said; escape goes back to the types, and from the key entry with all that
/// was entered dropped.
pub proof fn lemma_methods_lead_on(
    form: CreateProviderForm,
    key: KeyEvent,
    context: KeyContext,
    names: Seq<Seq<char>>,
    post: CreateProviderForm,
    outcome: FormOutcome,
)
    requires
        form.key_step(key, context, names, post, outcome),
    ensures
        ({
            let choosing = form.phase == CreateProviderPhase::ChooseMethod;
            &&& choosing && key.code == KeyCode::Enter && form.method_cursor != 0 ==> post.phase
                == CreateProviderPhase::EnterKey && post.warning is None
            &&& choosing && key.code == KeyCode::Enter && form.method_cursor == 0
                && context.discovered is None ==> post.phase == CreateProviderPhase::EnterKey && (
            post.warning matches Some(w) && w@
                == "No credentials found in environment. Enter manually."@)
            &&& choosing && key.code == KeyCode::Esc ==> post.phase
                == CreateProviderPhase::SelectType
            &&& choosing && form.method_cursor <= 1 && (key.code == KeyCode::Down || key.code
                == KeyCode::Up) ==> post.method_cursor != form.method_cursor && post.method_cursor
                <= 1
            &&& form.phase == CreateProviderPhase::EnterKey && key.code == KeyCode::Esc
                ==> post.phase == CreateProviderPhase::SelectType && post.name@.len() == 0
                && post.credentials@.len() == 0 && post.entries().len() == 0
                && post.generic_value@.len() == 0 && post.config_key_input@.len() == 0
                && post.config_value_input@.len() == 0
        }),
{
}

/// A deletion takes away the selected entry alone, and leaves the others in their order.
pub proof fn lemma_selected_entry_is_deleted(
    form: CreateProviderForm,
    context: KeyContext,
    names: Seq<Seq<char>>,
    post: CreateProviderForm,
    outcome: FormOutcome,
)
    requires
        form.phase == CreateProviderPhase::EnterKey,
        form.key_field == ProviderKeyField::ConfigList,
        form.config_cursor < form.entries().len(),
        forall|i: int, j: int|
            0 <= i < j < form.entries().len() ==> #[trigger] form.entries()[i].0
                != #[trigger] form.entries()[j].0,
        form.key_step(
            (KeyEvent { code: KeyCode::Char('d'), control: true }),
            context,
            names,
            post,
            outcome,
        ),
    ensures
        post.entries() == form.entries().remove(form.config_cursor as int),
        outcome == FormOutcome::Stay,
{
    config_map::lemma_entry_place(form.entries(), form.config_cursor as int);
}

/// A name that is free is kept. One that is taken gets a number behind a hyphen: the first, from
/// one on, that makes a name which is not taken.
pub proof fn lemma_taken_names_are_numbered(base: Seq<char>, existing: Seq<Seq<char>>)
    ensures
        !existing.contains(base) ==> unique_name(base, existing) == base,
        existing.contains(base) ==> exists|i: nat|
            {
                &&& 1 <= i
                &&& unique_name(base, existing) == base + "-"@ + #[trigger] text::decimal_of(i)
                &&& forall|j: nat|
                    1 <= j < i ==> existing.contains(base + "-"@ + #[trigger] text::decimal_of(j))
            },
        !existing.contains(unique_name(base, existing)),
{
    lemma_unique_name_is_free(base, existing);
    if existing.contains(base) {
        let i = choose|i: nat| #[trigger]
            first_free(base, existing, i) && unique_name(base, existing) == numbered(base, i);
        assert(unique_name(base, existing) == base + "-"@ + text::decimal_of(i));
        assert forall|j: nat| 1 <= j < i implies existing.contains(
            base + "-"@ + #[trigger] text::decimal_of(j),
        ) by {
            assert(existing.contains(numbered(base, j)));
        }
    }
}

/// Going back a field undoes going on to it, from every field that the form shows; of a new value
/// only where no entry is typed, which would be added first.
pub proof fn lemma_back_tab_undoes_tab(
    form: CreateProviderForm,
    context: KeyContext,
    names: Seq<Seq<char>>,
    between: CreateProviderForm,
    post: CreateProviderForm,
    outcome: FormOutcome,
    other: FormOutcome,
)
    requires
        form.phase == CreateProviderPhase::EnterKey,
        form.key_step(
            (KeyEvent { code: KeyCode::Tab, control: false }),
            context,
            names,
            between,
            outcome,
        ),
        between.key_step(
            (KeyEvent { code: KeyCode::BackTab, control: false }),
            context,
            names,
            post,
            other,
        ),
        form.is_generic ==> form.key_field != ProviderKeyField::Credential,
        !form.is_generic ==> form.key_field != ProviderKeyField::EnvVarName && form.key_field
            != ProviderKeyField::GenericValue,
        form.key_field == ProviderKeyField::Credential ==> form.cred_cursor
            < form.credentials@.len(),
        form.key_field == ProviderKeyField::ConfigList ==> form.config_cursor
            < form.entries().len(),
        form.key_field == ProviderKeyField::ConfigKeyValue ==> form.config_key_input@.len() == 0
            && form.config_value_input@.len() == 0,
        form.entries().len() <= usize::MAX,
    ensures
        post.key_field == form.key_field,
        form.key_field == ProviderKeyField::Credential ==> post.cred_cursor == form.cred_cursor,
        form.key_field == ProviderKeyField::ConfigList ==> post.config_cursor
            == form.config_cursor,
        post.name == form.name,
        post.credentials == form.credentials,
        post.config == form.config,
        outcome == FormOutcome::Stay,
        other == FormOutcome::Stay,
{
    assert(form.credentials.len() == form.credentials@.len());
}

/// An entry of which both parts are typed is added by enter on either of them, and by tab on its
/// value, which goes back to the key; what was typed is then cleared. One that is not whole is not
/// added by any of them.
pub proof fn lemma_whole_entries_are_added(
    form: CreateProviderForm,
    key: KeyEvent,
    context: KeyContext,
    names: Seq<Seq<char>>,
    post: CreateProviderForm,
    outcome: FormOutcome,
)
    requires
        form.phase == CreateProviderPhase::EnterKey,
        form.key_step(key, context, names, post, outcome),
        (key.code == KeyCode::Enter && (form.key_field == ProviderKeyField::ConfigKeyName
            || form.key_field == ProviderKeyField::ConfigKeyValue)) || (key.code == KeyCode::Tab
            && form.key_field == ProviderKeyField::ConfigKeyValue),
    ensures
        outcome == FormOutcome::Stay,
        form.config_key_input@.len() > 0 && form.config_value_input@.len() > 0 ==> {
            &&& post.entries() == with_entry(
                form.entries(),
                form.config_key_input@,
                form.config_value_input@,
            )
            &&& post.config_key_input@.len() == 0
            &&& post.config_value_input@.len() == 0
            &&& post.key_field == ProviderKeyField::ConfigKeyName
        },
        form.config_key_input@.len() == 0 || form.config_value_input@.len() == 0 ==> post.config
            == form.config && post.config_key_input == form.config_key_input
            && post.config_value_input == form.config_value_input,
        post.name == form.name,
        post.credentials == form.credentials,
{
}

/// On the list of entries the arrows move the selection by one entry, and not beyond the first or
/// the last; nothing is deleted without the control key.
pub proof fn lemma_arrows_move_through_the_entries(
    form: CreateProviderForm,
    key: KeyEvent,
    context: KeyContext,
    names: Seq<Seq<char>>,
    post: CreateProviderForm,
    outcome: FormOutcome,
)
    requires
        form.phase == CreateProviderPhase::EnterKey,
        form.key_field == ProviderKeyField::ConfigList,
        form.config_cursor < form.entries().len(),
        form.entries().len() <= usize::MAX,
        form.key_step(key, context, names, post, outcome),
    ensures
        key.code == KeyCode::Up && form.config_cursor > 0 ==> post.config_cursor + 1
            == form.config_cursor,
        key.code == KeyCode::Up && form.config_cursor == 0 ==> post.config_cursor == 0,
        key.code == KeyCode::Down && form.config_cursor + 1 < form.entries().len()
            ==> post.config_cursor == form.config_cursor + 1,
        key.code == KeyCode::Down && form.config_cursor + 1 == form.entries().len()
            ==> post.config_cursor == form.config_cursor,
        key.code != KeyCode::Esc && !(key.code == KeyCode::Char('d') && key.control) ==> post.config
            == form.config,
        key.code == KeyCode::Up || key.code == KeyCode::Down ==> post.key_field == form.key_field,
{
}

/// Escape from the entry of a key leads back to the choice of a type, and nothing that was entered
/// is kept.
pub proof fn lemma_escape_drops_what_was_entered(
    form: CreateProviderForm,
    key: KeyEvent,
    context: KeyContext,
    names: Seq<Seq<char>>,
    post: CreateProviderForm,
    outcome: FormOutcome,
)
    requires
        form.phase == CreateProviderPhase::EnterKey,
        key.code == KeyCode::Esc,
        form.key_step(key, context, names, post, outcome),
    ensures
        outcome == FormOutcome::Stay,
        post.phase == CreateProviderPhase::SelectType,
        post.types == form.types,
        post.type_cursor == form.type_cursor,
        post.name@.len() == 0,
        post.credentials@.len() == 0,
        post.entries().len() == 0,
        post.config_key_input@.len() == 0,
        post.config_value_input@.len() == 0,
        post.generic_env_name@.len() == 0,
        post.generic_value@.len() == 0,
        post.status is None,
        post.warning is None,
{
}

} // verus!
