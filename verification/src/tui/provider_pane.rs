//! The providers pane of the dashboard, with its modals.

use vstd::prelude::*;
use indexmap::IndexMap;
use crate::text;
use crate::text::texts;
use crate::text_map::{ascending, lemma_less_irreflexive, TextMap};
use crate::tui::config_map;
use crate::tui::config_map::{config_entries, entry_place, has_entry};
use crate::tui::context::KeyContext;
use crate::tui::create_provider::{lemma_providers_are_created_with_credentials, FormOutcome};
use crate::tui::keys::{KeyCode, KeyEvent};
use crate::tui::model::{
    CreateProviderForm, CreateProviderPhase, MiddlePaneTab, ProviderDetailView, ProviderEntry,
    ProviderKeyField, UpdateProviderField, UpdateProviderForm,
};
use crate::tui::provider_detail::ProviderListEntry;
use crate::tui::scroll::{min_of, smaller};
use crate::tui::update_provider::{lemma_updates_are_sent_by_the_button, UpdateOutcome};

verus! {

/// The providers pane of the dashboard, with its modals.
pub struct ProviderPane {
    pub providers_v2_enabled: bool,
    pub provider_entries: Vec<ProviderListEntry>,
    pub provider_names: Vec<String>,
    pub provider_types: Vec<String>,
    pub provider_cred_keys: Vec<String>,
    pub provider_workspaces: Vec<String>,
    pub provider_selected: usize,
    pub provider_count: usize,
    pub middle_pane_tab: MiddlePaneTab,
    pub create_provider_form: Option<CreateProviderForm>,
    pub provider_detail: Option<ProviderDetailView>,
    pub update_provider_form: Option<UpdateProviderForm>,
    pub confirm_provider_delete: bool,
    pub pending_provider_get: bool,
    pub pending_provider_delete: bool,
    pub pending_provider_create: bool,
    pub pending_provider_update: bool,
}

/// The entries of a configuration, in the order of their keys.
pub open spec fn ordered_entries(config: TextMap<String>) -> Seq<(Seq<char>, Seq<char>)> {
    Seq::new(config.keys().len(), |i: int| (config.keys()[i], config@[config.keys()[i]]@))
}

/// A key that is not there would go to the end.
proof fn lemma_absent_goes_last(entries: Seq<(Seq<char>, Seq<char>)>, key: Seq<char>)
    requires
        !has_entry(entries, key),
    ensures
        entry_place(entries, key) == entries.len(),
    decreases entries.len(),
{
    if entries.len() > 0 {
        let rest = entries.drop_first();
        assert(entries[0].0 != key);
        if has_entry(rest, key) {
            let i = choose|i: int| 0 <= i < rest.len() && #[trigger] rest[i].0 == key;
            assert(entries[i + 1].0 == key);
        }
        lemma_absent_goes_last(rest, key);
    }
}

/// A configuration with the entries of `config`.
fn config_of(config: &TextMap<String>) -> (copy: IndexMap<String, String>)
    ensures
        config_entries(copy) == ordered_entries(*config),
{
    let mut copy = config_map::empty();
    let n: usize = config.len();
    let mut i: usize = 0;
    assert(ordered_entries(*config).take(0) =~= Seq::empty());
    while i < n
        invariant
            i <= n,
            n == config.keys().len(),
            ascending(config.keys()),
            config_entries(copy) == ordered_entries(*config).take(i as int),
        decreases n - i,
    {
        let key = config.key_at(i).clone();
        let value = config.value_at(i).clone();
        proof {
            let all = ordered_entries(*config);
            let before = all.take(i as int);
            if has_entry(before, key@) {
                let j = choose|j: int| 0 <= j < before.len() && #[trigger] before[j].0 == key@;
                assert(config.keys()[j] == config.keys()[i as int]);
                lemma_less_irreflexive(key@);
            }
            lemma_absent_goes_last(before, key@);
            assert(all.take(i as int + 1) =~= before.push((key@, value@)));
        }
        config_map::insert(&mut copy, key, value);
        i = i + 1;
    }
    assert(ordered_entries(*config).take(n as int) =~= ordered_entries(*config));
    copy
}

/// The text at `index`, or the empty one.
pub open spec fn text_at(list: Seq<String>, index: usize) -> Seq<char> {
    if index < list.len() {
        list[index as int]@
    } else {
        Seq::empty()
    }
}

fn text_or_empty(list: &Vec<String>, index: usize) -> (s: String)
    ensures
        s@ == text_at(list@, index),
{
    if index < list.len() {
        list[index].clone()
    } else {
        String::new()
    }
}

impl ProviderPane {
    /// The open modals are well-formed.
    pub open spec fn wf(self) -> bool {
        &&& self.create_provider_form matches Some(form) ==> form.wf()
        &&& self.provider_detail matches Some(view) ==> view.wf()
        &&& self.update_provider_form matches Some(form) ==> form.wf()
    }

    /// Whether there are no providers.
    pub open spec fn no_providers(self) -> bool {
        &&& self.provider_entries@.len() == 0
        &&& self.provider_names@.len() == 0
        &&& self.provider_types@.len() == 0
        &&& self.provider_cred_keys@.len() == 0
        &&& self.provider_workspaces@.len() == 0
        &&& self.provider_selected == 0
        &&& self.provider_count == 0
    }

    /// Whether the pane is as it starts.
    pub open spec fn fresh(self) -> bool {
        &&& !self.providers_v2_enabled
        &&& self.no_providers()
        &&& self.middle_pane_tab == MiddlePaneTab::Providers
        &&& self.create_provider_form is None
        &&& self.provider_detail is None
        &&& self.update_provider_form is None
        &&& !self.confirm_provider_delete
        &&& !self.pending_provider_get
        &&& !self.pending_provider_delete
        &&& !self.pending_provider_create
        &&& !self.pending_provider_update
    }

    /// The pane before the gateway has answered.
    pub fn new() -> (pane: Self)
        ensures
            pane.fresh(),
            pane.wf(),
    {
        ProviderPane {
            providers_v2_enabled: false,
            provider_entries: Vec::new(),
            provider_names: Vec::new(),
            provider_types: Vec::new(),
            provider_cred_keys: Vec::new(),
            provider_workspaces: Vec::new(),
            provider_selected: 0,
            provider_count: 0,
            middle_pane_tab: MiddlePaneTab::Providers,
            create_provider_form: None,
            provider_detail: None,
            update_provider_form: None,
            confirm_provider_delete: false,
            pending_provider_get: false,
            pending_provider_delete: false,
            pending_provider_create: false,
            pending_provider_update: false,
        }
    }

    /// Whether `post` is `self` as it is before another gateway has answered.
    pub open spec fn forgets_gateway(self, post: Self) -> bool {
        &&& post.no_providers()
        &&& post == (ProviderPane {
            providers_v2_enabled: false,
            provider_entries: post.provider_entries,
            provider_names: post.provider_names,
            provider_types: post.provider_types,
            provider_cred_keys: post.provider_cred_keys,
            provider_workspaces: post.provider_workspaces,
            provider_selected: 0,
            provider_count: 0,
            confirm_provider_delete: false,
            ..self
        })
    }

    /// Drops the providers of the gateway.
    pub fn forget_gateway(&mut self)
        ensures
            old(self).forgets_gateway(*final(self)),
    {
        self.providers_v2_enabled = false;
        self.provider_entries.clear();
        self.provider_names.clear();
        self.provider_types.clear();
        self.provider_cred_keys.clear();
        self.provider_workspaces.clear();
        self.provider_selected = 0;
        self.provider_count = 0;
        self.confirm_provider_delete = false;
    }

    /// The pane after the answer to whether to delete the provider.
    pub open spec fn after_confirm_key(self, key: KeyEvent) -> Self {
        match key.code {
            KeyCode::Char('y') => ProviderPane {
                confirm_provider_delete: false,
                pending_provider_delete: true,
                ..self
            },
            KeyCode::Esc | KeyCode::Char('n') => ProviderPane {
                confirm_provider_delete: false,
                ..self
            },
            _ => self,
        }
    }

    /// Handles the answer to whether to delete the provider.
    pub fn handle_confirm_key(&mut self, key: KeyEvent)
        ensures
            *final(self) == old(self).after_confirm_key(key),
    {
        match key.code {
            KeyCode::Char('y') => {
                self.confirm_provider_delete = false;
                self.pending_provider_delete = true;
            },
            KeyCode::Esc | KeyCode::Char('n') => {
                self.confirm_provider_delete = false;
            },
            _ => {},
        }
    }

    /// Whether `entries` offers the known providers, none of them selected.
    pub open spec fn offers(self, entries: Seq<ProviderEntry>) -> bool {
        &&& entries.len() == smaller(
            self.provider_names@.len() as int,
            self.provider_types@.len() as int,
        )
        &&& forall|i: int|
            0 <= i < entries.len() ==> #[trigger] entries[i] == (ProviderEntry {
                name: self.provider_names@[i],
                provider_type: self.provider_types@[i],
                selected: false,
            })
    }

    /// The known providers, none of them selected.
    pub fn offered_providers(&self) -> (entries: Vec<ProviderEntry>)
        ensures
            self.offers(entries@),
    {
        let mut entries: Vec<ProviderEntry> = Vec::new();
        let n: usize = min_of(self.provider_names.len(), self.provider_types.len());
        let mut i: usize = 0;
        while i < n
            invariant
                i <= n,
                n == smaller(self.provider_names@.len() as int, self.provider_types@.len() as int),
                entries@.len() == i,
                forall|k: int|
                    0 <= k < entries@.len() ==> #[trigger] entries@[k] == (ProviderEntry {
                        name: self.provider_names@[k],
                        provider_type: self.provider_types@[k],
                        selected: false,
                    }),
            decreases n - i,
        {
            entries.push(
                ProviderEntry {
                    name: self.provider_names[i].clone(),
                    provider_type: self.provider_types[i].clone(),
                    selected: false,
                },
            );
            i = i + 1;
        }
        entries
    }

    /// Whether `form` is the create modal as it opens for the given provider types.
    pub open spec fn new_form(form: CreateProviderForm, types: Seq<String>) -> bool {
        &&& form.phase == CreateProviderPhase::SelectType
        &&& form.types@ == types
        &&& form.type_cursor == 0
        &&& form.method_cursor == 0
        &&& form.name@ == Seq::<char>::empty()
        &&& form.credentials@ == Seq::<(String, String)>::empty()
        &&& form.cred_cursor == 0
        &&& config_entries(form.config) == Seq::<(Seq<char>, Seq<char>)>::empty()
        &&& form.config_cursor == 0
        &&& form.config_key_input@ == Seq::<char>::empty()
        &&& form.config_value_input@ == Seq::<char>::empty()
        &&& form.generic_env_name@ == Seq::<char>::empty()
        &&& form.generic_value@ == Seq::<char>::empty()
        &&& form.key_field == ProviderKeyField::Name
        &&& !form.is_generic
        &&& form.status is None
        &&& form.warning is None
        &&& form.anim_start is None
        &&& form.create_result is None
        &&& form.discovered_credentials is None
    }

    /// Whether `post` is `self` with the create modal open.
    pub open spec fn opens_create(self, types: Seq<String>, post: Self) -> bool {
        &&& post == (ProviderPane { create_provider_form: post.create_provider_form, ..self })
        &&& post.create_provider_form matches Some(form) && Self::new_form(form, types)
    }

    /// Opens the create modal.
    pub fn open_create_provider_form(&mut self, types: &Vec<String>)
        ensures
            old(self).opens_create(types@, *final(self)),
            old(self).wf() ==> final(self).wf(),
    {
        self.create_provider_form = Some(CreateProviderForm::with_types(text::copy_texts(types)));
    }

    /// The key under which the credential of the selected provider is stored.
    pub open spec fn credential_key(self, context: KeyContext) -> Seq<char> {
        let known = text_at(self.provider_cred_keys@, self.provider_selected);
        if known.len() == 0 {
            let vars = context.env_vars(text_at(self.provider_types@, self.provider_selected));
            if vars.len() > 0 {
                vars[0]
            } else {
                Seq::empty()
            }
        } else {
            known
        }
    }

    /// The configuration of the selected provider.
    pub open spec fn stored_config(self) -> Seq<(Seq<char>, Seq<char>)> {
        if self.provider_selected < self.provider_entries@.len() {
            ordered_entries(
                self.provider_entries@[self.provider_selected as int].provider.config,
            )
        } else {
            Seq::empty()
        }
    }

    /// Whether `form` is the update modal as it opens for the selected provider.
    pub open spec fn edits_selected(self, context: KeyContext, form: UpdateProviderForm) -> bool {
        &&& form.provider_name == self.provider_names@[self.provider_selected as int]
        &&& form.provider_type@ == text_at(self.provider_types@, self.provider_selected)
        &&& form.credential_key@ == self.credential_key(context)
        &&& form.new_value@ == Seq::<char>::empty()
        &&& config_entries(form.config) == self.stored_config()
        &&& config_entries(form.original_config) == self.stored_config()
        &&& form.config_key_input@ == Seq::<char>::empty()
        &&& form.config_value_input@ == Seq::<char>::empty()
        &&& form.config_cursor == 0
        &&& form.deleted_keys@.len() == 0
        &&& form.focus == UpdateProviderField::CredentialValue
        &&& form.status is None
    }

    /// Whether `post` is `self` with the update modal open, where a provider is selected.
    pub open spec fn opens_update(self, context: KeyContext, post: Self) -> bool {
        if self.provider_selected < self.provider_names@.len() {
            &&& post == (ProviderPane { update_provider_form: post.update_provider_form, ..self })
            &&& post.update_provider_form matches Some(form) && self.edits_selected(context, form)
        } else {
            post == self
        }
    }

    /// Opens the update modal for the selected provider.
    pub fn open_update_provider_form(&mut self, context: &KeyContext)
        ensures
            old(self).opens_update(*context, *final(self)),
            old(self).wf() ==> final(self).wf(),
    {
        let at: usize = self.provider_selected;
        if at >= self.provider_names.len() {
            return;
        }
        let provider_type = text_or_empty(&self.provider_types, at);
        let known = text_or_empty(&self.provider_cred_keys, at);
        let config = if at < self.provider_entries.len() {
            config_of(&self.provider_entries[at].provider.config)
        } else {
            config_map::empty()
        };
        let credential_key = if known.as_str().is_empty() {
            let vars = context.credential_env_vars(provider_type.as_str());
            if vars.len() > 0 {
                assert(texts(vars@)[0] == vars@[0]@);
                vars[0].clone()
            } else {
                String::new()
            }
        } else {
            known
        };
        let original_config = config_map::copy(&config);
        self.update_provider_form = Some(
            UpdateProviderForm {
                provider_name: self.provider_names[at].clone(),
                provider_type,
                credential_key,
                new_value: String::new(),
                config,
                original_config,
                config_key_input: String::new(),
                config_value_input: String::new(),
                config_cursor: 0,
                deleted_keys: Vec::new(),
                focus: UpdateProviderField::CredentialValue,
                status: None,
            },
        );
    }

    /// What `key` makes of the pane while the create modal is open.
    pub open spec fn create_step(self, key: KeyEvent, context: KeyContext, post: Self) -> bool {
        match self.create_provider_form {
            None => post == self,
            Some(form) => exists|after: CreateProviderForm, outcome: FormOutcome|
                {
                    &&& #[trigger] form.key_step(
                        key,
                        context,
                        texts(self.provider_names@),
                        after,
                        outcome,
                    )
                    &&& post == (ProviderPane {
                        create_provider_form: if outcome == FormOutcome::Close {
                            None
                        } else {
                            Some(after)
                        },
                        pending_provider_create: self.pending_provider_create || outcome
                            == FormOutcome::Create,
                        ..self
                    })
                },
        }
    }

    /// Handles a key pressed while the create modal is open.
    pub fn handle_create_provider_key(&mut self, key: KeyEvent, context: &KeyContext)
        requires
            old(self).wf(),
            old(self).create_provider_form matches Some(form) ==> form.has_choice(key),
        ensures
            old(self).create_step(key, *context, *final(self)),
            final(self).wf(),
    {
        let mut held: Option<CreateProviderForm> = None;
        std::mem::swap(&mut held, &mut self.create_provider_form);
        if let Some(mut form) = held {
            let ghost before = form;
            let outcome = form.handle_key(key, context, &self.provider_names);
            assert(before.key_step(key, *context, texts(self.provider_names@), form, outcome));
            match outcome {
                FormOutcome::Close => {},
                FormOutcome::Stay => {
                    self.create_provider_form = Some(form);
                },
                FormOutcome::Create => {
                    self.create_provider_form = Some(form);
                    self.pending_provider_create = true;
                },
            }
        }
    }

    /// What `key` makes of the pane while the detail modal is open.
    pub open spec fn after_detail_key(self, key: KeyEvent) -> Self {
        match self.provider_detail {
            None => self,
            Some(view) => ProviderPane {
                provider_detail: if view.closes(key) {
                    None
                } else {
                    Some(view.after_key(key))
                },
                ..self
            },
        }
    }

    /// Handles a key pressed while the detail modal is open.
    pub fn handle_provider_detail_key(&mut self, key: KeyEvent)
        requires
            old(self).wf(),
        ensures
            *final(self) == old(self).after_detail_key(key),
            final(self).wf(),
    {
        let mut held: Option<ProviderDetailView> = None;
        std::mem::swap(&mut held, &mut self.provider_detail);
        if let Some(mut view) = held {
            let close = view.handle_key(key);
            if !close {
                self.provider_detail = Some(view);
            }
        }
    }

    /// What `key` makes of the pane while the update modal is open.
    pub open spec fn update_step(self, key: KeyEvent, post: Self) -> bool {
        match self.update_provider_form {
            None => post == self,
            Some(form) => exists|after: UpdateProviderForm, outcome: UpdateOutcome|
                {
                    &&& #[trigger] form.key_step(key, after, outcome)
                    &&& post == (ProviderPane {
                        update_provider_form: if outcome == UpdateOutcome::Close {
                            None
                        } else {
                            Some(after)
                        },
                        pending_provider_update: self.pending_provider_update || outcome
                            == UpdateOutcome::Update,
                        ..self
                    })
                },
        }
    }

    /// Handles a key pressed while the update modal is open.
    pub fn handle_update_provider_key(&mut self, key: KeyEvent)
        requires
            old(self).wf(),
        ensures
            old(self).update_step(key, *final(self)),
            final(self).wf(),
    {
        let mut held: Option<UpdateProviderForm> = None;
        std::mem::swap(&mut held, &mut self.update_provider_form);
        if let Some(mut form) = held {
            let ghost before = form;
            let outcome = form.handle_key(key);
            assert(before.key_step(key, form, outcome));
            match outcome {
                UpdateOutcome::Close => {},
                UpdateOutcome::Stay => {
                    self.update_provider_form = Some(form);
                },
                UpdateOutcome::Update => {
                    self.update_provider_form = Some(form);
                    self.pending_provider_update = true;
                },
            }
        }
    }
}

/// Whether to delete the provider is answered by `y`, which asks for the deletion, and by `n` and
/// escape, which do not; each of them ends the question, and no other key does anything.
pub proof fn lemma_deletion_is_confirmed_by_its_key(pane: ProviderPane, key: KeyEvent)
    ensures
        ({
            let post = pane.after_confirm_key(key);
            let yes = key.code == KeyCode::Char('y');
            let no = key.code == KeyCode::Char('n') || key.code == KeyCode::Esc;
            &&& post.pending_provider_delete <==> pane.pending_provider_delete || yes
            &&& post.confirm_provider_delete <==> pane.confirm_provider_delete && !yes && !no
            &&& post.pending_provider_create == pane.pending_provider_create
            &&& post.pending_provider_update == pane.pending_provider_update
            &&& post.pending_provider_get == pane.pending_provider_get
            &&& post.provider_selected == pane.provider_selected
            &&& !yes && !no ==> post == pane
        }),
{
}

/// The modal that creates a provider opens on the choice of a type, with the first of the given
/// types under the cursor and nothing entered, and changes nothing else.
pub proof fn lemma_create_modal_opens_empty(pane: ProviderPane, types: Seq<String>, post: ProviderPane)
    requires
        pane.opens_create(types, post),
    ensures
        post.create_provider_form matches Some(form) && {
            &&& form.phase == CreateProviderPhase::SelectType
            &&& form.types@ == types
            &&& form.type_cursor == 0
            &&& form.name@.len() == 0
            &&& form.credentials@.len() == 0
            &&& form.generic_env_name@.len() == 0
            &&& form.generic_value@.len() == 0
            &&& form.config_key_input@.len() == 0
            &&& form.config_value_input@.len() == 0
            &&& config_entries(form.config).len() == 0
            &&& form.discovered_credentials is None
            &&& form.create_result is None
        },
        post.update_provider_form == pane.update_provider_form,
        post.provider_detail == pane.provider_detail,
        post.provider_selected == pane.provider_selected,
        post.pending_provider_create == pane.pending_provider_create,
{
}

/// The modal that updates a provider opens for the selected one: with its name and type, the key
/// of its credential, and its configuration both as it is edited and as it was. No new value is
/// entered. Where no provider is selected, nothing opens.
pub proof fn lemma_update_modal_opens_for_the_selected(
    pane: ProviderPane,
    context: KeyContext,
    post: ProviderPane,
)
    requires
        pane.opens_update(context, post),
    ensures
        pane.provider_selected >= pane.provider_names@.len() ==> post == pane,
        pane.provider_selected < pane.provider_names@.len() ==> (
        post.update_provider_form matches Some(form) && ({
            let at = pane.provider_selected as int;
            &&& form.provider_name@ == pane.provider_names@[at]@
            &&& at < pane.provider_types@.len() ==> form.provider_type@
                == pane.provider_types@[at]@
            &&& at < pane.provider_cred_keys@.len() && pane.provider_cred_keys@[at]@.len() > 0
                ==> form.credential_key@ == pane.provider_cred_keys@[at]@
            &&& form.new_value@.len() == 0
            &&& config_entries(form.config) == config_entries(form.original_config)
            &&& at < pane.provider_entries@.len() ==> ({
                let stored = pane.provider_entries@[at].provider.config;
                &&& config_entries(form.config).len() == stored.keys().len()
                &&& forall|i: int|
                    0 <= i < stored.keys().len() ==> {
                        &&& (#[trigger] config_entries(form.config)[i]).0 == stored.keys()[i]
                        &&& config_entries(form.config)[i].1 == stored@[stored.keys()[i]]@
                    }
            })
            &&& at >= pane.provider_entries@.len() ==> config_entries(form.config).len() == 0
            &&& form.deleted_keys@.len() == 0
        })),
        post.create_provider_form == pane.create_provider_form,
        post.pending_provider_update == pane.pending_provider_update,
{
}

/// While the modal that creates a provider is open, the provider is asked for where the modal
/// asks for it, which keeps the modal open; and the modal closes on escape in its first phase.
pub proof fn lemma_creation_is_asked_for_by_the_modal(
    pane: ProviderPane,
    key: KeyEvent,
    context: KeyContext,
    post: ProviderPane,
)
    requires
        pane.create_step(key, context, post),
        pane.create_provider_form is Some,
    ensures
        ({
            let form = pane.create_provider_form->0;
            let asks = post.pending_provider_create && !pane.pending_provider_create;
            &&& pane.pending_provider_create ==> post.pending_provider_create
            &&& asks ==> key.code == KeyCode::Enter
            &&& asks ==> (form.phase == CreateProviderPhase::EnterKey && form.key_field
                == ProviderKeyField::Submit) || (form.phase == CreateProviderPhase::ChooseMethod
                && form.method_cursor == 0)
            &&& asks ==> (post.create_provider_form matches Some(after) && after.phase
                == CreateProviderPhase::Creating && after.discovered_credentials is Some)
            &&& post.create_provider_form is None ==> form.phase == CreateProviderPhase::SelectType
                && key.code == KeyCode::Esc
            &&& post.pending_provider_update == pane.pending_provider_update
            &&& post.pending_provider_delete == pane.pending_provider_delete
            &&& post.update_provider_form == pane.update_provider_form
        }),
{
    let form = pane.create_provider_form->0;
    let names = texts(pane.provider_names@);
    let (after, outcome) = choose|after: CreateProviderForm, outcome: FormOutcome|
        {
            &&& #[trigger] form.key_step(key, context, names, after, outcome)
            &&& post == (ProviderPane {
                create_provider_form: if outcome == FormOutcome::Close {
                    None
                } else {
                    Some(after)
                },
                pending_provider_create: pane.pending_provider_create || outcome
                    == FormOutcome::Create,
                ..pane
            })
        };
    lemma_providers_are_created_with_credentials(form, key, context, names, after, outcome);
}

/// While the modal that updates a provider is open, the update is asked for by enter on its
/// button alone, which keeps the modal open; and escape closes it.
pub proof fn lemma_update_is_asked_for_by_the_modal(
    pane: ProviderPane,
    key: KeyEvent,
    post: ProviderPane,
)
    requires
        pane.update_step(key, post),
        pane.update_provider_form is Some,
    ensures
        ({
            let form = pane.update_provider_form->0;
            let asks = post.pending_provider_update && !pane.pending_provider_update;
            &&& pane.pending_provider_update ==> post.pending_provider_update
            &&& asks ==> key.code == KeyCode::Enter && form.focus == UpdateProviderField::Submit
            &&& asks ==> (post.update_provider_form matches Some(after) && after.provider_name
                == form.provider_name && after.new_value == form.new_value)
            &&& post.update_provider_form is None <==> key.code == KeyCode::Esc
            &&& key.code == KeyCode::Enter && form.focus == UpdateProviderField::Submit
                && form.new_value@.len() > 0 && form.config_key_input@.len() == 0
                && form.config_value_input@.len() == 0 ==> post.pending_provider_update
            &&& post.pending_provider_create == pane.pending_provider_create
            &&& post.pending_provider_delete == pane.pending_provider_delete
            &&& post.create_provider_form == pane.create_provider_form
        }),
{
    let form = pane.update_provider_form->0;
    let (after, outcome) = choose|after: UpdateProviderForm, outcome: UpdateOutcome|
        {
            &&& #[trigger] form.key_step(key, after, outcome)
            &&& post == (ProviderPane {
                update_provider_form: if outcome == UpdateOutcome::Close {
                    None
                } else {
                    Some(after)
                },
                pending_provider_update: pane.pending_provider_update || outcome
                    == UpdateOutcome::Update,
                ..pane
            })
        };
    lemma_updates_are_sent_by_the_button(form, key, after, outcome);
}

/// A new sandbox is offered every known provider under its own name and type, and none of them
/// is selected.
pub proof fn lemma_known_providers_are_offered(pane: ProviderPane, entries: Seq<ProviderEntry>, i: int)
    requires
        pane.offers(entries),
        0 <= i < pane.provider_names@.len(),
        i < pane.provider_types@.len(),
    ensures
        i < entries.len(),
        entries[i].name@ == pane.provider_names@[i]@,
        entries[i].provider_type@ == pane.provider_types@[i]@,
        !entries[i].selected,
{
}

/// Another gateway has its own providers: none of the earlier ones is kept, nothing of them is
/// selected, and no question about one is left.
pub proof fn lemma_providers_are_forgotten(pane: ProviderPane, post: ProviderPane)
    requires
        pane.forgets_gateway(post),
    ensures
        post.provider_entries@.len() == 0,
        post.provider_names@.len() == 0,
        post.provider_types@.len() == 0,
        post.provider_cred_keys@.len() == 0,
        post.provider_workspaces@.len() == 0,
        post.provider_selected == 0,
        post.provider_count == 0,
        !post.providers_v2_enabled,
        !post.confirm_provider_delete,
        post.middle_pane_tab == pane.middle_pane_tab,
{
}

} // verus!
