//! The create sandbox modal.

use vstd::prelude::*;
use crate::text;
use crate::text::{ascii_digit, lemma_texts_push, pieces, texts, trimmed};
use crate::tui::create_provider::FormOutcome;
use crate::tui::keys::{handle_text_input, typed, KeyCode, KeyEvent};
use crate::tui::model::{CreateFormField, CreatePhase, CreateSandboxForm, ProviderEntry};
use crate::tui::scroll::{less, min_of, minus, smaller};

verus! {

/// Name, image, command, providers and port forwards for a new sandbox.
pub type CreateFormData = (String, String, String, Vec<String>, Vec<String>);

/// Whether a character may stand in the list of ports.
pub open spec fn port_char(c: char) -> bool {
    ascii_digit(c) || c == ','
}

/// `s` with only the characters that may stand in the list of ports.
fn keep_port_chars(s: &str) -> (kept: String)
    ensures
        kept@ == s@.filter(|c: char| port_char(c)),
{
    let chars = text::chars_of(s);
    let mut kept = String::new();
    let n: usize = chars.len();
    let mut i: usize = 0;
    proof {
        reveal(Seq::filter);
        assert(s@.take(0) =~= Seq::empty());
    }
    while i < n
        invariant
            i <= n,
            n == chars@.len(),
            chars@ == s@,
            kept@ == s@.take(i as int).filter(|c: char| port_char(c)),
        decreases n - i,
    {
        let c: char = chars[i];
        proof {
            reveal(Seq::filter);
            assert(s@.take(i as int + 1).drop_last() =~= s@.take(i as int));
        }
        let code: u32 = c as u32;
        if (0x30 <= code && code <= 0x39) || c == ',' {
            kept.push(c);
        }
        i = i + 1;
    }
    assert(s@.take(n as int) =~= s@);
    kept
}

/// The names of the selected providers, in order.
pub open spec fn selected_names(providers: Seq<ProviderEntry>) -> Seq<Seq<char>> {
    providers.filter(|p: ProviderEntry| p.selected).map_values(|p: ProviderEntry| p.name@)
}

/// The ports listed in `s`: the parts between commas, trimmed, without empty ones.
pub open spec fn port_texts(s: Seq<char>) -> Seq<Seq<char>> {
    pieces(s, ',').map_values(|p: Seq<char>| trimmed(p)).filter(|p: Seq<char>| p.len() > 0)
}

impl CreateSandboxForm {
    /// The selection can be moved on.
    pub open spec fn wf(self) -> bool {
        self.provider_cursor < usize::MAX
    }

    /// Where `key` leads from the modal.
    pub open spec fn outcome(self, key: KeyEvent) -> FormOutcome {
        if self.phase == CreatePhase::Creating {
            FormOutcome::Stay
        } else if key.code == KeyCode::Esc {
            FormOutcome::Close
        } else if self.focused_field == CreateFormField::Submit && key.code == KeyCode::Enter {
            FormOutcome::Create
        } else {
            FormOutcome::Stay
        }
    }

    /// What `key` makes of the list of providers.
    pub open spec fn providers_step(self, key: KeyEvent, post: Self) -> bool {
        let len = self.providers@.len() as int;
        let at = self.provider_cursor;
        match key.code {
            KeyCode::Char('j') | KeyCode::Down => post == (CreateSandboxForm {
                provider_cursor: if len > 0 {
                    smaller(at + 1, len - 1) as usize
                } else {
                    at
                },
                ..self
            }),
            KeyCode::Char('k') | KeyCode::Up => post == (CreateSandboxForm {
                provider_cursor: less(at as int, 1) as usize,
                ..self
            }),
            KeyCode::Char(' ') | KeyCode::Enter => if at < len {
                &&& post == (CreateSandboxForm { providers: post.providers, ..self })
                &&& post.providers@ == self.providers@.update(
                    at as int,
                    ProviderEntry {
                        selected: !self.providers@[at as int].selected,
                        ..self.providers@[at as int]
                    },
                )
            } else {
                post == self
            },
            _ => post == self,
        }
    }

    /// What `key` makes of the form.
    pub open spec fn key_step(self, key: KeyEvent, now: u64, post: Self) -> bool {
        if self.phase == CreatePhase::Creating || key.code == KeyCode::Esc {
            post == self
        } else if key.code == KeyCode::Tab {
            post == (CreateSandboxForm {
                status: None,
                focused_field: self.focused_field.after(),
                ..self
            })
        } else if key.code == KeyCode::BackTab {
            post == (CreateSandboxForm {
                status: None,
                focused_field: self.focused_field.before(),
                ..self
            })
        } else {
            match self.focused_field {
                CreateFormField::Name => {
                    &&& post == (CreateSandboxForm { name: post.name, ..self })
                    &&& post.name@ == typed(self.name@, key.code)
                },
                CreateFormField::Image => {
                    &&& post == (CreateSandboxForm { image: post.image, ..self })
                    &&& post.image@ == typed(self.image@, key.code)
                },
                CreateFormField::Command => {
                    &&& post == (CreateSandboxForm { command: post.command, ..self })
                    &&& post.command@ == typed(self.command@, key.code)
                },
                CreateFormField::Providers => self.providers_step(key, post),
                CreateFormField::Ports => {
                    &&& post == (CreateSandboxForm { ports: post.ports, ..self })
                    &&& post.ports@ == typed(self.ports@, key.code).filter(
                        |c: char| port_char(c),
                    )
                },
                CreateFormField::Submit => if key.code == KeyCode::Enter {
                    post == (CreateSandboxForm {
                        anim_start: Some(now),
                        status: None,
                        phase: CreatePhase::Creating,
                        ..self
                    })
                } else {
                    post == self
                },
            }
        }
    }

    fn handle_providers_key(&mut self, key: KeyEvent)
        requires
            old(self).wf(),
        ensures
            old(self).providers_step(key, *final(self)),
            final(self).wf(),
    {
        let len: usize = self.providers.len();
        let at: usize = self.provider_cursor;
        match key.code {
            KeyCode::Char('j') | KeyCode::Down => {
                if len > 0 {
                    self.provider_cursor = min_of(at + 1, len - 1);
                }
            },
            KeyCode::Char('k') | KeyCode::Up => {
                self.provider_cursor = minus(at, 1);
            },
            KeyCode::Char(' ') | KeyCode::Enter => {
                if at < len {
                    let entry = &self.providers[at];
                    let twin = ProviderEntry {
                        name: entry.name.clone(),
                        provider_type: entry.provider_type.clone(),
                        selected: !entry.selected,
                    };
                    self.providers.set(at, twin);
                }
            },
            _ => {},
        }
    }

    /// Handles a key pressed in the modal at `now`.
    pub fn handle_key(&mut self, key: KeyEvent, now: u64) -> (outcome: FormOutcome)
        requires
            old(self).wf(),
        ensures
            outcome == old(self).outcome(key),
            old(self).key_step(key, now, *final(self)),
            final(self).wf(),
    {
        if self.phase == CreatePhase::Creating {
            return FormOutcome::Stay;
        }
        match key.code {
            KeyCode::Esc => {
                return FormOutcome::Close;
            },
            KeyCode::Tab => {
                self.status = None;
                self.focused_field = self.focused_field.next();
                return FormOutcome::Stay;
            },
            KeyCode::BackTab => {
                self.status = None;
                self.focused_field = self.focused_field.prev();
                return FormOutcome::Stay;
            },
            _ => {},
        }
        match self.focused_field {
            CreateFormField::Name => {
                handle_text_input(&mut self.name, key);
            },
            CreateFormField::Image => {
                handle_text_input(&mut self.image, key);
            },
            CreateFormField::Command => {
                handle_text_input(&mut self.command, key);
            },
            CreateFormField::Providers => {
                self.handle_providers_key(key);
            },
            CreateFormField::Ports => {
                handle_text_input(&mut self.ports, key);
                self.ports = keep_port_chars(self.ports.as_str());
            },
            CreateFormField::Submit => {
                if key.code == KeyCode::Enter {
                    self.anim_start = Some(now);
                    self.status = None;
                    self.phase = CreatePhase::Creating;
                    return FormOutcome::Create;
                }
            },
        }
        FormOutcome::Stay
    }

    fn chosen_providers(&self) -> (names: Vec<String>)
        ensures
            texts(names@) == selected_names(self.providers@),
    {
        let mut names: Vec<String> = Vec::new();
        let n: usize = self.providers.len();
        let mut i: usize = 0;
        proof {
            reveal(Seq::filter);
            assert(self.providers@.take(0) =~= Seq::empty());
            assert(texts(names@) =~= selected_names(self.providers@.take(0)));
        }
        while i < n
            invariant
                i <= n,
                n == self.providers@.len(),
                texts(names@) == selected_names(self.providers@.take(i as int)),
            decreases n - i,
        {
            let entry = &self.providers[i];
            let ghost before = self.providers@.take(i as int);
            let ghost after = self.providers@.take(i as int + 1);
            proof {
                reveal(Seq::filter);
                assert(after.drop_last() =~= before);
            }
            if entry.selected {
                let name = entry.name.clone();
                proof {
                    lemma_texts_push(names@, name);
                    assert(selected_names(after) =~= selected_names(before).push(name@));
                }
                names.push(name);
            }
            i = i + 1;
        }
        assert(self.providers@.take(n as int) =~= self.providers@);
        names
    }

    fn listed_ports(&self) -> (ports: Vec<String>)
        ensures
            texts(ports@) == port_texts(self.ports@),
    {
        let parts = text::split(self.ports.as_str(), ',');
        let ghost trim = |p: Seq<char>| trimmed(p);
        let ghost kept = |p: Seq<char>| p.len() > 0;
        let ghost all = texts(parts@).map_values(trim);
        let mut ports: Vec<String> = Vec::new();
        let n: usize = parts.len();
        let mut i: usize = 0;
        proof {
            reveal(Seq::filter);
            assert(all.take(0) =~= Seq::empty());
            assert(texts(ports@) =~= all.take(0).filter(kept));
        }
        while i < n
            invariant
                i <= n,
                n == parts@.len(),
                trim == |p: Seq<char>| trimmed(p),
                kept == |p: Seq<char>| p.len() > 0,
                all == texts(parts@).map_values(trim),
                texts(ports@) == all.take(i as int).filter(kept),
            decreases n - i,
        {
            let part = text::trim(parts[i].as_str());
            proof {
                reveal(Seq::filter);
                assert(all[i as int] == part@);
                assert(all.take(i as int + 1).drop_last() =~= all.take(i as int));
            }
            if !part.is_empty() {
                let port = part.to_string();
                proof {
                    lemma_texts_push(ports@, port);
                }
                ports.push(port);
            }
            i = i + 1;
        }
        assert(all.take(n as int) =~= all);
        ports
    }

    /// What the form asks for: name, image, command, the selected providers and the ports to
    /// forward.
    pub fn data(&self) -> (data: CreateFormData)
        ensures
            data.0 == self.name,
            data.1 == self.image,
            data.2 == self.command,
            texts(data.3@) == selected_names(self.providers@),
            texts(data.4@) == port_texts(self.ports@),
    {
        (
            self.name.clone(),
            self.image.clone(),
            self.command.clone(),
            self.chosen_providers(),
            self.listed_ports(),
        )
    }
}

/// The create sandbox modal, with what follows the creation.
pub struct CreatePane {
    pub create_form: Option<CreateSandboxForm>,
    pub pending_create_sandbox: bool,
    /// Port forwards to set up once the sandbox has been created.
    pub pending_forward_ports: Vec<String>,
    /// Command to run once the sandbox has been created.
    pub pending_exec_command: String,
}

impl CreatePane {
    /// The open modal is well-formed.
    pub open spec fn wf(self) -> bool {
        self.create_form matches Some(form) ==> form.wf()
    }

    /// Whether the pane is as it starts.
    pub open spec fn fresh(self) -> bool {
        &&& self.create_form is None
        &&& !self.pending_create_sandbox
        &&& self.pending_forward_ports@.len() == 0
        &&& self.pending_exec_command@ == Seq::<char>::empty()
    }

    /// The pane with the modal closed.
    pub fn new() -> (pane: Self)
        ensures
            pane.fresh(),
    {
        CreatePane {
            create_form: None,
            pending_create_sandbox: false,
            pending_forward_ports: Vec::new(),
            pending_exec_command: String::new(),
        }
    }

    /// What `key` makes of the pane.
    pub open spec fn key_step(self, key: KeyEvent, now: u64, post: Self) -> bool {
        match self.create_form {
            None => post == self,
            Some(form) => match form.outcome(key) {
                FormOutcome::Close => post == (CreatePane { create_form: None, ..self }),
                outcome => {
                    &&& post == (CreatePane {
                        create_form: post.create_form,
                        pending_create_sandbox: self.pending_create_sandbox || outcome
                            == FormOutcome::Create,
                        ..self
                    })
                    &&& post.create_form matches Some(after) && form.key_step(key, now, after)
                },
            },
        }
    }

    /// Handles a key pressed while the modal is open.
    pub fn handle_key(&mut self, key: KeyEvent, now: u64)
        requires
            old(self).wf(),
        ensures
            old(self).key_step(key, now, *final(self)),
            final(self).wf(),
    {
        let mut held: Option<CreateSandboxForm> = None;
        std::mem::swap(&mut held, &mut self.create_form);
        if let Some(mut form) = held {
            match form.handle_key(key, now) {
                FormOutcome::Close => {},
                FormOutcome::Stay => {
                    self.create_form = Some(form);
                },
                FormOutcome::Create => {
                    self.create_form = Some(form);
                    self.pending_create_sandbox = true;
                },
            }
        }
    }
}

/// Going to the next field and back returns to the field.
pub proof fn lemma_form_fields_go_back(field: CreateFormField)
    ensures
        field.after().before() == field,
        field.before().after() == field,
{
}

/// Once the sandbox is being created, no key changes the form or closes it.
pub proof fn lemma_creating_takes_no_input(
    form: CreateSandboxForm,
    key: KeyEvent,
    now: u64,
    post: CreateSandboxForm,
)
    requires
        form.phase == CreatePhase::Creating,
        form.key_step(key, now, post),
    ensures
        post == form,
        form.outcome(key) == FormOutcome::Stay,
{
}

/// In the modal each key changes the field in focus alone, by what was typed; tab and its
/// opposite go to the fields in their order: name, image, command, providers, ports, and the
/// button.
pub proof fn lemma_keys_change_the_field_in_focus(
    form: CreateSandboxForm,
    key: KeyEvent,
    now: u64,
    post: CreateSandboxForm,
)
    requires
        form.key_step(key, now, post),
    ensures
        ({
            let typing = form.phase != CreatePhase::Creating && (key.code is Char || key.code
                == KeyCode::Backspace);
            let field = form.focused_field;
            &&& post.name@ != form.name@ ==> typing && field == CreateFormField::Name
            &&& post.image@ != form.image@ ==> typing && field == CreateFormField::Image
            &&& post.command@ != form.command@ ==> typing && field == CreateFormField::Command
            &&& typing ==> (key.code matches KeyCode::Char(c) ==> {
                &&& field == CreateFormField::Name ==> post.name@ == form.name@.push(c)
                &&& field == CreateFormField::Image ==> post.image@ == form.image@.push(c)
                &&& field == CreateFormField::Command ==> post.command@ == form.command@.push(c)
            })
            &&& post.ports != form.ports ==> field == CreateFormField::Ports
            &&& post.providers != form.providers ==> field == CreateFormField::Providers && (
            key.code == KeyCode::Char(' ') || key.code == KeyCode::Enter)
            &&& form.phase != CreatePhase::Creating && key.code == KeyCode::Tab
                ==> post.focused_field == match field {
                CreateFormField::Name => CreateFormField::Image,
                CreateFormField::Image => CreateFormField::Command,
                CreateFormField::Command => CreateFormField::Providers,
                CreateFormField::Providers => CreateFormField::Ports,
                CreateFormField::Ports => CreateFormField::Submit,
                CreateFormField::Submit => CreateFormField::Name,
            }
            &&& key.code != KeyCode::Tab && key.code != KeyCode::BackTab ==> post.focused_field
                == field
            &&& post.phase == CreatePhase::Creating && form.phase != CreatePhase::Creating <==> (
            field == CreateFormField::Submit && key.code == KeyCode::Enter && form.phase
                != CreatePhase::Creating)
            &&& post.phase == CreatePhase::Creating && form.phase != CreatePhase::Creating
                ==> post.anim_start == Some(now)
        }),
{
}

/// A provider is chosen, and no longer chosen, by space or enter on its row; every other row stays
/// as it is, and the cursor moves by one row.
pub proof fn lemma_providers_are_chosen_by_row(
    form: CreateSandboxForm,
    key: KeyEvent,
    now: u64,
    post: CreateSandboxForm,
    i: int,
)
    requires
        form.wf(),
        form.key_step(key, now, post),
        form.phase != CreatePhase::Creating,
        form.focused_field == CreateFormField::Providers,
        0 <= i < form.providers@.len(),
    ensures
        ({
            let at = form.provider_cursor;
            let toggles = (key.code == KeyCode::Char(' ') || key.code == KeyCode::Enter) && i == at;
            &&& post.providers@.len() == form.providers@.len()
            &&& post.providers@[i].name == form.providers@[i].name
            &&& post.providers@[i].provider_type == form.providers@[i].provider_type
            &&& toggles ==> post.providers@[i].selected == !form.providers@[i].selected
            &&& !toggles ==> post.providers@[i].selected == form.providers@[i].selected
            &&& (key.code == KeyCode::Down || key.code == KeyCode::Char('j')) && at + 1
                < form.providers@.len() ==> post.provider_cursor == at + 1
            &&& (key.code == KeyCode::Up || key.code == KeyCode::Char('k')) && at > 0
                ==> post.provider_cursor == at - 1
        }),
{
}

/// A sandbox is asked for by enter on the button alone, and escape closes the modal, unless one is
/// being created.
pub proof fn lemma_sandboxes_are_created_by_the_button(
    pane: CreatePane,
    key: KeyEvent,
    now: u64,
    post: CreatePane,
)
    requires
        pane.key_step(key, now, post),
    ensures
        post.pending_create_sandbox <==> pane.pending_create_sandbox || (
        pane.create_form matches Some(form) && form.phase != CreatePhase::Creating
            && form.focused_field == CreateFormField::Submit && key.code == KeyCode::Enter),
        pane.create_form matches Some(form) ==> (post.create_form is None <==> key.code
            == KeyCode::Esc && form.phase != CreatePhase::Creating),
        post.pending_forward_ports == pane.pending_forward_ports,
        post.pending_exec_command == pane.pending_exec_command,
{
}

/// A digit or a comma goes to the end of the ports; nothing else does.
pub proof fn lemma_ports_take_digits_and_commas(
    form: CreateSandboxForm,
    c: char,
    now: u64,
    post: CreateSandboxForm,
)
    requires
        form.phase != CreatePhase::Creating,
        form.focused_field == CreateFormField::Ports,
        form.key_step((KeyEvent { code: KeyCode::Char(c), control: false }), now, post),
        forall|i: int|
            0 <= i < form.ports@.len() ==> '0' <= #[trigger] form.ports@[i] <= '9' || form.ports@[i]
                == ',',
    ensures
        post.ports@ == if '0' <= c <= '9' || c == ',' {
            form.ports@.push(c)
        } else {
            form.ports@
        },
{
    let kept = |d: char| port_char(d);
    let typed_in = form.ports@.push(c);
    assert(typed_in.drop_last() =~= form.ports@);
    lemma_ports_are_kept(form.ports@, kept);
    reveal(Seq::filter);
}

proof fn lemma_ports_are_kept(s: Seq<char>, kept: spec_fn(char) -> bool)
    requires
        forall|i: int| 0 <= i < s.len() ==> kept(#[trigger] s[i]),
    ensures
        s.filter(kept) == s,
    decreases s.len(),
{
    reveal(Seq::filter);
    if s.len() > 0 {
        assert forall|i: int| 0 <= i < s.drop_last().len() implies kept(#[trigger] s.drop_last()[i]) by {
            assert(kept(s[i]));
        }
        lemma_ports_are_kept(s.drop_last(), kept);
        assert(kept(s[s.len() - 1]));
        assert(s.drop_last().push(s.last()) =~= s);
    }
}

} // verus!
