//! The configuration: a session name, a port, a page title and the ordered
//! table of actions, each with the identifier derived from its command.

use crate::ident::action_id;
use crate::ident::command_digest;
use crate::ident::derive_action_id;
use crate::ident::lemma_distinct_digests_distinct_ids;
use crate::text::optional_str_view;
use crate::text::optional_string_view;
use vstd::prelude::*;

verus! {

/// One row of the configuration as the operator wrote it: a label and the
/// shell command behind it.
#[derive(Debug)]
pub struct ActionEntry {
    pub display_name: String,
    pub cmd: String,
}

/// What an action is to the specifications: its label, its command and the
/// identifier under which it is reached.
pub struct ActionView {
    pub display_name: Seq<char>,
    pub cmd: Seq<char>,
    pub id: Seq<char>,
}

/// The action that an entry becomes once it is loaded: the entry's texts,
/// and the identifier derived from the command.
pub open spec fn derived_action(display_name: Seq<char>, cmd: Seq<char>) -> ActionView {
    ActionView { display_name, cmd, id: action_id(cmd) }
}

/// The action table that a list of entries becomes: one action per entry, in
/// the order of the entries.
pub open spec fn derived_actions(entries: Seq<ActionEntry>) -> Seq<ActionView> {
    Seq::new(entries.len(), |i: int| derived_action(entries[i].display_name@, entries[i].cmd@))
}

/// Whether every identifier in the table is the one derived from the command
/// beside it.
pub open spec fn ids_derived(actions: Seq<ActionView>) -> bool {
    forall|i: int| 0 <= i < actions.len() ==> (#[trigger] actions[i]).id == action_id(actions[i].cmd)
}

/// A configured action. Its identifier is computed when the action is made
/// and cannot be set or changed from outside.
#[derive(Debug)]
pub struct Action {
    display_name: String,
    cmd: String,
    id: String,
}

impl View for Action {
    type V = ActionView;

    closed spec fn view(&self) -> ActionView {
        ActionView { display_name: self.display_name@, cmd: self.cmd@, id: self.id@ }
    }
}

impl Action {
    #[verifier::type_invariant]
    spec fn id_is_derived(self) -> bool {
        self.id@ == action_id(self.cmd@)
    }

    /// Makes the action for a label and a command, deriving its identifier.
    pub fn new(display_name: String, cmd: String) -> (action: Action)
        ensures
            action@ == derived_action(display_name@, cmd@),
    {
        let id = derive_action_id(cmd.as_str());
        Action { display_name, cmd, id }
    }

    /// The label shown on the action's button.
    pub fn display_name(&self) -> (name: &str)
        ensures
            name@ == self@.display_name,
    {
        self.display_name.as_str()
    }

    /// The shell command that the action runs.
    pub fn cmd(&self) -> (cmd: &str)
        ensures
            cmd@ == self@.cmd,
    {
        self.cmd.as_str()
    }

    /// The identifier under which the action is reached; always the one
    /// derived from the command.
    pub fn id(&self) -> (id: &str)
        ensures
            id@ == self@.id,
            self@.id == action_id(self@.cmd),
    {
        proof {
            use_type_invariant(self);
        }
        self.id.as_str()
    }
}

/// What a configuration is to the specifications.
pub struct ConfigView {
    pub session_id: Option<Seq<char>>,
    pub port: Option<u32>,
    pub title: Seq<char>,
    pub actions: Seq<ActionView>,
}

/// The configuration of one run. It is built once and then only read.
#[derive(Debug)]
pub struct Config {
    session_id: Option<String>,
    port: Option<u32>,
    title: String,
    actions: Vec<Action>,
}

/// The views of a list of actions, in order.
pub open spec fn action_views(actions: Seq<Action>) -> Seq<ActionView> {
    Seq::new(actions.len(), |i: int| actions[i]@)
}

/// The page heading for what the configuration file gives: the title, or an
/// empty heading where the file names none.
pub open spec fn title_or_empty(title: Option<String>) -> Seq<char> {
    match title {
        Some(t) => t@,
        None => Seq::empty(),
    }
}

impl View for Config {
    type V = ConfigView;

    closed spec fn view(&self) -> ConfigView {
        ConfigView {
            session_id: optional_string_view(self.session_id),
            port: self.port,
            title: self.title@,
            actions: action_views(self.actions@),
        }
    }
}

impl Config {
    #[verifier::type_invariant]
    spec fn table_is_derived(self) -> bool {
        ids_derived(action_views(self.actions@))
    }

    /// Builds the configuration from what the configuration file holds. Every
    /// entry becomes an action with its identifier derived; the order of the
    /// entries is kept. A file without a title gives an empty heading.
    pub fn new(
        session_id: Option<String>,
        port: Option<u32>,
        title: Option<String>,
        entries: Vec<ActionEntry>,
    ) -> (config: Config)
        ensures
            config@ == (ConfigView {
                session_id: optional_string_view(session_id),
                port,
                title: title_or_empty(title),
                actions: derived_actions(entries@),
            }),
    {
        let mut actions: Vec<Action> = Vec::new();
        let mut i: usize = 0;
        while i < entries.len()
            invariant
                i <= entries.len(),
                actions@.len() == i,
                forall|k: int|
                    0 <= k < i ==> (#[trigger] actions@[k])@ == derived_action(
                        entries@[k].display_name@,
                        entries@[k].cmd@,
                    ),
            decreases entries.len() - i,
        {
            let entry = &entries[i];
            actions.push(Action::new(entry.display_name.clone(), entry.cmd.clone()));
            i = i + 1;
        }
        assert(action_views(actions@) =~= derived_actions(entries@));
        let title = match title {
            Some(title) => title,
            None => String::new(),
        };
        Config { session_id, port, title, actions }
    }

    /// The session name that the configuration file gives, if it gives one.
    pub fn session_id(&self) -> (id: Option<&str>)
        ensures
            optional_str_view(id) == self@.session_id,
    {
        match &self.session_id {
            Some(s) => Some(s.as_str()),
            None => None,
        }
    }

    /// The configured port, if any.
    pub fn port(&self) -> (port: Option<u32>)
        ensures
            port == self@.port,
    {
        self.port
    }

    /// The port to ask the system for: the configured one, or 0, which lets
    /// the system pick a free port.
    pub fn port_or_ephemeral(&self) -> (port: u32)
        ensures
            port == match self@.port {
                Some(p) => p,
                None => 0u32,
            },
    {
        match self.port {
            Some(p) => p,
            None => 0,
        }
    }

    /// The page heading.
    pub fn title(&self) -> (title: &str)
        ensures
            title@ == self@.title,
    {
        self.title.as_str()
    }

    /// The number of actions.
    pub fn action_count(&self) -> (n: usize)
        ensures
            n == self@.actions.len(),
    {
        self.actions.len()
    }

    /// The action table, in display order. Every identifier in it is the one
    /// derived from the command beside it.
    pub fn actions(&self) -> (actions: &Vec<Action>)
        ensures
            action_views(actions@) == self@.actions,
            ids_derived(self@.actions),
    {
        proof {
            use_type_invariant(self);
        }
        &self.actions
    }
}

/// In a loaded table the identifiers follow the commands: two actions with
/// the same command carry the same identifier, and two actions whose commands
/// have different digests carry different identifiers.
pub proof fn lemma_table_ids_follow_commands(entries: Seq<ActionEntry>, i: int, j: int)
    requires
        0 <= i < entries.len(),
        0 <= j < entries.len(),
    ensures
        entries[i].cmd@ == entries[j].cmd@ ==> derived_actions(entries)[i].id == derived_actions(
            entries,
        )[j].id,
        command_digest(entries[i].cmd@) != command_digest(entries[j].cmd@) ==> derived_actions(
            entries,
        )[i].id != derived_actions(entries)[j].id,
{
    if command_digest(entries[i].cmd@) != command_digest(entries[j].cmd@) {
        lemma_distinct_digests_distinct_ids(entries[i].cmd@, entries[j].cmd@);
    }
}

} // verus!
