//! The control endpoint: from the identifier in a request to the command to
//! launch, or to the refusal.

use crate::config::ActionView;
use crate::config::Config;
use crate::config::action_views;
use crate::status::STATUS_ACCEPTED;
use crate::status::STATUS_NOT_FOUND;
use crate::text::align_right;
use crate::text::optional_string_view;
use crate::text::right_aligned;
use crate::text::same_text;
use vstd::string::StringExecFns;
use vstd::prelude::*;

verus! {

/// The first action in the table that carries the identifier `id`, if one
/// does.
pub open spec fn find_action(actions: Seq<ActionView>, id: Seq<char>) -> Option<ActionView>
    decreases actions.len(),
{
    if actions.len() == 0 {
        None
    } else if actions[0].id == id {
        Some(actions[0])
    } else {
        find_action(actions.drop_first(), id)
    }
}

/// Whether some action in the table carries the identifier `id`.
pub open spec fn has_action(actions: Seq<ActionView>, id: Seq<char>) -> bool {
    exists|i: int| 0 <= i < actions.len() && (#[trigger] actions[i]).id == id
}

/// Whether `i` is the first place in the table whose action carries `id`.
pub open spec fn is_first_match(actions: Seq<ActionView>, id: Seq<char>, i: int) -> bool {
    &&& 0 <= i < actions.len()
    &&& actions[i].id == id
    &&& forall|j: int| 0 <= j < i ==> (#[trigger] actions[j]).id != id
}

/// `find_action` finds nothing exactly when no action carries the identifier,
/// and otherwise the action at the first place that does.
pub proof fn lemma_find_action(actions: Seq<ActionView>, id: Seq<char>)
    ensures
        find_action(actions, id) is None <==> !has_action(actions, id),
        find_action(actions, id) matches Some(found) ==> exists|i: int|
            #[trigger] is_first_match(actions, id, i) && actions[i] == found,
    decreases actions.len(),
{
    if actions.len() == 0 {
    } else if actions[0].id == id {
        assert(is_first_match(actions, id, 0));
    } else {
        let rest = actions.drop_first();
        lemma_find_action(rest, id);
        if has_action(rest, id) {
            let k = choose|k: int| 0 <= k < rest.len() && (#[trigger] rest[k]).id == id;
            assert(actions[k + 1] == rest[k]);
        }
        if has_action(actions, id) {
            let k = choose|k: int| 0 <= k < actions.len() && (#[trigger] actions[k]).id == id;
            assert(rest[k - 1] == actions[k]);
        }
        if let Some(found) = find_action(rest, id) {
            let i = choose|i: int| #[trigger] is_first_match(rest, id, i) && rest[i] == found;
            assert forall|j: int| 0 <= j < i + 1 implies (#[trigger] actions[j]).id != id by {
                if j > 0 {
                    assert(actions[j] == rest[j - 1]);
                }
            }
            assert(actions[i + 1] == rest[i]);
            assert(is_first_match(actions, id, i + 1));
        }
    }
}

/// What the control endpoint decides for one request.
#[derive(Debug, PartialEq, Eq)]
pub enum ControlOutcome {
    /// The identifier names an action: its command is to be launched, once,
    /// through the shell, and not waited for.
    Launch { display_name: String, cmd: String },
    /// No action carries the identifier: nothing is to be launched.
    UnknownAction,
}

impl ControlOutcome {
    /// The status of the answer.
    pub open spec fn spec_status(&self) -> u16 {
        match self {
            ControlOutcome::Launch { .. } => STATUS_ACCEPTED,
            ControlOutcome::UnknownAction => STATUS_NOT_FOUND,
        }
    }

    /// The status of the answer. It is fixed by the decision alone: whether
    /// the launch then succeeds does not change it.
    #[verifier::when_used_as_spec(spec_status)]
    pub fn status(&self) -> (status: u16)
        ensures
            status == self.spec_status(),
    {
        match self {
            ControlOutcome::Launch { .. } => STATUS_ACCEPTED,
            ControlOutcome::UnknownAction => STATUS_NOT_FOUND,
        }
    }
}

/// Decides a request to the control endpoint. The request names an action by
/// its identifier; only a command of the action table is ever handed out, and
/// of several actions with one identifier the first in the table.
pub fn control_handler(config: &Config, control: &str) -> (outcome: ControlOutcome)
    ensures
        match find_action(config@.actions, control@) {
            Some(action) => outcome matches ControlOutcome::Launch { display_name, cmd }
                && display_name@ == action.display_name && cmd@ == action.cmd,
            None => outcome is UnknownAction,
        },
        has_action(config@.actions, control@) ==> outcome is Launch && outcome.spec_status()
            == STATUS_ACCEPTED,
        !has_action(config@.actions, control@) ==> outcome is UnknownAction
            && outcome.spec_status() == STATUS_NOT_FOUND,
{
    proof {
        lemma_find_action(config@.actions, control@);
    }
    let actions = config.actions();
    let mut i: usize = 0;
    assert(config@.actions.skip(0) =~= config@.actions);
    while i < actions.len()
        invariant
            i <= actions.len(),
            action_views(actions@) == config@.actions,
            find_action(config@.actions, control@) == find_action(
                config@.actions.skip(i as int),
                control@,
            ),
        decreases actions.len() - i,
    {
        let action = &actions[i];
        let ghost rest = config@.actions.skip(i as int);
        assert(rest[0] == action@);
        assert(rest.drop_first() =~= config@.actions.skip(i + 1));
        if same_text(action.id(), control) {
            return ControlOutcome::Launch {
                display_name: action.display_name().to_owned(),
                cmd: action.cmd().to_owned(),
            };
        }
        i = i + 1;
    }
    assert(config@.actions.skip(i as int).len() == 0);
    ControlOutcome::UnknownAction
}

/// How the record of a request begins.
pub const LOG_PREFIX: &'static str = "handling ";

/// The width of the field in which the record shows the identifier.
pub const LOG_ID_WIDTH: usize = 25;

/// What stands in front of the label in the record of a request.
pub const LOG_LABEL_OPEN: &'static str = " (";

/// What stands behind the label in the record of a request.
pub const LOG_LABEL_CLOSE: &'static str = ")";

/// How the record of a request begins: the identifier that was asked for,
/// flush right in its field. It is written before the table is looked at.
pub open spec fn log_opening_text(control: Seq<char>) -> Seq<char> {
    LOG_PREFIX@ + right_aligned(control, LOG_ID_WIDTH as nat)
}

/// How the record of a request ends where an action fired: with the label of
/// the action in brackets. Where none fired the record has no end.
pub open spec fn log_closing_text(fired: Option<Seq<char>>) -> Option<Seq<char>> {
    match fired {
        Some(label) => Some(LOG_LABEL_OPEN@ + label + LOG_LABEL_CLOSE@),
        None => None,
    }
}

/// Writes the start of the record of a request.
pub fn log_opening(control: &str) -> (line: String)
    ensures
        line@ == log_opening_text(control@),
{
    let mut line = String::from_str(LOG_PREFIX);
    let field = align_right(control, LOG_ID_WIDTH);
    line.append(field.as_str());
    line
}

/// Writes the end of the record of a request, if what was decided gives it
/// one.
pub fn log_closing(outcome: &ControlOutcome) -> (line: Option<String>)
    ensures
        optional_string_view(line) == log_closing_text(
            match *outcome {
                ControlOutcome::Launch { display_name, .. } => Some(display_name@),
                ControlOutcome::UnknownAction => None,
            },
        ),
{
    match outcome {
        ControlOutcome::Launch { display_name, .. } => {
            let mut line = String::from_str(LOG_LABEL_OPEN);
            line.append(display_name.as_str());
            line.append(LOG_LABEL_CLOSE);
            Some(line)
        },
        ControlOutcome::UnknownAction => None,
    }
}

} // verus!
