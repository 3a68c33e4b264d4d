//! The control page: one button per action, in table order.

use crate::config::ActionView;
use crate::config::Config;
use crate::config::action_views;
use crate::routes::CONTROL_PREFIX;
use crate::routes::control_path_text;
use crate::routes::index_route_text;
use vstd::prelude::*;
use vstd::string::StringExecFns;

verus! {

/// The page from its first character to the start of the title.
pub const PAGE_OPEN: &'static str =
    "<!DOCTYPE html>\n<html>\n<head>\n    <meta name=\"viewport\" content=\"width=device-width, initial-scale=1\" />\n    <link rel=\"stylesheet\" href=\"/static/css/main.css\" />\n</head>\n<body>\n    <h1>";

/// The page between the title and the first button.
pub const PAGE_BEFORE_CONTROLS: &'static str = "</h1>\n    <div class=\"controls\">\n        ";

/// The page behind the last button.
pub const PAGE_CLOSE: &'static str = "\n    </div>\n</body>\n</html>\n";

/// A button up to the path that a press of it fetches.
pub const CONTROL_OPEN: &'static str = "<button type=\"button\" onclick=\"fetch('";

/// A button between the fetched path and the label.
pub const CONTROL_BEFORE_LABEL: &'static str = "')\">";

/// A button behind the label.
pub const CONTROL_CLOSE: &'static str = "</button>";

/// The path that the button of an action fetches, relative to the page:
/// `control/` and the action's identifier.
pub open spec fn trigger_path(action: ActionView) -> Seq<char> {
    CONTROL_PREFIX@ + action.id
}

/// The button of one action: pressing it fetches the action's trigger path;
/// its face shows the label.
pub open spec fn control_markup(action: ActionView) -> Seq<char> {
    CONTROL_OPEN@ + trigger_path(action) + CONTROL_BEFORE_LABEL@ + action.display_name
        + CONTROL_CLOSE@
}

/// The buttons of the first `n` actions, one behind the other.
pub open spec fn controls_markup(actions: Seq<ActionView>, n: nat) -> Seq<char>
    decreases n,
{
    if n == 0 {
        Seq::empty()
    } else {
        controls_markup(actions, (n - 1) as nat) + control_markup(actions[n - 1])
    }
}

/// The whole page for a title and an action table.
pub open spec fn page_markup(title: Seq<char>, actions: Seq<ActionView>) -> Seq<char> {
    PAGE_OPEN@ + title + PAGE_BEFORE_CONTROLS@ + controls_markup(actions, actions.len())
        + PAGE_CLOSE@
}

/// The place in the page where the button of action `i` starts; for `i` equal
/// to the number of actions, the place where the last button ends.
pub open spec fn control_offset(title: Seq<char>, actions: Seq<ActionView>, i: nat) -> nat {
    PAGE_OPEN@.len() + title.len() + PAGE_BEFORE_CONTROLS@.len() + controls_markup(actions, i).len()
}

/// The buttons of the first `n` actions begin with the buttons of the first
/// `i`, and the button of action `i` follows them directly.
proof fn lemma_controls_extend(actions: Seq<ActionView>, i: nat, n: nat)
    requires
        i < n,
    ensures
        controls_markup(actions, n).len() >= controls_markup(actions, i + 1).len(),
        controls_markup(actions, n).subrange(0, controls_markup(actions, i + 1).len() as int)
            == controls_markup(actions, i + 1),
        controls_markup(actions, i + 1) == controls_markup(actions, i) + control_markup(
            actions[i as int],
        ),
    decreases n,
{
    if n > i + 1 {
        lemma_controls_extend(actions, i, (n - 1) as nat);
        let shorter = controls_markup(actions, (n - 1) as nat);
        let upto = controls_markup(actions, i + 1);
        assert(controls_markup(actions, n).subrange(0, upto.len() as int) =~= shorter.subrange(
            0,
            upto.len() as int,
        ));
    } else {
        assert(controls_markup(actions, n).subrange(0, controls_markup(actions, n).len() as int)
            =~= controls_markup(actions, n));
    }
}

/// Whether the button of action `i` fills the page from `control_offset(i)`
/// to `control_offset(i + 1)`.
pub open spec fn control_in_place(title: Seq<char>, actions: Seq<ActionView>, i: int) -> bool {
    let start = control_offset(title, actions, i as nat);
    let end = control_offset(title, actions, (i + 1) as nat);
    &&& start + control_markup(actions[i]).len() == end
    &&& end <= page_markup(title, actions).len()
    &&& page_markup(title, actions).subrange(start as int, end as int) == control_markup(
        actions[i],
    )
}

/// The page holds exactly one button per action, in table order, and nothing
/// else between its heading part and its closing part: the button of each
/// action is in its place, one directly behind the other, the heading part
/// ends where the first button starts, and the closing part starts where the
/// last button ends.
pub proof fn lemma_page_has_one_control_per_action(title: Seq<char>, actions: Seq<ActionView>)
    ensures
        forall|i: int| 0 <= i < actions.len() ==> control_in_place(title, actions, i),
        page_markup(title, actions).subrange(0, control_offset(title, actions, 0) as int)
            == PAGE_OPEN@ + title + PAGE_BEFORE_CONTROLS@,
        page_markup(title, actions).subrange(
            control_offset(title, actions, actions.len()) as int,
            page_markup(title, actions).len() as int,
        ) == PAGE_CLOSE@,
{
    let page = page_markup(title, actions);
    let head = PAGE_OPEN@ + title + PAGE_BEFORE_CONTROLS@;
    let all = controls_markup(actions, actions.len());
    assert(page =~= head + all + PAGE_CLOSE@);
    assert(page.subrange(0, control_offset(title, actions, 0) as int) =~= head);
    assert(page.subrange(
        control_offset(title, actions, actions.len()) as int,
        page.len() as int,
    ) =~= PAGE_CLOSE@);
    assert forall|i: int| 0 <= i < actions.len() implies control_in_place(title, actions, i) by {
        lemma_controls_extend(actions, i as nat, actions.len());
        let upto = controls_markup(actions, (i + 1) as nat);
        let start = controls_markup(actions, i as nat).len() as int;
        assert(all.subrange(start, upto.len() as int) =~= all.subrange(
            0,
            upto.len() as int,
        ).subrange(start, upto.len() as int));
        assert(upto.subrange(start, upto.len() as int) =~= control_markup(actions[i]));
        assert(page.subrange(
            control_offset(title, actions, i as nat) as int,
            control_offset(title, actions, (i + 1) as nat) as int,
        ) =~= all.subrange(start, upto.len() as int));
    }
}

/// Fetched from the control page of a session, the trigger path of an action
/// leads to the control endpoint of that session, for that action.
pub proof fn lemma_trigger_leads_to_control_endpoint(session_id: Seq<char>, action: ActionView)
    ensures
        index_route_text(session_id) + trigger_path(action) == control_path_text(
            session_id,
            action.id,
        ),
{
    assert(index_route_text(session_id) + (CONTROL_PREFIX@ + action.id) =~= index_route_text(
        session_id,
    ) + CONTROL_PREFIX@ + action.id);
}

/// Renders the control page of a configuration. The title and the labels are
/// placed as they are: they come from the operator's own configuration.
pub fn index_handler(config: &Config) -> (page: String)
    ensures
        page@ == page_markup(config@.title, config@.actions),
{
    let actions = config.actions();
    let mut page = String::from_str(PAGE_OPEN);
    page.append(config.title());
    page.append(PAGE_BEFORE_CONTROLS);
    let ghost before = page@;
    let mut i: usize = 0;
    while i < actions.len()
        invariant
            i <= actions.len(),
            action_views(actions@) == config@.actions,
            page@ == before + controls_markup(config@.actions, i as nat),
        decreases actions.len() - i,
    {
        let action = &actions[i];
        assert(action@ == config@.actions[i as int]);
        page.append(CONTROL_OPEN);
        page.append(CONTROL_PREFIX);
        page.append(action.id());
        page.append(CONTROL_BEFORE_LABEL);
        page.append(action.display_name());
        page.append(CONTROL_CLOSE);
        i = i + 1;
        assert(page@ =~= before + controls_markup(config@.actions, i as nat));
    }
    page.append(PAGE_CLOSE);
    assert(page@ =~= page_markup(config@.title, config@.actions));
    page
}

} // verus!
