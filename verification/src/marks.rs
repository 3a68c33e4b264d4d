//! The marks by which the buttons of the control page are counted: the text
//! that opens a button, and the text that starts its trigger. Each stands in
//! the page once per action, at a known place in the action's button, and
//! nowhere else, provided that the texts of the configuration do not hold
//! the mark themselves.

use crate::config::ActionView;
use crate::occurrence::clean_seam;
use crate::occurrence::free_of;
use crate::occurrence::lemma_occurs_in_joined;
use crate::occurrence::lemma_seam_by_next;
use crate::occurrence::lemma_seam_by_next_two;
use crate::occurrence::lemma_seam_by_previous;
use crate::occurrence::occurrences;
use crate::occurrence::occurs_at;
use crate::page::CONTROL_BEFORE_LABEL;
use crate::page::CONTROL_CLOSE;
use crate::page::CONTROL_OPEN;
use crate::page::PAGE_BEFORE_CONTROLS;
use crate::page::PAGE_CLOSE;
use crate::page::PAGE_OPEN;
use crate::page::control_markup;
use crate::page::control_offset;
use crate::page::controls_markup;
use crate::page::page_markup;
use crate::routes::CONTROL_PREFIX;
use vstd::prelude::*;

verus! {

/// The text that opens a button.
pub const BUTTON_MARK: &'static str = "<button";

/// The text that starts the trigger of a button.
pub const TRIGGER_MARK: &'static str = "fetch('control/";

/// Where in a button its trigger mark starts.
pub const TRIGGER_MARK_PLACE: usize = 31;

/// Whether none of the texts that the configuration gives, the title, the
/// labels and the identifiers of the first `n` actions, holds `pattern`.
pub open spec fn texts_free_of(
    title: Seq<char>,
    actions: Seq<ActionView>,
    n: nat,
    pattern: Seq<char>,
) -> bool {
    &&& free_of(title, pattern)
    &&& forall|k: int|
        0 <= k < n ==> free_of((#[trigger] actions[k]).display_name, pattern) && free_of(
            actions[k].id,
            pattern,
        )
}

/// Whether `i` is the place of the mark in the button of one of the first
/// `n` actions, for a mark that starts `place` characters into a button.
pub open spec fn is_mark_place(
    title: Seq<char>,
    actions: Seq<ActionView>,
    n: nat,
    place: int,
    i: int,
) -> bool {
    exists|k: int| 0 <= k < n && i == #[trigger] control_offset(title, actions, k as nat) + place
}

/// A button up to the identifier of its action.
spec fn control_head() -> Seq<char> {
    CONTROL_OPEN@ + CONTROL_PREFIX@
}

/// What the proofs need of the fixed parts of the page, whatever the mark:
/// how each part starts and ends.
spec fn template_edges() -> bool {
    &&& PAGE_OPEN@.len() > 0 && PAGE_OPEN@.last() == '>'
    &&& PAGE_BEFORE_CONTROLS@.len() > 0 && PAGE_BEFORE_CONTROLS@[0] == '<'
        && PAGE_BEFORE_CONTROLS@.last() == ' '
    &&& PAGE_CLOSE@.len() > 0 && PAGE_CLOSE@[0] == '\n'
    &&& control_head().len() > 0 && control_head()[0] == '<' && control_head().last() == '/'
    &&& CONTROL_BEFORE_LABEL@.len() > 1 && CONTROL_BEFORE_LABEL@[0] == '\''
        && CONTROL_BEFORE_LABEL@[1] == ')' && CONTROL_BEFORE_LABEL@.last() == '>'
    &&& CONTROL_CLOSE@.len() > 0 && CONTROL_CLOSE@[0] == '<'
}

/// What the proofs need of a mark: it stands in the head of a button at
/// `place` and nowhere else in the fixed parts, and its characters are such
/// that it cannot run across the seam between two parts.
spec fn marks_controls(pattern: Seq<char>, place: int) -> bool {
    &&& pattern.len() > 0
    &&& free_of(PAGE_OPEN@, pattern)
    &&& free_of(PAGE_BEFORE_CONTROLS@, pattern)
    &&& free_of(PAGE_CLOSE@, pattern)
    &&& free_of(CONTROL_BEFORE_LABEL@, pattern)
    &&& free_of(CONTROL_CLOSE@, pattern)
    &&& forall|i: int| occurs_at(control_head(), pattern, i) <==> i == place
    &&& forall|j: int|
        0 <= j < pattern.len() - 1 ==> (#[trigger] pattern[j]) != '>' && pattern[j] != '/'
            && pattern[j] != ' '
    &&& forall|j: int| 1 <= j < pattern.len() ==> (#[trigger] pattern[j]) != '<' && pattern[j] != '\n'
    &&& forall|j: int|
        1 <= j < pattern.len() && #[trigger] pattern[j] == '\'' ==> j + 1 < pattern.len()
            && pattern[j + 1] != ')'
}

proof fn lemma_template_edges()
    ensures
        template_edges(),
{
    reveal_strlit("<!DOCTYPE html>\n<html>\n<head>\n    <meta name=\"viewport\" content=\"width=device-width, initial-scale=1\" />\n    <link rel=\"stylesheet\" href=\"/static/css/main.css\" />\n</head>\n<body>\n    <h1>");
    reveal_strlit("</h1>\n    <div class=\"controls\">\n        ");
    reveal_strlit("\n    </div>\n</body>\n</html>\n");
    reveal_strlit("<button type=\"button\" onclick=\"fetch('");
    reveal_strlit("control/");
    reveal_strlit("')\">");
    reveal_strlit("</button>");
}

proof fn lemma_button_mark_marks_controls()
    ensures
        marks_controls(BUTTON_MARK@, 0),
{
    reveal_strlit("<button");
    let p = BUTTON_MARK@;
    assert(free_of(PAGE_OPEN@, p)) by {
        reveal_strlit("<!DOCTYPE html>\n<html>\n<head>\n    <meta name=\"viewport\" content=\"width=device-width, initial-scale=1\" />\n    <link rel=\"stylesheet\" href=\"/static/css/main.css\" />\n</head>\n<body>\n    <h1>");
        assert forall|i: int| !occurs_at(PAGE_OPEN@, p, i) by {
            if occurs_at(PAGE_OPEN@, p, i) {
                let part = PAGE_OPEN@.subrange(i, i + 7);
                assert(part[0] == '<' && part[1] == 'b' && part[2] == 'u');
            }
        }
    }
    assert(free_of(PAGE_BEFORE_CONTROLS@, p)) by {
        reveal_strlit("</h1>\n    <div class=\"controls\">\n        ");
        assert forall|i: int| !occurs_at(PAGE_BEFORE_CONTROLS@, p, i) by {
            if occurs_at(PAGE_BEFORE_CONTROLS@, p, i) {
                let part = PAGE_BEFORE_CONTROLS@.subrange(i, i + 7);
                assert(part[0] == '<' && part[1] == 'b');
            }
        }
    }
    assert(free_of(PAGE_CLOSE@, p)) by {
        reveal_strlit("\n    </div>\n</body>\n</html>\n");
        assert forall|i: int| !occurs_at(PAGE_CLOSE@, p, i) by {
            if occurs_at(PAGE_CLOSE@, p, i) {
                let part = PAGE_CLOSE@.subrange(i, i + 7);
                assert(part[0] == '<' && part[1] == 'b');
            }
        }
    }
    assert(free_of(CONTROL_BEFORE_LABEL@, p)) by {
        reveal_strlit("')\">");
    }
    assert(free_of(CONTROL_CLOSE@, p)) by {
        reveal_strlit("</button>");
        assert forall|i: int| !occurs_at(CONTROL_CLOSE@, p, i) by {
            if occurs_at(CONTROL_CLOSE@, p, i) {
                let part = CONTROL_CLOSE@.subrange(i, i + 7);
                assert(part[0] == '<' && part[1] == 'b');
            }
        }
    }
    assert forall|i: int| occurs_at(control_head(), p, i) <==> i == 0 by {
        reveal_strlit("<button type=\"button\" onclick=\"fetch('");
        reveal_strlit("control/");
        let head = control_head();
        assert(head.len() == 46);
        if occurs_at(head, p, i) {
            let part = head.subrange(i, i + 7);
            assert(part[0] == '<');
            assert(head[i] == '<');
        }
        if i == 0 {
            assert(head.subrange(0, 7) =~= p);
        }
    }
}

proof fn lemma_trigger_mark_marks_controls()
    ensures
        marks_controls(TRIGGER_MARK@, TRIGGER_MARK_PLACE as int),
{
    reveal_strlit("fetch('control/");
    let p = TRIGGER_MARK@;
    assert(free_of(PAGE_OPEN@, p)) by {
        reveal_strlit("<!DOCTYPE html>\n<html>\n<head>\n    <meta name=\"viewport\" content=\"width=device-width, initial-scale=1\" />\n    <link rel=\"stylesheet\" href=\"/static/css/main.css\" />\n</head>\n<body>\n    <h1>");
        assert forall|i: int| !occurs_at(PAGE_OPEN@, p, i) by {
            if occurs_at(PAGE_OPEN@, p, i) {
                let part = PAGE_OPEN@.subrange(i, i + 15);
                assert(part[0] == 'f' && part[1] == 'e');
            }
        }
    }
    assert(free_of(PAGE_BEFORE_CONTROLS@, p)) by {
        reveal_strlit("</h1>\n    <div class=\"controls\">\n        ");
        assert forall|i: int| !occurs_at(PAGE_BEFORE_CONTROLS@, p, i) by {
            if occurs_at(PAGE_BEFORE_CONTROLS@, p, i) {
                let part = PAGE_BEFORE_CONTROLS@.subrange(i, i + 15);
                assert(part[0] == 'f');
            }
        }
    }
    assert(free_of(PAGE_CLOSE@, p)) by {
        reveal_strlit("\n    </div>\n</body>\n</html>\n");
        assert forall|i: int| !occurs_at(PAGE_CLOSE@, p, i) by {
            if occurs_at(PAGE_CLOSE@, p, i) {
                let part = PAGE_CLOSE@.subrange(i, i + 15);
                assert(part[0] == 'f');
            }
        }
    }
    assert(free_of(CONTROL_BEFORE_LABEL@, p)) by {
        reveal_strlit("')\">");
    }
    assert(free_of(CONTROL_CLOSE@, p)) by {
        reveal_strlit("</button>");
    }
    assert forall|i: int| occurs_at(control_head(), p, i) <==> i == 31 by {
        reveal_strlit("<button type=\"button\" onclick=\"fetch('");
        reveal_strlit("control/");
        let head = control_head();
        assert(head.len() == 46);
        if occurs_at(head, p, i) {
            let part = head.subrange(i, i + 15);
            assert(part[0] == 'f');
            assert(head[i] == 'f');
        }
        if i == 31 {
            assert(head.subrange(31, 46) =~= p);
        }
    }
}

/// In the button of an action whose texts are free of the mark, the mark
/// stands at its place and nowhere else.
proof fn lemma_mark_in_control(action: ActionView, pattern: Seq<char>, place: int)
    requires
        template_edges(),
        marks_controls(pattern, place),
        free_of(action.id, pattern),
        free_of(action.display_name, pattern),
    ensures
        forall|i: int| occurs_at(control_markup(action), pattern, i) <==> i == place,
        control_markup(action).len() > 0,
        control_markup(action)[0] == '<',
{
    let head = control_head();
    let with_id = head + action.id;
    let with_quote = with_id + CONTROL_BEFORE_LABEL@;
    let with_label = with_quote + action.display_name;
    let whole = with_label + CONTROL_CLOSE@;
    assert(control_markup(action) =~= whole);
    assert(whole[0] == head[0]);
    lemma_seam_by_previous(head, action.id, pattern);
    lemma_occurs_in_joined(head, action.id, pattern);
    assert forall|i: int| occurs_at(with_id, pattern, i) <==> i == place by {
        assert(!occurs_at(action.id, pattern, i - head.len()));
    }
    lemma_seam_by_next_two(with_id, CONTROL_BEFORE_LABEL@, pattern);
    lemma_occurs_in_joined(with_id, CONTROL_BEFORE_LABEL@, pattern);
    assert forall|i: int| occurs_at(with_quote, pattern, i) <==> i == place by {
        assert(!occurs_at(CONTROL_BEFORE_LABEL@, pattern, i - with_id.len()));
    }
    assert(with_quote.last() == CONTROL_BEFORE_LABEL@.last());
    lemma_seam_by_previous(with_quote, action.display_name, pattern);
    lemma_occurs_in_joined(with_quote, action.display_name, pattern);
    assert forall|i: int| occurs_at(with_label, pattern, i) <==> i == place by {
        assert(!occurs_at(action.display_name, pattern, i - with_quote.len()));
    }
    lemma_seam_by_next(with_label, CONTROL_CLOSE@, pattern);
    lemma_occurs_in_joined(with_label, CONTROL_CLOSE@, pattern);
    assert forall|i: int| occurs_at(whole, pattern, i) <==> i == place by {
        assert(!occurs_at(CONTROL_CLOSE@, pattern, i - with_label.len()));
    }
}

/// Whether `i` is the place of the mark in one of the first `n` buttons,
/// counted from the start of the first button.
spec fn is_place_in_controls(actions: Seq<ActionView>, n: nat, place: int, i: int) -> bool {
    exists|k: int| 0 <= k < n && i == #[trigger] controls_markup(actions, k as nat).len() + place
}

/// In the buttons of the first `n` actions the mark stands once per button,
/// at its place in that button, and nowhere else.
proof fn lemma_mark_in_controls(actions: Seq<ActionView>, n: nat, pattern: Seq<char>, place: int)
    requires
        template_edges(),
        marks_controls(pattern, place),
        n <= actions.len(),
        forall|k: int|
            0 <= k < n ==> free_of((#[trigger] actions[k]).display_name, pattern) && free_of(
                actions[k].id,
                pattern,
            ),
    ensures
        forall|i: int|
            occurs_at(controls_markup(actions, n), pattern, i) <==> is_place_in_controls(
                actions,
                n,
                place,
                i,
            ),
    decreases n,
{
    if n == 0 {
        assert forall|i: int|
            occurs_at(controls_markup(actions, n), pattern, i) <==> is_place_in_controls(
                actions,
                n,
                place,
                i,
            ) by {}
    } else {
        let before = controls_markup(actions, (n - 1) as nat);
        let last = control_markup(actions[n - 1]);
        lemma_mark_in_controls(actions, (n - 1) as nat, pattern, place);
        lemma_mark_in_control(actions[n - 1], pattern, place);
        lemma_seam_by_next(before, last, pattern);
        lemma_occurs_in_joined(before, last, pattern);
        assert forall|i: int|
            occurs_at(controls_markup(actions, n), pattern, i) <==> is_place_in_controls(
                actions,
                n,
                place,
                i,
            ) by {
            if occurs_at(before + last, pattern, i) {
                if occurs_at(before, pattern, i) {
                    assert(is_place_in_controls(actions, (n - 1) as nat, place, i));
                    let k = choose|k: int|
                        0 <= k < n - 1 && i == #[trigger] controls_markup(actions, k as nat).len()
                            + place;
                    assert(0 <= k < n && i == controls_markup(actions, k as nat).len() + place);
                } else {
                    assert(occurs_at(last, pattern, i - before.len()));
                    assert(i == controls_markup(actions, (n - 1) as nat).len() + place);
                }
            }
            if is_place_in_controls(actions, n, place, i) {
                let k = choose|k: int|
                    0 <= k < n && i == #[trigger] controls_markup(actions, k as nat).len() + place;
                if k < n - 1 {
                    assert(is_place_in_controls(actions, (n - 1) as nat, place, i));
                } else {
                    assert(occurs_at(last, pattern, i - before.len()));
                }
            }
        }
    }
}

/// In the page the mark stands once per action, at its place in the
/// action's button, and nowhere else.
proof fn lemma_mark_in_page(
    title: Seq<char>,
    actions: Seq<ActionView>,
    pattern: Seq<char>,
    place: int,
)
    requires
        template_edges(),
        marks_controls(pattern, place),
        texts_free_of(title, actions, actions.len(), pattern),
    ensures
        forall|i: int|
            occurs_at(page_markup(title, actions), pattern, i) <==> is_mark_place(
                title,
                actions,
                actions.len(),
                place,
                i,
            ),
{
    let n = actions.len();
    let controls = controls_markup(actions, n);
    let with_title = PAGE_OPEN@ + title;
    let head = with_title + PAGE_BEFORE_CONTROLS@;
    let body = head + controls;
    let page = body + PAGE_CLOSE@;
    assert(page_markup(title, actions) =~= page);
    lemma_seam_by_previous(PAGE_OPEN@, title, pattern);
    lemma_occurs_in_joined(PAGE_OPEN@, title, pattern);
    assert forall|i: int| !occurs_at(with_title, pattern, i) by {
        assert(!occurs_at(title, pattern, i - PAGE_OPEN@.len()));
    }
    lemma_seam_by_next(with_title, PAGE_BEFORE_CONTROLS@, pattern);
    lemma_occurs_in_joined(with_title, PAGE_BEFORE_CONTROLS@, pattern);
    assert forall|i: int| !occurs_at(head, pattern, i) by {
        assert(!occurs_at(PAGE_BEFORE_CONTROLS@, pattern, i - with_title.len()));
    }
    assert(head.last() == PAGE_BEFORE_CONTROLS@.last());
    lemma_seam_by_previous(head, controls, pattern);
    lemma_occurs_in_joined(head, controls, pattern);
    lemma_mark_in_controls(actions, n, pattern, place);
    lemma_seam_by_next(body, PAGE_CLOSE@, pattern);
    lemma_occurs_in_joined(body, PAGE_CLOSE@, pattern);
    assert(head.len() == PAGE_OPEN@.len() + title.len() + PAGE_BEFORE_CONTROLS@.len());
    assert forall|i: int|
        occurs_at(page, pattern, i) <==> is_mark_place(title, actions, n, place, i) by {
        assert(!occurs_at(PAGE_CLOSE@, pattern, i - body.len()));
        if occurs_at(page, pattern, i) {
            assert(occurs_at(body, pattern, i));
            assert(occurs_at(controls, pattern, i - head.len()));
            assert(is_place_in_controls(actions, n, place, i - head.len()));
            let k = choose|k: int|
                0 <= k < n && i - head.len() == #[trigger] controls_markup(actions, k as nat).len()
                    + place;
            assert(i == control_offset(title, actions, k as nat) + place);
        }
        if is_mark_place(title, actions, n, place, i) {
            let k = choose|k: int|
                0 <= k < n && i == #[trigger] control_offset(title, actions, k as nat) + place;
            assert(i - head.len() == controls_markup(actions, k as nat).len() + place);
            assert(is_place_in_controls(actions, n, place, i - head.len()));
        }
    }
}

/// The buttons start one behind the other: a later one starts further on.
proof fn lemma_offsets_increase(title: Seq<char>, actions: Seq<ActionView>, k: nat, n: nat)
    requires
        template_edges(),
        k < n,
    ensures
        control_offset(title, actions, k) < control_offset(title, actions, n),
    decreases n,
{
    let last = control_markup(actions[n - 1]);
    assert(last.len() >= control_head().len()) by {
        assert(last =~= control_head() + actions[n - 1].id + CONTROL_BEFORE_LABEL@ + actions[n
            - 1].display_name + CONTROL_CLOSE@);
    }
    if k < n - 1 {
        lemma_offsets_increase(title, actions, k, (n - 1) as nat);
    }
}

/// The places of the mark in the first `n` buttons.
spec fn mark_places(title: Seq<char>, actions: Seq<ActionView>, n: nat, place: int) -> Set<int> {
    Set::new(|i: int| is_mark_place(title, actions, n, place, i))
}

/// There are as many places of the mark as there are buttons.
proof fn lemma_mark_places_count(title: Seq<char>, actions: Seq<ActionView>, n: nat, place: int)
    requires
        template_edges(),
    ensures
        mark_places(title, actions, n, place).finite(),
        mark_places(title, actions, n, place).len() == n,
    decreases n,
{
    if n == 0 {
        assert(mark_places(title, actions, n, place) =~= Set::<int>::empty());
    } else {
        let fewer = mark_places(title, actions, (n - 1) as nat, place);
        let added = control_offset(title, actions, (n - 1) as nat) + place;
        lemma_mark_places_count(title, actions, (n - 1) as nat, place);
        assert(!fewer.contains(added)) by {
            if fewer.contains(added) {
                let k = choose|k: int|
                    0 <= k < n - 1 && added == #[trigger] control_offset(title, actions, k as nat)
                        + place;
                lemma_offsets_increase(title, actions, k as nat, (n - 1) as nat);
            }
        }
        assert(mark_places(title, actions, n, place) =~= fewer.insert(added)) by {
            assert forall|i: int|
                mark_places(title, actions, n, place).contains(i) <==> fewer.insert(
                    added,
                ).contains(i) by {
                if is_mark_place(title, actions, n, place, i) {
                    let k = choose|k: int|
                        0 <= k < n && i == #[trigger] control_offset(title, actions, k as nat)
                            + place;
                    if k < n - 1 {
                        assert(is_mark_place(title, actions, (n - 1) as nat, place, i));
                    }
                }
                if fewer.contains(i) {
                    let k = choose|k: int|
                        0 <= k < n - 1 && i == #[trigger] control_offset(title, actions, k as nat)
                            + place;
                    assert(0 <= k < n && i == control_offset(title, actions, k as nat) + place);
                }
                if i == added {
                    assert(0 <= n - 1 < n && i == control_offset(
                        title,
                        actions,
                        (n - 1) as nat,
                    ) + place);
                }
            }
        }
    }
}

/// The text that opens a button stands in the page exactly once per action:
/// at the start of each button, and nowhere else. This holds wherever the
/// title, the labels and the identifiers do not hold that text themselves.
pub proof fn lemma_page_has_one_button_mark_per_action(title: Seq<char>, actions: Seq<ActionView>)
    requires
        texts_free_of(title, actions, actions.len(), BUTTON_MARK@),
    ensures
        forall|i: int|
            occurs_at(page_markup(title, actions), BUTTON_MARK@, i) <==> is_mark_place(
                title,
                actions,
                actions.len(),
                0,
                i,
            ),
        occurrences(page_markup(title, actions), BUTTON_MARK@).finite(),
        occurrences(page_markup(title, actions), BUTTON_MARK@).len() == actions.len(),
{
    lemma_template_edges();
    lemma_button_mark_marks_controls();
    lemma_mark_in_page(title, actions, BUTTON_MARK@, 0);
    lemma_mark_places_count(title, actions, actions.len(), 0);
    assert(occurrences(page_markup(title, actions), BUTTON_MARK@) =~= mark_places(
        title,
        actions,
        actions.len(),
        0,
    ));
}

/// The text that starts a trigger stands in the page exactly once per
/// action: at its place in each button, and nowhere else. This holds
/// wherever the title, the labels and the identifiers do not hold that text
/// themselves.
pub proof fn lemma_page_has_one_trigger_mark_per_action(title: Seq<char>, actions: Seq<ActionView>)
    requires
        texts_free_of(title, actions, actions.len(), TRIGGER_MARK@),
    ensures
        forall|i: int|
            occurs_at(page_markup(title, actions), TRIGGER_MARK@, i) <==> is_mark_place(
                title,
                actions,
                actions.len(),
                TRIGGER_MARK_PLACE as int,
                i,
            ),
        occurrences(page_markup(title, actions), TRIGGER_MARK@).finite(),
        occurrences(page_markup(title, actions), TRIGGER_MARK@).len() == actions.len(),
{
    lemma_template_edges();
    lemma_trigger_mark_marks_controls();
    lemma_mark_in_page(title, actions, TRIGGER_MARK@, TRIGGER_MARK_PLACE as int);
    lemma_mark_places_count(title, actions, actions.len(), TRIGGER_MARK_PLACE as int);
    assert(occurrences(page_markup(title, actions), TRIGGER_MARK@) =~= mark_places(
        title,
        actions,
        actions.len(),
        TRIGGER_MARK_PLACE as int,
    ));
}

} // verus!
