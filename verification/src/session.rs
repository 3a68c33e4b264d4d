//! The session name: the path segment under which the control page and the
//! control endpoint are served. It is settled once, before the routes are
//! bound, and kept for the whole run.

use crate::config::Config;
use crate::text::optional_str_view;
use vstd::prelude::*;

verus! {

/// Whether `c` is a decimal digit or one of the letters `a` to `f`.
pub open spec fn is_lower_hex(c: char) -> bool {
    ('0' <= c <= '9') || ('a' <= c <= 'f')
}

/// Whether `text` has the shape of a UUID in its usual writing: 36
/// characters, hyphens at the places 8, 13, 18 and 23, and lower-case
/// hexadecimal digits everywhere else.
pub open spec fn is_uuid_text(text: Seq<char>) -> bool {
    &&& text.len() == 36
    &&& forall|i: int|
        0 <= i < 36 ==> if i == 8 || i == 13 || i == 18 || i == 23 {
            text[i] == '-'
        } else {
            is_lower_hex(#[trigger] text[i])
        }
}

/// Draws a random UUID with `uuid::Uuid::new_v4` and writes it out with its
/// `to_string`.
///
/// Trusted: the text has the hyphenated lower-case shape. Which UUID it is
/// depends on the system's random source, so nothing more is said of it. The
/// outside function panics where the system hands out no random bytes.
#[verifier::external_body]
fn fresh_uuid() -> (text: String)
    ensures
        is_uuid_text(text@),
{
    uuid::Uuid::new_v4().to_string()
}

/// The session name to serve under: the configured one where there is one,
/// and else the name generated for this run.
pub open spec fn session_choice(configured: Option<Seq<char>>, generated: Seq<char>) -> Seq<char> {
    match configured {
        Some(name) => name,
        None => generated,
    }
}

/// Chooses between the configured session name and a generated one.
pub fn session_id_or(configured: Option<&str>, generated: String) -> (name: String)
    ensures
        name@ == session_choice(optional_str_view(configured), generated@),
{
    match configured {
        Some(name) => name.to_owned(),
        None => generated,
    }
}

/// Settles the session name of a run: the one from the configuration, or,
/// where the configuration names none, a random UUID. A configured name is
/// taken as it is, and no UUID is drawn beside it.
pub fn resolve_session_id(config: &Config) -> (name: String)
    ensures
        match config@.session_id {
            Some(configured) => name@ == configured,
            None => is_uuid_text(name@),
        },
{
    let configured = config.session_id();
    let generated = match configured {
        Some(_) => String::new(),
        None => fresh_uuid(),
    };
    session_id_or(configured, generated)
}

/// A generated session name is one plain path segment: it holds no separator
/// and no brace, so it cannot change the shape of a route.
pub proof fn lemma_uuid_is_plain_segment(text: Seq<char>)
    requires
        is_uuid_text(text),
    ensures
        text.len() > 0,
        forall|i: int|
            0 <= i < text.len() ==> (#[trigger] text[i]) != '/' && text[i] != '{' && text[i]
                != '}',
{
    assert forall|i: int| 0 <= i < text.len() implies (#[trigger] text[i]) != '/' && text[i] != '{'
        && text[i] != '}' by {
        if i == 8 || i == 13 || i == 18 || i == 23 {
        } else {
            assert(is_lower_hex(text[i]));
        }
    }
}

} // verus!
