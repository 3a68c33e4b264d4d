//! Action identifiers: the decimal rendering of a hash of the command text.

use std::collections::hash_map::DefaultHasher;
use std::hash::Hash;
use std::hash::Hasher;
use vstd::prelude::*;
use vstd::std_specs::hash::DefaultHasherAdditionalSpecFns;
use vstd::string::StringExecFns;

verus! {

/// The character that stands for the digit `d`, for `d` from 0 to 9.
pub open spec fn digit_char(d: int) -> char {
    if d == 0 {
        '0'
    } else if d == 1 {
        '1'
    } else if d == 2 {
        '2'
    } else if d == 3 {
        '3'
    } else if d == 4 {
        '4'
    } else if d == 5 {
        '5'
    } else if d == 6 {
        '6'
    } else if d == 7 {
        '7'
    } else if d == 8 {
        '8'
    } else {
        '9'
    }
}

/// Whether `c` is one of the ten decimal digits.
pub open spec fn is_digit(c: char) -> bool {
    '0' <= c <= '9'
}

/// The decimal numeral of `n`: most significant digit first, no sign, no
/// leading zero but for zero itself.
pub open spec fn decimal_text(n: nat) -> Seq<char>
    decreases n,
{
    if n < 10 {
        seq![digit_char(n as int)]
    } else {
        decimal_text(n / 10).push(digit_char((n % 10) as int))
    }
}

/// A numeral has at least one digit, and exactly one only below ten.
pub proof fn lemma_decimal_len(n: nat)
    ensures
        decimal_text(n).len() >= 1,
        decimal_text(n).len() == 1 <==> n < 10,
    decreases n,
{
    if n >= 10 {
        lemma_decimal_len(n / 10);
    }
}

/// Every character of a numeral is a decimal digit.
pub proof fn lemma_decimal_is_digits(n: nat)
    ensures
        forall|i: int| 0 <= i < decimal_text(n).len() ==> is_digit(#[trigger] decimal_text(n)[i]),
    decreases n,
{
    let text = decimal_text(n);
    if n >= 10 {
        lemma_decimal_is_digits(n / 10);
        let front = decimal_text(n / 10);
        assert forall|i: int| 0 <= i < text.len() implies is_digit(#[trigger] text[i]) by {
            if i < front.len() {
                assert(text[i] == front[i]);
            }
        }
    } else {
        assert(text[0] == digit_char(n as int));
    }
}

/// Two numbers with the same numeral are the same number.
pub proof fn lemma_decimal_injective(a: nat, b: nat)
    requires
        decimal_text(a) == decimal_text(b),
    ensures
        a == b,
    decreases a,
{
    lemma_decimal_len(a);
    lemma_decimal_len(b);
    if a >= 10 {
        let da = decimal_text(a / 10);
        let db = decimal_text(b / 10);
        let la = digit_char((a % 10) as int);
        let lb = digit_char((b % 10) as int);
        assert(da.push(la).drop_last() == da);
        assert(db.push(lb).drop_last() == db);
        assert(da.push(la).last() == la);
        assert(db.push(lb).last() == lb);
        lemma_decimal_injective(a / 10, b / 10);
    } else {
        assert(decimal_text(a)[0] == digit_char(a as int));
        assert(decimal_text(b)[0] == digit_char(b as int));
    }
}

/// The one-character text of a digit.
fn digit_str(d: u64) -> (s: &'static str)
    requires
        d < 10,
    ensures
        s@ == seq![digit_char(d as int)],
{
    proof {
        reveal_strlit("0");
        reveal_strlit("1");
        reveal_strlit("2");
        reveal_strlit("3");
        reveal_strlit("4");
        reveal_strlit("5");
        reveal_strlit("6");
        reveal_strlit("7");
        reveal_strlit("8");
        reveal_strlit("9");
    }
    let s: &'static str = if d == 0 {
        "0"
    } else if d == 1 {
        "1"
    } else if d == 2 {
        "2"
    } else if d == 3 {
        "3"
    } else if d == 4 {
        "4"
    } else if d == 5 {
        "5"
    } else if d == 6 {
        "6"
    } else if d == 7 {
        "7"
    } else if d == 8 {
        "8"
    } else {
        "9"
    };
    assert(s@ =~= seq![digit_char(d as int)]);
    s
}

/// Appends the numeral of `n` to `out`.
pub fn push_decimal(out: &mut String, n: u64)
    ensures
        final(out)@ == old(out)@ + decimal_text(n as nat),
    decreases n,
{
    if n >= 10 {
        push_decimal(out, n / 10);
    }
    out.append(digit_str(n % 10));
}

/// The numeral of `n` as a string.
pub fn decimal_string(n: u64) -> (s: String)
    ensures
        s@ == decimal_text(n as nat),
{
    let mut s = String::new();
    push_decimal(&mut s, n);
    s
}

/// The byte writes by which the standard library's `Hash` for `str` feeds a
/// text to a hasher, in the order in which it makes them.
pub uninterp spec fn text_writes(text: Seq<char>) -> Seq<Seq<u8>>;

/// Feeds `text` to `state` through `<str as Hash>::hash`.
///
/// Trusted: the writes that reach the hasher are a function of the text
/// alone, and they are added behind those that the hasher has already seen.
#[verifier::external_body]
fn feed_text(state: &mut DefaultHasher, text: &str)
    ensures
        final(state)@ == old(state)@ + text_writes(text@),
{
    text.hash(state);
}

/// The digest of a command: what a fresh hasher reports once it has been fed
/// the command text and nothing else.
pub open spec fn command_digest(cmd: Seq<char>) -> u64 {
    DefaultHasher::spec_finish(text_writes(cmd))
}

/// The identifier of the action that runs `cmd`: the numeral of its digest.
pub open spec fn action_id(cmd: Seq<char>) -> Seq<char> {
    decimal_text(command_digest(cmd) as nat)
}

/// Hashes one command text with a hasher of its own, so that the digest
/// depends on this text and on no other.
pub fn hash_command(cmd: &str) -> (digest: u64)
    ensures
        digest == command_digest(cmd@),
{
    let mut hasher = DefaultHasher::new();
    feed_text(&mut hasher, cmd);
    assert(hasher@ =~= text_writes(cmd@));
    hasher.finish()
}

/// Derives the identifier under which the action that runs `cmd` is reached.
pub fn derive_action_id(cmd: &str) -> (id: String)
    ensures
        id@ == action_id(cmd@),
{
    decimal_string(hash_command(cmd))
}

/// An identifier is a numeral: between one and twenty decimal digits. It can
/// therefore stand in a path or between quotes without escaping.
pub proof fn lemma_action_id_is_numeral(cmd: Seq<char>)
    ensures
        1 <= action_id(cmd).len(),
        forall|i: int| 0 <= i < action_id(cmd).len() ==> is_digit(#[trigger] action_id(cmd)[i]),
{
    lemma_decimal_len(command_digest(cmd) as nat);
    lemma_decimal_is_digits(command_digest(cmd) as nat);
}

/// The same command text always gets the same identifier, wherever it stands
/// in the action list.
pub proof fn lemma_equal_commands_share_id(a: Seq<char>, b: Seq<char>)
    requires
        a == b,
    ensures
        action_id(a) == action_id(b),
{
}

/// Two commands get the same identifier only if their digests collide: where
/// the digests differ, so do the identifiers.
pub proof fn lemma_distinct_digests_distinct_ids(a: Seq<char>, b: Seq<char>)
    requires
        command_digest(a) != command_digest(b),
    ensures
        action_id(a) != action_id(b),
{
    if action_id(a) == action_id(b) {
        lemma_decimal_injective(command_digest(a) as nat, command_digest(b) as nat);
    }
}

} // verus!
