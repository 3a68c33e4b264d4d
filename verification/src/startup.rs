//! What the server says and decides when it starts: the address to bind, the
//! address to announce, and whether it serves until a companion command ends.

use crate::ident::decimal_text;
use crate::ident::push_decimal;
use crate::routes::index_route;
use crate::routes::index_route_text;
use crate::text::SPACE;
use crate::text::optional_str_view;
use vstd::prelude::*;
use vstd::string::StringExecFns;

verus! {

/// The host that the server binds: every interface.
pub const BIND_HOST: &'static str = "0.0.0.0";

/// What stands between a host and a port.
pub const COLON: &'static str = ":";

/// The scheme of the announced address.
pub const SCHEME: &'static str = "http://";

/// What parts the lines of the announcement.
pub const NEWLINE: &'static str = "\n";

/// How the announcement of the address begins.
pub const LISTENING: &'static str = "Listening on ";

/// What the announcement says first where the local address is not known.
pub const NO_LOCAL_IP: &'static str = "Could not determine local IP!";

/// The shell that runs the command of an action.
pub const CONTROL_SHELL: &'static str = "/bin/sh";

/// The shell that runs the companion command.
pub const COMPANION_SHELL: &'static str = "sh";

/// The flag by which a shell is handed a command text.
pub const SHELL_COMMAND_FLAG: &'static str = "-c";

/// The address to bind for a port: every interface, and the port, where 0
/// lets the system pick a free one.
pub open spec fn bind_address_text(port: u32) -> Seq<char> {
    BIND_HOST@ + COLON@ + decimal_text(port as nat)
}

/// Builds the address to bind.
pub fn bind_address(port: u32) -> (address: String)
    ensures
        address@ == bind_address_text(port),
{
    let mut address = String::from_str(BIND_HOST);
    address.append(COLON);
    let wide: u64 = port as u64;
    push_decimal(&mut address, wide);
    address
}

/// The address of the control page of a session on a host and a port.
pub open spec fn control_url_text(host: Seq<char>, port: u16, session_id: Seq<char>) -> Seq<char> {
    SCHEME@ + host + COLON@ + decimal_text(port as nat) + index_route_text(session_id)
}

/// Builds the address of the control page.
pub fn control_url(host: &str, port: u16, session_id: &str) -> (url: String)
    ensures
        url@ == control_url_text(host@, port, session_id@),
{
    let mut url = String::from_str(SCHEME);
    url.append(host);
    url.append(COLON);
    let wide: u64 = port as u64;
    push_decimal(&mut url, wide);
    let route = index_route(session_id);
    url.append(route.as_str());
    assert(url@ =~= control_url_text(host@, port, session_id@));
    url
}

/// The announcement at startup. Where the local address is known it names
/// the control page at that address and, where there is one, shows the
/// scannable code below. Where it is not known it says so, and names the
/// control page at the bound address as it stands.
pub open spec fn banner_text(
    local_ip: Option<Seq<char>>,
    port: u16,
    session_id: Seq<char>,
    code: Option<Seq<char>>,
) -> Seq<char> {
    match local_ip {
        Some(ip) => {
            let line = LISTENING@ + control_url_text(ip, port, session_id);
            match code {
                Some(drawn) => line + NEWLINE@ + drawn,
                None => line,
            }
        },
        None => NO_LOCAL_IP@ + NEWLINE@ + LISTENING@ + control_url_text(
            BIND_HOST@,
            port,
            session_id,
        ),
    }
}

/// Composes the announcement from the local address, if it is known, the
/// bound port, the session name and the scannable code, if one was drawn.
pub fn compose_banner(local_ip: Option<&str>, port: u16, session_id: &str, code: Option<&str>) -> (banner:
    String)
    ensures
        banner@ == banner_text(optional_str_view(local_ip), port, session_id@, optional_str_view(code)),
{
    match local_ip {
        Some(ip) => {
            let mut banner = String::from_str(LISTENING);
            let url = control_url(ip, port, session_id);
            banner.append(url.as_str());
            match code {
                Some(drawn) => {
                    banner.append(NEWLINE);
                    banner.append(drawn);
                },
                None => {},
            }
            banner
        },
        None => {
            let mut banner = String::from_str(NO_LOCAL_IP);
            banner.append(NEWLINE);
            banner.append(LISTENING);
            let url = control_url(BIND_HOST, port, session_id);
            banner.append(url.as_str());
            banner
        },
    }
}

/// Why `qr2term` could not draw a code. Nothing is read from it.
#[verifier::external_type_specification]
#[verifier::external_body]
pub struct ExQrError(qr2term::QrError);

/// Draws `data` as a QR code for the terminal with
/// `qr2term::generate_qr_string`.
///
/// Trusted: nothing is said of the drawing. The outside function colours it
/// or not by a variable of the environment, so the same data need not give
/// the same text twice.
#[verifier::external_body]
fn draw_qr(data: &str) -> (drawn: Result<String, qr2term::QrError>) {
    qr2term::generate_qr_string(data)
}

/// Composes the announcement at startup, and draws the scannable code of the
/// announced address where the local address is known. Where the code cannot
/// be drawn the announcement goes without it.
pub fn startup_banner(local_ip: Option<&str>, port: u16, session_id: &str) -> (banner: String)
    ensures
        exists|code: Option<Seq<char>>|
            banner@ == #[trigger] banner_text(optional_str_view(local_ip), port, session_id@, code),
        local_ip is None ==> banner@ == banner_text(None, port, session_id@, None),
{
    match local_ip {
        Some(ip) => {
            let url = control_url(ip, port, session_id);
            match draw_qr(url.as_str()) {
                Ok(drawn) => {
                    let banner = compose_banner(local_ip, port, session_id, Some(drawn.as_str()));
                    assert(banner@ == banner_text(
                        optional_str_view(local_ip),
                        port,
                        session_id@,
                        Some(drawn@),
                    ));
                    banner
                },
                Err(_) => {
                    let banner = compose_banner(local_ip, port, session_id, None);
                    assert(banner@ == banner_text(
                        optional_str_view(local_ip),
                        port,
                        session_id@,
                        None,
                    ));
                    banner
                },
            }
        },
        None => {
            let banner = compose_banner(None, port, session_id, None);
            assert(banner@ == banner_text(optional_str_view(local_ip), port, session_id@, None));
            banner
        },
    }
}

/// The words of a command line, joined by single spaces.
pub open spec fn joined_words(words: Seq<String>) -> Seq<char>
    decreases words.len(),
{
    if words.len() == 0 {
        Seq::empty()
    } else if words.len() == 1 {
        words[0]@
    } else {
        joined_words(words.drop_last()) + SPACE@ + words.last()@
    }
}

/// The companion command that the arguments of the program spell, if they
/// spell one. With a companion command the server runs until that command
/// ends; without one it runs until it is stopped.
pub open spec fn companion_text(words: Seq<String>) -> Option<Seq<char>> {
    if joined_words(words).len() == 0 {
        None
    } else {
        Some(joined_words(words))
    }
}

/// Reads the companion command from the arguments of the program, the
/// program's own name left out.
pub fn companion_command(words: &Vec<String>) -> (command: Option<String>)
    ensures
        match companion_text(words@) {
            Some(text) => command matches Some(c) && c@ == text,
            None => command is None,
        },
{
    let mut joined = String::new();
    let mut i: usize = 0;
    while i < words.len()
        invariant
            i <= words.len(),
            joined@ == joined_words(words@.take(i as int)),
        decreases words.len() - i,
    {
        if i > 0 {
            joined.append(SPACE);
        }
        joined.append(words[i].as_str());
        proof {
            let upto = words@.take(i + 1);
            assert(upto.drop_last() =~= words@.take(i as int));
            assert(upto.last() == words@[i as int]);
            if i == 0 {
                assert(joined@ =~= words@[0]@);
            }
        }
        i = i + 1;
    }
    assert(words@.take(i as int) =~= words@);
    if joined.as_str().is_empty() {
        None
    } else {
        Some(joined)
    }
}

} // verus!
