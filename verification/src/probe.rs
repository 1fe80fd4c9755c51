//! A small HTTP responder for development tools that look for the debugging
//! endpoints of a browser: which port it listens on, which request gets
//! which answer, and the text of a response.

use crate::text::{
    char_is_white_space, chars_of, decimal, is_white_space, joined, render_decimal, same_text,
    string_of, trim, trimmed,
};
use vstd::prelude::*;
use vstd::string::StringSliceAdditionalSpecFns;

verus! {

/// Whether `c` is a decimal digit.
pub open spec fn is_digit(c: char) -> bool {
    '0' <= c && c <= '9'
}

/// The number that a sequence of decimal digits denotes.
pub open spec fn number_of(digits: Seq<char>) -> nat
    decreases digits.len(),
{
    if digits.len() == 0 {
        0
    } else {
        number_of(digits.drop_last()) * 10 + (digits.last() as nat - '0' as nat) as nat
    }
}

/// Whether `s` is made of decimal digits only.
pub open spec fn all_digits(s: Seq<char>) -> bool {
    forall|i: int| 0 <= i < s.len() ==> is_digit(#[trigger] s[i])
}

/// The port that a sequence of digits denotes: there has to be at least
/// one digit, nothing but digits, and a value that fits 16 bits.
pub open spec fn digits_port(digits: Seq<char>) -> Option<u16> {
    if digits.len() > 0 && all_digits(digits) && number_of(digits) <= u16::MAX {
        Some(number_of(digits) as u16)
    } else {
        None
    }
}

/// The port that `s` denotes, if it is a numeral: decimal digits after an
/// optional plus sign.
pub open spec fn port_of(s: Seq<char>) -> Option<u16> {
    if s.len() > 0 && s[0] == '+' {
        digits_port(s.drop_first())
    } else {
        digits_port(s)
    }
}

/// What follows the last `sep` in `s`, if `sep` occurs in `s`.
pub open spec fn after_last(s: Seq<char>, sep: char) -> Option<Seq<char>>
    decreases s.len(),
{
    if s.len() == 0 {
        None
    } else if s.last() == sep {
        Some(Seq::<char>::empty())
    } else {
        match after_last(s.drop_last(), sep) {
            Some(rest) => Some(rest.push(s.last())),
            None => None,
        }
    }
}

/// The port in the setting `raw`: the setting itself if it is a port, else
/// what follows its last colon, as in `host:port`.
pub open spec fn debug_port_of(raw: Seq<char>) -> Option<u16> {
    match port_of(raw) {
        Some(port) => Some(port),
        None => match after_last(raw, ':') {
            Some(rest) => port_of(rest),
            None => None,
        },
    }
}

proof fn lemma_number_grows(digits: Seq<char>, k: int)
    requires
        all_digits(digits),
        0 <= k <= digits.len(),
    ensures
        number_of(digits.take(k)) <= number_of(digits),
    decreases digits.len() - k,
{
    if k == digits.len() {
        assert(digits.take(k) == digits);
    } else {
        lemma_number_grows(digits, k + 1);
        let longer = digits.take(k + 1);
        assert(longer.drop_last() == digits.take(k));
        assert(is_digit(digits[k]));
        assert(longer.last() == digits[k]);
    }
}

fn parse_digits(chars: &Vec<char>, start: usize) -> (r: Option<u16>)
    requires
        start <= chars@.len(),
    ensures
        r == digits_port(chars@.subrange(start as int, chars@.len() as int)),
{
    let n = chars.len();
    let ghost digits = chars@.subrange(start as int, n as int);
    if start == n {
        return None;
    }
    let mut value: u32 = 0;
    let mut i: usize = start;
    while i < n
        invariant
            n == chars@.len(),
            start <= i <= n,
            start < n,
            digits == chars@.subrange(start as int, n as int),
            all_digits(digits.take(i - start)),
            value == number_of(digits.take(i - start)),
            value <= u16::MAX,
        decreases n - i,
    {
        let c = chars[i];
        if !(c >= '0' && c <= '9') {
            assert(!is_digit(digits[i - start]));
            return None;
        }
        let digit: u32 = (c as u32) - ('0' as u32);
        let ghost longer = digits.take(i - start + 1);
        proof {
            assert(longer.drop_last() == digits.take(i - start));
            assert(longer.last() == c);
            assert forall|j: int| 0 <= j < longer.len() implies is_digit(#[trigger] longer[j]) by {
                if j < i - start {
                    assert(longer[j] == digits.take(i - start)[j]);
                }
            }
        }
        let next: u32 = value * 10 + digit;
        if next > 65535 {
            proof {
                if all_digits(digits) {
                    lemma_number_grows(digits, i - start + 1);
                }
            }
            return None;
        }
        value = next;
        i += 1;
    }
    proof {
        assert(digits.take(i - start) == digits);
    }
    Some(value as u16)
}

fn parse_port_chars(chars: &Vec<char>, from: usize) -> (r: Option<u16>)
    requires
        from <= chars@.len(),
    ensures
        r == port_of(chars@.subrange(from as int, chars@.len() as int)),
{
    let ghost whole = chars@.subrange(from as int, chars@.len() as int);
    if from < chars.len() && chars[from] == '+' {
        proof {
            assert(whole[0] == '+');
            assert(whole.drop_first() == chars@.subrange(from + 1, chars@.len() as int));
        }
        parse_digits(chars, from + 1)
    } else {
        proof {
            if whole.len() > 0 {
                assert(whole[0] == chars@[from as int]);
            }
        }
        parse_digits(chars, from)
    }
}

fn last_index_of(chars: &Vec<char>, sep: char) -> (r: Option<usize>)
    ensures
        match r {
            Some(i) => i < chars@.len() && after_last(chars@, sep) == Some(
                chars@.subrange(i + 1, chars@.len() as int),
            ),
            None => after_last(chars@, sep) is None,
        },
{
    let n = chars.len();
    let mut i: usize = n;
    while i > 0
        invariant
            n == chars@.len(),
            i <= n,
            forall|j: int| i <= j < n ==> chars@[j] != sep,
        decreases i,
    {
        if chars[i - 1] == sep {
            proof {
                lemma_after_last(chars@, sep, i - 1);
            }
            return Some(i - 1);
        }
        i -= 1;
    }
    proof {
        lemma_after_last_none(chars@, sep);
    }
    None
}

proof fn lemma_after_last(s: Seq<char>, sep: char, at: int)
    requires
        0 <= at < s.len(),
        s[at] == sep,
        forall|j: int| at < j < s.len() ==> s[j] != sep,
    ensures
        after_last(s, sep) == Some(s.subrange(at + 1, s.len() as int)),
    decreases s.len(),
{
    if at == s.len() - 1 {
        assert(s.subrange(at + 1, s.len() as int) == Seq::<char>::empty());
    } else {
        let shorter = s.drop_last();
        lemma_after_last(shorter, sep, at);
        assert(shorter.subrange(at + 1, shorter.len() as int).push(s.last()) == s.subrange(
            at + 1,
            s.len() as int,
        ));
    }
}

proof fn lemma_after_last_none(s: Seq<char>, sep: char)
    requires
        forall|j: int| 0 <= j < s.len() ==> s[j] != sep,
    ensures
        after_last(s, sep) is None,
    decreases s.len(),
{
    if s.len() > 0 {
        lemma_after_last_none(s.drop_last(), sep);
    }
}

/// The port in a setting that names a port, or an address with a port.
pub fn parse_debug_port(raw: &str) -> (r: Option<u16>)
    ensures
        r == debug_port_of(raw@),
{
    let chars = chars_of(raw);
    assert(chars@.subrange(0, chars@.len() as int) == chars@);
    match parse_port_chars(&chars, 0) {
        Some(port) => Some(port),
        None => match last_index_of(&chars, ':') {
            Some(i) => parse_port_chars(&chars, i + 1),
            None => None,
        },
    }
}

/// The environment variable that holds the setting.
pub fn inspector_variable() -> (r: &'static str)
    ensures
        r@ == "WEBKIT_INSPECTOR_SERVER"@,
{
    "WEBKIT_INSPECTOR_SERVER"
}

/// The port the responder listens on, if it runs at all: only in a debug
/// build, and only if the setting, without the white space around it, is
/// not empty and names a port.
pub open spec fn responder_port(debug_build: bool, setting: Option<Seq<char>>) -> Option<u16> {
    match setting {
        Some(raw) => if debug_build && trimmed(raw).len() > 0 {
            debug_port_of(trimmed(raw))
        } else {
            None
        },
        None => None,
    }
}

/// The port the responder listens on, if it runs at all. `setting` is the
/// value of the inspector variable, if it is set.
pub fn probe_port(debug_build: bool, setting: Option<&str>) -> (r: Option<u16>)
    ensures
        r == responder_port(
            debug_build,
            match setting {
                Some(raw) => Some(raw@),
                None => None,
            },
        ),
{
    if !debug_build {
        return None;
    }
    match setting {
        None => None,
        Some(raw) => {
            let stripped = trim(raw);
            if stripped.as_str().unicode_len() == 0 {
                None
            } else {
                parse_debug_port(stripped.as_str())
            }
        },
    }
}

/// The words of `s`: its longest runs of characters that are not white
/// space, in order.
pub open spec fn words(s: Seq<char>) -> Seq<Seq<char>>
    decreases s.len(),
{
    if s.len() == 0 {
        Seq::<Seq<char>>::empty()
    } else {
        let before = words(s.drop_last());
        if is_white_space(s.last()) {
            before
        } else if s.len() >= 2 && !is_white_space(s[s.len() - 2]) && before.len() > 0 {
            before.drop_last().push(before.last().push(s.last()))
        } else {
            before.push(seq![s.last()])
        }
    }
}

/// The path a request line asks for: its second word, or `/` if it has
/// none.
pub open spec fn requested_path(request_line: Seq<char>) -> Seq<char> {
    if words(request_line).len() >= 2 {
        words(request_line)[1]
    } else {
        "/"@
    }
}

/// What a request is answered with.
#[derive(Debug, Clone, Copy, PartialEq, Eq)]
pub enum ProbeRoute {
    /// The description of the browser.
    Version,
    /// The list of pages.
    List,
    /// Nothing: the path is not known.
    NotFound,
}

/// The answer for a path.
pub open spec fn route_of(path: Seq<char>) -> ProbeRoute {
    if path == "/json/version"@ {
        ProbeRoute::Version
    } else if path == "/json/list"@ {
        ProbeRoute::List
    } else {
        ProbeRoute::NotFound
    }
}

/// The status line text of an answer.
pub open spec fn status_of(route: ProbeRoute) -> Seq<char> {
    if route == ProbeRoute::NotFound {
        "404 Not Found"@
    } else {
        "200 OK"@
    }
}

/// The path a request line asks for.
pub fn probe_path(request_line: &str) -> (r: String)
    ensures
        r@ == requested_path(request_line@),
{
    let chars = chars_of(request_line);
    let n = chars.len();
    // `count` words have begun in `chars[..i]`; what is there of the second
    // one is `chars[start..end]`.
    let mut count: usize = 0;
    let mut start: usize = 0;
    let mut end: usize = 0;
    let mut i: usize = 0;
    while i < n
        invariant
            n == chars@.len(),
            i <= n,
            count <= i,
            count == words(chars@.take(i as int)).len(),
            count >= 2 ==> start <= end <= i && words(chars@.take(i as int))[1] == chars@.subrange(
                start as int,
                end as int,
            ),
            count == 2 && i > 0 && !is_white_space(chars@[i - 1]) ==> end == i,
        decreases n - i,
    {
        let c = chars[i];
        proof {
            let upto = chars@.take(i + 1);
            assert(upto.drop_last() == chars@.take(i as int));
            assert(upto.last() == c);
            if i > 0 {
                assert(upto[upto.len() - 2] == chars@[i - 1]);
            }
        }
        if !char_is_white_space(c) {
            let continues = i > 0 && !char_is_white_space(chars[i - 1]) && count > 0;
            if continues {
                if count == 2 {
                    proof {
                        assert(chars@.subrange(start as int, end as int).push(c) == chars@.subrange(
                            start as int,
                            i + 1,
                        ));
                    }
                    end = i + 1;
                }
            } else {
                count += 1;
                if count == 2 {
                    start = i;
                    end = i + 1;
                    assert(chars@.subrange(start as int, end as int) == seq![c]);
                }
            }
        }
        i += 1;
    }
    proof {
        assert(chars@.take(i as int) == chars@);
    }
    if count >= 2 {
        string_of(&chars, start, end)
    } else {
        "/".to_owned()
    }
}

/// The answer for a path.
pub fn probe_route(path: &str) -> (r: ProbeRoute)
    ensures
        r == route_of(path@),
{
    if same_text(path, "/json/version") {
        ProbeRoute::Version
    } else if same_text(path, "/json/list") {
        ProbeRoute::List
    } else {
        ProbeRoute::NotFound
    }
}

/// The status line text of an answer.
pub fn probe_status(route: ProbeRoute) -> (r: &'static str)
    ensures
        r@ == status_of(route),
{
    match route {
        ProbeRoute::NotFound => "404 Not Found",
        _ => "200 OK",
    }
}

/// The address of the debugger socket that the answers name.
pub fn websocket_url(port: u16) -> (r: String)
    ensures
        r@ == "ws://127.0.0.1:"@ + decimal(port as nat) + "/devtools/page/1"@,
{
    let number = render_decimal(port as u64);
    let mut out = joined("ws://127.0.0.1:", number.as_str());
    out.append("/devtools/page/1");
    out
}

/// The text of an HTTP response with a JSON body: the status line, the
/// headers with the length of the body in bytes, an empty line, the body.
pub open spec fn response_text(status: Seq<char>, body: Seq<char>, body_bytes: nat) -> Seq<char> {
    "HTTP/1.1 "@ + status + "\r\nContent-Type: application/json\r\nContent-Length: "@ + decimal(
        body_bytes,
    ) + "\r\nConnection: close\r\n\r\n"@ + body
}

/// The text of the response with the given status and body.
pub fn write_probe_response(status: &str, body: &str) -> (r: String)
    ensures
        r@ == response_text(status@, body@, body.spec_bytes().len()),
{
    let length = render_decimal(body.as_bytes().len() as u64);
    let mut out = joined("HTTP/1.1 ", status);
    out.append("\r\nContent-Type: application/json\r\nContent-Length: ");
    out.append(length.as_str());
    out.append("\r\nConnection: close\r\n\r\n");
    out.append(body);
    out
}

} // verus!
