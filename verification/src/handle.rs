use vstd::prelude::*;
use crate::decimal::{lemma_decimal_digits, lemma_decimal_round_trip, parse_usize, spec_decimal, spec_parse_usize};
use crate::esp::{send_bytes_to_server, spec_cipsend_command, AtSend};
use crate::led::LedOp;
use crate::interrupt::{ipd_tag, spec_is_request};
use crate::text::{find_from, lemma_find_from_first, spec_find_from};

verus! {

/// ASCII code of `':'`.
pub const COLON: u8 = 58;

/// Where the digits of the payload length start in a received frame
/// `\r\n+IPD,<len>:<payload>`.
pub const LENGTH_START: usize = 7;

/// Where the search for the `:` that ends the length starts.
pub const COLON_SEARCH_START: usize = 8;

/// A command that the server sends to the board.
#[derive(Debug, PartialEq, Eq, Structural, Clone, Copy)]
pub enum Command {
    GreenLEDLight,
    GreenLEDDark,
    RedLEDLight,
    RedLEDDark,
    Reboot,
    Upgrade,
}

/// What the board does for a command that it understood: the LED change, if
/// any, and the reply that it sends back.
pub struct Response {
    pub led: Option<LedOp>,
    pub reply: AtSend,
}

/// `u8::is_ascii_control`: U+0000 to U+001F and U+007F.
pub open spec fn is_ascii_control(b: u8) -> bool {
    b <= 31 || b == 127
}

/// The position of the `:` that ends the length field of a frame.
pub open spec fn frame_colon(buf: Seq<u8>) -> Option<int> {
    spec_find_from(buf, COLON, COLON_SEARCH_START as int)
}

/// Where the payload of a received `+IPD` frame lies in `buf`, as
/// `(start, len)`: it starts right after the first `:` found from position 8
/// on, and its length is the decimal number between position 7 and that `:`,
/// less one where the last byte it covers is an ASCII control character.
/// `None` where the frame cannot be read: no such `:`, a length that is not a
/// number, or a payload that runs past the end of `buf`.
pub open spec fn spec_request_payload(buf: Seq<u8>) -> Option<(usize, usize)> {
    match frame_colon(buf) {
        None => None,
        Some(c) => match spec_parse_usize(buf.subrange(LENGTH_START as int, c)) {
            None => None,
            Some(n) => if c + 1 + n > buf.len() {
                None
            } else if n > 0 && is_ascii_control(buf[c + n]) {
                Some(((c + 1) as usize, (n - 1) as usize))
            } else {
                Some(((c + 1) as usize, n))
            },
        },
    }
}

/// Finds the payload of the `+IPD` frame at the start of `buf`
/// (`\r\n+IPD,<len>:<payload>`), as `(start, len)`. `None` where the frame
/// cannot be read (see `spec_request_payload`).
pub fn request_payload(buf: &[u8]) -> (r: Option<(usize, usize)>)
    ensures
        r == spec_request_payload(buf@),
{
    let c = match find_from(buf, COLON, COLON_SEARCH_START) {
        None => {
            return None;
        },
        Some(c) => c,
    };
    proof {
        crate::text::lemma_find_from(buf@, COLON, COLON_SEARCH_START as int);
        assert(c < buf@.len());
    }
    assert(c < buf.len());
    let digits = vstd::slice::slice_subrange(buf, LENGTH_START, c);
    let n = match parse_usize(digits) {
        None => {
            return None;
        },
        Some(n) => n,
    };
    let index = c + 1;
    if n > buf.len() - index {
        return None;
    }
    if n > 0 && (buf[index + n - 1] <= 31 || buf[index + n - 1] == 127) {
        Some((index, n - 1))
    } else {
        Some((index, n))
    }
}

/// The LED change that a command asks for.
pub open spec fn spec_command_led(command: Command) -> Option<LedOp> {
    match command {
        Command::GreenLEDLight => Some(LedOp::GreenLight),
        Command::GreenLEDDark => Some(LedOp::GreenDark),
        Command::RedLEDLight => Some(LedOp::RedLight),
        Command::RedLEDDark => Some(LedOp::RedDark),
        Command::Reboot => None,
        Command::Upgrade => None,
    }
}

/// `OK` in ASCII: the reply to every command that was understood.
pub open spec fn ok_reply() -> Seq<u8> {
    seq![79u8, 75u8]
}

/// Handles the payload of a request. `command` is what the JSON reader made
/// of the payload: a command, or nothing where it is not one. Nothing is done
/// for a payload that is not a command; for a command, the board makes the
/// LED change that it asks for (reboot and upgrade change nothing) and
/// replies `OK`.
pub fn handle_request(command: Option<Command>) -> (r: Option<Response>)
    ensures
        command is None <==> r is None,
        r matches Some(resp) ==> {
            &&& resp.led == spec_command_led(command->0)
            &&& resp.reply.command@ == spec_cipsend_command(2)
            &&& resp.reply.payload@ == ok_reply()
        },
{
    match command {
        None => None,
        Some(c) => {
            let led = match c {
                Command::GreenLEDLight => Some(LedOp::GreenLight),
                Command::GreenLEDDark => Some(LedOp::GreenDark),
                Command::RedLEDLight => Some(LedOp::RedLight),
                Command::RedLEDDark => Some(LedOp::RedDark),
                Command::Reboot => None,
                Command::Upgrade => None,
            };
            let ok: [u8; 2] = [79u8, 75u8];
            let reply = send_bytes_to_server(&ok);
            assert(ok@ =~= ok_reply());
            Some(Response { led, reply })
        },
    }
}

/// `\r\n+IPD,` in ASCII: how the module starts a frame that hands on data
/// from the server.
pub open spec fn ipd_header() -> Seq<u8> {
    seq![13u8, 10u8, 43u8, 73u8, 80u8, 68u8, 44u8]
}

/// The frame `\r\n+IPD,<len>:<payload>` in which the module hands on
/// `payload`, `<len>` being its length in decimal, followed by whatever else
/// the buffer holds (`rest`).
pub open spec fn ipd_frame(payload: Seq<u8>, rest: Seq<u8>) -> Seq<u8> {
    ipd_header() + spec_decimal(payload.len()) + seq![COLON] + payload + rest
}

/// A frame that announces its payload's true length is taken for a request,
/// and reading it gives back that payload (the bytes that follow do not
/// matter), less its last byte exactly when that byte is an ASCII control
/// character (U+0000 to U+001F or U+007F).
pub proof fn lemma_request_payload_of_frame(payload: Seq<u8>, rest: Seq<u8>)
    requires
        payload.len() <= usize::MAX,
    ensures
        spec_is_request(ipd_frame(payload, rest)),
        payload.len() > 0 && (payload.last() <= 31u8 || payload.last() == 127u8)
            ==> spec_request_payload(ipd_frame(payload, rest)) == Some(
            ((8 + spec_decimal(payload.len()).len()) as usize, (payload.len() - 1) as usize),
        ),
        !(payload.len() > 0 && (payload.last() <= 31u8 || payload.last() == 127u8))
            ==> spec_request_payload(ipd_frame(payload, rest)) == Some(
            ((8 + spec_decimal(payload.len()).len()) as usize, payload.len() as usize),
        ),
{
    let n = payload.len();
    let digits = spec_decimal(n);
    let d = digits.len() as int;
    let f = ipd_frame(payload, rest);
    lemma_decimal_digits(n);
    lemma_decimal_round_trip(n as usize);
    assert(f.subrange(2, 6) =~= ipd_tag());
    assert(f[7 + d] == COLON);
    assert forall|j: int| 8 <= j < 7 + d implies f[j] != COLON by {
        assert(f[j] == digits[j - 7]);
    }
    lemma_find_from_first(f, COLON, 8, 7 + d);
    assert(f.subrange(7, 7 + d) =~= digits);
    if n > 0 {
        assert(f[7 + d + n] == payload.last());
    }
}

} // verus!
