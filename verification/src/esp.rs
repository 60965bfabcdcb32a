use vstd::prelude::*;
use vstd::string::*;
use crate::decimal::{all_digits, digits_value, format_decimal, lemma_decimal_digits, spec_decimal};

verus! {

/// Size of the buffer into which DMA copies what the ESP8266 sends.
pub const BUFFER_LEN: usize = 1000;

/// The serial port (USART2) wired to the ESP8266.
pub struct USART2;

/// What goes over the serial port to send a message to the server: first the
/// `AT+CIPSEND` command that announces its length, then, once the module is
/// ready, the message itself.
pub struct AtSend {
    pub command: Vec<u8>,
    pub payload: Vec<u8>,
}

/// `AT+CIPSEND=` in ASCII.
pub open spec fn cipsend_prefix() -> Seq<u8> {
    seq![65u8, 84u8, 43u8, 67u8, 73u8, 80u8, 83u8, 69u8, 78u8, 68u8, 61u8]
}

/// The command line `AT+CIPSEND=<n>\r\n` that announces `n` bytes of payload.
pub open spec fn spec_cipsend_command(n: nat) -> Seq<u8> {
    cipsend_prefix() + spec_decimal(n) + seq![13u8, 10u8]
}

/// The command that announces `n` bytes is `AT+CIPSEND=`, then the length
/// `n` in base ten without superfluous leading zeros, then `\r\n`.
pub proof fn lemma_cipsend_announces_length(n: nat)
    ensures
        ({
            let c = spec_cipsend_command(n);
            &&& c.len() >= 14
            &&& c.subrange(0, 11) == seq![65u8, 84u8, 43u8, 67u8, 73u8, 80u8, 83u8, 69u8, 78u8, 68u8, 61u8]
            &&& c[c.len() - 2] == 13u8
            &&& c[c.len() - 1] == 10u8
            &&& all_digits(c.subrange(11, c.len() - 2))
            &&& digits_value(c.subrange(11, c.len() - 2)) == n
            &&& (c.len() == 14 || c[11] != 48u8)
        }),
{
    lemma_decimal_digits(n);
    let c = spec_cipsend_command(n);
    let d = spec_decimal(n);
    assert(c.subrange(11, c.len() - 2) =~= d);
    assert(c.subrange(0, 11) =~= cipsend_prefix());
    if c.len() != 14 {
        assert(c[11] == d[0]);
    }
}

/// The transmission that sends the bytes `msg` to the server.
pub fn send_bytes_to_server(msg: &[u8]) -> (r: AtSend)
    ensures
        r.command@ == spec_cipsend_command(msg@.len()),
        r.payload@ == msg@,
        ({
            let c = r.command@;
            let n = msg@.len();
            &&& c.len() >= 14
            &&& c.subrange(0, 11) == seq![65u8, 84u8, 43u8, 67u8, 73u8, 80u8, 83u8, 69u8, 78u8, 68u8, 61u8]
            &&& c[c.len() - 2] == 13u8
            &&& c[c.len() - 1] == 10u8
            &&& all_digits(c.subrange(11, c.len() - 2))
            &&& digits_value(c.subrange(11, c.len() - 2)) == n
            &&& (c.len() == 14 || c[11] != 48u8)
        }),
{
    proof {
        lemma_cipsend_announces_length(msg@.len());
    }
    let mut command: Vec<u8> = vec![65u8, 84u8, 43u8, 67u8, 73u8, 80u8, 83u8, 69u8, 78u8, 68u8, 61u8];
    let mut digits = format_decimal(msg.len());
    command.append(&mut digits);
    command.push(13u8);
    command.push(10u8);
    let payload = vstd::slice::slice_to_vec(msg);
    proof {
        assert(command@ =~= spec_cipsend_command(msg@.len()));
    }
    AtSend { command, payload }
}

/// The transmission that sends the text `msg` to the server: the command
/// `AT+CIPSEND=<len>\r\n`, where `<len>` is the length of `msg` in bytes,
/// followed by the bytes of `msg`.
pub fn send_msg_to_server(msg: &str) -> (r: AtSend)
    ensures
        r.command@ == spec_cipsend_command(msg.spec_bytes().len()),
        r.payload@ == msg.spec_bytes(),
        ({
            let c = r.command@;
            let n = msg.spec_bytes().len();
            &&& c.len() >= 14
            &&& c.subrange(0, 11) == seq![65u8, 84u8, 43u8, 67u8, 73u8, 80u8, 83u8, 69u8, 78u8, 68u8, 61u8]
            &&& c[c.len() - 2] == 13u8
            &&& c[c.len() - 1] == 10u8
            &&& all_digits(c.subrange(11, c.len() - 2))
            &&& digits_value(c.subrange(11, c.len() - 2)) == n
            &&& (c.len() == 14 || c[11] != 48u8)
        }),
{
    proof {
        lemma_cipsend_announces_length(msg.spec_bytes().len());
    }
    send_bytes_to_server(msg.as_bytes())
}

} // verus!
