use vstd::prelude::*;
use crate::esp::BUFFER_LEN;

verus! {

/// What the USART2 idle-line interrupt does once the DMA transfer stopped.
pub struct Usart2Action {
    /// How many bytes the module sent: the part of the DMA buffer that was
    /// filled.
    pub msg_len: usize,
    /// Whether the buffer holds a request from the server (`+IPD` at bytes
    /// 2 to 5), which is then handled at once; otherwise the bytes stay
    /// pending for the AT command driver.
    pub is_request: bool,
}

/// `+IPD` in ASCII.
pub open spec fn ipd_tag() -> Seq<u8> {
    seq![43u8, 73u8, 80u8, 68u8]
}

/// The received bytes are a request from the server: bytes 2 to 5 read
/// `+IPD` (the text of those four bytes contains `+IPD` exactly when it is
/// `+IPD`).
pub open spec fn spec_is_request(buf: Seq<u8>) -> bool {
    buf.subrange(2, 6) == ipd_tag()
}

/// A reception is a request exactly when its bytes 2 to 5 are `+`, `I`,
/// `P`, `D`; any other byte in those places (an echoed `AT+CWMODE`, a
/// `+CWJAP` failure, ...) makes it something else.
pub proof fn lemma_is_request_bytes(buf: Seq<u8>)
    requires
        buf.len() >= 6,
    ensures
        spec_is_request(buf) <==> (buf[2] == 43u8 && buf[3] == 73u8 && buf[4] == 80u8 && buf[5]
            == 68u8),
{
    if spec_is_request(buf) {
        assert(buf.subrange(2, 6)[1] == buf[3]);
        assert(buf.subrange(2, 6)[2] == buf[4]);
        assert(buf.subrange(2, 6)[3] == buf[5]);
        assert(buf.subrange(2, 6)[0] == buf[2]);
    }
    if buf[2] == 43u8 && buf[3] == 73u8 && buf[4] == 80u8 && buf[5] == 68u8 {
        assert(buf.subrange(2, 6) =~= ipd_tag());
    }
}

/// Decides what the USART2 interrupt does with a finished reception:
/// `remain_size` is what the DMA counter still had to transfer, `buf` the
/// DMA buffer.
pub fn usart2_handler(remain_size: usize, buf: &[u8]) -> (r: Usart2Action)
    requires
        remain_size <= BUFFER_LEN,
        buf@.len() >= 6,
    ensures
        r.msg_len == BUFFER_LEN - remain_size,
        r.is_request == spec_is_request(buf@),
        r.is_request <==> (buf@[2] == 43u8 && buf@[3] == 73u8 && buf@[4] == 80u8 && buf@[5] == 68u8),
{
    let len = BUFFER_LEN - remain_size;
    let is_request = buf[2] == 43u8 && buf[3] == 73u8 && buf[4] == 80u8 && buf[5] == 68u8;
    proof {
        lemma_is_request_bytes(buf@);
        if is_request {
            assert(buf@.subrange(2, 6) =~= ipd_tag());
        } else {
            assert(buf@.subrange(2, 6)[0] == buf@[2]);
            assert(buf@.subrange(2, 6)[1] == buf@[3]);
            assert(buf@.subrange(2, 6)[2] == buf@[4]);
            assert(buf@.subrange(2, 6)[3] == buf@[5]);
        }
    }
    Usart2Action { msg_len: len, is_request }
}

} // verus!
