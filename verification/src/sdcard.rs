use vstd::prelude::*;
use vstd::string::*;
use vstd::utf8::*;
use crate::text::{find_from, lemma_find_from, spec_find_from, str_from_utf8};

verus! {

/// ASCII code of `','`.
pub const COMMA: u8 = 44;

/// Where the original text of a Wi-Fi configuration file is split: the
/// first comma.
pub open spec fn wifi_config_comma(content: Seq<u8>) -> Option<int> {
    spec_find_from(content, COMMA, 0)
}

/// Splits the contents of the Wi-Fi configuration file, `<ssid>,<password>`,
/// at its first comma into the network name and the password. Contents that
/// are not UTF-8 give two empty strings. UTF-8 contents without a comma are
/// not accepted.
pub fn get_wifi_config(content: &[u8]) -> (r: (&str, &str))
    requires
        valid_utf8(content@) ==> wifi_config_comma(content@) is Some,
    ensures
        !valid_utf8(content@) ==> r.0.spec_bytes() == Seq::<u8>::empty()
            && r.1.spec_bytes() == Seq::<u8>::empty(),
        valid_utf8(content@) ==> ({
            let c = wifi_config_comma(content@)->0;
            &&& r.0.spec_bytes() == content@.subrange(0, c)
            &&& r.1.spec_bytes() == content@.subrange(c + 1, content@.len() as int)
            &&& content@[c] == COMMA
            &&& forall|i: int| 0 <= i < r.0.spec_bytes().len() ==> r.0.spec_bytes()[i] != COMMA
        }),
{
    match str_from_utf8(content) {
        None => {
            let empty = "";
            proof {
                reveal_strlit("");
                assert(encode_utf8(empty@) =~= Seq::<u8>::empty());
            }
            (empty, empty)
        },
        Some(text) => {
            let bytes = text.as_bytes();
            let found = find_from(bytes, COMMA, 0);
            let c = found.unwrap();
            proof {
                lemma_find_from(content@, COMMA, 0);
                is_char_boundary_iff_not_is_continuation_byte(content@, c as int);
            }
            let (ssid, rest) = text.split_at(c);
            proof {
                valid_utf8_split(content@, c as int);
                let r = rest.spec_bytes();
                assert(r[0] == COMMA);
                is_char_boundary_start_end_of_seq(r);
                if r.len() > 1 {
                    is_char_boundary_iff_not_is_continuation_byte(r, 1);
                    assert(is_char_boundary(r, 1)) by {
                        reveal_with_fuel(is_char_boundary, 2);
                    }
                }
            }
            let (_comma, pwd) = rest.split_at(1);
            proof {
                assert(pwd.spec_bytes() =~= content@.subrange(c + 1, content@.len() as int));
            }
            (ssid, pwd)
        },
    }
}

} // verus!
