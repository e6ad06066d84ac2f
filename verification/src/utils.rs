//! Small string utilities.

use vstd::prelude::*;
use vstd::slice::slice_index_get;
use vstd::string::StrSliceExecFns;
use vstd::string::StringExecFns;
use vstd::utf8::encode_utf8;
use vstd::utf8::encode_utf8_decode_utf8;

verus! {

broadcast use vstd::slice::axiom_spec_len;

/// String equality, decided on the UTF-8 bytes: two strings are equal
/// exactly when their characters are.
#[verifier::loop_isolation(false)]
pub(crate) fn str_eq(a: &str, b: &str) -> (r: bool)
    ensures
        r == (a@ == b@),
{
    let ab = a.as_bytes();
    let bb = b.as_bytes();
    if ab.len() != bb.len() {
        proof {
            if a@ == b@ {
                assert(encode_utf8(a@) == encode_utf8(b@));
            }
        }
        return false;
    }
    let n = ab.len();
    let mut i: usize = 0;
    while i < n
        invariant
            0 <= i <= n,
            forall|j: int| 0 <= j < i ==> ab@[j] == bb@[j],
        decreases n - i,
    {
        if *slice_index_get(ab, i) != *slice_index_get(bb, i) {
            proof {
                if a@ == b@ {
                    assert(encode_utf8(a@) == encode_utf8(b@));
                    assert(ab@[i as int] == bb@[i as int]);
                }
            }
            return false;
        }
        i = i + 1;
    }
    proof {
        assert(encode_utf8(a@) =~= encode_utf8(b@));
        encode_utf8_decode_utf8(a@);
        encode_utf8_decode_utf8(b@);
    }
    true
}

/// Masks a secret for logging: four stars when it has at most four
/// characters, otherwise its first two and last two characters around
/// four stars.
pub fn mask_secret(input: &str) -> (r: String)
    ensures
        r@ == if input@.len() <= 4 {
            "****"@
        } else {
            input@.subrange(0, 2) + "****"@ + input@.subrange(
                input@.len() as int - 2,
                input@.len() as int,
            )
        },
{
    let n = input.unicode_len();
    if n <= 4 {
        "****".to_owned()
    } else {
        let first = input.substring_char(0, 2);
        let last = input.substring_char(n - 2, n);
        String::from_str(first).concat("****").concat(last)
    }
}

} // verus!
