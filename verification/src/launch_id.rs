//! The identity of one launch, from which the names of its files are made.

use crate::text;
use vstd::prelude::*;
use vstd::string::StringExecFns;

verus! {

/// The identity of a launch: the bytes of a UUID.
#[derive(Clone, Copy)]
pub struct LaunchId {
    pub bytes: [u8; 16],
}

impl View for LaunchId {
    type V = Seq<u8>;

    open spec fn view(&self) -> Seq<u8> {
        self.bytes@
    }
}

/// The hexadecimal digits of bytes, two for each.
pub open spec fn hex_digits(bytes: Seq<u8>) -> Seq<char> {
    Seq::new(
        2 * bytes.len(),
        |i: int|
            text::digit_char(
                (if i % 2 == 0 {
                    bytes[i / 2] / 16
                } else {
                    bytes[i / 2] % 16
                }) as nat,
            ),
    )
}

/// The digits of an identity in groups of eight, four, four, four and twelve.
pub open spec fn hyphenated(bytes: Seq<u8>) -> Seq<char> {
    let h = hex_digits(bytes);
    h.subrange(0, 8).push('-') + h.subrange(8, 12).push('-') + h.subrange(12, 16).push('-')
        + h.subrange(16, 20).push('-') + h.subrange(20, 32)
}

/// `Uuid::now_v7`: a UUID made from the clock and from random numbers.  Of every one of them holds
/// that its version is seven and its variant that of RFC 9562.
#[verifier::external_body]
fn now_v7() -> (bytes: [u8; 16])
    ensures
        bytes@[6] / 16 == 7,
        bytes@[8] / 64 == 2,
{
    uuid::Uuid::now_v7().into_bytes()
}

/// The `Display` of `Uuid`: the lower case digits of its bytes, in the hyphenated form.
#[verifier::external_body]
fn uuid_text(bytes: [u8; 16]) -> (s: String)
    ensures
        s@ == hyphenated(bytes@),
{
    uuid::Uuid::from_bytes(bytes).to_string()
}

impl LaunchId {
    /// The identity of a launch that begins now.
    pub fn now() -> (id: LaunchId)
        ensures
            id@[6] / 16 == 7,
            id@[8] / 64 == 2,
    {
        LaunchId { bytes: now_v7() }
    }

    /// The identity as text.
    pub fn to_text(&self) -> (s: String)
        ensures
            s@ == hyphenated(self@),
    {
        uuid_text(self.bytes)
    }

    /// The name of the launch's log file.
    pub fn log_name(&self) -> (s: String)
        ensures
            s@ == hyphenated(self@) + ".log"@,
    {
        self.to_text().concat(".log")
    }

    /// The name of the launch's copy of the image.
    pub fn image_name(&self) -> (s: String)
        ensures
            s@ == "nixvm-"@ + hyphenated(self@) + ".img"@,
    {
        "nixvm-".to_owned().concat(self.to_text().as_str()).concat(".img")
    }
}

proof fn lemma_digit_char_injective(a: nat, b: nat)
    requires
        a < 16,
        b < 16,
        text::digit_char(a) == text::digit_char(b),
    ensures
        a == b,
{
}

/// Two launches with different identities have different texts for them.
pub proof fn law_identities_differ_in_text(a: LaunchId, b: LaunchId)
    requires
        a@ != b@,
    ensures
        hyphenated(a@) != hyphenated(b@),
{
    let x = a@;
    let y = b@;
    if hyphenated(x) == hyphenated(y) {
        assert forall|i: int| 0 <= i < 32 implies hex_digits(x)[i] == hex_digits(y)[i] by {
            let at = if i < 8 {
                i
            } else if i < 12 {
                i + 1
            } else if i < 16 {
                i + 2
            } else if i < 20 {
                i + 3
            } else {
                i + 4
            };
            assert(hyphenated(x)[at] == hex_digits(x)[i]);
            assert(hyphenated(y)[at] == hex_digits(y)[i]);
        }
        assert forall|k: int| 0 <= k < 16 implies x[k] == y[k] by {
            assert(hex_digits(x)[2 * k] == hex_digits(y)[2 * k]);
            assert(hex_digits(x)[2 * k + 1] == hex_digits(y)[2 * k + 1]);
            lemma_digit_char_injective((x[k] / 16) as nat, (y[k] / 16) as nat);
            lemma_digit_char_injective((x[k] % 16) as nat, (y[k] % 16) as nat);
        }
        assert(x =~= y);
    }
}

/// The text of an identity writes its bytes in hexadecimal, two lower case digits for each, with a hyphen
/// behind the fourth, the sixth, the eighth and the tenth byte, and nothing else.
pub proof fn law_identities_are_written_out(id: LaunchId, k: int)
    requires
        0 <= k < 16,
    ensures
        ({
            let s = hyphenated(id@);
            let at = 2 * k + (if k < 4 {
                0int
            } else if k < 6 {
                1int
            } else if k < 8 {
                2int
            } else if k < 10 {
                3int
            } else {
                4int
            });
            &&& s.len() == 36
            &&& s[8] == '-' && s[13] == '-' && s[18] == '-' && s[23] == '-'
            &&& text::number(s.subrange(at, at + 2), 16) == id@[k]
        }),
{
    let s = hyphenated(id@);
    let h = hex_digits(id@);
    let at = 2 * k + (if k < 4 {
        0int
    } else if k < 6 {
        1int
    } else if k < 8 {
        2int
    } else if k < 10 {
        3int
    } else {
        4int
    });
    let two = s.subrange(at, at + 2);
    assert(two[0] == h[2 * k] && two[1] == h[2 * k + 1]);
    assert(two.drop_last() =~= seq![two[0]]);
    assert(two.drop_last().drop_last() =~= Seq::<char>::empty());
    assert(text::number(two.drop_last().drop_last(), 16) == 0);
    assert(text::number(two.drop_last(), 16) == text::digit_of(two[0]));
}

} // verus!
