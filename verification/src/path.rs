//! Paths of the host, as the bytes that the kernel takes, and their conversions to text.

use crate::text;
use vstd::prelude::*;
use vstd::string::StringExecFns;

verus! {

/// What `String::from_utf8_lossy` makes of bytes.
pub uninterp spec fn utf8_lossy(bytes: Seq<u8>) -> Seq<char>;

/// The message of the error that `String::from_utf8` returns for bytes that are not UTF-8.
pub uninterp spec fn utf8_error(bytes: Seq<u8>) -> Seq<char>;

/// `String::from_utf8_lossy`: the result depends on the bytes alone, and bytes that are valid UTF-8
/// give the text that they encode.  How invalid bytes are replaced is left to the name.
#[verifier::external_body]
fn from_utf8_lossy(bytes: &Vec<u8>) -> (s: String)
    ensures
        s@ == utf8_lossy(bytes@),
        vstd::utf8::valid_utf8(bytes@) ==> s@ == vstd::utf8::decode_utf8(bytes@),
{
    String::from_utf8_lossy(bytes).into_owned()
}

/// `String::from_utf8`: succeeds exactly on valid UTF-8, with the text that the bytes encode.  The
/// error's message depends on the bytes alone.
#[verifier::external_body]
fn from_utf8(bytes: Vec<u8>) -> (r: Result<String, String>)
    ensures
        r is Ok <==> vstd::utf8::valid_utf8(bytes@),
        r matches Ok(s) ==> s@ == vstd::utf8::decode_utf8(bytes@),
        r matches Err(e) ==> e@ == utf8_error(bytes@),
{
    String::from_utf8(bytes).map_err(|e| e.to_string())
}

/// The text that bytes encode, or the reason why they encode none.
pub fn utf8_text(bytes: Vec<u8>) -> (r: Result<String, String>)
    ensures
        r is Ok <==> vstd::utf8::valid_utf8(bytes@),
        r matches Ok(s) ==> s@ == vstd::utf8::decode_utf8(bytes@),
        r matches Err(e) ==> e@ == utf8_error(bytes@),
{
    from_utf8(bytes)
}

/// The text that bytes encode, with replacements where they encode none.
pub fn lossy_text(bytes: &Vec<u8>) -> (s: String)
    ensures
        s@ == utf8_lossy(bytes@),
        vstd::utf8::valid_utf8(bytes@) ==> s@ == vstd::utf8::decode_utf8(bytes@),
{
    from_utf8_lossy(bytes)
}

/// A path of the host.
#[derive(Debug)]
pub struct HostPath {
    pub bytes: Vec<u8>,
}

impl View for HostPath {
    type V = Seq<u8>;

    open spec fn view(&self) -> Seq<u8> {
        self.bytes@
    }
}

/// The model of what reading a path came to.
pub open spec fn path_read(r: Result<HostPath, String>) -> Result<Seq<u8>, Seq<char>> {
    match r {
        Ok(p) => Ok(p@),
        Err(e) => Err(e@),
    }
}

/// The bytes of a text.
pub open spec fn utf8(s: Seq<char>) -> Seq<u8> {
    vstd::utf8::encode_utf8(s)
}

/// `component` looked up in the directory `base`.
pub open spec fn join(base: Seq<u8>, component: Seq<u8>) -> Seq<u8> {
    if component.len() > 0 && component[0] == 47u8 {
        component
    } else if base.len() == 0 || base.last() == 47u8 {
        base + component
    } else {
        base.push(47u8) + component
    }
}

/// A path as it is shown to the user.
pub open spec fn shown(path: Seq<u8>) -> Seq<char> {
    utf8_lossy(path)
}

fn append(v: &mut Vec<u8>, s: &str)
    ensures
        final(v)@ == old(v)@ + utf8(s@),
{
    let bytes = s.as_bytes();
    let n: usize = bytes.len();
    let mut i: usize = 0;
    let ghost start = v@;
    assert(start + bytes@.take(0) =~= start);
    while i < n
        invariant
            i <= n == bytes@.len(),
            v@ == start + bytes@.take(i as int),
        decreases n - i,
    {
        v.push(bytes[i]);
        i = i + 1;
        assert(v@ =~= start + bytes@.take(i as int));
    }
    assert(bytes@.take(n as int) =~= bytes@);
}

impl Clone for HostPath {
    fn clone(&self) -> (p: HostPath)
        ensures
            p@ == self@,
    {
        HostPath { bytes: vstd::slice::slice_to_vec(self.bytes.as_slice()) }
    }
}

impl HostPath {
    /// The path that a text names.
    pub fn from_text(s: &str) -> (p: HostPath)
        ensures
            p@ == utf8(s@),
    {
        let mut bytes: Vec<u8> = Vec::new();
        append(&mut bytes, s);
        assert(bytes@ =~= utf8(s@));
        HostPath { bytes }
    }

    /// `component` looked up in the directory that the path names.
    pub fn join(&self, component: &str) -> (p: HostPath)
        ensures
            p@ == join(self@, utf8(component@)),
    {
        let added = component.as_bytes();
        let base: usize = self.bytes.len();
        if added.len() > 0 && added[0] == 47u8 {
            HostPath::from_text(component)
        } else {
            let mut bytes = self.clone().bytes;
            if base > 0 && bytes[base - 1] != 47u8 {
                bytes.push(47u8);
            }
            append(&mut bytes, component);
            assert(bytes@ =~= join(self@, utf8(component@)));
            HostPath { bytes }
        }
    }

    /// The path with a text behind its last byte.
    pub fn with_suffix(&self, suffix: &str) -> (p: HostPath)
        ensures
            p@ == self@ + utf8(suffix@),
    {
        let mut bytes = self.clone().bytes;
        append(&mut bytes, suffix);
        HostPath { bytes }
    }

    /// The path as text, if it is UTF-8.
    pub fn to_text(&self) -> (r: Option<String>)
        ensures
            r is Some <==> vstd::utf8::valid_utf8(self@),
            r matches Some(s) ==> s@ == vstd::utf8::decode_utf8(self@),
    {
        match from_utf8(self.clone().bytes) {
            Ok(s) => Some(s),
            Err(_) => None,
        }
    }

    /// The path as it is shown to the user.
    pub fn show(&self) -> (s: String)
        ensures
            s@ == shown(self@),
            vstd::utf8::valid_utf8(self@) ==> s@ == vstd::utf8::decode_utf8(self@),
    {
        from_utf8_lossy(&self.bytes)
    }
}

/// Different texts have different bytes.
pub proof fn lemma_utf8_injective(a: Seq<char>, b: Seq<char>)
    requires
        utf8(a) == utf8(b),
    ensures
        a == b,
{
    vstd::utf8::encode_utf8_decode_utf8(a);
    vstd::utf8::encode_utf8_decode_utf8(b);
}

/// A text that does not start with a slash has bytes that do not.
pub proof fn lemma_no_leading_slash(s: Seq<char>)
    requires
        s.len() > 0,
        s[0] != '/',
    ensures
        utf8(s).len() > 0,
        utf8(s)[0] != 47u8,
{
    vstd::utf8::encode_utf8_first_scalar(s);
    assert(vstd::utf8::is_leading_byte_width_1(47u8) && vstd::utf8::codepoint_width_1(47u8)
        == 47u32) by (bit_vector);
    if utf8(s)[0] == 47u8 {
        assert(vstd::utf8::decode_first_codepoint(utf8(s)) == 47u32);
        vstd::utf8::char_u32_cast(s[0], 47u32);
    }
}

/// Where the first zero byte stands, or the length if there is none.
pub open spec fn first_zero(bytes: Seq<u8>) -> nat
    decreases bytes.len(),
{
    if bytes.len() == 0 || bytes.first() == 0u8 {
        0
    } else {
        1 + first_zero(bytes.drop_first())
    }
}

/// Where the first zero byte of a text stands, if it holds one.
pub fn zero_position(s: &str) -> (r: Option<usize>)
    ensures
        r is Some <==> utf8(s@).contains(0u8),
        r matches Some(i) ==> i == first_zero(utf8(s@)),
{
    let bytes = s.as_bytes();
    let n: usize = bytes.len();
    let mut i: usize = 0;
    assert(bytes@.skip(0) =~= bytes@);
    while i < n
        invariant
            i <= n == bytes@.len(),
            bytes@ == utf8(s@),
            first_zero(bytes@) == i + first_zero(bytes@.skip(i as int)),
            forall|j: int| 0 <= j < i ==> bytes@[j] != 0u8,
        decreases n - i,
    {
        if bytes[i] == 0u8 {
            assert(bytes@[i as int] == 0u8);
            return Some(i);
        }
        assert(bytes@.skip(i as int).drop_first() =~= bytes@.skip(i + 1));
        i = i + 1;
    }
    None
}

/// Whether a text holds a zero byte, which no string of a C library can.
pub open spec fn has_zero(s: Seq<char>) -> bool {
    utf8(s).contains(0u8)
}

/// What is said of a text that holds a zero byte.
pub open spec fn zero_byte_text(s: Seq<char>) -> Seq<char> {
    "nul byte found in provided data at position: "@ + text::decimal(first_zero(utf8(s)))
}

/// What is said of a text whose first zero byte stands at `position`.
pub fn zero_byte_message(position: usize) -> (s: String)
    ensures
        s@ == "nul byte found in provided data at position: "@ + text::decimal(position as nat),
{
    "nul byte found in provided data at position: ".to_owned().concat(
        text::decimal_text(position as u64).as_str(),
    )
}

/// Looking a name up in a directory keeps both whole: the path starts with the directory and ends in the
/// name, with one slash between them, which may be the one that the directory ends in.  An absolute path
/// is not looked up anywhere.
pub proof fn law_names_are_looked_up_in_directories(base: Seq<u8>, component: Seq<u8>)
    ensures
        component.len() > 0 && component[0] == 47u8 ==> join(base, component) == component,
        component.len() == 0 || component[0] != 47u8 ==> {
            let p = join(base, component);
            let n = base.len() as int;
            &&& p.take(n) == base
            &&& p.skip(p.len() - component.len()) == component
            &&& n == 0 || base.last() == 47u8 ==> p.len() == n + component.len()
            &&& n > 0 && base.last() != 47u8 ==> p.len() == n + 1 + component.len() && p[n] == 47u8
        },
{
    let p = join(base, component);
    if component.len() == 0 || component[0] != 47u8 {
        assert(p.take(base.len() as int) =~= base);
        assert(p.skip(p.len() - component.len()) =~= component);
    }
}

/// The first zero byte is where it is said to be: none stands before it.
pub proof fn law_zero_bytes_are_found(bytes: Seq<u8>, i: int)
    requires
        bytes.contains(0u8),
        0 <= i < first_zero(bytes),
    ensures
        first_zero(bytes) < bytes.len(),
        bytes[first_zero(bytes) as int] == 0u8,
        bytes[i] != 0u8,
{
    lemma_first_zero(bytes);
}

proof fn lemma_first_zero(bytes: Seq<u8>)
    requires
        bytes.contains(0u8),
    ensures
        first_zero(bytes) < bytes.len(),
        bytes[first_zero(bytes) as int] == 0u8,
        forall|i: int| 0 <= i < first_zero(bytes) ==> bytes[i] != 0u8,
    decreases bytes.len(),
{
    if bytes.first() != 0u8 {
        let rest = bytes.drop_first();
        let k = choose|k: int| 0 <= k < bytes.len() && bytes[k] == 0u8;
        assert(rest[k - 1] == 0u8);
        lemma_first_zero(rest);
        assert(bytes[first_zero(bytes) as int] == rest[first_zero(rest) as int]);
        assert forall|i: int| 0 <= i < first_zero(bytes) implies bytes[i] != 0u8 by {
            if i > 0 {
                assert(bytes[i] == rest[i - 1]);
            }
        }
    }
}

/// What is said of a text with a zero byte tells where the first one stands, in decimal.
pub proof fn law_zero_bytes_are_told(s: Seq<char>)
    ensures
        text::number(zero_byte_text(s).skip(45), 10) == first_zero(utf8(s)),
        zero_byte_text(s).take(45) == "nul byte found in provided data at position: "@,
{
    reveal_strlit("nul byte found in provided data at position: ");
    text::law_decimals_read_back(first_zero(utf8(s)));
    assert(zero_byte_text(s).skip(45) =~= text::decimal(first_zero(utf8(s))));
    assert(zero_byte_text(s).take(45) =~= "nul byte found in provided data at position: "@);
}

proof fn lemma_zero_of_scalar(c: char)
    ensures
        vstd::utf8::encode_scalar(c as u32).contains(0u8) <==> c == '\0',
{
    let s = c as u32;
    let bytes = vstd::utf8::encode_scalar(s);
    let a = ((s >> 6) & 0x1F) as u8;
    let b = ((s >> 12) & 0x0F) as u8;
    let d = ((s >> 18) & 0x7) as u8;
    let e = (s & 0x3F) as u8;
    let f = ((s >> 6) & 0x3F) as u8;
    let g = ((s >> 12) & 0x3F) as u8;
    assert(s <= 0x7F ==> ((s & 0x7F) as u8 == 0u8 <==> s == 0)) by (bit_vector);
    assert(0xC0u8 | a != 0u8 && 0xE0u8 | b != 0u8 && 0xF0u8 | d != 0u8 && 0x80u8 | e != 0u8
        && 0x80u8 | f != 0u8 && 0x80u8 | g != 0u8) by (bit_vector);
    if s == 0 {
        assert(bytes[0] == 0u8);
    }
}

/// A text holds a zero byte exactly if it holds a zero character, wherever that stands.
pub proof fn law_zero_bytes_are_zero_characters(s: Seq<char>)
    ensures
        has_zero(s) <==> s.contains('\0'),
    decreases s.len(),
{
    if s.len() > 0 {
        let first = vstd::utf8::encode_scalar(s[0] as u32);
        let rest = s.drop_first();
        lemma_zero_of_scalar(s[0]);
        law_zero_bytes_are_zero_characters(rest);
        assert(utf8(s) == first + utf8(rest));
        if first.contains(0u8) {
            let k = choose|k: int| 0 <= k < first.len() && first[k] == 0u8;
            assert(utf8(s)[k] == 0u8);
        }
        if utf8(rest).contains(0u8) {
            let k = choose|k: int| 0 <= k < utf8(rest).len() && utf8(rest)[k] == 0u8;
            assert(utf8(s)[first.len() + k] == 0u8);
        }
        if utf8(s).contains(0u8) {
            let k = choose|k: int| 0 <= k < utf8(s).len() && utf8(s)[k] == 0u8;
            if k < first.len() {
                assert(first[k] == 0u8);
            } else {
                assert(utf8(rest)[k - first.len()] == 0u8);
            }
        }
        if rest.contains('\0') {
            let k = choose|k: int| 0 <= k < rest.len() && rest[k] == '\0';
            assert(s[k + 1] == '\0');
        }
        if s.contains('\0') && s[0] != '\0' {
            let k = choose|k: int| 0 <= k < s.len() && s[k] == '\0';
            assert(rest[k - 1] == '\0');
        }
    }
}

} // verus!
