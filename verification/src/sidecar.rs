//! The sidecar of a saved image: a small file next to it that records the system which the image was
//! made for.

use crate::error;
use crate::error::Error;
use crate::host;
use crate::host::{FileOp, FilePlan};
use crate::path;
use crate::path::HostPath;
use crate::plan::{OnFailure, Step};
use crate::text;
use vstd::prelude::*;
use vstd::string::StringExecFns;

verus! {

/// Where the sidecar of an image stands.
pub open spec fn sidecar_of(image: Seq<u8>) -> Seq<u8> {
    image + path::utf8(".nixvm"@)
}

/// Where the sidecar of an image stands: next to it, under its name with `.nixvm` behind.
pub fn sidecar_path(image: &HostPath) -> (p: HostPath)
    ensures
        p@ == sidecar_of(image@),
{
    image.with_suffix(".nixvm")
}

/// Different images have different sidecars.
pub proof fn law_images_have_their_own_sidecars(a: Seq<u8>, b: Seq<u8>)
    requires
        sidecar_of(a) == sidecar_of(b),
    ensures
        a == b,
{
    let n = path::utf8(".nixvm"@).len();
    assert(sidecar_of(a).take(sidecar_of(a).len() - n) =~= a);
    assert(sidecar_of(b).take(sidecar_of(b).len() - n) =~= b);
}

/// What a sidecar holds.
pub open spec fn sidecar_body(toplevel: Seq<char>, closure_info: Seq<char>) -> Seq<char> {
    "toplevel "@ + toplevel + "\nclosureInfo "@ + closure_info + "\n"@
}

/// The contents of a sidecar.
pub fn sidecar_text(toplevel: &str, closure_info: &str) -> (s: String)
    ensures
        s@ == sidecar_body(toplevel@, closure_info@),
{
    "toplevel ".to_owned().concat(toplevel).concat("\nclosureInfo ").concat(closure_info).concat(
        "\n",
    )
}

/// The step that writes the sidecar of an image.
pub open spec fn sidecar_steps(
    image: Seq<u8>,
    toplevel: Seq<char>,
    closure_info: Seq<char>,
) -> Seq<host::FileStep> {
    seq![
        (
            FileOp::WriteText {
                to: sidecar_of(image),
                text: sidecar_body(toplevel, closure_info),
            },
            OnFailure::FailIn("write "@ + path::shown(sidecar_of(image))),
        ),
    ]
}

/// The plan that records next to an image which system it was made for.
pub fn write_sidecar(image: &HostPath, toplevel: &str, closure_info: &str) -> (p: FilePlan)
    ensures
        host::begins(p, sidecar_steps(image@, toplevel@, closure_info@)),
{
    let to = sidecar_path(image);
    let what = "write ".to_owned().concat(to.show().as_str());
    let text = sidecar_text(toplevel, closure_info);
    let mut steps = Vec::new();
    host::push(&mut steps, Step::within(FileOp::WriteText { to, text }, what));
    assert(host::models(steps@) =~= sidecar_steps(image@, toplevel@, closure_info@));
    host::plan_of(steps)
}

/// What a line records under a key: what follows the key and one space.
pub open spec fn value_in(line: Seq<char>, key: Seq<char>) -> Option<Seq<char>> {
    if line.len() > key.len() && line.take(key.len() as int) == key && line[key.len() as int]
        == ' ' {
        Some(line.skip((key.len() + 1) as int))
    } else {
        None
    }
}

/// What lines record under a key: the last line that records something counts.
pub open spec fn value_among(lines: Seq<Seq<char>>, key: Seq<char>) -> Option<Seq<char>>
    decreases lines.len(),
{
    if lines.len() == 0 {
        None
    } else if value_in(lines.last(), key) is Some {
        value_in(lines.last(), key)
    } else {
        value_among(lines.drop_last(), key)
    }
}

/// The system that a sidecar at `at` with the contents `body` records, or what it lacks.
pub open spec fn recorded(at: Seq<u8>, body: Seq<char>) -> Result<
    (Seq<char>, Seq<char>),
    Seq<char>,
> {
    let toplevel = value_among(text::lines(body), "toplevel"@);
    let closure_info = value_among(text::lines(body), "closureInfo"@);
    match (toplevel, closure_info) {
        (None, _) => Err(path::shown(at) + ": missing `toplevel`"@),
        (Some(_), None) => Err(path::shown(at) + ": missing `closureInfo`"@),
        (Some(t), Some(c)) => Ok((t, c)),
    }
}

/// The system that the sidecar of `image` records, if reading it came to `body`.
pub open spec fn recorded_for(image: Seq<u8>, body: Result<Seq<char>, Seq<char>>) -> Result<
    (Seq<char>, Seq<char>),
    Seq<char>,
> {
    match body {
        Err(cause) => Err(
            error::within(
                "read "@ + path::shown(sidecar_of(image))
                    + " (no sidecar \u{2014} was this image saved by `nixvm run -p`?)"@,
                cause,
            ),
        ),
        Ok(s) => recorded(sidecar_of(image), s),
    }
}

fn value_in_text(line: &str, key: &str) -> (r: Option<String>)
    ensures
        text::maybe_text(r) == value_in(line@, key@),
{
    let l = text::chars_of(line);
    let k = text::chars_of(key);
    let n: usize = k.len();
    if l.len() <= n {
        return None;
    }
    let mut i: usize = 0;
    while i < n
        invariant
            i <= n == k@.len(),
            n < l@.len(),
            l@ == line@,
            k@ == key@,
            forall|j: int| 0 <= j < i ==> l@[j] == k@[j],
        decreases n - i,
    {
        if l[i] != k[i] {
            assert(line@.take(n as int)[i as int] != key@[i as int]);
            return None;
        }
        i = i + 1;
    }
    assert(line@.take(n as int) =~= key@);
    if l[n] == ' ' {
        let value = text::text_of(&l, n + 1, l.len());
        assert(value@ =~= line@.skip(n + 1));
        Some(value)
    } else {
        None
    }
}

fn value_among_texts(lines: &Vec<String>, key: &str) -> (r: Option<String>)
    ensures
        text::maybe_text(r) == value_among(text::texts(lines@), key@),
{
    let mut i: usize = lines.len();
    let ghost all = text::texts(lines@);
    assert(all.take(i as int) =~= all);
    while i > 0
        invariant
            i <= lines@.len(),
            all == text::texts(lines@),
            value_among(all, key@) == value_among(all.take(i as int), key@),
        decreases i,
    {
        i = i - 1;
        assert(all.take(i + 1).drop_last() =~= all.take(i as int));
        assert(all.take(i + 1).last() == lines@[i as int]@);
        if let Some(value) = value_in_text(lines[i].as_str(), key) {
            return Some(value);
        }
    }
    None
}

/// The system that the sidecar of `image` records, if reading the sidecar came to `body`: the store
/// paths of its top level and of its closure's registration.
pub fn read_sidecar(image: &HostPath, body: Result<String, String>) -> (r: Result<
    (String, String),
    Error,
>)
    ensures
        match recorded_for(image@, text::text_read(body)) {
            Ok(system) => r matches Ok(s) && s.0@ == system.0 && s.1@ == system.1,
            Err(text) => r matches Err(e) && e@ == text,
        },
{
    let at = sidecar_path(image);
    let body = match body {
        Ok(s) => s,
        Err(cause) => {
            let what = "read ".to_owned().concat(at.show().as_str()).concat(
                " (no sidecar \u{2014} was this image saved by `nixvm run -p`?)",
            );
            return Err(Error::of(what.as_str(), cause.as_str()));
        },
    };
    let lines = text::lines_text(body.as_str());
    let toplevel = match value_among_texts(&lines, "toplevel") {
        Some(t) => t,
        None => {
            return Err(Error::new(at.show().concat(": missing `toplevel`")));
        },
    };
    let closure_info = match value_among_texts(&lines, "closureInfo") {
        Some(c) => c,
        None => {
            return Err(Error::new(at.show().concat(": missing `closureInfo`")));
        },
    };
    Ok((toplevel, closure_info))
}

/// Whether a store path can be recorded in a line and read back.
pub open spec fn fits_line(s: Seq<char>) -> bool {
    !s.contains('\n') && !(s.len() > 0 && s.last() == '\r')
}

proof fn lemma_key_line(key: Seq<char>, value: Seq<char>)
    ensures
        value_in(key.push(' ') + value, key) == Some(value),
{
    let line = key.push(' ') + value;
    assert(line.take(key.len() as int) =~= key);
    assert(line.skip((key.len() + 1) as int) =~= value);
}

/// The lines of a sidecar.
proof fn lemma_sidecar_lines(toplevel: Seq<char>, closure_info: Seq<char>)
    requires
        fits_line(toplevel),
        fits_line(closure_info),
    ensures
        text::lines(sidecar_body(toplevel, closure_info)) == seq![
            "toplevel "@ + toplevel,
            "closureInfo "@ + closure_info,
        ],
{
    reveal_strlit("toplevel ");
    reveal_strlit("\nclosureInfo ");
    reveal_strlit("closureInfo ");
    reveal_strlit("\n");
    let first = "toplevel "@ + toplevel;
    let second = "closureInfo "@ + closure_info;
    let body = sidecar_body(toplevel, closure_info);
    assert(body =~= first.push('\n') + (second.push('\n') + Seq::empty()));
    assert forall|i: int| 0 <= i < first.len() implies first[i] != '\n' by {
        if i >= 9 {
            assert(first[i] == toplevel[i - 9]);
        }
    }
    assert forall|i: int| 0 <= i < second.len() implies second[i] != '\n' by {
        if i >= 12 {
            assert(second[i] == closure_info[i - 12]);
        }
    }
    text::lemma_split_concat(first, '\n', second.push('\n') + Seq::empty());
    text::lemma_split_concat(second, '\n', Seq::empty());
    text::lemma_split_single(first, '\n');
    text::lemma_split_single(second, '\n');
    let parts = text::split(body, '\n');
    assert(parts =~= seq![first, second, Seq::empty()]);
    assert(text::strip_cr(first) == first) by {
        if toplevel.len() > 0 {
            assert(first.last() == toplevel.last());
        }
    }
    assert(text::strip_cr(second) == second) by {
        if closure_info.len() > 0 {
            assert(second.last() == closure_info.last());
        }
    }
    assert(text::lines(body) =~= seq![first, second]);
}

/// The sidecar that is written next to an image gives back the system that was recorded in it, unless
/// one of the two store paths holds a line feed or ends in a carriage return.
pub proof fn law_sidecar_gives_back_what_was_recorded(
    image: Seq<u8>,
    toplevel: Seq<char>,
    closure_info: Seq<char>,
)
    requires
        fits_line(toplevel),
        fits_line(closure_info),
    ensures
        sidecar_steps(image, toplevel, closure_info).len() == 1,
        sidecar_steps(image, toplevel, closure_info)[0].0 matches FileOp::WriteText { to, text }
            && to == sidecar_of(image) && recorded_for(image, Ok(text)) == Ok::<
            (Seq<char>, Seq<char>),
            Seq<char>,
        >((toplevel, closure_info)),
{
    reveal_strlit("toplevel ");
    reveal_strlit("toplevel");
    reveal_strlit("closureInfo ");
    reveal_strlit("closureInfo");
    let first = "toplevel "@ + toplevel;
    let second = "closureInfo "@ + closure_info;
    lemma_sidecar_lines(toplevel, closure_info);
    lemma_key_line("toplevel"@, toplevel);
    lemma_key_line("closureInfo"@, closure_info);
    assert(first =~= "toplevel"@.push(' ') + toplevel);
    assert(second =~= "closureInfo"@.push(' ') + closure_info);
    let lines = seq![first, second];
    assert(lines.drop_last() =~= seq![first]);
    assert(lines.last() == second);
    assert(second.take(8)[0] == 'c');
    assert("toplevel"@[0] == 't');
    assert(value_in(second, "toplevel"@) is None);
    assert(value_among(seq![first], "toplevel"@) == value_in(first, "toplevel"@));
}

/// The sidecar of an image stands next to it, under the image's own name with `.nixvm` behind.
pub proof fn law_sidecars_stand_next_to_images(image: Seq<u8>)
    ensures
        sidecar_of(image).len() == image.len() + 6,
        sidecar_of(image).take(image.len() as int) == image,
        sidecar_of(image).skip(image.len() as int) == path::utf8(".nixvm"@),
        sidecar_of(image) != image,
{
    reveal_strlit(".nixvm");
    vstd::utf8::is_ascii_chars_encode_utf8(".nixvm"@);
    assert(sidecar_of(image).take(image.len() as int) =~= image);
    assert(sidecar_of(image).skip(image.len() as int) =~= path::utf8(".nixvm"@));
}

/// Whether a line records a value under a key: it is the key, a space and the value.
pub open spec fn records(line: Seq<char>, key: Seq<char>, value: Seq<char>) -> bool {
    line == key.push(' ') + value
}

proof fn lemma_value_in(line: Seq<char>, key: Seq<char>)
    ensures
        value_in(line, key) matches Some(value) ==> records(line, key, value),
        value_in(line, key) is None ==> forall|value: Seq<char>| !records(line, key, value),
{
    if let Some(value) = value_in(line, key) {
        assert(line =~= line.take(key.len() as int).push(' ') + line.skip((key.len() + 1) as int));
    } else {
        assert forall|value: Seq<char>| !records(line, key, value) by {
            if records(line, key, value) {
                assert(line.take(key.len() as int) =~= key);
                assert(line[key.len() as int] == ' ');
            }
        }
    }
}

proof fn lemma_value_among(lines: Seq<Seq<char>>, key: Seq<char>)
    ensures
        value_among(lines, key) matches Some(value) ==> exists|i: int|
            0 <= i < lines.len() && records(#[trigger] lines[i], key, value) && forall|j: int|
                i < j < lines.len() ==> value_in(#[trigger] lines[j], key) is None,
        value_among(lines, key) is None ==> forall|i: int|
            0 <= i < lines.len() ==> value_in(#[trigger] lines[i], key) is None,
    decreases lines.len(),
{
    if lines.len() > 0 {
        let front = lines.drop_last();
        lemma_value_in(lines.last(), key);
        lemma_value_among(front, key);
        if value_in(lines.last(), key) is Some {
            assert(records(lines[lines.len() - 1], key, value_in(lines.last(), key)->0));
        } else if let Some(value) = value_among(front, key) {
            let i = choose|i: int|
                0 <= i < front.len() && records(#[trigger] front[i], key, value) && forall|j: int|
                    i < j < front.len() ==> value_in(#[trigger] front[j], key) is None;
            assert(records(lines[i], key, value));
            assert forall|j: int| i < j < lines.len() implies value_in(
                #[trigger] lines[j],
                key,
            ) is None by {
                if j < front.len() {
                    assert(front[j] == lines[j]);
                }
            }
        } else {
            assert forall|i: int| 0 <= i < lines.len() implies value_in(
                #[trigger] lines[i],
                key,
            ) is None by {
                if i < front.len() {
                    assert(front[i] == lines[i]);
                }
            }
        }
    }
}

/// Whether the last line that records anything under a key records this value.
pub open spec fn last_records(lines: Seq<Seq<char>>, key: Seq<char>, value: Seq<char>) -> bool {
    exists|i: int|
        0 <= i < lines.len() && records(#[trigger] lines[i], key, value) && forall|j: int, v: Seq<
            char,
        >| i < j < lines.len() ==> !#[trigger] records(lines[j], key, v)
}

/// What a sidecar records is what its last line under each of the two keys says, whatever other lines it
/// holds and in whatever order; it records a system exactly if it has a line under each key.
pub proof fn law_the_last_lines_of_a_sidecar_count(image: Seq<u8>, body: Seq<char>)
    ensures
        ({
            let lines = text::lines(body);
            let r = recorded_for(image, Ok(body));
            &&& r matches Ok((t, c)) ==> last_records(lines, "toplevel"@, t) && last_records(
                lines,
                "closureInfo"@,
                c,
            )
            &&& r is Err ==> (forall|i: int, v: Seq<char>|
                0 <= i < lines.len() ==> !#[trigger] records(lines[i], "toplevel"@, v)) || (forall|
                i: int,
                v: Seq<char>,
            |
                0 <= i < lines.len() ==> !#[trigger] records(lines[i], "closureInfo"@, v))
        }),
{
    let lines = text::lines(body);
    lemma_counts(lines, "toplevel"@);
    lemma_counts(lines, "closureInfo"@);
}

proof fn lemma_counts(lines: Seq<Seq<char>>, key: Seq<char>)
    ensures
        value_among(lines, key) matches Some(value) ==> last_records(lines, key, value),
        value_among(lines, key) is None ==> forall|i: int, v: Seq<char>|
            0 <= i < lines.len() ==> !#[trigger] records(lines[i], key, v),
{
    lemma_value_among(lines, key);
    assert forall|i: int, v: Seq<char>|
        0 <= i < lines.len() && value_in(lines[i], key) is None implies !#[trigger] records(
        lines[i],
        key,
        v,
    ) by {
        lemma_value_in(lines[i], key);
    }
    if let Some(value) = value_among(lines, key) {
        let i = choose|i: int|
            0 <= i < lines.len() && records(#[trigger] lines[i], key, value) && forall|j: int|
                i < j < lines.len() ==> value_in(#[trigger] lines[j], key) is None;
        assert forall|j: int, v: Seq<char>| i < j < lines.len() implies !#[trigger] records(
            lines[j],
            key,
            v,
        ) by {
            assert(value_in(lines[j], key) is None);
        }
    }
}

/// A system is recorded by writing one file, the sidecar of the image, whose failure counts and is told with
/// the path of the sidecar in full.
pub proof fn law_systems_are_recorded_next_to_images(
    image: Seq<u8>,
    toplevel: Seq<char>,
    closure_info: Seq<char>,
)
    ensures
        ({
            let steps = sidecar_steps(image, toplevel, closure_info);
            &&& steps.len() == 1
            &&& steps[0].0 == (FileOp::<Seq<u8>, Seq<char>>::WriteText {
                to: sidecar_of(image),
                text: sidecar_body(toplevel, closure_info),
            })
            &&& steps[0].1 matches OnFailure::FailIn(what) && what.skip(6) == path::shown(
                sidecar_of(image),
            )
        }),
{
    reveal_strlit("write ");
    let what = "write "@ + path::shown(sidecar_of(image));
    assert(what.skip(6) =~= path::shown(sidecar_of(image)));
}

} // verus!
