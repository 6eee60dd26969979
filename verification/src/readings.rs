//! Laws on what is read of a configuration: which reply gives each part of a realised flake output.

use crate::nix;
use crate::nix::{Call, Check, Handle, Op};
use crate::path;
use crate::realise;
use crate::realise::{Realisation, ReplyModel};
use vstd::prelude::*;

verus! {

/// Where in a script the calls stand whose text is needed later.
pub open spec fn text_places(calls: Seq<Call<Seq<char>>>) -> Seq<int>
    decreases calls.len(),
{
    if calls.len() == 0 {
        Seq::empty()
    } else if realise::keeps_text(calls.last()) {
        text_places(calls.drop_last()).push(calls.len() - 1)
    } else {
        text_places(calls.drop_last())
    }
}

proof fn lemma_places(calls: Seq<Call<Seq<char>>>)
    ensures
        text_places(calls).len() == realise::texts_given(calls),
        forall|i: int|
            0 <= i < text_places(calls).len() ==> 0 <= #[trigger] text_places(calls)[i]
                < calls.len(),
        forall|p: int|
            0 <= p < calls.len() && realise::keeps_text(#[trigger] calls[p]) ==> text_places(
                calls,
            ).contains(p),
    decreases calls.len(),
{
    if calls.len() > 0 {
        let front = calls.drop_last();
        lemma_places(front);
        assert forall|p: int|
            0 <= p < calls.len() && realise::keeps_text(#[trigger] calls[p]) implies text_places(
            calls,
        ).contains(p) by {
            let before = text_places(front);
            if p < calls.len() - 1 {
                assert(front[p] == calls[p]);
                assert(before.contains(p));
                let i = choose|i: int| 0 <= i < before.len() && before[i] == p;
                assert(text_places(calls)[i] == p);
            } else {
                assert(text_places(calls)[before.len() as int] == p);
            }
        }
    }
}

proof fn lemma_places_grow(a: Seq<Call<Seq<char>>>, b: Seq<Call<Seq<char>>>)
    ensures
        text_places(a).len() <= text_places(a + b).len(),
        text_places(a + b).take(text_places(a).len() as int) == text_places(a),
    decreases b.len(),
{
    if b.len() == 0 {
        assert(a + b =~= a);
        assert(text_places(a).take(text_places(a).len() as int) =~= text_places(a));
    } else {
        assert((a + b).drop_last() =~= a + b.drop_last());
        lemma_places_grow(a, b.drop_last());
        assert(text_places(a + b).take(text_places(a).len() as int) =~= text_places(
            a + b.drop_last(),
        ).take(text_places(a).len() as int));
    }
}

/// A call whose text is needed comes at the place that the number of texts before it says.
proof fn lemma_place(a: Seq<Call<Seq<char>>>, call: Call<Seq<char>>, b: Seq<Call<Seq<char>>>)
    requires
        realise::keeps_text(call),
    ensures
        text_places(a.push(call) + b).len() > realise::texts_given(a),
        text_places(a.push(call) + b)[realise::texts_given(a) as int] == a.len(),
        (a.push(call) + b)[a.len() as int] == call,
{
    lemma_places(a);
    assert(a.push(call).drop_last() =~= a);
    lemma_places_grow(a.push(call), b);
    let n = text_places(a).len() as int;
    assert(text_places(a.push(call))[n] == a.len());
    assert(text_places(a.push(call) + b).take(n + 1)[n] == a.len());
}

/// The texts are those of the replies to the calls whose text is needed.
proof fn lemma_texts_are_replies(request: nix::RequestModel, replies: Seq<ReplyModel>)
    requires
        realise::is_course(request, replies),
    ensures
        ({
            let texts = realise::texts_after(request, replies);
            let calls = nix::script_so_far(request, texts);
            let places = text_places(calls.take(replies.len() as int));
            &&& replies.len() <= calls.len()
            &&& places.len() == texts.len()
            &&& forall|i: int|
                0 <= i < texts.len() ==> #[trigger] texts[i] == vstd::utf8::decode_utf8(
                    replies[places[i]].text,
                )
            &&& forall|k: int|
                0 <= k < replies.len() ==> !((#[trigger] calls[k]).op is Refuse)
        }),
    decreases replies.len(),
{
    let texts = realise::texts_after(request, replies);
    let calls = nix::script_so_far(request, texts);
    if replies.len() == 0 {
        assert(calls.take(0) =~= Seq::empty());
    } else {
        let front = replies.drop_last();
        let n = front.len() as int;
        let before = realise::texts_after(request, front);
        let earlier = nix::script_so_far(request, before);
        lemma_texts_are_replies(request, front);
        realise::lemma_script_grows(request, before, texts);
        assert forall|k: int| 0 <= k < earlier.len() implies calls[k] == earlier[k] by {
            assert(calls.take(earlier.len() as int)[k] == earlier[k]);
        }
        assert(calls.take(n + 1).drop_last() =~= earlier.take(n));
        assert(calls.take(n + 1).last() == earlier[n]);
        lemma_places(earlier.take(n));
        let places = text_places(calls.take(n + 1));
        let old_places = text_places(earlier.take(n));
        assert forall|i: int| 0 <= i < texts.len() implies #[trigger] texts[i]
            == vstd::utf8::decode_utf8(replies[places[i]].text) by {
            if i < before.len() {
                assert(texts[i] == before[i]);
                assert(places[i] == old_places[i]);
                assert(replies[places[i]] == front[places[i]]);
            } else {
                assert(places[i] == n);
            }
        }
        assert forall|k: int| 0 <= k < replies.len() implies !((#[trigger] calls[k]).op is Refuse) by {
            assert(calls[k] == earlier[k]);
        }
    }
}

/// Whether a script reads the text at the end of a path below the outputs, by the call at `p`: the calls
/// before it walk along the path, and it reads the value that the walk ends at.
pub open spec fn is_reading(calls: Seq<Call<Seq<char>>>, p: int, path: Seq<char>) -> bool {
    let walk = nix::walk(Handle::Outputs, path);
    &&& walk.len() <= p && p + 2 <= calls.len()
    &&& calls.subrange(p - walk.len(), p + 2) == nix::read_part(path)
}

/// Whether a script reads the text at the end of a path, and the reply to that was `text`.
pub open spec fn reading_gave(
    calls: Seq<Call<Seq<char>>>,
    replies: Seq<ReplyModel>,
    path: Seq<char>,
    text: Seq<char>,
) -> bool {
    &&& exists|p: int| is_reading(calls, p, path)
    &&& forall|p: int| #[trigger]
        is_reading(calls, p, path) ==> 0 <= p < replies.len() && text == vstd::utf8::decode_utf8(
            replies[p].text,
        )
}

/// Whether the call at `p` parses the reference to the flake.
pub open spec fn is_parsing(calls: Seq<Call<Seq<char>>>, p: int, flake_ref: Seq<char>) -> bool {
    &&& 0 <= p < calls.len()
    &&& calls[p].op == Op::<Seq<char>>::ParseReference { uri: flake_ref, into: Handle::FlakeRef }
}

/// The call that reads the text at the end of a path.
spec fn read_call(path: Seq<char>) -> Call<Seq<char>> {
    Call {
        op: Op::ReadString { of: nix::walked_to(Handle::Outputs, nix::segments(path)) },
        check: Check::Text { what: "read string at `"@ + path + "`"@ },
        gives: None,
    }
}

proof fn lemma_reading_place(
    a: Seq<Call<Seq<char>>>,
    path: Seq<char>,
    b: Seq<Call<Seq<char>>>,
    n: nat,
)
    requires
        realise::texts_given(a) == n,
    ensures
        ({
            let calls = a + nix::read_part(path) + b;
            &&& realise::texts_given(a + nix::read_part(path)) == n + 1
            &&& text_places(calls).len() > n
            &&& is_reading(calls, text_places(calls)[n as int], path)
            &&& calls[text_places(calls)[n as int]] == read_call(path)
        }),
{
    let walk = nix::walk(Handle::Outputs, path);
    let part = nix::read_part(path);
    let calls = a + part + b;
    let rest = seq![part.last()] + b;
    realise::lemma_texts_read(path);
    realise::lemma_texts_concat(a, part);
    assert(realise::texts_given(walk) == 0) by {
        assert(part.drop_last().drop_last() =~= walk);
        reveal_with_fuel(realise::texts_given, 3);
    }
    realise::lemma_texts_concat(a, walk);
    lemma_place(a + walk, read_call(path), rest);
    assert(calls =~= (a + walk).push(read_call(path)) + rest);
    let p = (a + walk).len() as int;
    assert(calls.subrange(p - walk.len(), p + 2) =~= part);
}

/// Where below the configuration the text number `n` is read.
spec fn suffix(n: int) -> Seq<char> {
    if n == 2 {
        ".config.system.build.image.drvPath"@
    } else if n == 3 {
        ".config.system.build.image.outPath"@
    } else if n == 4 {
        ".config.image.fileName"@
    } else if n == 5 {
        ".config.system.build.toplevel.outPath"@
    } else if n == 6 {
        ".config.system.build.closureInfo.drvPath"@
    } else {
        ".config.system.build.closureInfo.outPath"@
    }
}

proof fn lemma_suffixes_differ(i: int, j: int)
    requires
        2 <= i <= 7,
        2 <= j <= 7,
        suffix(i) == suffix(j),
    ensures
        i == j,
{
    reveal_strlit(".config.system.build.image.drvPath");
    reveal_strlit(".config.system.build.image.outPath");
    reveal_strlit(".config.image.fileName");
    reveal_strlit(".config.system.build.toplevel.outPath");
    reveal_strlit(".config.system.build.closureInfo.drvPath");
    reveal_strlit(".config.system.build.closureInfo.outPath");
    assert(suffix(2).len() == 34 && suffix(3).len() == 34);
    assert(suffix(4).len() == 22 && suffix(5).len() == 37);
    assert(suffix(6).len() == 40 && suffix(7).len() == 40);
    assert(suffix(2)[27] == 'd' && suffix(3)[27] == 'o');
    assert(suffix(6)[33] == 'd' && suffix(7)[33] == 'o');
}

proof fn lemma_readings_differ(attr: Seq<char>, i: int, j: int)
    requires
        2 <= i <= 7,
        2 <= j <= 7,
        read_call(attr + suffix(i)).check == read_call(attr + suffix(j)).check,
    ensures
        i == j,
{
    let start = "read string at `"@;
    let a = start + (attr + suffix(i)) + "`"@;
    let b = start + (attr + suffix(j)) + "`"@;
    reveal_strlit("`");
    assert(a == b);
    assert(a.len() == start.len() + attr.len() + suffix(i).len() + 1);
    assert(b.len() == start.len() + attr.len() + suffix(j).len() + 1);
    let n = (start.len() + attr.len()) as int;
    assert(a.subrange(n, a.len() - 1) =~= suffix(i));
    assert(b.subrange(n, b.len() - 1) =~= suffix(j));
    lemma_suffixes_differ(i, j);
}

/// The script up to the first text that is read of the configuration.
spec fn opening(request: nix::RequestModel, dir: Seq<char>) -> Seq<Call<Seq<char>>> {
    nix::first_part(request) + nix::second_part(request, dir) + (nix::flags_part()
        + nix::overrides_part(request.overrides) + nix::locking_part())
}

proof fn lemma_opening(request: nix::RequestModel, dir: Seq<char>, b: Seq<Call<Seq<char>>>)
    requires
        !path::has_zero(request.flake_ref),
    ensures
        realise::texts_given(opening(request, dir)) == 2,
        ({
            let calls = opening(request, dir) + b;
            let places = text_places(calls);
            &&& places.len() >= 2
            &&& calls[places[0]].check is Directory
            &&& calls[places[1]] == nix::second_part(request, dir)[1]
        }),
{
    let first = nix::first_part(request);
    let second = nix::second_part(request, dir);
    let third = nix::flags_part() + nix::overrides_part(request.overrides) + nix::locking_part();
    let calls = opening(request, dir) + b;
    realise::lemma_texts_first(request);
    assert(realise::texts_given(second) == 1) by {
        reveal_with_fuel(realise::texts_given, 3);
    }
    assert(realise::texts_given(nix::flags_part()) == 0) by {
        reveal_with_fuel(realise::texts_given, 3);
    }
    assert(realise::texts_given(nix::locking_part()) == 0) by {
        reveal_with_fuel(realise::texts_given, 4);
    }
    realise::lemma_texts_overrides(request.overrides);
    realise::lemma_texts_concat(nix::flags_part(), nix::overrides_part(request.overrides));
    realise::lemma_texts_concat(
        nix::flags_part() + nix::overrides_part(request.overrides),
        nix::locking_part(),
    );
    realise::lemma_texts_concat(first, second);
    realise::lemma_texts_concat(first + second, third);
    let up_to_dir = first.drop_last();
    assert(first.last() == nix::opening_part()[10]);
    assert(realise::texts_given(up_to_dir) == 0);
    lemma_place(up_to_dir, first.last(), second + third + b);
    assert(calls =~= up_to_dir.push(first.last()) + (second + third + b));
    let up_to_ref = first.push(second[0]);
    assert(realise::texts_given(up_to_ref) == 1) by {
        assert(up_to_ref.drop_last() =~= first);
    }
    lemma_place(up_to_ref, second[1], third + b);
    assert(calls =~= up_to_ref.push(second[1]) + (third + b));
}

/// The calls that read the texts from number 2 up to, and without, number `n`.
spec fn readings_before(attr: Seq<char>, n: int) -> Seq<Call<Seq<char>>>
    decreases n,
{
    if n <= 2 {
        Seq::empty()
    } else {
        readings_before(attr, n - 1) + nix::read_part(attr + suffix(n - 1))
    }
}

proof fn lemma_readings(attr: Seq<char>)
    ensures
        readings_before(attr, 8) == nix::reading_part(attr),
{
    reveal_with_fuel(readings_before, 7);
    assert(readings_before(attr, 3) =~= nix::read_part(attr + suffix(2)));
}

/// The calls that read the texts from number `n` on.
spec fn readings_from(attr: Seq<char>, n: int) -> Seq<Call<Seq<char>>>
    decreases 8 - n,
{
    if n >= 8 {
        Seq::empty()
    } else {
        nix::read_part(attr + suffix(n)) + readings_from(attr, n + 1)
    }
}

proof fn lemma_readings_split(attr: Seq<char>, n: int)
    requires
        2 <= n <= 8,
    ensures
        readings_before(attr, n) + readings_from(attr, n) == readings_before(attr, 8),
    decreases 8 - n,
{
    if n < 8 {
        lemma_readings_split(attr, n + 1);
        assert(readings_before(attr, n) + readings_from(attr, n) =~= readings_before(attr, n + 1)
            + readings_from(attr, n + 1));
    } else {
        assert(readings_before(attr, 8) + readings_from(attr, 8) =~= readings_before(attr, 8));
    }
}

proof fn lemma_texts_before(a: Seq<Call<Seq<char>>>, attr: Seq<char>, n: int)
    requires
        realise::texts_given(a) == 2,
        2 <= n <= 8,
    ensures
        realise::texts_given(a + readings_before(attr, n)) == n,
    decreases n,
{
    if n == 2 {
        assert(a + readings_before(attr, n) =~= a);
    } else {
        let before = a + readings_before(attr, n - 1);
        let path = attr + suffix(n - 1);
        lemma_texts_before(a, attr, n - 1);
        realise::lemma_texts_read(path);
        realise::lemma_texts_concat(before, nix::read_part(path));
        assert(a + readings_before(attr, n) =~= before + nix::read_part(path));
    }
}

proof fn lemma_reading(
    a: Seq<Call<Seq<char>>>,
    attr: Seq<char>,
    b: Seq<Call<Seq<char>>>,
    n: int,
)
    requires
        realise::texts_given(a) == 2,
        2 <= n <= 7,
    ensures
        ({
            let calls = a + nix::reading_part(attr) + b;
            let places = text_places(calls);
            &&& places.len() > n
            &&& is_reading(calls, places[n], attr + suffix(n))
            &&& calls[places[n]] == read_call(attr + suffix(n))
        }),
{
    let path = attr + suffix(n);
    let before = a + readings_before(attr, n);
    let rest = readings_from(attr, n + 1) + b;
    lemma_readings(attr);
    lemma_readings_split(attr, n);
    lemma_texts_before(a, attr, n);
    lemma_reading_place(before, path, rest, n as nat);
    lemma_regroup(
        a,
        readings_before(attr, n),
        nix::read_part(path),
        readings_from(attr, n + 1),
        b,
    );
}

proof fn lemma_regroup<A>(a: Seq<A>, x: Seq<A>, y: Seq<A>, z: Seq<A>, b: Seq<A>)
    ensures
        a + (x + (y + z)) + b == a + x + y + (z + b),
{
    assert(a + (x + (y + z)) + b =~= a + x + y + (z + b));
}

/// The reply to the reading number `n`, and to no other, gave the text number `n`.
proof fn lemma_reading_gave(
    calls: Seq<Call<Seq<char>>>,
    replies: Seq<ReplyModel>,
    texts: Seq<Seq<char>>,
    attr: Seq<char>,
    n: int,
)
    requires
        2 <= n <= 7,
        texts.len() == 8,
        ({
            let places = text_places(calls);
            &&& calls.len() == replies.len()
            &&& places.len() == 8
            &&& forall|i: int|
                0 <= i < 8 ==> #[trigger] texts[i] == vstd::utf8::decode_utf8(
                    replies[places[i]].text,
                )
            &&& calls[places[0]].check is Directory
            &&& calls[places[1]].check is Reference
            &&& forall|i: int|
                2 <= i <= 7 ==> calls[#[trigger] places[i]] == read_call(attr + suffix(i))
            &&& is_reading(calls, places[n], attr + suffix(n))
        }),
    ensures
        reading_gave(calls, replies, attr + suffix(n), texts[n]),
{
    let path = attr + suffix(n);
    let places = text_places(calls);
    lemma_places(calls);
    assert forall|p: int| #[trigger] is_reading(calls, p, path) implies 0 <= p < replies.len()
        && texts[n] == vstd::utf8::decode_utf8(replies[p].text) by {
        let walk = nix::walk(Handle::Outputs, path);
        let part = calls.subrange(p - walk.len(), p + 2);
        assert(part[walk.len() as int] == read_call(path));
        assert(calls[p] == read_call(path));
        assert(places.contains(p));
        let i = choose|i: int| 0 <= i < places.len() && places[i] == p;
        assert(2 <= i);
        assert(calls[places[i]] == read_call(attr + suffix(i)));
        lemma_readings_differ(attr, i, n);
    }
}

/// A realised flake output is what the configuration that the flake's reference names holds: its image is
/// the file that `image.fileName` names in the output of the image, its system is the output of
/// `toplevel`, and its closure is registered in the output of `closureInfo`.  Each of these texts, and the
/// two derivations that are realised, is the reply to the one call that reads it, at the end of a walk
/// from the outputs of the flake; the name of the configuration is the fragment that parsing the
/// reference gave.
pub proof fn law_realised_output_is_what_was_read(r: Realisation)
    requires
        r.wf(),
        r.over(),
        r.failed is None,
    ensures
        ({
            let texts = r.texts();
            let calls = r.script();
            let replies = r.replies@;
            let attr = nix::attr_path(texts[1]);
            let realised = realise::realised_from(texts);
            &&& texts.len() == 8
            &&& exists|p: int| #[trigger]
                is_parsing(calls, p, r.request.flake_ref@) && texts[1]
                    == vstd::utf8::decode_utf8(replies[p].text)
            &&& reading_gave(calls, replies, attr + ".config.system.build.image.drvPath"@, texts[2])
            &&& reading_gave(calls, replies, attr + ".config.system.build.image.outPath"@, texts[3])
            &&& reading_gave(calls, replies, attr + ".config.image.fileName"@, texts[4])
            &&& reading_gave(
                calls,
                replies,
                attr + ".config.system.build.toplevel.outPath"@,
                realised.toplevel,
            )
            &&& reading_gave(
                calls,
                replies,
                attr + ".config.system.build.closureInfo.drvPath"@,
                texts[6],
            )
            &&& reading_gave(
                calls,
                replies,
                attr + ".config.system.build.closureInfo.outPath"@,
                realised.closure_info,
            )
            &&& realised.image_file == texts[3] + "/"@ + texts[4]
        }),
{
    let texts = r.texts();
    let calls = r.script();
    let replies = r.replies@;
    let attr = nix::attr_path(texts[1]);
    let places = text_places(calls);
    lemma_finished(r);
    lemma_all_places(r.request@, texts);
    assert forall|i: int| 2 <= i <= 7 implies reading_gave(
        calls,
        replies,
        attr + #[trigger] suffix(i),
        texts[i],
    ) by {
        lemma_reading_gave(calls, replies, texts, attr, i);
    }
    lemma_places(calls);
    assert(is_parsing(calls, places[1], r.request.flake_ref@));
    assert(texts[1] == vstd::utf8::decode_utf8(replies[places[1]].text));
    assert(reading_gave(calls, replies, attr + suffix(2), texts[2]));
    assert(reading_gave(calls, replies, attr + suffix(3), texts[3]));
    assert(reading_gave(calls, replies, attr + suffix(4), texts[4]));
    assert(reading_gave(calls, replies, attr + suffix(5), texts[5]));
    assert(reading_gave(calls, replies, attr + suffix(6), texts[6]));
    assert(reading_gave(calls, replies, attr + suffix(7), texts[7]));
}

/// Once no call is left and none has failed, all the texts have been read.
proof fn lemma_finished(r: Realisation)
    requires
        r.wf(),
        r.over(),
        r.failed is None,
    ensures
        r.texts().len() == 8,
        r.script().len() == r.replies@.len(),
        text_places(r.script()).len() == 8,
        forall|i: int|
            0 <= i < 8 ==> #[trigger] r.texts()[i] == vstd::utf8::decode_utf8(
                r.replies@[text_places(r.script())[i]].text,
            ),
        !path::has_zero(r.request@.flake_ref),
{
    let request = r.request@;
    let texts = r.texts();
    let calls = r.script();
    lemma_texts_are_replies(request, r.replies@);
    assert(calls.take(r.replies@.len() as int) =~= calls);
    realise::lemma_all_texts_read(request, texts);
    lemma_whole_script(request, texts);
    assert(calls[(nix::first_part(request).len() + 1) as int] == nix::second_part(
        request,
        texts[0],
    )[1]);
}

/// Which calls of a script give the texts.
proof fn lemma_all_places(request: nix::RequestModel, texts: Seq<Seq<char>>)
    requires
        texts.len() == 8,
        !path::has_zero(request.flake_ref),
    ensures
        ({
            let calls = nix::script_so_far(request, texts);
            let places = text_places(calls);
            let attr = nix::attr_path(texts[1]);
            &&& calls[places[0]].check is Directory
            &&& calls[places[1]] == nix::second_part(request, texts[0])[1]
            &&& forall|i: int|
                2 <= i <= 7 ==> calls[#[trigger] places[i]] == read_call(attr + suffix(i))
                    && is_reading(calls, places[i], attr + suffix(i))
        }),
{
    let calls = nix::script_so_far(request, texts);
    let attr = nix::attr_path(texts[1]);
    let a = opening(request, texts[0]);
    let b = nix::fourth_part(texts[2], texts[6]);
    let places = text_places(calls);
    lemma_whole_script(request, texts);
    lemma_opening(request, texts[0], nix::reading_part(attr) + b);
    assert(a + (nix::reading_part(attr) + b) =~= calls);
    assert forall|i: int| 2 <= i <= 7 implies calls[#[trigger] places[i]] == read_call(
        attr + suffix(i),
    ) && is_reading(calls, places[i], attr + suffix(i)) by {
        lemma_reading(a, attr, b, i);
    }
}

proof fn lemma_whole_script(request: nix::RequestModel, texts: Seq<Seq<char>>)
    requires
        texts.len() == 8,
    ensures
        nix::script_so_far(request, texts) == opening(request, texts[0]) + nix::reading_part(
            nix::attr_path(texts[1]),
        ) + nix::fourth_part(texts[2], texts[6]),
{
    reveal(nix::script_so_far);
    assert(nix::script_so_far(request, texts) =~= opening(request, texts[0]) + nix::reading_part(
        nix::attr_path(texts[1]),
    ) + nix::fourth_part(texts[2], texts[6]));
}

/// The first text that is read is the working directory, right before the second part of the script.
pub proof fn lemma_working_directory(r: Realisation)
    requires
        r.wf(),
        r.over(),
        r.failed is None,
    ensures
        r.texts().len() == 8,
        r.script().len() == r.replies@.len(),
        r.texts()[0] == vstd::utf8::decode_utf8(
            r.replies@[nix::first_part(r.request@).len() - 1].text,
        ),
{
    let request = r.request@;
    let texts = r.texts();
    lemma_finished(r);
    lemma_whole_script(request, texts);
    let first = nix::first_part(request);
    let front = first.drop_last();
    let b = r.script().skip(first.len() as int);
    realise::lemma_texts_first(request);
    assert(first.last() == nix::opening_part()[10]);
    assert(realise::texts_given(front) == 0);
    lemma_place(front, first.last(), b);
    assert(front.push(first.last()) =~= first);
    assert(r.script() =~= first + b);
}

} // verus!
