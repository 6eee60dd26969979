//! Laws on the objects of the Nix library that a realisation handles: no call takes an object that is
//! not there, and every object is freed exactly once.

use crate::nix;
use crate::nix::{Call, Handle, Op};
use crate::realise;
use crate::realise::Realisation;
use crate::text;
use vstd::prelude::*;

verus! {

/// Whether a call takes the object `handle`.
pub open spec fn takes(op: Op<Seq<char>>, handle: Handle) -> bool {
    match op {
        Op::CreateContext => false,
        Op::WorkingDirectory => false,
        Op::Refuse { text } => false,
        _ => handle == Handle::Context || match op {
            Op::NewBuilder => handle == Handle::Store,
            Op::LoadBuilder => handle == Handle::Builder,
            Op::AddFlakeSettings => handle == Handle::FlakeSettings || handle == Handle::Builder,
            Op::BuildState => handle == Handle::Builder,
            Op::NewParseFlags => handle == Handle::FlakeSettings,
            Op::SetBaseDirectory { dir } => handle == Handle::ParseFlags,
            Op::ParseReference { uri, into } => {
                ||| handle == Handle::FetchSettings
                ||| handle == Handle::FlakeSettings
                ||| handle == Handle::ParseFlags
            },
            Op::NewLockFlags => handle == Handle::FlakeSettings,
            Op::LockVirtually => handle == Handle::LockFlags,
            Op::AddOverride { input, reference } => handle == Handle::LockFlags || handle
                == reference,
            Op::LockFlake => {
                ||| handle == Handle::FetchSettings
                ||| handle == Handle::FlakeSettings
                ||| handle == Handle::State
                ||| handle == Handle::LockFlags
                ||| handle == Handle::FlakeRef
            },
            Op::OutputAttrs => {
                ||| handle == Handle::FlakeSettings
                ||| handle == Handle::State
                ||| handle == Handle::Locked
            },
            Op::Force { of } => handle == Handle::State || handle == of,
            Op::GetAttr { of, name, into } => handle == Handle::State || handle == of,
            Op::Retain { of, into } => handle == of,
            Op::ReadString { of } => handle == of,
            Op::ParseStorePath { path } => handle == Handle::Store,
            Op::RealisePath => handle == Handle::Store || handle == Handle::StorePath,
            Op::Free { handle: freed } => handle == freed,
            _ => false,
        },
    }
}

/// Whether a call can be made while exactly `held` has to be freed: what it takes is there, and what it
/// gives is not there yet.  No call both frees and gives, and the flake's reference is made before the
/// lock flags.
pub open spec fn fits(held: Seq<Handle>, call: Call<Seq<char>>) -> bool {
    &&& forall|h: Handle| takes(call.op, h) ==> #[trigger] held.contains(h)
    &&& call.gives matches Some(h) ==> !held.contains(h)
    &&& call.op is Free ==> call.gives is None
    &&& call.gives == Some(Handle::FlakeRef) ==> !held.contains(Handle::LockFlags)
}

/// Whether calls end the script in an error.
pub open spec fn refuses(calls: Seq<Call<Seq<char>>>) -> bool {
    exists|i: int| 0 <= i < calls.len() && (#[trigger] calls[i]).op is Refuse
}

/// What has to be freed after further calls.
pub open spec fn held_from(held: Seq<Handle>, calls: Seq<Call<Seq<char>>>) -> Seq<Handle>
    decreases calls.len(),
{
    if calls.len() == 0 {
        held
    } else {
        realise::held_next(held_from(held, calls.drop_last()), calls.last())
    }
}

/// Whether each of the further calls can be made when its turn comes.
pub open spec fn sound_from(held: Seq<Handle>, calls: Seq<Call<Seq<char>>>) -> bool
    decreases calls.len(),
{
    calls.len() == 0 || {
        let before = calls.drop_last();
        &&& sound_from(held, before)
        &&& refuses(before) || fits(held_from(held, before), calls.last())
    }
}

proof fn lemma_held_concat(
    held: Seq<Handle>,
    a: Seq<Call<Seq<char>>>,
    b: Seq<Call<Seq<char>>>,
)
    ensures
        held_from(held, a + b) == held_from(held_from(held, a), b),
    decreases b.len(),
{
    if b.len() == 0 {
        assert(a + b =~= a);
    } else {
        assert((a + b).drop_last() =~= a + b.drop_last());
        lemma_held_concat(held, a, b.drop_last());
    }
}

proof fn lemma_sound_concat(
    held: Seq<Handle>,
    a: Seq<Call<Seq<char>>>,
    b: Seq<Call<Seq<char>>>,
)
    requires
        sound_from(held, a),
        refuses(a) || sound_from(held_from(held, a), b),
    ensures
        sound_from(held, a + b),
    decreases b.len(),
{
    if b.len() == 0 {
        assert(a + b =~= a);
    } else {
        let front = b.drop_last();
        assert((a + b).drop_last() =~= a + front);
        lemma_sound_concat(held, a, front);
        lemma_held_concat(held, a, front);
        if refuses(a) {
            let i = choose|i: int| 0 <= i < a.len() && (#[trigger] a[i]).op is Refuse;
            assert((a + front)[i] == a[i]);
        } else if refuses(front) {
            let i = choose|i: int| 0 <= i < front.len() && (#[trigger] front[i]).op is Refuse;
            assert((a + front)[a.len() + i] == front[i]);
        }
    }
}

proof fn lemma_held_after(calls: Seq<Call<Seq<char>>>)
    ensures
        realise::held_after(calls) == held_from(Seq::empty(), calls),
    decreases calls.len(),
{
    if calls.len() > 0 {
        lemma_held_after(calls.drop_last());
    }
}

/// In a sound script the call at `k` can be made when its turn comes.
proof fn lemma_sound_at(calls: Seq<Call<Seq<char>>>, k: int)
    requires
        sound_from(Seq::empty(), calls),
        0 <= k < calls.len(),
        !refuses(calls.take(k)),
    ensures
        fits(realise::held_after(calls.take(k)), calls[k]),
    decreases calls.len(),
{
    if k == calls.len() - 1 {
        assert(calls.drop_last() =~= calls.take(k));
        lemma_held_after(calls.take(k));
    } else {
        let front = calls.drop_last();
        assert(front.take(k) =~= calls.take(k));
        lemma_sound_at(front, k);
    }
}

// ---------------------------------------------------------------------------------------------
// The parts of the script.

/// A call that gives nothing and frees nothing leaves what is held.
proof fn lemma_settings_sound(held: Seq<Handle>, settings: Seq<(Seq<char>, Seq<char>)>)
    requires
        held.contains(Handle::Context),
    ensures
        sound_from(held, nix::settings_part(settings)),
        held_from(held, nix::settings_part(settings)) == held,
    decreases settings.len(),
{
    if settings.len() > 0 {
        assert(nix::settings_part(settings).drop_last() =~= nix::settings_part(
            settings.drop_last(),
        ));
        lemma_settings_sound(held, settings.drop_last());
    }
}

/// What is held once the library has been started.
pub open spec fn started() -> Seq<Handle> {
    seq![Handle::Context]
}

/// What is held once the first part is through.
pub open spec fn opened() -> Seq<Handle> {
    seq![
        Handle::Context,
        Handle::Store,
        Handle::FlakeSettings,
        Handle::FetchSettings,
        Handle::Builder,
        Handle::State,
        Handle::ParseFlags,
    ]
}

proof fn lemma_contains_push(s: Seq<Handle>, h: Handle)
    ensures
        s.push(h).contains(h),
        forall|x: Handle| #[trigger] s.push(h).contains(x) <==> s.contains(x) || x == h,
{
    assert(s.push(h)[s.len() as int] == h);
    assert forall|x: Handle| #[trigger] s.push(h).contains(x) <==> s.contains(x) || x == h by {
        if s.contains(x) {
            let i = s.index_of(x);
            assert(s.push(h)[i] == x);
        }
        if s.push(h).contains(x) && x != h {
            let i = s.push(h).index_of(x);
            assert(s[i] == x);
        }
    }
}

/// One more call at the end of sound ones.
proof fn lemma_sound_push(
    held: Seq<Handle>,
    calls: Seq<Call<Seq<char>>>,
    call: Call<Seq<char>>,
)
    requires
        sound_from(held, calls),
        refuses(calls) || fits(held_from(held, calls), call),
    ensures
        sound_from(held, calls.push(call)),
        held_from(held, calls.push(call)) == realise::held_next(held_from(held, calls), call),
        refuses(calls.push(call)) <==> refuses(calls) || call.op is Refuse,
{
    assert(calls.push(call).drop_last() =~= calls);
    if refuses(calls) {
        let i = choose|i: int| 0 <= i < calls.len() && (#[trigger] calls[i]).op is Refuse;
        assert(calls.push(call)[i].op is Refuse);
    }
    if call.op is Refuse {
        assert(calls.push(call)[calls.len() as int].op is Refuse);
    }
    if refuses(calls.push(call)) && !(call.op is Refuse) {
        let i = choose|i: int|
            0 <= i < calls.push(call).len() && (#[trigger] calls.push(call)[i]).op is Refuse;
        assert(calls[i].op is Refuse);
    }
}

proof fn lemma_starting_sound()
    ensures
        sound_from(Seq::empty(), nix::starting_part()),
        held_from(Seq::empty(), nix::starting_part()) == started(),
{
    let none = Seq::<Handle>::empty();
    let part = nix::starting_part();
    let c0 = Seq::<Call<Seq<char>>>::empty();
    lemma_sound_push(none, c0, part[0]);
    lemma_contains_push(none, Handle::Context);
    assert(none.push(Handle::Context) == started());
    let c1 = c0.push(part[0]);
    lemma_sound_push(none, c1, part[1]);
    let c2 = c1.push(part[1]);
    lemma_sound_push(none, c2, part[2]);
    assert(c2.push(part[2]) =~= part);
}

proof fn lemma_opening_sound()
    ensures
        sound_from(started(), nix::opening_part()),
        held_from(started(), nix::opening_part()) == opened(),
{
    let h0 = started();
    lemma_contains_push(Seq::empty(), Handle::Context);
    assert(h0 == Seq::<Handle>::empty().push(Handle::Context));
    let part = nix::opening_part();
    let c0 = Seq::<Call<Seq<char>>>::empty();
    lemma_sound_push(h0, c0, part[0]);
    let c1 = c0.push(part[0]);
    assert(held_from(h0, c1) == h0);
    lemma_sound_push(h0, c1, part[1]);
    let c2 = c1.push(part[1]);
    assert(held_from(h0, c2) == h0);
    lemma_sound_push(h0, c2, part[2]);
    let c3 = c2.push(part[2]);
    let h1 = h0.push(Handle::Store);
    lemma_contains_push(h0, Handle::Store);
    assert(held_from(h0, c3) == h1);
    lemma_sound_push(h0, c3, part[3]);
    let c4 = c3.push(part[3]);
    let h2 = h1.push(Handle::FlakeSettings);
    lemma_contains_push(h1, Handle::FlakeSettings);
    assert(held_from(h0, c4) == h2);
    lemma_sound_push(h0, c4, part[4]);
    let c5 = c4.push(part[4]);
    let h3 = h2.push(Handle::FetchSettings);
    lemma_contains_push(h2, Handle::FetchSettings);
    assert(held_from(h0, c5) == h3);
    lemma_sound_push(h0, c5, part[5]);
    let c6 = c5.push(part[5]);
    let h4 = h3.push(Handle::Builder);
    lemma_contains_push(h3, Handle::Builder);
    assert(held_from(h0, c6) == h4);
    lemma_sound_push(h0, c6, part[6]);
    let c7 = c6.push(part[6]);
    assert(held_from(h0, c7) == h4);
    lemma_sound_push(h0, c7, part[7]);
    let c8 = c7.push(part[7]);
    assert(held_from(h0, c8) == h4);
    lemma_sound_push(h0, c8, part[8]);
    let c9 = c8.push(part[8]);
    let h5 = h4.push(Handle::State);
    lemma_contains_push(h4, Handle::State);
    assert(held_from(h0, c9) == h5);
    lemma_sound_push(h0, c9, part[9]);
    let c10 = c9.push(part[9]);
    let h6 = h5.push(Handle::ParseFlags);
    lemma_contains_push(h5, Handle::ParseFlags);
    assert(held_from(h0, c10) == h6);
    lemma_sound_push(h0, c10, part[10]);
    let c11 = c10.push(part[10]);
    assert(held_from(h0, c11) == h6);
    assert(c11 =~= part);
    assert(h6 =~= opened());
}

proof fn lemma_first_sound(request: nix::RequestModel)
    ensures
        sound_from(Seq::empty(), nix::first_part(request)),
        held_from(Seq::empty(), nix::first_part(request)) == opened(),
{
    let none = Seq::<Handle>::empty();
    let a = nix::starting_part();
    let b = nix::settings_part(request.settings);
    let c = nix::ttl_part(request.tarball_ttl);
    let d = nix::opening_part();
    lemma_starting_sound();
    lemma_contains_push(none, Handle::Context);
    assert(started() == none.push(Handle::Context));
    lemma_settings_sound(started(), request.settings);
    assert(sound_from(started(), c) && held_from(started(), c) == started()) by {
        let c0 = Seq::<Call<Seq<char>>>::empty();
        if c.len() > 0 {
            lemma_sound_push(started(), c0, c[0]);
            assert(c0.push(c[0]) =~= c);
        }
    }
    lemma_opening_sound();
    lemma_held_concat(none, a, b);
    lemma_sound_concat(none, a, b);
    lemma_held_concat(none, a + b, c);
    lemma_sound_concat(none, a + b, c);
    lemma_held_concat(none, a + b + c, d);
    lemma_sound_concat(none, a + b + c, d);
}

/// Whether all that the first part makes is there.
pub open spec fn is_open(held: Seq<Handle>) -> bool {
    &&& held.contains(Handle::Context)
    &&& held.contains(Handle::Store)
    &&& held.contains(Handle::FlakeSettings)
    &&& held.contains(Handle::FetchSettings)
    &&& held.contains(Handle::Builder)
    &&& held.contains(Handle::State)
    &&& held.contains(Handle::ParseFlags)
}

proof fn lemma_opened()
    ensures
        is_open(opened()),
        !opened().contains(Handle::FlakeRef),
        !opened().contains(Handle::LockFlags),
        !opened().contains(Handle::Locked),
        !opened().contains(Handle::Outputs),
        !opened().contains(Handle::StorePath),
        forall|i: usize| !#[trigger] opened().contains(Handle::Override(i)),
        forall|i: usize| !#[trigger] opened().contains(Handle::Attr(i)),
{
    let o = opened();
    assert(o[0] == Handle::Context);
    assert(o[1] == Handle::Store);
    assert(o[2] == Handle::FlakeSettings);
    assert(o[3] == Handle::FetchSettings);
    assert(o[4] == Handle::Builder);
    assert(o[5] == Handle::State);
    assert(o[6] == Handle::ParseFlags);
}

/// What is held once the flake's reference has been parsed.
pub open spec fn referred() -> Seq<Handle> {
    opened().push(Handle::FlakeRef)
}

proof fn lemma_second_sound(request: nix::RequestModel, dir: Seq<char>)
    ensures
        sound_from(opened(), nix::second_part(request, dir)),
        !refuses(nix::second_part(request, dir)) ==> held_from(
            opened(),
            nix::second_part(request, dir),
        ) == referred(),
{
    let part = nix::second_part(request, dir);
    let c0 = Seq::<Call<Seq<char>>>::empty();
    lemma_opened();
    lemma_sound_push(opened(), c0, part[0]);
    let c1 = c0.push(part[0]);
    lemma_sound_push(opened(), c1, part[1]);
    assert(c1.push(part[1]) =~= part);
}

/// The references of the first `n` overrides, the first one on top.
pub open spec fn references(n: nat) -> Seq<Handle> {
    Seq::new(n, |i: int| Handle::Override((n - 1 - i) as usize))
}

/// What is held once `n` overrides have been added.
pub open spec fn overridden(n: nat) -> Seq<Handle> {
    (referred() + references(n)).push(Handle::LockFlags)
}

proof fn lemma_above(below: Seq<Handle>, base: Handle, rest: Seq<Handle>, handle: Handle)
    requires
        !rest.contains(base),
    ensures
        realise::above(below.push(base) + rest, base, handle) == below.push(base).push(handle)
            + rest,
    decreases rest.len(),
{
    let held = below.push(base) + rest;
    if rest.len() == 0 {
        assert(held =~= below.push(base));
        assert(below.push(base).push(handle) + rest =~= below.push(base).push(handle));
    } else {
        let front = rest.drop_last();
        assert forall|i: int| 0 <= i < front.len() implies front[i] != base by {
            assert(rest[i] != base);
        }
        lemma_above(below, base, front, handle);
        assert(held.drop_last() =~= below.push(base) + front);
        assert(rest[rest.len() - 1] != base);
        assert(held.last() == rest.last());
        assert((below.push(base).push(handle) + front).push(rest.last()) =~= below.push(base).push(
            handle,
        ) + rest);
    }
}

proof fn lemma_one_more_reference(n: nat)
    requires
        n < usize::MAX,
    ensures
        realise::with_handle(overridden(n), Handle::Override(n as usize)) == overridden(n + 1),
{
    let h = Handle::Override(n as usize);
    let rest = references(n).push(Handle::LockFlags);
    assert(overridden(n) =~= opened().push(Handle::FlakeRef) + rest);
    lemma_above(opened(), Handle::FlakeRef, rest, h);
    assert(opened().push(Handle::FlakeRef).push(h) + rest =~= overridden(n + 1));
}

proof fn lemma_overridden(n: nat)
    requires
        n <= usize::MAX,
    ensures
        is_open(overridden(n)),
        overridden(n).contains(Handle::FlakeRef),
        overridden(n).contains(Handle::LockFlags),
        forall|i: usize| #[trigger] overridden(n).contains(Handle::Override(i)) <==> i < n,
        !overridden(n).contains(Handle::Locked),
        !overridden(n).contains(Handle::Outputs),
        !overridden(n).contains(Handle::StorePath),
        forall|i: usize| !#[trigger] overridden(n).contains(Handle::Attr(i)),
{
    let o = overridden(n);
    assert(o[0] == Handle::Context);
    assert(o[1] == Handle::Store);
    assert(o[2] == Handle::FlakeSettings);
    assert(o[3] == Handle::FetchSettings);
    assert(o[4] == Handle::Builder);
    assert(o[5] == Handle::State);
    assert(o[6] == Handle::ParseFlags);
    assert(o[7] == Handle::FlakeRef);
    assert(o[(8 + n) as int] == Handle::LockFlags);
    assert forall|i: usize| #[trigger] o.contains(Handle::Override(i)) <==> i < n by {
        if i < n {
            assert(o[8 + (n - 1 - i)] == Handle::Override(i));
        }
        if o.contains(Handle::Override(i)) {
            let j = o.index_of(Handle::Override(i));
            assert(8 <= j < 8 + n);
            assert(o[j] == references(n)[j - 8]);
        }
    }
}

proof fn lemma_overrides_sound(overrides: Seq<(Seq<char>, Seq<char>)>)
    requires
        overrides.len() <= usize::MAX,
    ensures
        sound_from(overridden(0), nix::overrides_part(overrides)),
        !refuses(nix::overrides_part(overrides)) ==> held_from(
            overridden(0),
            nix::overrides_part(overrides),
        ) == overridden(overrides.len()),
    decreases overrides.len(),
{
    if overrides.len() > 0 {
        let n = (overrides.len() - 1) as nat;
        let before = nix::overrides_part(overrides.drop_last());
        let part = nix::overrides_part(overrides);
        lemma_overrides_sound(overrides.drop_last());
        lemma_overridden(n);
        lemma_overridden(n + 1);
        lemma_one_more_reference(n);
        let c1 = before.push(part[before.len() as int]);
        lemma_sound_push(overridden(0), before, part[before.len() as int]);
        lemma_sound_push(overridden(0), c1, part[(before.len() + 1) as int]);
        assert(c1.push(part[(before.len() + 1) as int]) =~= part);
    }
}

proof fn lemma_flags_sound()
    ensures
        sound_from(referred(), nix::flags_part()),
        held_from(referred(), nix::flags_part()) == overridden(0),
{
    let part = nix::flags_part();
    let c0 = Seq::<Call<Seq<char>>>::empty();
    lemma_opened();
    lemma_contains_push(opened(), Handle::FlakeRef);
    lemma_sound_push(referred(), c0, part[0]);
    let c1 = c0.push(part[0]);
    lemma_contains_push(referred(), Handle::LockFlags);
    lemma_sound_push(referred(), c1, part[1]);
    assert(c1.push(part[1]) =~= part);
    assert(referred().push(Handle::LockFlags) =~= overridden(0));
}

/// What is held once the flake has been locked.
pub open spec fn locked(n: nat) -> Seq<Handle> {
    overridden(n).push(Handle::Locked).push(Handle::Outputs)
}

proof fn lemma_locking_sound(n: nat)
    requires
        n <= usize::MAX,
    ensures
        sound_from(overridden(n), nix::locking_part()),
        held_from(overridden(n), nix::locking_part()) == locked(n),
{
    let part = nix::locking_part();
    let h0 = overridden(n);
    let c0 = Seq::<Call<Seq<char>>>::empty();
    lemma_overridden(n);
    lemma_sound_push(h0, c0, part[0]);
    let c1 = c0.push(part[0]);
    lemma_contains_push(h0, Handle::Locked);
    let h1 = h0.push(Handle::Locked);
    lemma_sound_push(h0, c1, part[1]);
    let c2 = c1.push(part[1]);
    lemma_contains_push(h1, Handle::Outputs);
    lemma_sound_push(h0, c2, part[2]);
    assert(c2.push(part[2]) =~= part);
}

/// Whether the outputs can be read: what that takes is there, and no attribute is being walked.
pub open spec fn readable(held: Seq<Handle>) -> bool {
    &&& held.contains(Handle::Context)
    &&& held.contains(Handle::State)
    &&& held.contains(Handle::Outputs)
    &&& held.contains(Handle::Store)
    &&& !held.contains(Handle::StorePath)
    &&& forall|i: usize| !#[trigger] held.contains(Handle::Attr(i))
}

proof fn lemma_locked_readable(n: nat)
    requires
        n <= usize::MAX,
    ensures
        readable(locked(n)),
{
    lemma_overridden(n);
    lemma_contains_push(overridden(n), Handle::Locked);
    lemma_contains_push(overridden(n).push(Handle::Locked), Handle::Outputs);
}

proof fn lemma_without_top(held: Seq<Handle>, handle: Handle)
    ensures
        realise::without(held.push(handle), handle) == held,
{
    assert(held.push(handle).drop_last() =~= held);
}

proof fn lemma_without_below(held: Seq<Handle>, handle: Handle, top: Handle)
    requires
        handle != top,
    ensures
        realise::without(held.push(handle).push(top), handle) == held.push(top),
{
    assert(held.push(handle).push(top).drop_last() =~= held.push(handle));
    lemma_without_top(held, handle);
}

proof fn lemma_descent_sound(held: Seq<Handle>, path: Seq<char>, segments: Seq<Seq<char>>)
    requires
        readable(held),
        segments.len() <= usize::MAX,
    ensures
        sound_from(held, nix::descent(Handle::Outputs, path, segments)),
        !refuses(nix::descent(Handle::Outputs, path, segments)),
        held_from(held, nix::descent(Handle::Outputs, path, segments)) == (if segments.len() == 0 {
            held
        } else {
            held.push(nix::walked_to(Handle::Outputs, segments))
        }),
    decreases segments.len(),
{
    if segments.len() > 0 {
        let at = (segments.len() - 1) as usize;
        let front = segments.drop_last();
        let before = nix::descent(Handle::Outputs, path, front);
        let part = nix::descent(Handle::Outputs, path, segments);
        let n = before.len() as int;
        lemma_descent_sound(held, path, front);
        let reached = held_from(held, before);
        let from = if at == 0 {
            Handle::Outputs
        } else {
            Handle::Attr((at - 1) as usize)
        };
        let into = Handle::Attr(at);
        lemma_contains_push(held, from);
        lemma_contains_push(reached, into);
        let c1 = before.push(part[n]);
        lemma_sound_push(held, before, part[n]);
        assert(held_from(held, c1) == reached.push(into));
        let c2 = c1.push(part[n + 1]);
        lemma_sound_push(held, c1, part[n + 1]);
        assert(held_from(held, c2) == reached.push(into));
        if at == 0 {
            assert(c2 =~= part);
        } else {
            assert(nix::walked_to(Handle::Outputs, front) == from);
            lemma_sound_push(held, c2, part[n + 2]);
            lemma_without_below(held, from, into);
            assert(c2.push(part[n + 2]) =~= part);
        }
    }
}

proof fn lemma_read_sound(held: Seq<Handle>, path: Seq<char>)
    requires
        readable(held),
        nix::segments(path).len() <= usize::MAX,
    ensures
        sound_from(held, nix::read_part(path)),
        !refuses(nix::read_part(path)),
        held_from(held, nix::read_part(path)) == held,
{
    let segments = nix::segments(path);
    let value = nix::walked_to(Handle::Outputs, segments);
    let walk = nix::walk(Handle::Outputs, path);
    let part = nix::read_part(path);
    let n = walk.len() as int;
    lemma_contains_push(held, value);
    if segments.len() == 0 {
        let c0 = Seq::<Call<Seq<char>>>::empty();
        lemma_sound_push(held, c0, walk[0]);
        assert(c0.push(walk[0]) =~= walk);
    } else {
        lemma_descent_sound(held, path, segments);
    }
    assert(held_from(held, walk) == held.push(value));
    let c1 = walk.push(part[n]);
    lemma_sound_push(held, walk, part[n]);
    lemma_sound_push(held, c1, part[n + 1]);
    lemma_without_top(held, value);
    assert(c1.push(part[n + 1]) =~= part);
}

proof fn lemma_refuses_concat(a: Seq<Call<Seq<char>>>, b: Seq<Call<Seq<char>>>)
    ensures
        refuses(a + b) <==> refuses(a) || refuses(b),
{
    if refuses(a) {
        let i = choose|i: int| 0 <= i < a.len() && (#[trigger] a[i]).op is Refuse;
        assert((a + b)[i].op is Refuse);
    }
    if refuses(b) {
        let i = choose|i: int| 0 <= i < b.len() && (#[trigger] b[i]).op is Refuse;
        assert((a + b)[a.len() + i].op is Refuse);
    }
    if refuses(a + b) {
        let i = choose|i: int| 0 <= i < (a + b).len() && (#[trigger] (a + b)[i]).op is Refuse;
        if i < a.len() {
            assert(a[i].op is Refuse);
        } else {
            assert(b[i - a.len()].op is Refuse);
        }
    }
}

/// Reading one more text after sound calls that leave what is held.
proof fn lemma_read_more(held: Seq<Handle>, calls: Seq<Call<Seq<char>>>, path: Seq<char>)
    requires
        readable(held),
        nix::segments(path).len() <= usize::MAX,
        sound_from(held, calls),
        !refuses(calls),
        held_from(held, calls) == held,
    ensures
        sound_from(held, calls + nix::read_part(path)),
        !refuses(calls + nix::read_part(path)),
        held_from(held, calls + nix::read_part(path)) == held,
{
    lemma_read_sound(held, path);
    lemma_held_concat(held, calls, nix::read_part(path));
    lemma_sound_concat(held, calls, nix::read_part(path));
    lemma_refuses_concat(calls, nix::read_part(path));
}

proof fn lemma_split_length(s: Seq<char>, sep: char)
    ensures
        text::split(s, sep).len() <= s.len() + 1,
    decreases s.len(),
{
    if s.len() > 0 {
        lemma_split_length(s.drop_last(), sep);
        text::lemma_split_nonempty(s.drop_last(), sep);
    }
}

proof fn lemma_segments_length(path: Seq<char>)
    ensures
        nix::segments(path).len() <= path.len() + 1,
{
    lemma_split_length(path, '.');
    text::split(path, '.').lemma_filter_len(|s: Seq<char>| s.len() > 0);
}

proof fn lemma_reading_sound(held: Seq<Handle>, attr: Seq<char>)
    requires
        readable(held),
        attr.len() + 100 <= usize::MAX,
    ensures
        sound_from(held, nix::reading_part(attr)),
        !refuses(nix::reading_part(attr)),
        held_from(held, nix::reading_part(attr)) == held,
{
    reveal_strlit(".config.system.build.image.drvPath");
    reveal_strlit(".config.system.build.image.outPath");
    reveal_strlit(".config.image.fileName");
    reveal_strlit(".config.system.build.toplevel.outPath");
    reveal_strlit(".config.system.build.closureInfo.drvPath");
    reveal_strlit(".config.system.build.closureInfo.outPath");
    let p1 = attr + ".config.system.build.image.drvPath"@;
    let p2 = attr + ".config.system.build.image.outPath"@;
    let p3 = attr + ".config.image.fileName"@;
    let p4 = attr + ".config.system.build.toplevel.outPath"@;
    let p5 = attr + ".config.system.build.closureInfo.drvPath"@;
    let p6 = attr + ".config.system.build.closureInfo.outPath"@;
    lemma_segments_length(p1);
    lemma_segments_length(p2);
    lemma_segments_length(p3);
    lemma_segments_length(p4);
    lemma_segments_length(p5);
    lemma_segments_length(p6);
    let r1 = nix::read_part(p1);
    let r2 = r1 + nix::read_part(p2);
    let r3 = r2 + nix::read_part(p3);
    let r4 = r3 + nix::read_part(p4);
    let r5 = r4 + nix::read_part(p5);
    lemma_read_sound(held, p1);
    lemma_read_more(held, r1, p2);
    lemma_read_more(held, r2, p3);
    lemma_read_more(held, r3, p4);
    lemma_read_more(held, r4, p5);
    lemma_read_more(held, r5, p6);
}

proof fn lemma_third_sound(request: nix::RequestModel, fragment: Seq<char>)
    requires
        request.overrides.len() <= usize::MAX,
        fragment.len() + 200 <= usize::MAX,
    ensures
        sound_from(referred(), nix::third_part(request, fragment)),
        !refuses(nix::third_part(request, fragment)) ==> held_from(
            referred(),
            nix::third_part(request, fragment),
        ) == locked(request.overrides.len()),
{
    reveal_strlit("nixosConfigurations.");
    reveal_strlit("default");
    let attr = nix::attr_path(fragment);
    let n = request.overrides.len();
    let a = nix::flags_part();
    let b = nix::overrides_part(request.overrides);
    let c = nix::locking_part();
    let d = nix::reading_part(attr);
    lemma_flags_sound();
    lemma_overrides_sound(request.overrides);
    lemma_locking_sound(n);
    lemma_locked_readable(n);
    lemma_reading_sound(locked(n), attr);
    lemma_held_concat(referred(), a, b);
    lemma_sound_concat(referred(), a, b);
    lemma_refuses_concat(a, b);
    lemma_held_concat(referred(), a + b, c);
    lemma_sound_concat(referred(), a + b, c);
    lemma_refuses_concat(a + b, c);
    lemma_held_concat(referred(), a + b + c, d);
    lemma_sound_concat(referred(), a + b + c, d);
    lemma_refuses_concat(a + b + c, d);
}

proof fn lemma_realise_sound(held: Seq<Handle>, circumstance: Seq<char>, drv: Seq<char>)
    requires
        readable(held),
    ensures
        sound_from(held, nix::realise_part(circumstance, drv)),
        held_from(held, nix::realise_part(circumstance, drv)) == held,
{
    let part = nix::realise_part(circumstance, drv);
    let c0 = Seq::<Call<Seq<char>>>::empty();
    lemma_contains_push(held, Handle::StorePath);
    lemma_sound_push(held, c0, part[0]);
    let c1 = c0.push(part[0]);
    lemma_sound_push(held, c1, part[1]);
    let c2 = c1.push(part[1]);
    lemma_sound_push(held, c2, part[2]);
    lemma_without_top(held, Handle::StorePath);
    assert(c2.push(part[2]) =~= part);
}

proof fn lemma_script_sound(request: nix::RequestModel, read: Seq<Seq<char>>)
    requires
        request.overrides.len() <= usize::MAX,
        read.len() >= 2 ==> read[1].len() + 200 <= usize::MAX,
    ensures
        sound_from(Seq::empty(), nix::script_so_far(request, read)),
{
    reveal(nix::script_so_far);
    let none = Seq::<Handle>::empty();
    let p1 = nix::first_part(request);
    lemma_first_sound(request);
    let whole = nix::script_so_far(request, read);
    if read.len() == 0 {
        assert(whole =~= p1);
    } else {
        let p2 = nix::second_part(request, read[0]);
        lemma_second_sound(request, read[0]);
        lemma_held_concat(none, p1, p2);
        lemma_sound_concat(none, p1, p2);
        lemma_refuses_concat(p1, p2);
        if read.len() == 1 {
            assert(whole =~= p1 + p2);
        } else {
            let p3 = nix::third_part(request, read[1]);
            lemma_third_sound(request, read[1]);
            lemma_held_concat(none, p1 + p2, p3);
            lemma_sound_concat(none, p1 + p2, p3);
            lemma_refuses_concat(p1 + p2, p3);
            if read.len() < 8 {
                assert(whole =~= p1 + p2 + p3);
            } else {
                let held = locked(request.overrides.len());
                lemma_locked_readable(request.overrides.len());
                let image = nix::realise_part("realise image drv"@, read[2]);
                let closure = nix::realise_part("realise closureInfo drv"@, read[6]);
                lemma_realise_sound(held, "realise image drv"@, read[2]);
                lemma_realise_sound(held, "realise closureInfo drv"@, read[6]);
                lemma_sound_concat(held, image, closure);
                lemma_sound_concat(none, p1 + p2 + p3, image + closure);
                assert(whole =~= p1 + p2 + p3 + (image + closure));
            }
        }
    }
}

/// How often an object occurs.
pub open spec fn occurrences(held: Seq<Handle>, handle: Handle) -> nat
    decreases held.len(),
{
    if held.len() == 0 {
        0
    } else {
        occurrences(held.drop_last(), handle) + (if held.last() == handle {
            1nat
        } else {
            0nat
        })
    }
}

/// How often calls of which none failed gave an object.
pub open spec fn times_given(calls: Seq<Call<Seq<char>>>, handle: Handle) -> nat
    decreases calls.len(),
{
    if calls.len() == 0 {
        0
    } else {
        times_given(calls.drop_last(), handle) + (if calls.last().gives == Some(handle) {
            1nat
        } else {
            0nat
        })
    }
}

/// How often calls freed an object.
pub open spec fn times_freed(calls: Seq<Call<Seq<char>>>, handle: Handle) -> nat
    decreases calls.len(),
{
    if calls.len() == 0 {
        0
    } else {
        times_freed(calls.drop_last(), handle) + (match calls.last().op {
            Op::Free { handle: freed } => if freed == handle {
                1nat
            } else {
                0nat
            },
            _ => 0nat,
        })
    }
}

proof fn lemma_occurs(held: Seq<Handle>, handle: Handle)
    ensures
        occurrences(held, handle) > 0 <==> held.contains(handle),
    decreases held.len(),
{
    if held.len() > 0 {
        let front = held.drop_last();
        lemma_occurs(front, handle);
        if front.contains(handle) {
            let i = front.index_of(handle);
            assert(held[i] == handle);
        }
        if held.last() == handle {
            assert(held[held.len() - 1] == handle);
        }
        if held.contains(handle) && held.last() != handle {
            let i = held.index_of(handle);
            assert(front[i] == handle);
        }
    }
}

proof fn lemma_occurrences_push(held: Seq<Handle>, top: Handle, handle: Handle)
    ensures
        occurrences(held.push(top), handle) == occurrences(held, handle) + (if top == handle {
            1nat
        } else {
            0nat
        }),
{
    assert(held.push(top).drop_last() =~= held);
}

proof fn lemma_occurrences_without(held: Seq<Handle>, gone: Handle, handle: Handle)
    requires
        held.contains(gone),
    ensures
        occurrences(realise::without(held, gone), handle) + (if gone == handle {
            1nat
        } else {
            0nat
        }) == occurrences(held, handle),
    decreases held.len(),
{
    if held.last() != gone {
        let front = held.drop_last();
        assert(front.contains(gone)) by {
            let i = held.index_of(gone);
            assert(front[i] == gone);
        }
        lemma_occurrences_without(front, gone, handle);
        lemma_occurrences_push(realise::without(front, gone), held.last(), handle);
    }
}

proof fn lemma_occurrences_above(held: Seq<Handle>, base: Handle, new: Handle, handle: Handle)
    ensures
        occurrences(realise::above(held, base, new), handle) == occurrences(held, handle) + (
        if new == handle {
            1nat
        } else {
            0nat
        }),
    decreases held.len(),
{
    if held.len() == 0 {
        assert(seq![new] =~= Seq::<Handle>::empty().push(new));
        lemma_occurrences_push(Seq::empty(), new, handle);
    } else if held.last() == base {
        lemma_occurrences_push(held, new, handle);
    } else {
        lemma_occurrences_above(held.drop_last(), base, new, handle);
        lemma_occurrences_push(
            realise::above(held.drop_last(), base, new),
            held.last(),
            handle,
        );
    }
}

/// What was given is what was freed and what is still held.
proof fn lemma_balance(calls: Seq<Call<Seq<char>>>, handle: Handle)
    requires
        sound_from(Seq::empty(), calls),
        !refuses(calls),
    ensures
        times_given(calls, handle) == times_freed(calls, handle) + occurrences(
            realise::held_after(calls),
            handle,
        ),
        occurrences(realise::held_after(calls), handle) <= 1,
    decreases calls.len(),
{
    if calls.len() > 0 {
        let front = calls.drop_last();
        let call = calls.last();
        lemma_refuses_front(calls);
        lemma_balance(front, handle);
        lemma_held_after(front);
        let held = realise::held_after(front);
        assert(call == calls[calls.len() - 1]);
        lemma_occurs(held, handle);
        match call.op {
            Op::Free { handle: freed } => {
                assert(takes(call.op, freed));
                assert(held.contains(freed));
                lemma_occurrences_without(held, freed, handle);
            },
            _ => {
                if let Some(new) = call.gives {
                    lemma_occurs(held, new);
                    lemma_occurrences_push(held, new, handle);
                    lemma_occurrences_above(held, Handle::FlakeRef, new, handle);
                }
            },
        }
    }
}

proof fn lemma_refuses_front(calls: Seq<Call<Seq<char>>>)
    requires
        calls.len() > 0,
        !refuses(calls),
    ensures
        !refuses(calls.drop_last()),
{
    let front = calls.drop_last();
    if refuses(front) {
        let i = choose|i: int| 0 <= i < front.len() && (#[trigger] front[i]).op is Refuse;
        assert(calls[i].op is Refuse);
    }
}

/// Whether an object is a reference that lock flags may borrow.
pub open spec fn is_reference(handle: Handle) -> bool {
    handle is Override || handle == Handle::FlakeRef
}

/// Whether every reference lies below the lock flags, so that it is freed after them.
pub open spec fn references_below(held: Seq<Handle>) -> bool {
    forall|i: int, j: int|
        0 <= i < held.len() && 0 <= j < held.len() && is_reference(#[trigger] held[i])
            && #[trigger] held[j] == Handle::LockFlags ==> i < j
}

proof fn lemma_below_push(held: Seq<Handle>, top: Handle)
    requires
        references_below(held),
        is_reference(top) ==> !held.contains(Handle::LockFlags),
    ensures
        references_below(held.push(top)),
{
    let new = held.push(top);
    assert forall|i: int, j: int|
        0 <= i < new.len() && 0 <= j < new.len() && is_reference(#[trigger] new[i])
            && #[trigger] new[j] == Handle::LockFlags implies i < j by {
        if j < held.len() {
            assert(held[j] == Handle::LockFlags);
            assert(held.contains(Handle::LockFlags));
            assert(i < held.len());
            assert(held[i] == new[i]);
        }
    }
}

proof fn lemma_below_front(held: Seq<Handle>)
    requires
        held.len() > 0,
        references_below(held),
    ensures
        references_below(held.drop_last()),
        is_reference(held.last()) ==> !held.contains(Handle::LockFlags),
{
    let front = held.drop_last();
    assert forall|i: int, j: int|
        0 <= i < front.len() && 0 <= j < front.len() && is_reference(#[trigger] front[i])
            && #[trigger] front[j] == Handle::LockFlags implies i < j by {
        assert(held[i] == front[i] && held[j] == front[j]);
    }
    if is_reference(held.last()) && held.contains(Handle::LockFlags) {
        let j = held.index_of(Handle::LockFlags);
        assert(is_reference(held[held.len() - 1]) && held[j] == Handle::LockFlags);
    }
}

proof fn lemma_below_without(held: Seq<Handle>, gone: Handle)
    requires
        references_below(held),
    ensures
        references_below(realise::without(held, gone)),
        forall|h: Handle| #[trigger]
            realise::without(held, gone).contains(h) ==> held.contains(h),
    decreases held.len(),
{
    if held.len() > 0 {
        let front = held.drop_last();
        lemma_below_front(held);
        lemma_contains_push(front, held.last());
        assert(front.push(held.last()) =~= held);
        if held.last() != gone {
            lemma_below_without(front, gone);
            lemma_below_push(realise::without(front, gone), held.last());
            lemma_contains_push(realise::without(front, gone), held.last());
        }
    }
}

proof fn lemma_below_above(held: Seq<Handle>, handle: Handle)
    requires
        references_below(held),
        handle is Override,
    ensures
        references_below(realise::above(held, Handle::FlakeRef, handle)),
        forall|h: Handle| #[trigger]
            realise::above(held, Handle::FlakeRef, handle).contains(h) ==> held.contains(h) || h
                == handle,
    decreases held.len(),
{
    if held.len() > 0 {
        let front = held.drop_last();
        lemma_below_front(held);
        lemma_contains_push(front, held.last());
        assert(front.push(held.last()) =~= held);
        if held.last() == Handle::FlakeRef {
            lemma_below_push(held, handle);
            lemma_contains_push(held, handle);
        } else {
            lemma_below_above(front, handle);
            lemma_below_push(
                realise::above(front, Handle::FlakeRef, handle),
                held.last(),
            );
            lemma_contains_push(
                realise::above(front, Handle::FlakeRef, handle),
                held.last(),
            );
        }
    }
}

proof fn lemma_below(calls: Seq<Call<Seq<char>>>)
    requires
        sound_from(Seq::empty(), calls),
        !refuses(calls),
    ensures
        references_below(realise::held_after(calls)),
    decreases calls.len(),
{
    if calls.len() > 0 {
        let front = calls.drop_last();
        let call = calls.last();
        lemma_refuses_front(calls);
        lemma_below(front);
        lemma_held_after(front);
        let held = realise::held_after(front);
        match call.op {
            Op::Free { handle: freed } => {
                lemma_below_without(held, freed);
            },
            _ => {
                if let Some(new) = call.gives {
                    if new is Override {
                        lemma_below_above(held, new);
                    } else {
                        lemma_below_push(held, new);
                    }
                }
            },
        }
    }
}

/// Whether the texts are small enough for a machine's counters.
pub open spec fn is_sized(r: Realisation) -> bool {
    r.texts().len() >= 2 ==> r.texts()[1].len() + 200 <= usize::MAX
}

proof fn lemma_state_sound(r: Realisation)
    requires
        r.wf(),
        is_sized(r),
    ensures
        sound_from(Seq::empty(), r.script()),
        sound_from(Seq::empty(), r.script().take(r.next as int)),
        !refuses(r.script().take(r.next as int)),
{
    assert(r.request.overrides.len() == r.request@.overrides.len());
    lemma_script_sound(r.request@, r.texts());
    lemma_sound_prefix(r.script(), r.next as int);
    let made = r.script().take(r.next as int);
    if refuses(made) {
        let i = choose|i: int| 0 <= i < made.len() && (#[trigger] made[i]).op is Refuse;
        assert(r.script()[i].op is Refuse);
    }
}

proof fn lemma_sound_prefix(calls: Seq<Call<Seq<char>>>, k: int)
    requires
        sound_from(Seq::empty(), calls),
        0 <= k <= calls.len(),
    ensures
        sound_from(Seq::empty(), calls.take(k)),
    decreases calls.len(),
{
    if k == calls.len() {
        assert(calls.take(k) =~= calls);
    } else {
        assert(calls.drop_last().take(k) =~= calls.take(k));
        lemma_sound_prefix(calls.drop_last(), k);
    }
}

/// Whatever the replies were, the next call of a realisation takes only objects that were given and
/// not freed since, and gives none that is still there.
pub proof fn law_calls_take_live_objects(r: Realisation)
    requires
        r.wf(),
        !r.over(),
        is_sized(r),
    ensures
        fits(r.held@, r.script()[r.next as int]),
{
    lemma_state_sound(r);
    lemma_sound_at(r.script(), r.next as int);
}

/// Whatever the replies were, as long as the objects that are left have not begun to be freed, each
/// object was given as often as it was freed, and once more if and only if it is among those that are
/// left, where it occurs once.  As those are freed one by one until none is left, every object that
/// was given is freed exactly once.
pub proof fn law_objects_are_freed_once(r: Realisation, handle: Handle)
    requires
        r.wf(),
        is_sized(r),
        r.held@ == realise::held_after(r.script().take(r.next as int)),
    ensures
        times_given(r.script().take(r.next as int), handle) == times_freed(
            r.script().take(r.next as int),
            handle,
        ) + occurrences(r.held@, handle),
        occurrences(r.held@, handle) <= 1,
        occurrences(r.held@, handle) == 1 <==> r.held@.contains(handle),
{
    lemma_state_sound(r);
    lemma_balance(r.script().take(r.next as int), handle);
    lemma_occurs(r.held@, handle);
}

/// The lock flags borrow the references of the overrides, and are freed before them.
pub proof fn law_references_outlive_lock_flags(r: Realisation)
    requires
        r.wf(),
        is_sized(r),
    ensures
        references_below(r.held@),
{
    lemma_state_sound(r);
    let held = realise::held_after(r.script().take(r.next as int));
    lemma_below(r.script().take(r.next as int));
    assert forall|i: int, j: int|
        0 <= i < r.held@.len() && 0 <= j < r.held@.len() && is_reference(#[trigger] r.held@[i])
            && #[trigger] r.held@[j] == Handle::LockFlags implies i < j by {
        assert(held[i] == r.held@[i] && held[j] == r.held@[j]);
    }
}

} // verus!
