//! Laws on walking attribute paths: which value a walk reaches, and which configuration a fragment
//! names.

use crate::nix;
use crate::nix::{Call, Handle, Op};
use crate::text;
use vstd::prelude::*;

verus! {

/// What the values of a flake hold, as far as walking goes.
#[verifier::reject_recursive_types(V)]
pub struct Values<V> {
    /// The attribute of a value under a name, if it has one.
    pub attr: spec_fn(V, Seq<char>) -> Option<V>,
    /// Whether a value can be evaluated.
    pub evaluates: spec_fn(V) -> bool,
}

/// The value that lies under the segments of a path, below `root`, if every value on the way is there
/// and can be evaluated.
pub open spec fn value_under<V>(values: Values<V>, root: V, segments: Seq<Seq<char>>) -> Option<V>
    decreases segments.len(),
{
    if segments.len() == 0 {
        Some(root)
    } else {
        match value_under(values, root, segments.drop_last()) {
            None => None,
            Some(above) => match (values.attr)(above, segments.last()) {
                None => None,
                Some(v) => if (values.evaluates)(v) {
                    Some(v)
                } else {
                    None
                },
            },
        }
    }
}

/// The values that the handles stand for after a call, or nothing if the call fails.
pub open spec fn perform<V>(values: Values<V>, env: Map<Handle, V>, op: Op<Seq<char>>) -> Option<
    Map<Handle, V>,
> {
    match op {
        Op::GetAttr { of, name, into } => match (values.attr)(env[of], name) {
            Some(v) => Some(env.insert(into, v)),
            None => None,
        },
        Op::Force { of } => if (values.evaluates)(env[of]) {
            Some(env)
        } else {
            None
        },
        Op::Retain { of, into } => Some(env.insert(into, env[of])),
        Op::Free { handle } => Some(env.remove(handle)),
        _ => Some(env),
    }
}

/// The values that the handles stand for after calls, or nothing if one of them fails.
pub open spec fn perform_all<V>(
    values: Values<V>,
    env: Map<Handle, V>,
    calls: Seq<Call<Seq<char>>>,
) -> Option<Map<Handle, V>>
    decreases calls.len(),
{
    if calls.len() == 0 {
        Some(env)
    } else {
        match perform_all(values, env, calls.drop_last()) {
            None => None,
            Some(before) => perform(values, before, calls.last().op),
        }
    }
}

/// The value that the walk along `path` below the value of `root` ends at, if it succeeds.
pub open spec fn walked_value<V>(
    values: Values<V>,
    env: Map<Handle, V>,
    root: Handle,
    path: Seq<char>,
) -> Option<V> {
    match perform_all(values, env, nix::walk(root, path)) {
        None => None,
        Some(after) => Some(after[nix::walked_to(root, nix::segments(path))]),
    }
}

proof fn lemma_perform_push<V>(
    values: Values<V>,
    env: Map<Handle, V>,
    calls: Seq<Call<Seq<char>>>,
    call: Call<Seq<char>>,
)
    ensures
        perform_all(values, env, calls.push(call)) == (match perform_all(values, env, calls) {
            None => None,
            Some(before) => perform(values, before, call.op),
        }),
{
    assert(calls.push(call).drop_last() =~= calls);
}

/// Going down segments reaches the value under them, and leaves the value at the root.
proof fn lemma_descent_reaches<V>(
    values: Values<V>,
    env: Map<Handle, V>,
    root: Handle,
    path: Seq<char>,
    segments: Seq<Seq<char>>,
)
    requires
        nix::depth_below(root) + segments.len() <= usize::MAX,
    ensures
        match perform_all(values, env, nix::descent(root, path, segments)) {
            None => value_under(values, env[root], segments) is None,
            Some(after) => {
                &&& after[root] == env[root]
                &&& value_under(values, env[root], segments) == Some(
                    after[if segments.len() == 0 {
                        root
                    } else {
                        nix::walked_to(root, segments)
                    }],
                )
            },
        },
    decreases segments.len(),
{
    if segments.len() > 0 {
        let front = segments.drop_last();
        lemma_descent_reaches(values, env, root, path, front);
        let before = nix::descent(root, path, front);
        let part = nix::descent(root, path, segments);
        let n = before.len() as int;
        let c1 = before.push(part[n]);
        let c2 = c1.push(part[n + 1]);
        lemma_perform_push(values, env, before, part[n]);
        lemma_perform_push(values, env, c1, part[n + 1]);
        if front.len() == 0 {
            assert(part =~= c2);
        } else {
            assert(part =~= c2.push(part[n + 2]));
            lemma_perform_push(values, env, c2, part[n + 2]);
        }
    }
}

/// A walk succeeds exactly if every attribute on the way is there and can be evaluated, and ends at the
/// value under the segments of its path.
pub proof fn law_walks_end_at_the_value<V>(
    values: Values<V>,
    env: Map<Handle, V>,
    root: Handle,
    path: Seq<char>,
)
    requires
        nix::depth_below(root) + nix::segments(path).len() + 1 <= usize::MAX,
    ensures
        walked_value(values, env, root, path) == value_under(
            values,
            env[root],
            nix::segments(path),
        ),
{
    let segments = nix::segments(path);
    if segments.len() == 0 {
        let none = Seq::<Call<Seq<char>>>::empty();
        let retain = nix::walk(root, path)[0];
        assert(nix::walk(root, path) =~= none.push(retain));
        lemma_perform_push(values, env, none, retain);
    } else {
        lemma_descent_reaches(values, env, root, path, segments);
    }
}

proof fn lemma_value_under_concat<V>(
    values: Values<V>,
    root: V,
    a: Seq<Seq<char>>,
    b: Seq<Seq<char>>,
)
    ensures
        value_under(values, root, a + b) == (match value_under(values, root, a) {
            None => None,
            Some(v) => value_under(values, v, b),
        }),
    decreases b.len(),
{
    if b.len() == 0 {
        assert(a + b =~= a);
    } else {
        assert((a + b).drop_last() =~= a + b.drop_last());
        lemma_value_under_concat(values, root, a, b.drop_last());
    }
}

/// A dot between two paths joins their segments.
pub proof fn law_joined_paths_join_their_segments(p: Seq<char>, q: Seq<char>)
    ensures
        nix::segments(p.push('.') + q) == nix::segments(p) + nix::segments(q),
{
    text::lemma_split_concat(p, '.', q);
    Seq::filter_distributes_over_add(
        text::split(p, '.'),
        text::split(q, '.'),
        |s: Seq<char>| s.len() > 0,
    );
}

proof fn lemma_no_segments()
    ensures
        nix::segments(Seq::empty()) == Seq::<Seq<char>>::empty(),
{
    reveal(Seq::filter);
    let none = Seq::<char>::empty();
    let parts = text::split(none, '.');
    assert(parts =~= seq![none]);
    assert(parts.drop_last() =~= Seq::empty());
    assert(parts.drop_last().filter(|s: Seq<char>| s.len() > 0) =~= Seq::empty());
}

/// Dots at the ends of a path, and more than one dot between two segments, do not matter.
pub proof fn law_empty_segments_are_skipped(p: Seq<char>, q: Seq<char>)
    ensures
        nix::segments(p.push('.')) == nix::segments(p),
        nix::segments(seq!['.'] + p) == nix::segments(p),
        nix::segments(p.push('.').push('.') + q) == nix::segments(p.push('.') + q),
{
    let none = Seq::<char>::empty();
    lemma_no_segments();
    law_joined_paths_join_their_segments(p, none);
    assert(p.push('.') + none =~= p.push('.'));
    law_joined_paths_join_their_segments(none, p);
    assert(none.push('.') + p =~= seq!['.'] + p);
    law_joined_paths_join_their_segments(p.push('.'), q);
    law_joined_paths_join_their_segments(p, q);
    assert(nix::segments(p) + Seq::<Seq<char>>::empty() =~= nix::segments(p));
    assert(Seq::<Seq<char>>::empty() + nix::segments(p) =~= nix::segments(p));
}

/// Walking a joined path is walking on: it ends where the walk along the second path ends that starts
/// at the end of the first, and it fails if either of these walks fails.
pub proof fn law_joined_paths_walk_on<V>(
    values: Values<V>,
    env: Map<Handle, V>,
    root: Handle,
    p: Seq<char>,
    q: Seq<char>,
)
    requires
        nix::depth_below(root) + nix::segments(p).len() + nix::segments(q).len() + 2 <= usize::MAX,
    ensures
        walked_value(values, env, root, p.push('.') + q) == (match perform_all(
            values,
            env,
            nix::walk(root, p),
        ) {
            None => None,
            Some(after) => walked_value(
                values,
                after,
                nix::walked_to(root, nix::segments(p)),
                q,
            ),
        }),
{
    law_joined_paths_join_their_segments(p, q);
    law_walks_end_at_the_value(values, env, root, p.push('.') + q);
    law_walks_end_at_the_value(values, env, root, p);
    lemma_value_under_concat(values, env[root], nix::segments(p), nix::segments(q));
    if let Some(after) = perform_all(values, env, nix::walk(root, p)) {
        law_walks_end_at_the_value(values, after, nix::walked_to(root, nix::segments(p)), q);
    }
}

/// Paths with the same segments lead to the same value.
pub proof fn law_walks_follow_the_segments<V>(
    values: Values<V>,
    env: Map<Handle, V>,
    root: Handle,
    p: Seq<char>,
    q: Seq<char>,
)
    requires
        nix::depth_below(root) + nix::segments(p).len() + 1 <= usize::MAX,
        nix::segments(p) == nix::segments(q),
    ensures
        walked_value(values, env, root, p) == walked_value(values, env, root, q),
{
    law_walks_end_at_the_value(values, env, root, p);
    law_walks_end_at_the_value(values, env, root, q);
}

proof fn lemma_single_segment(s: Seq<char>)
    requires
        s.len() > 0,
        !s.contains('.'),
    ensures
        nix::segments(s) == seq![s],
{
    reveal(Seq::filter);
    text::lemma_split_single(s, '.');
    let parts = seq![s];
    assert(parts.drop_last() =~= Seq::empty());
    assert(parts.drop_last().filter(|s: Seq<char>| s.len() > 0) =~= Seq::empty());
    assert(parts.filter(|s: Seq<char>| s.len() > 0) =~= seq![s]);
}

/// The fragment of a flake's reference names an entry of `nixosConfigurations`, and everything that is
/// read lies below the `config` of that entry.  Without a fragment the entry is `default`; a fragment with
/// dots leads to an attribute below the entry that its first segment names.
pub proof fn law_fragments_name_configurations(fragment: Seq<char>, rest: Seq<char>)
    ensures
        nix::segments(nix::attr_path(fragment) + ".config."@ + rest) == seq![
            "nixosConfigurations"@,
        ] + (if fragment.len() == 0 {
            seq!["default"@]
        } else {
            nix::segments(fragment)
        }) + seq!["config"@] + nix::segments(rest),
        fragment.len() > 0 && !fragment.contains('.') ==> nix::segments(fragment) == seq![fragment],
{
    reveal_strlit("nixosConfigurations.");
    reveal_strlit("nixosConfigurations");
    reveal_strlit("default");
    reveal_strlit(".config.");
    reveal_strlit("config");
    let name = if fragment.len() == 0 {
        "default"@
    } else {
        fragment
    };
    let all = "nixosConfigurations"@;
    lemma_single_segment(all);
    lemma_single_segment("default"@);
    lemma_single_segment("config"@);
    if fragment.len() > 0 && !fragment.contains('.') {
        lemma_single_segment(fragment);
    }
    law_joined_paths_join_their_segments("config"@, rest);
    let below = "config"@.push('.') + rest;
    law_joined_paths_join_their_segments(name, below);
    law_joined_paths_join_their_segments(all, name.push('.') + below);
    assert(all.push('.') + (name.push('.') + below) =~= nix::attr_path(fragment) + ".config."@
        + rest);
    assert(seq![all] + (nix::segments(name) + (seq!["config"@] + nix::segments(rest))) =~= seq![all]
        + nix::segments(name) + seq!["config"@] + nix::segments(rest));
}

} // verus!
