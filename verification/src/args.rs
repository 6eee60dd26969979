//! What the user asks for on the command line.

use crate::error::Error;
use crate::nix;
use crate::path::HostPath;
use crate::text;
use vstd::prelude::*;
use vstd::string::StringExecFns;

verus! {

/// What `nixvm run` is asked for.
#[derive(Debug, Clone)]
pub struct RunArgs {
    /// The reference to the flake.
    pub flake_ref: String,
    /// The inputs to override, with the references that replace them.
    pub overrides: Vec<(String, String)>,
    /// The settings of Nix to apply, with their values.
    pub settings: Vec<(String, String)>,
    /// How long a fetched archive stays fresh, in seconds.
    pub tarball_ttl: Option<u32>,
    /// Where to save the image, so that it can be loaded later on.
    pub persist: Option<HostPath>,
    /// Whether to replace what stands there already.
    pub force: bool,
    /// Whether to detach from the terminal.
    pub detach: bool,
    pub cpus: u8,
    pub memory_mib: u32,
}

/// What `nixvm load` is asked for.
#[derive(Debug, Clone)]
pub struct LoadArgs {
    /// The saved image.
    pub path: HostPath,
    /// The reference to the flake whose system the image is to be booted with, in place of the one that
    /// its sidecar records.
    pub flake_ref: Option<String>,
    /// The inputs to override; of no account without a flake.
    pub overrides: Vec<(String, String)>,
    /// The settings of Nix to apply; of no account without a flake.
    pub settings: Vec<(String, String)>,
    /// How long a fetched archive stays fresh, in seconds; of no account without a flake.
    pub tarball_ttl: Option<u32>,
    /// Whether to detach from the terminal.
    pub detach: bool,
    pub cpus: u8,
    pub memory_mib: u32,
}

/// Texts taken two by two.
pub open spec fn paired(texts: Seq<Seq<char>>) -> Seq<(Seq<char>, Seq<char>)> {
    Seq::new(texts.len() / 2, |i: int| (texts[2 * i], texts[2 * i + 1]))
}

/// The pairs that the uses of `flag` give, which takes two arguments.
pub fn parse_pairs(flag: &str, raw: Vec<String>) -> (r: Result<Vec<(String, String)>, Error>)
    ensures
        r is Ok <==> raw@.len() % 2 == 0,
        r matches Ok(v) ==> nix::pairs(v@) == paired(text::texts(raw@)),
        r matches Err(e) ==> e@ == flag@ + " requires two arguments per use"@,
{
    if raw.len() % 2 != 0 {
        return Err(Error::new(flag.to_owned().concat(" requires two arguments per use")));
    }
    let n: usize = raw.len() / 2;
    let mut v: Vec<(String, String)> = Vec::new();
    let mut i: usize = 0;
    let ghost model = paired(text::texts(raw@));
    while i < n
        invariant
            i <= n,
            2 * n == raw@.len(),
            model == paired(text::texts(raw@)),
            nix::pairs(v@) == model.take(i as int),
        decreases n - i,
    {
        let ghost before = v@;
        assert(2 * i + 1 < raw.len());
        let pair = (raw[2 * i].clone(), raw[2 * i + 1].clone());
        let ghost pair_model = (pair.0@, pair.1@);
        v.push(pair);
        assert(nix::pairs(v@) =~= nix::pairs(before).push(pair_model));
        i = i + 1;
        assert(nix::pairs(v@) =~= model.take(i as int));
    }
    assert(model.take(n as int) =~= model);
    Ok(v)
}

/// Pairing keeps every argument, in its order: what was given first in a use is the first of its pair.
pub proof fn law_pairs_keep_every_argument(texts: Seq<Seq<char>>, i: int)
    requires
        texts.len() % 2 == 0,
        0 <= i < texts.len(),
    ensures
        paired(texts).len() * 2 == texts.len(),
        texts[i] == (if i % 2 == 0 {
            paired(texts)[i / 2].0
        } else {
            paired(texts)[i / 2].1
        }),
{
}

} // verus!
