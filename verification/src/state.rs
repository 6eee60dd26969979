//! Where the files of a launch stand.

use crate::launch_id;
use crate::launch_id::LaunchId;
use crate::path;
use crate::path::HostPath;
use crate::text;
use vstd::prelude::*;

verus! {

/// `dirs::data_local_dir`: the directory in which the user's programs keep their data, if it is known.
/// It depends on the environment and on the platform, and nothing is stated of it.
#[verifier::external_body]
fn data_local_dir() -> (dir: Option<Vec<u8>>) {
    dirs::data_local_dir().map(|p| p.into_os_string().into_encoded_bytes())
}

/// The model of bytes that may be missing.
pub open spec fn maybe_bytes(b: Option<Vec<u8>>) -> Option<Seq<u8>> {
    match b {
        Some(bytes) => Some(bytes@),
        None => None,
    }
}

/// The directory of the state, if the user's programs keep their data in `data` and temporary files
/// stand in `temp`.
pub open spec fn state_of(data: Option<Seq<u8>>, temp: Seq<u8>) -> Seq<u8> {
    path::join(
        match data {
            Some(dir) => dir,
            None => temp,
        },
        path::utf8("nixvm"@),
    )
}

/// The directory of the state, if the user's programs keep their data in `data` and temporary files
/// stand in `temp`.
pub fn state_dir_in(data: Option<Vec<u8>>, temp: &HostPath) -> (dir: HostPath)
    ensures
        dir@ == state_of(maybe_bytes(data), temp@),
{
    match data {
        Some(bytes) => HostPath { bytes }.join("nixvm"),
        None => temp.join("nixvm"),
    }
}

/// The directory of the state of the user, if temporary files stand in `temp`.  Which directory holds
/// it depends on the environment.
pub fn state_dir(temp: &HostPath) -> (dir: HostPath)
    ensures
        exists|data: Option<Seq<u8>>| dir@ == state_of(data, temp@),
{
    let data = data_local_dir();
    let ghost model = maybe_bytes(data);
    let dir = state_dir_in(data, temp);
    assert(dir@ == state_of(model, temp@));
    dir
}

/// The directory of the logs.
pub open spec fn logs_of(state: Seq<u8>) -> Seq<u8> {
    path::join(state, path::utf8("logs"@))
}

/// The log of a launch.
pub open spec fn log_of(state: Seq<u8>, id: LaunchId) -> Seq<u8> {
    path::join(logs_of(state), path::utf8(launch_id::hyphenated(id@) + ".log"@))
}

/// The directory of the logs.
pub fn log_dir(state: &HostPath) -> (p: HostPath)
    ensures
        p@ == logs_of(state@),
{
    state.join("logs")
}

/// The log of a launch.
pub fn log_path_for(state: &HostPath, id: LaunchId) -> (p: HostPath)
    ensures
        p@ == log_of(state@, id),
{
    log_dir(state).join(id.log_name().as_str())
}

/// The path of a saved image whose hash names its root: the absolute path that `canonical` resolved it
/// to, so that every way of naming the image gives the same, or the path as it was given where it could
/// not be resolved.
pub fn path_to_hash(image: &HostPath, canonical: Result<HostPath, String>) -> (p: HostPath)
    ensures
        p@ == (match canonical {
            Ok(resolved) => resolved@,
            Err(_) => image@,
        }),
{
    match canonical {
        Ok(resolved) => resolved,
        Err(_) => image.clone(),
    }
}

/// The directory of the root that keeps the system of a saved image, whose path hashes to `hash`.
pub open spec fn persistent_root_of(state: Seq<u8>, hash: u64) -> Seq<u8> {
    path::join(path::join(state, path::utf8("roots"@)), path::utf8(text::hex(hash as nat, 16)))
}

/// The directory of the root that keeps the system of a saved image, whose absolute path hashes to
/// `hash`.
pub fn persistent_root_dir(state: &HostPath, hash: u64) -> (p: HostPath)
    ensures
        p@ == persistent_root_of(state@, hash),
{
    state.join("roots").join(text::hex_text(hash, 16).as_str())
}

/// The directory of the root that keeps the system of a launch while it runs.
pub open spec fn transient_root_of(state: Seq<u8>, id: LaunchId) -> Seq<u8> {
    path::join(
        path::join(state, path::utf8("transient"@)),
        path::utf8(launch_id::hyphenated(id@)),
    )
}

/// The directory of the root that keeps the system of a launch while it runs.
pub fn transient_root_dir(state: &HostPath, id: LaunchId) -> (p: HostPath)
    ensures
        p@ == transient_root_of(state@, id),
{
    state.join("transient").join(id.to_text().as_str())
}

/// The copy of the image that a launch works on, if temporary files stand in `temp`.
pub open spec fn image_of(temp: Seq<u8>, id: LaunchId) -> Seq<u8> {
    path::join(temp, path::utf8("nixvm-"@ + launch_id::hyphenated(id@) + ".img"@))
}

/// The copy of the image that a launch works on, if temporary files stand in `temp`.
pub fn image_path_for(temp: &HostPath, id: LaunchId) -> (p: HostPath)
    ensures
        p@ == image_of(temp@, id),
{
    temp.join(id.image_name().as_str())
}

/// Names that do not start with a slash stand apart in a directory.
proof fn lemma_join_injective(base: Seq<u8>, a: Seq<char>, b: Seq<char>)
    requires
        a.len() > 0,
        b.len() > 0,
        a[0] != '/',
        b[0] != '/',
        path::join(base, path::utf8(a)) == path::join(base, path::utf8(b)),
    ensures
        a == b,
{
    path::lemma_no_leading_slash(a);
    path::lemma_no_leading_slash(b);
    let x = path::utf8(a);
    let y = path::utf8(b);
    let p = path::join(base, x);
    let n = if base.len() == 0 || base.last() == 47u8 {
        base.len() as int
    } else {
        base.len() as int + 1
    };
    assert(p.skip(n) =~= x);
    assert(p.skip(n) =~= y);
    path::lemma_utf8_injective(a, b);
}

/// Launches with different identities have different logs, different roots and different copies of the
/// image.
pub proof fn law_launches_stand_apart(state: Seq<u8>, temp: Seq<u8>, a: LaunchId, b: LaunchId)
    requires
        a@ != b@,
    ensures
        log_of(state, a) != log_of(state, b),
        transient_root_of(state, a) != transient_root_of(state, b),
        image_of(temp, a) != image_of(temp, b),
{
    launch_id::law_identities_differ_in_text(a, b);
    let x = launch_id::hyphenated(a@);
    let y = launch_id::hyphenated(b@);
    assert(x.len() == 36 && y.len() == 36);
    assert(x[0] == launch_id::hex_digits(a@)[0]);
    assert(y[0] == launch_id::hex_digits(b@)[0]);
    if log_of(state, a) == log_of(state, b) {
        lemma_join_injective(logs_of(state), x + ".log"@, y + ".log"@);
        assert((x + ".log"@).take(36) =~= x);
        assert((y + ".log"@).take(36) =~= y);
    }
    if transient_root_of(state, a) == transient_root_of(state, b) {
        lemma_join_injective(path::join(state, path::utf8("transient"@)), x, y);
    }
    if image_of(temp, a) == image_of(temp, b) {
        reveal_strlit("nixvm-");
        let s = "nixvm-"@ + x + ".img"@;
        let t = "nixvm-"@ + y + ".img"@;
        lemma_join_injective(temp, s, t);
        assert(s.subrange(6, 42) =~= x);
        assert(t.subrange(6, 42) =~= y);
    }
}

/// Images whose paths hash to different values have different roots; those whose paths hash to the
/// same value share one.
pub proof fn law_roots_follow_the_hash(state: Seq<u8>, a: u64, b: u64)
    ensures
        persistent_root_of(state, a) == persistent_root_of(state, b) <==> a == b,
{
    if persistent_root_of(state, a) == persistent_root_of(state, b) {
        let x = text::hex(a as nat, 16);
        let y = text::hex(b as nat, 16);
        text::lemma_hex_digits(a as nat, 16);
        text::lemma_hex_digits(b as nat, 16);
        lemma_join_injective(path::join(state, path::utf8("roots"@)), x, y);
        assert(vstd::arithmetic::power::pow(16, 16) == 0x1_0000_0000_0000_0000) by {
            reveal_with_fuel(vstd::arithmetic::power::pow, 17);
        }
        text::lemma_hex_injective(a as nat, b as nat, 16);
    }
}

/// The state stands with the data of the user's programs where that place is known, and with temporary
/// files else, in a directory of its own.
pub proof fn law_state_stands_with_the_users_data(data: Seq<u8>, temp: Seq<u8>)
    ensures
        state_of(Some(data), temp) == path::join(data, path::utf8("nixvm"@)),
        state_of(None, temp) == path::join(temp, path::utf8("nixvm"@)),
        state_of(Some(data), temp).take(data.len() as int) == data,
        state_of(None, temp).take(temp.len() as int) == temp,
{
    lemma_name_is_relative("nixvm"@);
    path::law_names_are_looked_up_in_directories(data, path::utf8("nixvm"@));
    path::law_names_are_looked_up_in_directories(temp, path::utf8("nixvm"@));
}

proof fn lemma_name_is_relative(name: Seq<char>)
    requires
        name == "nixvm"@ || name == "logs"@ || name == "roots"@ || name == "transient"@,
    ensures
        path::utf8(name).len() > 0,
        path::utf8(name)[0] != 47u8,
{
    reveal_strlit("nixvm");
    reveal_strlit("logs");
    reveal_strlit("roots");
    reveal_strlit("transient");
    path::lemma_no_leading_slash(name);
}

/// Everything that a launch keeps in the state stands below the directory of the state: its log in the
/// directory of the logs, under its identity; its root under its identity; and the root of a saved image
/// under the hash of the image's path, written in sixteen hexadecimal digits.  Its copy of the image stands
/// with the temporary files.
pub proof fn law_files_stand_where_they_belong(
    state: Seq<u8>,
    temp: Seq<u8>,
    id: LaunchId,
    hash: u64,
)
    ensures
        logs_of(state).take(state.len() as int) == state,
        log_of(state, id).take(logs_of(state).len() as int) == logs_of(state),
        is_named(log_of(state, id), launch_id::hyphenated(id@) + ".log"@),
        transient_root_of(state, id).take(state.len() as int) == state,
        is_named(transient_root_of(state, id), launch_id::hyphenated(id@)),
        persistent_root_of(state, hash).take(state.len() as int) == state,
        exists|digits: Seq<char>|
            digits.len() == 16 && text::number(digits, 16) == hash && #[trigger] is_named(
                persistent_root_of(state, hash),
                digits,
            ),
        image_of(temp, id).take(temp.len() as int) == temp,
        is_named(image_of(temp, id), "nixvm-"@ + launch_id::hyphenated(id@) + ".img"@),
{
    let h = launch_id::hyphenated(id@);
    assert(h[0] == launch_id::hex_digits(id@)[0]);
    reveal_strlit("nixvm-");
    lemma_name_is_relative("logs"@);
    lemma_name_is_relative("roots"@);
    lemma_name_is_relative("transient"@);
    path::law_names_are_looked_up_in_directories(state, path::utf8("logs"@));
    lemma_named(logs_of(state), h + ".log"@);
    let transient = path::join(state, path::utf8("transient"@));
    path::law_names_are_looked_up_in_directories(state, path::utf8("transient"@));
    lemma_named(transient, h);
    assert(transient_root_of(state, id).take(state.len() as int) =~= transient.take(
        state.len() as int,
    ));
    let roots = path::join(state, path::utf8("roots"@));
    let digits = text::hex(hash as nat, 16);
    path::law_names_are_looked_up_in_directories(state, path::utf8("roots"@));
    text::law_hexadecimals_read_back(hash as nat, 16);
    text::lemma_hex_digits(hash as nat, 16);
    assert(vstd::arithmetic::power::pow(16, 16) == 0x1_0000_0000_0000_0000) by {
        reveal_with_fuel(vstd::arithmetic::power::pow, 17);
    }
    vstd::arithmetic::div_mod::lemma_small_mod(
        hash as nat,
        vstd::arithmetic::power::pow(16, 16) as nat,
    );
    assert(text::number(digits, 16) == hash as nat);
    lemma_named(roots, digits);
    assert(is_named(persistent_root_of(state, hash), digits));
    assert(persistent_root_of(state, hash).take(state.len() as int) =~= roots.take(
        state.len() as int,
    ));
    lemma_named(temp, "nixvm-"@ + h + ".img"@);
}

/// Whether a path ends in a name.
pub open spec fn is_named(p: Seq<u8>, name: Seq<char>) -> bool {
    let bytes = path::utf8(name);
    &&& p.len() >= bytes.len()
    &&& p.skip(p.len() - bytes.len()) == bytes
    &&& p.len() > bytes.len() ==> p[p.len() - bytes.len() - 1] == 47u8
}

proof fn lemma_named(dir: Seq<u8>, name: Seq<char>)
    requires
        name.len() > 0,
        name[0] != '/',
    ensures
        is_named(path::join(dir, path::utf8(name)), name),
        path::join(dir, path::utf8(name)).take(dir.len() as int) == dir,
        path::join(dir, path::utf8(name)).len() >= dir.len(),
{
    path::lemma_no_leading_slash(name);
    path::law_names_are_looked_up_in_directories(dir, path::utf8(name));
}

} // verus!
