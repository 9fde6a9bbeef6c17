//! Where the peer listens: the directory named by the first usable one of four
//! environment variables, holding up to ten numbered sockets.
use crate::activity::opt_view;
use crate::json::{digits, push_int};
use vstd::prelude::*;
use vstd::string::{StrSliceExecFns, StringExecFns};

verus! {

/// How many numbered sockets the peer may listen on.
pub const SOCKET_COUNT: u32 = 10;

/// The names of the environment variables that may hold the socket
/// directory, highest priority first: the runtime directory, then three
/// temporary directories.
pub fn env_keys() -> (r: Vec<&'static str>)
    ensures
        r@.len() == 4,
        r@[0]@ == "XDG_RUNTIME_DIR"@,
        r@[1]@ == "TMPDIR"@,
        r@[2]@ == "TMP"@,
        r@[3]@ == "TEMP"@,
{
    let mut keys: Vec<&'static str> = Vec::new();
    keys.push("XDG_RUNTIME_DIR");
    keys.push("TMPDIR");
    keys.push("TMP");
    keys.push("TEMP");
    keys
}

/// The values of the variables, as plain text.
pub open spec fn values_view(values: Seq<Option<String>>) -> Seq<Option<Seq<char>>> {
    values.map_values(|v: Option<String>| opt_view(v))
}

/// The first value that is set and not empty.
pub open spec fn first_base_dir(values: Seq<Option<Seq<char>>>) -> Option<Seq<char>>
    decreases values.len(),
{
    if values.len() == 0 {
        None
    } else if values[0] is Some && values[0]->0.len() > 0 {
        values[0]
    } else {
        first_base_dir(values.drop_first())
    }
}

/// The file name of the socket numbered `index`.
pub open spec fn socket_name(index: nat) -> Seq<char> {
    "discord-ipc-"@ + digits(index)
}

/// The directory `base` with a trailing separator.
pub open spec fn dir_prefix(base: Seq<char>) -> Seq<char> {
    if base.len() > 0 && base.last() == '/' {
        base
    } else {
        base + seq!['/']
    }
}

/// The path of the socket numbered `index` under `base`.
pub open spec fn socket_path(base: Seq<char>, index: nat) -> Seq<char> {
    dir_prefix(base) + socket_name(index)
}

fn first_from(values: &Vec<Option<String>>, i: usize) -> (r: Option<String>)
    requires
        i <= values@.len(),
    ensures
        opt_view(r) == first_base_dir(values_view(values@).subrange(i as int, values@.len() as int)),
    decreases values@.len() - i,
{
    let ghost rest = values_view(values@).subrange(i as int, values@.len() as int);
    if i == values.len() {
        return None;
    }
    assert(rest[0] == opt_view(values@[i as int]));
    assert(rest.drop_first() =~= values_view(values@).subrange(i + 1, values@.len() as int));
    match &values[i] {
        Some(v) => {
            if v.unicode_len() > 0 {
                return Some(v.clone());
            }
        },
        None => {},
    }
    first_from(values, i + 1)
}

/// The directory holding the peer's sockets: the first of the variables'
/// values (given in the order of `env_keys`) that is set and not empty, or
/// nothing when there is none.
pub fn resolve_base_dir(values: &Vec<Option<String>>) -> (r: Option<String>)
    ensures
        opt_view(r) == first_base_dir(values_view(values@)),
{
    assert(values_view(values@).subrange(0, values@.len() as int) =~= values_view(values@));
    first_from(values, 0)
}

/// The path of the socket numbered `index` under the directory `base`.
pub fn candidate_path(base: &str, index: u32) -> (r: String)
    ensures
        r@ == socket_path(base@, index as nat),
{
    proof {
        reveal_strlit("/");
    }
    let mut path = String::from_str(base);
    let n = base.unicode_len();
    if n == 0 || base.get_char(n - 1) != '/' {
        path.append("/");
    }
    assert(path@ == dir_prefix(base@));
    path.append("discord-ipc-");
    push_int(&mut path, index as i64);
    assert(path@ =~= socket_path(base@, index as nat));
    path
}

/// When only the third variable is set, it names the directory.
pub proof fn lemma_third_only(values: Seq<Option<Seq<char>>>, dir: Seq<char>)
    requires
        values.len() == 4,
        values[0] is None,
        values[1] is None,
        values[2] == Some(dir),
        dir.len() > 0,
        values[3] is None,
    ensures
        first_base_dir(values) == Some(dir),
{
    let v1 = values.drop_first();
    let v2 = v1.drop_first();
    assert(v1[0] == values[1]);
    assert(v2[0] == values[2]);
    assert(first_base_dir(values) == first_base_dir(v1));
    assert(first_base_dir(v1) == first_base_dir(v2));
}

} // verus!
