//! Which tunnels are started when the application starts. The settings are
//! kept as flags under keys made of a tunnel's kind and its id.

use crate::scan::text_eq;
use crate::text::{chars_of, join3, slice_of, string_of};
use vstd::prelude::*;

verus! {

/// The key under which the flag of a tunnel is kept.
pub open spec fn auto_start_key_text(tunnel_type: Seq<char>, tunnel_id: Seq<char>) -> Seq<char> {
    tunnel_type + "_"@ + tunnel_id
}

/// The key under which the flag of a tunnel is kept: its kind, `_`, its id.
pub fn auto_start_key(tunnel_type: &str, tunnel_id: &str) -> (key: String)
    ensures
        key@ == auto_start_key_text(tunnel_type@, tunnel_id@),
{
    join3(tunnel_type, "_", tunnel_id)
}

/// One kept setting: a key, and its flag where the kept value is one.
pub struct AutoStartEntry {
    pub key: String,
    pub flag: Option<bool>,
}

/// The entry at index `k` is the first of the list with this key.
pub open spec fn first_with_key(entries: Seq<AutoStartEntry>, key: Seq<char>, k: int) -> bool {
    &&& 0 <= k < entries.len()
    &&& entries[k].key@ == key
    &&& forall|j: int| 0 <= j < k ==> (#[trigger] entries[j]).key@ != key
}

/// Whether the tunnel is started with the application: the flag kept under
/// its key, and no where nothing is kept or what is kept is no flag.
pub fn tunnel_auto_start(entries: &Vec<AutoStartEntry>, tunnel_type: &str, tunnel_id: &str) -> (enabled:
    bool)
    ensures
        enabled == exists|k: int| #[trigger]
            first_with_key(entries@, auto_start_key_text(tunnel_type@, tunnel_id@), k)
                && entries@[k].flag == Some(true),
{
    let key = auto_start_key(tunnel_type, tunnel_id);
    let mut i: usize = 0;
    while i < entries.len()
        invariant
            i <= entries.len(),
            key@ == auto_start_key_text(tunnel_type@, tunnel_id@),
            forall|j: int| 0 <= j < i ==> (#[trigger] entries@[j]).key@ != key@,
        decreases entries.len() - i,
    {
        if text_eq(entries[i].key.as_str(), key.as_str()) {
            assert(first_with_key(entries@, key@, i as int));
            let enabled = match entries[i].flag {
                Some(flag) => flag,
                None => false,
            };
            assert forall|k: int| #[trigger] first_with_key(entries@, key@, k) implies k == i by {}
            return enabled;
        }
        i += 1;
    }
    assert forall|k: int| !#[trigger] first_with_key(entries@, key@, k) by {}
    false
}

/// The index of the last `_` of a key, if it has one.
pub open spec fn is_last_separator(key: Seq<char>, at: int) -> bool {
    &&& 0 <= at < key.len()
    &&& key[at] == '_'
    &&& forall|k: int| at < k < key.len() ==> key[k] != '_'
}

/// The kind and the id that a key is made of: what stands before its last
/// `_`, and what stands behind it. A key without `_` names no tunnel.
pub fn split_auto_start_key(key: &str) -> (parts: Option<(String, String)>)
    ensures
        match parts {
            Some((tunnel_type, tunnel_id)) => exists|at: int| #[trigger]
                is_last_separator(key@, at) && tunnel_type@ == key@.subrange(0, at) && tunnel_id@
                    == key@.subrange(at + 1, key@.len() as int),
            None => forall|at: int| !is_last_separator(key@, at),
        },
{
    let chars = chars_of(key);
    let mut at: usize = chars.len();
    while at > 0 && chars[at - 1] != '_'
        invariant
            at <= chars.len(),
            forall|k: int| at <= k < chars.len() ==> chars@[k] != '_',
        decreases at,
    {
        at -= 1;
    }
    if at == 0 {
        return None;
    }
    assert(is_last_separator(key@, at - 1));
    Some((string_of(&slice_of(&chars, 0, at - 1)), string_of(&slice_of(&chars, at, chars.len()))))
}

/// `picked[m]` is the entry at index `at[m]`, and the indices rise.
pub open spec fn enabled_at(
    entries: Seq<AutoStartEntry>,
    picked: Seq<(String, String)>,
    at: Seq<int>,
) -> bool {
    &&& at.len() == picked.len()
    &&& forall|m: int|
        0 <= m < at.len() ==> 0 <= #[trigger] at[m] < entries.len() && names_tunnel(
            entries[at[m]],
            picked[m],
        )
    &&& forall|m1: int, m2: int| 0 <= m1 < m2 < at.len() ==> at[m1] < at[m2]
}

/// The entry is switched on, and its key is made of this kind and this id.
pub open spec fn names_tunnel(entry: AutoStartEntry, tunnel: (String, String)) -> bool {
    &&& entry.flag == Some(true)
    &&& exists|at: int| #[trigger]
        is_last_separator(entry.key@, at) && tunnel.0@ == entry.key@.subrange(0, at) && tunnel.1@
            == entry.key@.subrange(at + 1, entry.key@.len() as int)
}

/// The entry is switched on, and its key names a tunnel.
pub open spec fn is_auto_started(entry: AutoStartEntry) -> bool {
    &&& entry.flag == Some(true)
    &&& exists|at: int| is_last_separator(entry.key@, at)
}

/// The tunnels that are started with the application, each by its kind and
/// its id, in the order of the kept settings: one for every entry that is
/// switched on and whose key names a tunnel.
pub fn get_auto_start_tunnels(entries: &Vec<AutoStartEntry>) -> (tunnels: Vec<(String, String)>)
    ensures
        exists|at: Seq<int>| #[trigger]
            enabled_at(entries@, tunnels@, at) && forall|i: int|
                0 <= i < entries@.len() && is_auto_started(#[trigger] entries@[i]) ==> at.contains(
                    i,
                ),
{
    let mut tunnels: Vec<(String, String)> = Vec::new();
    let ghost mut at: Seq<int> = Seq::empty();
    let mut i: usize = 0;
    while i < entries.len()
        invariant
            i <= entries.len(),
            enabled_at(entries@, tunnels@, at),
            forall|m: int| 0 <= m < at.len() ==> #[trigger] at[m] < i,
            forall|k: int|
                0 <= k < i && is_auto_started(#[trigger] entries@[k]) ==> at.contains(k),
        decreases entries.len() - i,
    {
        let ghost before = at;
        let ghost picked = tunnels@;
        let mut taken = false;
        match entries[i].flag {
            Some(true) => {
                match split_auto_start_key(entries[i].key.as_str()) {
                    Some(parts) => {
                        tunnels.push(parts);
                        proof {
                            at = at.push(i as int);
                            assert(names_tunnel(entries@[i as int], tunnels@[picked.len() as int]));
                            assert forall|m: int| 0 <= m < at.len() implies 0 <= #[trigger] at[m]
                                < entries@.len() && names_tunnel(entries@[at[m]], tunnels@[m]) by {
                                if m < before.len() {
                                    assert(at[m] == before[m]);
                                    assert(tunnels@[m] == picked[m]);
                                }
                            }
                            assert(at[before.len() as int] == i);
                        }
                        taken = true;
                    },
                    None => {},
                }
            },
            _ => {},
        }
        proof {
            assert forall|k: int|
                0 <= k < i + 1 && is_auto_started(#[trigger] entries@[k]) implies at.contains(
                k,
            ) by {
                if k < i {
                    assert(before.contains(k));
                    let m = choose|m: int| 0 <= m < before.len() && before[m] == k;
                    assert(at[m] == k);
                } else {
                    assert(taken);
                    assert(at[before.len() as int] == k);
                }
            }
        }
        i += 1;
    }
    tunnels
}

} // verus!
