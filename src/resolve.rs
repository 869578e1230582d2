use crate::config::{lookup, ConfigTable, ConfigValue};
use crate::validate::Section;
use vstd::prelude::*;

verus! {

/// The text that `str::to_lowercase` makes of `s`.
pub uninterp spec fn lower_of(s: Seq<char>) -> Seq<char>;

/// Relies on str::to_lowercase: the lowercase form of the text, which depends
/// on the text alone.
#[verifier::external_body]
fn lowercase(s: &str) -> (r: String)
    ensures
        r@ == lower_of(s@),
{
    s.to_lowercase()
}

/// The text of an optional string.
pub open spec fn opt_view(o: Option<String>) -> Option<Seq<char>> {
    match o {
        Some(s) => Some(s@),
        None => None,
    }
}

/// The texts of a sequence of strings.
pub open spec fn texts(v: Seq<String>) -> Seq<Seq<char>> {
    v.map_values(|s: String| s@)
}

/// The text of a string value; empty for any other value.
pub open spec fn str_of(v: ConfigValue) -> Seq<char> {
    match v {
        ConfigValue::Str(s) => s@,
        _ => Seq::empty(),
    }
}

/// Every value of the table is a string.
pub open spec fn all_str(t: Seq<(String, ConfigValue)>) -> bool {
    forall|i: int| 0 <= i < t.len() ==> (#[trigger] t[i]).1 is Str
}

/// The entries of the `SERVERS` table of the document `e`, where that
/// section is a table.
pub open spec fn servers_of(e: Seq<(String, ConfigValue)>) -> Option<Seq<(String, ConfigValue)>> {
    match lookup(e, Section::Servers.key_spec()) {
        Some(ConfigValue::Table(t)) => Some(t@),
        _ => None,
    }
}

/// The keys of the table, each folded to lower case.
pub open spec fn folded_keys(t: Seq<(String, ConfigValue)>) -> Seq<Seq<char>> {
    t.map_values(|p: (String, ConfigValue)| lower_of(p.0@))
}

/// `i` is the first position of `keys` that equals `folded`.
pub open spec fn first_fold_at(keys: Seq<Seq<char>>, folded: Seq<char>, i: int) -> bool {
    &&& 0 <= i < keys.len()
    &&& keys[i] == folded
    &&& forall|j: int| 0 <= j < i ==> keys[j] != folded
}

/// Some value of the table is exactly `server`.
pub open spec fn is_listed_value(t: Seq<(String, ConfigValue)>, server: Seq<char>) -> bool {
    exists|i: int| 0 <= i < t.len() && str_of(t[i].1) == server
}

/// The address chosen for `server` in the table `t` whose folded keys are
/// `keys`: the value of the first key that folds like `server`, else `server`
/// itself where it is one of the values, else nothing.
pub open spec fn pick(
    t: Seq<(String, ConfigValue)>,
    keys: Seq<Seq<char>>,
    folded: Seq<char>,
    server: Seq<char>,
) -> Option<Seq<char>> {
    if exists|i: int| first_fold_at(keys, folded, i) {
        Some(str_of(t[choose|i: int| first_fold_at(keys, folded, i)].1))
    } else if is_listed_value(t, server) {
        Some(server)
    } else {
        None
    }
}

/// The address that the document `e` gives for `server`.
pub open spec fn resolution(e: Seq<(String, ConfigValue)>, server: Seq<char>) -> Option<Seq<char>> {
    match servers_of(e) {
        Some(t) => pick(t, folded_keys(t), lower_of(server), server),
        None => None,
    }
}

/// Chooses the address for `server` in the table `servers`, given `server`
/// and each key of the table already folded to lower case.
pub fn select_server(
    server: &str,
    folded_server: &String,
    servers: &ConfigTable,
    folded: &Vec<String>,
) -> (r: Option<String>)
    requires
        folded@.len() == servers@.len(),
        all_str(servers@),
    ensures
        opt_view(r) == pick(
            servers@,
            texts(folded@),
            folded_server@,
            server@,
        ),
{
    let ghost keys = texts(folded@);
    let mut i: usize = 0;
    while i < folded.len()
        invariant
            i <= folded@.len(),
            folded@.len() == servers@.len(),
            all_str(servers@),
            keys == texts(folded@),
            forall|j: int| 0 <= j < i ==> keys[j] != folded_server@,
        decreases folded@.len() - i,
    {
        if folded[i] == *folded_server {
            proof {
                assert(first_fold_at(keys, folded_server@, i as int));
                let k = choose|k: int| first_fold_at(keys, folded_server@, k);
                assert(k == i);
            }
            let (_, v) = servers.entry(i);
            return match v {
                ConfigValue::Str(s) => Some(s.clone()),
                _ => None,
            };
        }
        i = i + 1;
    }
    assert(!exists|k: int| first_fold_at(keys, folded_server@, k));
    let wanted = String::from_str(server);
    let mut j: usize = 0;
    while j < servers.len()
        invariant
            j <= servers@.len(),
            wanted@ == server@,
            all_str(servers@),
            !exists|k: int| first_fold_at(keys, folded_server@, k),
            keys == texts(folded@),
            forall|k: int| 0 <= k < j ==> str_of(servers@[k].1) != server@,
        decreases servers@.len() - j,
    {
        let (_, v) = servers.entry(j);
        match v {
            ConfigValue::Str(s) => {
                if *s == wanted {
                    assert(str_of(servers@[j as int].1) == server@);
                    assert(is_listed_value(servers@, server@));
                    return Some(wanted);
                }
            },
            _ => {},
        }
        j = j + 1;
    }
    None
}

/// Resolves the requested server name to a realm address: by alias, ignoring
/// case, else as an address listed verbatim among the values.
pub fn get_server_from(server: &str, config: &ConfigTable) -> (r: Option<String>)
    requires
        match servers_of(config@) {
            Some(t) => all_str(t),
            None => true,
        },
    ensures
        opt_view(r) == resolution(config@, server@),
{
    match config.get(Section::Servers.key()) {
        Some(ConfigValue::Table(t)) => {
            let folded_server = lowercase(server);
            let mut folded: Vec<String> = Vec::new();
            let mut i: usize = 0;
            while i < t.len()
                invariant
                    i <= t@.len(),
                    folded@.len() == i,
                    forall|j: int| 0 <= j < i ==> (#[trigger] folded@[j])@ == lower_of(t@[j].0@),
                decreases t@.len() - i,
            {
                let (k, _) = t.entry(i);
                folded.push(lowercase(k.as_str()));
                i = i + 1;
            }
            assert(texts(folded@) =~= folded_keys(t@));
            select_server(server, &folded_server, t, &folded)
        },
        _ => None,
    }
}

/// Where an alias matches a name, every name that folds to the same lower
/// case resolves to the same address.
pub proof fn lemma_alias_ignores_case(e: Seq<(String, ConfigValue)>, a: Seq<char>, b: Seq<char>)
    requires
        lower_of(a) == lower_of(b),
        servers_of(e) matches Some(t) && exists|i: int| first_fold_at(folded_keys(t), lower_of(a), i),
    ensures
        resolution(e, a) == resolution(e, b),
        resolution(e, a) is Some,
{
}

} // verus!
