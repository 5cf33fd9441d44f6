//! Components in a local directory: which files belong to a component and
//! which of its versions is picked.

use vstd::prelude::*;
use vstd::string::*;
use crate::error::{GolemError, GolemErrorView};
use crate::ident::hyphenated;
use crate::model::{ComponentId, ComponentVersion};
use crate::number::{
    decimal, is_digit, lemma_decimal, lemma_parse_inverts_decimal, parse_u64, parse_u64_spec,
};
use crate::text::{chars_of, ends_with, matches_at, starts_with};

verus! {

/// The ending of the name of a file that holds the bytes of a component.
pub open spec fn wasm_extension() -> Seq<char> {
    seq!['.', 'w', 'a', 's', 'm']
}

/// The ending of the name of a file that holds the properties of a
/// component.
pub open spec fn json_extension() -> Seq<char> {
    seq!['.', 'j', 's', 'o', 'n']
}

/// What the name of each file of a component begins with: the text of its
/// identifier and a hyphen.
pub open spec fn file_prefix(component_id: ComponentId) -> Seq<char> {
    hyphenated(component_id.0).push('-')
}

/// The part of a text after its last hyphen; the whole text where it has
/// none.
pub open spec fn last_token(s: Seq<char>) -> Seq<char>
    decreases s.len(),
{
    if s.len() == 0 || s.last() == '-' {
        Seq::empty()
    } else {
        last_token(s.drop_last()).push(s.last())
    }
}

/// The version that the name of a file states, without its ending: the
/// number after the last hyphen.
pub open spec fn version_in(base: Seq<char>) -> Option<ComponentVersion> {
    parse_u64_spec(last_token(base))
}

/// The name of a file without an ending of five characters.
pub open spec fn base_name(name: Seq<char>) -> Seq<char> {
    name.subrange(0, name.len() - 5)
}

/// The version of the component that a file holds: the name begins as the
/// names of the component's files do, ends as the name of a file of bytes
/// does, and states a version in between. Any other file holds none.
pub open spec fn version_of_file(prefix: Seq<char>, name: Seq<char>) -> Option<ComponentVersion> {
    if starts_with(name, prefix) && ends_with(name, wasm_extension()) {
        version_in(base_name(name))
    } else {
        None
    }
}

/// The part after the last hyphen is what follows the hyphen after which
/// no other comes.
pub proof fn lemma_last_token(s: Seq<char>, k: int)
    requires
        -1 <= k < s.len(),
        k >= 0 ==> s[k] == '-',
        forall|j: int| k < j < s.len() ==> s[j] != '-',
    ensures
        last_token(s) == s.subrange(k + 1, s.len() as int),
    decreases s.len(),
{
    if s.len() == k + 1 {
        assert(s.subrange(k + 1, s.len() as int) =~= Seq::<char>::empty());
    } else {
        lemma_last_token(s.drop_last(), k);
        assert(s.drop_last().subrange(k + 1, s.len() - 1).push(s.last()) =~= s.subrange(
            k + 1,
            s.len() as int,
        ));
    }
}

fn version_in_chars(chars: &Vec<char>, end: usize) -> (r: Option<ComponentVersion>)
    requires
        end <= chars.len(),
    ensures
        r == version_in(chars@.subrange(0, end as int)),
{
    let ghost base = chars@.subrange(0, end as int);
    let mut start: usize = end;
    while start > 0 && chars[start - 1] != '-'
        invariant
            start <= end <= chars.len(),
            forall|j: int| start <= j < end ==> chars@[j] != '-',
        decreases start,
    {
        start = start - 1;
    }
    let mut token: Vec<char> = Vec::new();
    let mut i: usize = start;
    while i < end
        invariant
            start <= i <= end <= chars.len(),
            token@ == chars@.subrange(start as int, i as int),
        decreases end - i,
    {
        token.push(chars[i]);
        proof {
            assert(chars@.subrange(start as int, i as int).push(chars@[i as int])
                =~= chars@.subrange(start as int, i + 1));
        }
        i = i + 1;
    }
    proof {
        lemma_last_token(base, start - 1);
        assert(base.subrange(start as int, end as int) =~= chars@.subrange(
            start as int,
            end as int,
        ));
    }
    parse_u64(&token)
}

/// The version that the name of a file states, without its ending.
pub fn extract_version(file_name: &str) -> (r: Option<ComponentVersion>)
    ensures
        r == version_in(file_name@),
{
    let chars = chars_of(file_name);
    proof {
        assert(chars@.subrange(0, chars@.len() as int) =~= chars@);
    }
    version_in_chars(&chars, chars.len())
}

fn wasm_extension_chars() -> (r: Vec<char>)
    ensures
        r@ == wasm_extension(),
{
    let mut r: Vec<char> = Vec::new();
    r.push('.');
    r.push('w');
    r.push('a');
    r.push('s');
    r.push('m');
    assert(r@ =~= wasm_extension());
    r
}

/// The version of the component that a file holds, if it holds one of the
/// component whose files begin with `prefix`.
pub fn file_version(prefix: &str, file_name: &str) -> (r: Option<ComponentVersion>)
    ensures
        r == version_of_file(prefix@, file_name@),
{
    let name = chars_of(file_name);
    let start = chars_of(prefix);
    let ending = wasm_extension_chars();
    if !matches_at(&name, 0, &start) {
        return None;
    }
    if name.len() < 5 || !matches_at(&name, name.len() - 5, &ending) {
        return None;
    }
    version_in_chars(&name, name.len() - 5)
}

/// The files of one version of a component, by their names in the
/// directory.
#[derive(Debug, Clone, PartialEq, Eq)]
pub struct ComponentFiles {
    pub version: ComponentVersion,
    pub wasm_file: String,
    pub properties_file: String,
}

/// The version of the component that the file with number `i` holds.
pub open spec fn candidate(prefix: Seq<char>, names: Seq<String>, i: int) -> Option<
    ComponentVersion,
> {
    version_of_file(prefix, names[i]@)
}

/// File `i` is the first that holds the wanted version.
pub open spec fn is_forced_choice(
    prefix: Seq<char>,
    names: Seq<String>,
    version: ComponentVersion,
    i: int,
) -> bool {
    &&& 0 <= i < names.len()
    &&& candidate(prefix, names, i) == Some(version)
    &&& forall|j: int| 0 <= j < i ==> #[trigger] candidate(prefix, names, j) != Some(version)
}

/// File `i` holds the highest version, and is the last that does.
pub open spec fn is_latest_choice(prefix: Seq<char>, names: Seq<String>, i: int) -> bool {
    &&& 0 <= i < names.len()
    &&& candidate(prefix, names, i) is Some
    &&& forall|j: int|
        0 <= j < names.len() && (#[trigger] candidate(prefix, names, j)) is Some ==> {
            &&& candidate(prefix, names, j)->0 <= candidate(prefix, names, i)->0
            &&& j > i ==> candidate(prefix, names, j)->0 < candidate(prefix, names, i)->0
        }
}

/// File `i` is the one to pick: for a wanted version the first file that
/// holds it, else the last file that holds the highest version.
pub open spec fn is_choice(
    prefix: Seq<char>,
    names: Seq<String>,
    forced_version: Option<ComponentVersion>,
    i: int,
) -> bool {
    match forced_version {
        Some(version) => is_forced_choice(prefix, names, version, i),
        None => is_latest_choice(prefix, names, i),
    }
}

/// No file can be picked: none holds the wanted version, or none holds
/// any version of the component.
pub open spec fn no_choice(
    prefix: Seq<char>,
    names: Seq<String>,
    forced_version: Option<ComponentVersion>,
) -> bool {
    forall|j: int|
        0 <= j < names.len() ==> match forced_version {
            Some(version) => #[trigger] candidate(prefix, names, j) != Some(version),
            None => candidate(prefix, names, j) is None,
        }
}

/// Why no file could be picked.
pub open spec fn not_found_reason(forced_version: Option<ComponentVersion>) -> Seq<char> {
    if forced_version is Some {
        "Could not find any component with the given id and version"@
    } else {
        "Could not find any component with the given id"@
    }
}

/// At most one file is the one to pick.
pub proof fn lemma_choice_unique(
    prefix: Seq<char>,
    names: Seq<String>,
    forced_version: Option<ComponentVersion>,
    i: int,
    j: int,
)
    requires
        is_choice(prefix, names, forced_version, i),
        is_choice(prefix, names, forced_version, j),
    ensures
        i == j,
{
    match forced_version {
        Some(version) => {
            if i < j {
                assert(candidate(prefix, names, i) != Some(version));
            } else if j < i {
                assert(candidate(prefix, names, j) != Some(version));
            }
        },
        None => {
            let vi = candidate(prefix, names, i);
            let vj = candidate(prefix, names, j);
            if i < j {
                assert(vj->0 < vi->0 && vi->0 <= vj->0);
            } else if j < i {
                assert(vi->0 < vj->0 && vj->0 <= vi->0);
            }
        },
    }
}

/// Where a file can be picked, it is not the case that none can.
pub proof fn lemma_choice_excludes_none(
    prefix: Seq<char>,
    names: Seq<String>,
    forced_version: Option<ComponentVersion>,
    i: int,
)
    requires
        is_choice(prefix, names, forced_version, i),
    ensures
        !no_choice(prefix, names, forced_version),
{
    assert(candidate(prefix, names, i) is Some);
}

/// Picks the files of a component among the names of a directory: those
/// of the wanted version, or those of the highest version where none is
/// wanted.
pub fn find_component_files(
    component_id: &ComponentId,
    file_names: &Vec<String>,
    forced_version: Option<ComponentVersion>,
) -> (r: Result<ComponentFiles, GolemError>)
    ensures
        match r {
            Ok(files) => exists|i: int|
                {
                    &&& #[trigger] is_choice(
                        file_prefix(*component_id),
                        file_names@,
                        forced_version,
                        i,
                    )
                    &&& Some(files.version) == candidate(
                        file_prefix(*component_id),
                        file_names@,
                        i,
                    )
                    &&& files.wasm_file@ == file_names@[i]@
                    &&& files.properties_file@ == base_name(file_names@[i]@) + json_extension()
                },
            Err(e) => {
                &&& no_choice(file_prefix(*component_id), file_names@, forced_version)
                &&& e@ == GolemErrorView::GetLatestVersionOfComponentFailed {
                    component_id: *component_id,
                    reason: not_found_reason(forced_version),
                }
            },
        },
{
    let prefix = component_id.to_string().concat("-");
    proof {
        reveal_strlit("-");
        assert(prefix@ =~= file_prefix(*component_id));
    }
    let ghost names = file_names@;
    let ghost pre = file_prefix(*component_id);
    let mut best: Option<(usize, ComponentVersion)> = None;
    let mut i: usize = 0;
    while i < file_names.len()
        invariant
            i <= file_names.len(),
            names == file_names@,
            pre == prefix@,
            match best {
                Some((at, version)) => {
                    &&& at < i
                    &&& candidate(pre, names, at as int) == Some(version)
                    &&& match forced_version {
                        Some(wanted) => is_forced_choice(pre, names, wanted, at as int),
                        None => forall|j: int|
                            0 <= j < i && (#[trigger] candidate(pre, names, j)) is Some ==> {
                                &&& candidate(pre, names, j)->0 <= version
                                &&& j > at ==> candidate(pre, names, j)->0 < version
                            },
                    }
                },
                None => forall|j: int|
                    0 <= j < i ==> match forced_version {
                        Some(wanted) => #[trigger] candidate(pre, names, j) != Some(wanted),
                        None => candidate(pre, names, j) is None,
                    },
            },
        decreases file_names.len() - i,
    {
        match file_version(prefix.as_str(), file_names[i].as_str()) {
            Some(version) => {
                match forced_version {
                    Some(wanted) => {
                        if version == wanted && best.is_none() {
                            best = Some((i, version));
                        }
                    },
                    None => {
                        let better = match best {
                            Some((_, highest)) => version >= highest,
                            None => true,
                        };
                        if better {
                            best = Some((i, version));
                        }
                    },
                }
            },
            None => {},
        }
        i = i + 1;
    }
    match best {
        Some((at, version)) => {
            let name: &String = &file_names[at];
            proof {
                assert(is_choice(pre, names, forced_version, at as int));
                assert(starts_with(name@, pre) && ends_with(name@, wasm_extension()));
                reveal_strlit(".json");
                assert(".json"@ =~= json_extension());
            }
            let total = name.as_str().unicode_len();
            let base = name.as_str().substring_char(0, total - 5);
            Ok(
                ComponentFiles {
                    version,
                    wasm_file: name.clone(),
                    properties_file: String::from_str(base).concat(".json"),
                },
            )
        },
        None => {
            let reason = if forced_version.is_some() {
                String::from_str("Could not find any component with the given id and version")
            } else {
                String::from_str("Could not find any component with the given id")
            };
            Err(
                GolemError::GetLatestVersionOfComponentFailed {
                    component_id: *component_id,
                    reason,
                },
            )
        },
    }
}

/// The name of the file that holds the bytes of a version of a component.
pub open spec fn wasm_file_name(component_id: ComponentId, version: ComponentVersion) -> Seq<char> {
    file_prefix(component_id) + decimal(version as nat) + wasm_extension()
}

/// The name of the file that holds the properties of a version of a
/// component.
pub open spec fn properties_file_name(
    component_id: ComponentId,
    version: ComponentVersion,
) -> Seq<char> {
    file_prefix(component_id) + decimal(version as nat) + json_extension()
}

/// The file of bytes of a version of a component is recognised as holding
/// that version, and the file of properties that goes with it has the name
/// of the properties of that version.
pub proof fn lemma_file_name_states_version(component_id: ComponentId, version: ComponentVersion)
    ensures
        version_of_file(file_prefix(component_id), wasm_file_name(component_id, version)) == Some(
            version,
        ),
        base_name(wasm_file_name(component_id, version)) + json_extension()
            == properties_file_name(component_id, version),
{
    let prefix = file_prefix(component_id);
    let number = decimal(version as nat);
    let name = wasm_file_name(component_id, version);
    let base = prefix + number;
    lemma_decimal(version as nat);
    lemma_parse_inverts_decimal(version);
    assert(name.subrange(0, prefix.len() as int) =~= prefix);
    assert(name.subrange(name.len() - 5, name.len() as int) =~= wasm_extension());
    assert(base_name(name) =~= base);
    assert forall|j: int| prefix.len() - 1 < j < base.len() implies base[j] != '-' by {
        assert(base[j] == number[j - prefix.len()]);
        assert(is_digit(number[j - prefix.len()]));
    }
    assert(base[prefix.len() - 1] == '-');
    lemma_last_token(base, prefix.len() - 1);
    assert(base.subrange(prefix.len() as int, base.len() as int) =~= number);
}

/// A version whose file of bytes is in the directory is found when it is
/// asked for, and a directory that holds such a file has a latest version.
pub proof fn lemma_stored_version_is_found(
    component_id: ComponentId,
    names: Seq<String>,
    version: ComponentVersion,
    i: int,
)
    requires
        0 <= i < names.len(),
        names[i]@ == wasm_file_name(component_id, version),
    ensures
        !no_choice(file_prefix(component_id), names, Some(version)),
        !no_choice(file_prefix(component_id), names, None),
{
    lemma_file_name_states_version(component_id, version);
    assert(candidate(file_prefix(component_id), names, i) == Some(version));
}

} // verus!
