//! The hierarchical secret store.
//!
//! A secret tree is either a leaf string or a mapping from keys to
//! subtrees. Lookup descends along a dotted path and yields a value only
//! when the path ends at a leaf. `replace` interpolates `{{dotted.path}}`
//! tokens into arbitrary text, and `to_flat_map` projects every leaf into
//! a dotted-key entry, in declaration order.

use vstd::prelude::*;
use vstd::string::*;

use crate::strutil::{
    find_from, find_pat2, lemma_find_from, split_on, split_spec, trim_spaces, trim_spec,
};

verus! {

/// A node of the secret tree: a leaf value or a mapping, whose entries
/// keep their declaration order.
pub enum Value {
    Value(String),
    Mapping(Vec<(String, Value)>),
}

impl Value {
    /// The leaf string held by this node, none when it is a mapping.
    pub fn unwrap(&self) -> (r: Option<String>)
        ensures
            match self {
                Value::Value(v) => r matches Some(s) && s@ == v@,
                Value::Mapping(_) => r is None,
            },
    {
        match self {
            Self::Value(v) => Some(v.clone()),
            Self::Mapping(_) => None,
        }
    }
}

/// The subtree a key names among map entries: the first entry with that
/// key, searched in order.
pub open spec fn map_lookup(es: Seq<(String, Value)>, key: Seq<char>) -> Option<Value>
    decreases es.len(),
{
    if es.len() == 0 {
        None
    } else if es[0].0@ == key {
        Some(es[0].1)
    } else {
        map_lookup(es.drop_first(), key)
    }
}

/// The node reached from `v` by following the path segments in order.
/// Meeting a leaf before the path is spent, or a missing key, loses.
pub open spec fn descend(v: Value, segs: Seq<Seq<char>>) -> Option<Value>
    decreases segs.len(),
{
    if segs.len() == 0 {
        Some(v)
    } else {
        match v {
            Value::Value(_) => None,
            Value::Mapping(es) => match map_lookup(es@, segs[0]) {
                None => None,
                Some(child) => descend(child, segs.drop_first()),
            },
        }
    }
}

/// What looking up the dotted path `key` in `v` yields: the leaf string
/// iff the path ends exactly at a leaf.
pub open spec fn get_spec(v: Value, key: Seq<char>) -> Option<Seq<char>> {
    match descend(v, split_spec(key, '.')) {
        Some(node) => match node {
            Value::Value(s) => Some(s@),
            Value::Mapping(_) => None,
        },
        None => None,
    }
}

/// What interpolating into `s` yields: tokens `{{ key }}` are sought
/// left to right; a resolved key becomes its leaf value, an unresolved or
/// malformed token stays as written, and emitted text is never rescanned.
pub open spec fn replace_spec(v: Value, s: Seq<char>) -> Seq<char>
    decreases s.len(),
    via replace_spec_decreases
{
    match find_from(s, seq!['{', '{'], 0) {
        None => s,
        Some(start) => match find_from(s, seq!['}', '}'], start + 2) {
            None => s,
            Some(e) => {
                let key = trim_spec(s.subrange(start + 2, e));
                let rest = replace_spec(v, s.subrange(e + 2, s.len() as int));
                match get_spec(v, key) {
                    Some(val) => s.subrange(0, start) + val + rest,
                    None => s.subrange(0, e + 2) + rest,
                }
            },
        },
    }
}

#[via_fn]
proof fn replace_spec_decreases(v: Value, s: Seq<char>) {
    lemma_find_from(s, seq!['{', '{'], 0);
    match find_from(s, seq!['{', '{'], 0) {
        None => {},
        Some(start) => {
            lemma_find_from(s, seq!['}', '}'], start + 2);
        },
    }
}

/// The store the agent carries: one secret tree.
pub struct SecretManager {
    secrets: Value,
}

impl View for SecretManager {
    type V = Value;

    closed spec fn view(&self) -> Value {
        self.secrets
    }
}

/// The first `pat` in a suffix of `s` stands `start` later in `s` itself.
pub proof fn lemma_find_shift(s: Seq<char>, pat: Seq<char>, start: int, i: int)
    requires
        0 <= start <= s.len(),
        0 <= i,
        pat.len() > 0,
    ensures
        find_from(s, pat, start + i) == match find_from(
            s.subrange(start, s.len() as int),
            pat,
            i,
        ) {
            None => Option::<int>::None,
            Some(j) => Some(j + start),
        },
    decreases s.len() - start - i,
{
    let sub = s.subrange(start, s.len() as int);
    if i + pat.len() <= sub.len() {
        assert(sub.subrange(i, i + pat.len() as int) =~= s.subrange(
            start + i,
            start + i + pat.len(),
        ));
        if sub.subrange(i, i + pat.len() as int) != pat {
            lemma_find_shift(s, pat, start, i + 1);
        }
    }
}

impl SecretManager {
    /// A store holding the given tree.
    pub fn new(secrets: Value) -> (r: Self)
        ensures
            r@ == secrets,
    {
        Self { secrets }
    }

    /// A store with no keys at all.
    pub fn empty() -> (r: Self)
        ensures
            r@ is Mapping,
            r@->Mapping_0@.len() == 0,
    {
        Self { secrets: Value::Mapping(Vec::new()) }
    }

    /// The leaf the dotted path `key` names, if the path ends at a leaf.
    pub fn get(&self, key: &str) -> (r: Option<String>)
        ensures
            match r {
                Some(v) => get_spec(self@, key@) == Some(v@),
                None => get_spec(self@, key@) is None,
            },
    {
        let segs = split_on(key, '.');
        let ghost gsegs = split_spec(key@, '.');
        let mut cur: &Value = &self.secrets;
        let mut i: usize = 0;
        proof {
            assert(gsegs.subrange(0, gsegs.len() as int) =~= gsegs);
        }
        while i < segs.len()
            invariant
                gsegs == split_spec(key@, '.'),
                segs.deep_view() == gsegs,
                0 <= i <= segs.len(),
                segs.len() == gsegs.len(),
                descend(self@, gsegs) == descend(*cur, gsegs.subrange(i as int, gsegs.len() as int)),
            decreases segs.len() - i,
        {
            let ghost rem = gsegs.subrange(i as int, gsegs.len() as int);
            proof {
                assert(rem[0] == gsegs[i as int]);
                assert(rem.drop_first() =~= gsegs.subrange(i + 1, gsegs.len() as int));
                assert(segs.deep_view()[i as int] == segs@[i as int]@);
            }
            match cur {
                Value::Value(_) => {
                    return None;
                },
                Value::Mapping(es) => {
                    match map_get(es, segs[i].as_str()) {
                        None => {
                            return None;
                        },
                        Some(child) => {
                            cur = child;
                            i = i + 1;
                        },
                    }
                },
            }
        }
        proof {
            assert(gsegs.subrange(i as int, gsegs.len() as int) =~= Seq::<Seq<char>>::empty());
        }
        match cur {
            Value::Value(s) => Some(s.clone()),
            Value::Mapping(_) => None,
        }
    }

    /// `content` with every `{{ key }}` token interpolated, left to
    /// right, exactly as `replace_spec` describes.
    pub fn replace(&self, content: &str) -> (r: String)
        ensures
            r@ == replace_spec(self@, content@),
    {
        let len = content.unicode_len();
        let mut result = String::new();
        let mut pos: usize = 0;
        proof {
            assert(content@.subrange(0, len as int) =~= content@);
        }
        loop
            invariant
                len == content@.len(),
                0 <= pos <= len,
                replace_spec(self@, content@) =~= result@ + replace_spec(
                    self@,
                    content@.subrange(pos as int, len as int),
                ),
            decreases len - pos,
        {
            let ghost sub = content@.subrange(pos as int, len as int);
            match find_pat2(content, '{', '{', pos) {
                None => {
                    proof {
                        lemma_find_shift(content@, seq!['{', '{'], pos as int, 0);
                    }
                    result.append(content.substring_char(pos, len));
                    return result;
                },
                Some(start) => {
                    proof {
                        lemma_find_shift(content@, seq!['{', '{'], pos as int, 0);
                        assert(find_from(sub, seq!['{', '{'], 0) == Some(start - pos));
                    }
                    match find_pat2(content, '}', '}', start + 2) {
                        None => {
                            proof {
                                lemma_find_shift(
                                    content@,
                                    seq!['}', '}'],
                                    pos as int,
                                    start + 2 - pos,
                                );
                            }
                            result.append(content.substring_char(pos, len));
                            return result;
                        },
                        Some(e) => {
                            proof {
                                lemma_find_shift(
                                    content@,
                                    seq!['}', '}'],
                                    pos as int,
                                    start + 2 - pos,
                                );
                                assert(find_from(sub, seq!['}', '}'], start + 2 - pos) == Some(
                                    e - pos,
                                ));
                                assert(sub.subrange(start + 2 - pos, e - pos) =~= content@.subrange(
                                    start + 2,
                                    e as int,
                                ));
                            }
                            let key_raw = content.substring_char(start + 2, e);
                            let key = trim_spaces(key_raw);
                            let ghost next = content@.subrange(e + 2, len as int);
                            proof {
                                assert(sub.subrange(e + 2 - pos, sub.len() as int) =~= next);
                            }
                            match self.get(key) {
                                Some(val) => {
                                    proof {
                                        assert(sub.subrange(0, start - pos) =~= content@.subrange(
                                            pos as int,
                                            start as int,
                                        ));
                                    }
                                    result.append(content.substring_char(pos, start));
                                    result.append(val.as_str());
                                },
                                None => {
                                    proof {
                                        assert(sub.subrange(0, e + 2 - pos) =~= content@.subrange(
                                            pos as int,
                                            e + 2,
                                        ));
                                    }
                                    result.append(content.substring_char(pos, e + 2));
                                },
                            }
                            pos = e + 2;
                        },
                    }
                },
            }
        }
    }
}

/// The subtree under `key` among the entries, first match in order.
fn map_get<'a>(es: &'a Vec<(String, Value)>, key: &str) -> (r: Option<&'a Value>)
    ensures
        match r {
            Some(v) => map_lookup(es@, key@) == Some(*v),
            None => map_lookup(es@, key@) is None,
        },
{
    let mut i: usize = 0;
    proof {
        assert(es@.subrange(0, es@.len() as int) =~= es@);
    }
    while i < es.len()
        invariant
            0 <= i <= es@.len(),
            map_lookup(es@, key@) == map_lookup(es@.subrange(i as int, es@.len() as int), key@),
        decreases es@.len() - i,
    {
        let ghost rem = es@.subrange(i as int, es@.len() as int);
        proof {
            assert(rem[0] == es@[i as int]);
            assert(rem.drop_first() =~= es@.subrange(i + 1, es@.len() as int));
        }
        if crate::strutil::string_eq_str(&es[i].0, key) {
            return Some(&es[i].1);
        }
        i = i + 1;
    }
    proof {
        assert(es@.subrange(i as int, es@.len() as int) =~= Seq::<(String, Value)>::empty());
    }
    None
}

/// A store with no keys answers no path at all.
pub proof fn lemma_get_empty_store(v: Value, key: Seq<char>)
    requires
        v is Mapping,
        v->Mapping_0@.len() == 0,
    ensures
        get_spec(v, key) is None,
{
    let segs = split_spec(key, '.');
    assert(segs.len() > 0);
    assert(map_lookup(v->Mapping_0@, segs[0]) is None);
}

/// Interpolating with a store that has no keys leaves any text as it
/// stands.
pub proof fn lemma_replace_empty_store(v: Value, s: Seq<char>)
    requires
        v is Mapping,
        v->Mapping_0@.len() == 0,
    ensures
        replace_spec(v, s) == s,
    decreases s.len(),
{
    lemma_find_from(s, seq!['{', '{'], 0);
    match find_from(s, seq!['{', '{'], 0) {
        None => {},
        Some(start) => {
            lemma_find_from(s, seq!['}', '}'], start + 2);
            match find_from(s, seq!['}', '}'], start + 2) {
                None => {},
                Some(e) => {
                    let key = trim_spec(s.subrange(start + 2, e));
                    lemma_get_empty_store(v, key);
                    lemma_replace_empty_store(v, s.subrange(e + 2, s.len() as int));
                    assert(s.subrange(0, e + 2) + s.subrange(e + 2, s.len() as int) =~= s);
                },
            }
        },
    }
}

/// A dotted path whose terminal node is a mapping, not a leaf, yields
/// nothing.
pub proof fn lemma_get_on_map_node(v: Value, key: Seq<char>)
    requires
        match descend(v, split_spec(key, '.')) {
            Some(node) => node is Mapping,
            None => true,
        },
    ensures
        get_spec(v, key) is None,
{
}

/// The dotted key continuing `prefix` with `k`: just `k` at the top.
pub open spec fn join_dot(prefix: Seq<char>, k: Seq<char>) -> Seq<char> {
    if prefix.len() == 0 {
        k
    } else {
        prefix + seq!['.'] + k
    }
}

/// The flat projection of `v` under `prefix`: one `(dotted key, value)`
/// entry per leaf, in traversal order. A leaf standing at the very top
/// has no key and is dropped.
pub open spec fn flat_spec(v: Value, prefix: Seq<char>) -> Seq<(Seq<char>, Seq<char>)>
    decreases v, 1int,
{
    match v {
        Value::Value(s) => if prefix.len() == 0 {
            Seq::empty()
        } else {
            seq![(prefix, s@)]
        },
        Value::Mapping(es) => flat_entries(es@, 0, prefix),
    }
}

/// The flat projections of the entries from position `i` on, in order.
pub open spec fn flat_entries(es: Seq<(String, Value)>, i: int, prefix: Seq<char>) -> Seq<
    (Seq<char>, Seq<char>),
>
    decreases es, es.len() - i, 0int,
{
    if i < 0 || i >= es.len() {
        Seq::empty()
    } else {
        flat_spec(es[i].1, join_dot(prefix, es[i].0@)) + flat_entries(es, i + 1, prefix)
    }
}

/// Appends the flat projection of `value` under `parent_key` to the
/// accumulator, leaving what was already there alone.
pub fn add_properties_to_hashmap(
    parent_key: &str,
    value: &Value,
    hashmap: &mut Vec<(String, String)>,
)
    ensures
        final(hashmap)@.len() == old(hashmap)@.len() + flat_spec(*value, parent_key@).len(),
        forall|j: int|
            0 <= j < old(hashmap)@.len() ==> final(hashmap)@[j] == old(hashmap)@[j],
        forall|j: int|
            0 <= j < flat_spec(*value, parent_key@).len() ==> (#[trigger] final(hashmap)@[old(
                hashmap,
            )@.len() + j]).0@ == flat_spec(*value, parent_key@)[j].0 && final(hashmap)@[old(
                hashmap,
            )@.len() + j].1@ == flat_spec(*value, parent_key@)[j].1,
    decreases *value,
{
    let ghost old_len = hashmap@.len() as int;
    match value {
        Value::Value(val) => {
            if !parent_key.is_empty() {
                hashmap.push((parent_key.to_owned(), val.clone()));
            }
        },
        Value::Mapping(entries) => {
            let mut idx: usize = 0;
            let ghost mut emitted: Seq<(Seq<char>, Seq<char>)> = Seq::empty();
            proof {
                assert(flat_entries(entries@, 0, parent_key@) =~= emitted + flat_entries(
                    entries@,
                    0,
                    parent_key@,
                ));
            }
            while idx < entries.len()
                invariant
                    *value == Value::Mapping(*entries),
                    0 <= idx <= entries@.len(),
                    flat_entries(entries@, 0, parent_key@) =~= emitted + flat_entries(
                        entries@,
                        idx as int,
                        parent_key@,
                    ),
                    hashmap@.len() == old_len + emitted.len(),
                    old_len == old(hashmap)@.len(),
                    forall|j: int| 0 <= j < old_len ==> hashmap@[j] == old(hashmap)@[j],
                    forall|j: int|
                        0 <= j < emitted.len() ==> (#[trigger] hashmap@[old_len + j]).0@
                            == emitted[j].0 && hashmap@[old_len + j].1@ == emitted[j].1,
                decreases entries@.len() - idx,
            {
                let mut new_key = parent_key.to_owned();
                if !parent_key.is_empty() {
                    new_key.append(".");
                }
                new_key.append(entries[idx].0.as_str());
                proof {
                    reveal_strlit(".");
                    assert(new_key@ =~= join_dot(parent_key@, entries@[idx as int].0@));
                }
                proof {
                    assert(*value == Value::Mapping(*entries));
                    assert(decreases_to!(*value => value->Mapping_0));
                    assert(decreases_to!(value->Mapping_0 => value->Mapping_0@));
                    assert(decreases_to!(value->Mapping_0@ => value->Mapping_0@[idx as int]));
                    assert(decreases_to!(
                        value->Mapping_0@[idx as int] => value->Mapping_0@[idx as int].1
                    ));
                    assert(value->Mapping_0@ == entries@);
                    assert(decreases_to!(*value => entries@[idx as int].1));
                }
                let ghost pre = hashmap@;
                add_properties_to_hashmap(new_key.as_str(), &entries[idx].1, hashmap);
                proof {
                    let fs = flat_spec(
                        entries@[idx as int].1,
                        join_dot(parent_key@, entries@[idx as int].0@),
                    );
                    let e2 = emitted + fs;
                    assert forall|j: int|
                        0 <= j < e2.len() implies (#[trigger] hashmap@[old_len + j]).0@ == e2[j].0
                        && hashmap@[old_len + j].1@ == e2[j].1 by {
                        if j < emitted.len() {
                            assert(hashmap@[old_len + j] == pre[old_len + j]);
                        } else {
                            assert(hashmap@[old_len + j] == hashmap@[pre.len() as int + (j
                                - emitted.len())]);
                            assert(e2[j] == fs[j - emitted.len()]);
                        }
                    }
                    emitted = e2;
                }
                idx = idx + 1;
            }
        },
    }
}

impl SecretManager {
    /// Every leaf of the store under its dotted key, in traversal order.
    pub fn to_flat_map(&self) -> (r: Vec<(String, String)>)
        ensures
            r@.len() == flat_spec(self@, Seq::<char>::empty()).len(),
            forall|j: int|
                0 <= j < r@.len() ==> (#[trigger] r@[j]).0@ == flat_spec(
                    self@,
                    Seq::<char>::empty(),
                )[j].0 && r@[j].1@ == flat_spec(self@, Seq::<char>::empty())[j].1,
    {
        let mut hashmap: Vec<(String, String)> = Vec::new();
        proof {
            reveal_strlit("");
            assert(""@ =~= Seq::<char>::empty());
        }
        add_properties_to_hashmap("", &self.secrets, &mut hashmap);
        proof {
            let fs = flat_spec(self@, Seq::<char>::empty());
            assert(flat_spec(self@, ""@) == fs);
            assert forall|j: int|
                0 <= j < hashmap@.len() implies (#[trigger] hashmap@[j]).0@ == fs[j].0
                && hashmap@[j].1@ == fs[j].1 by {
                assert(hashmap@[0 + j].0@ == fs[j].0);
                assert(hashmap@[0 + j].1@ == fs[j].1);
            }
        }
        hashmap
    }
}

/// The uppercase form of a string, as `str::to_uppercase` computes it.
pub uninterp spec fn upper_of(s: Seq<char>) -> Seq<char>;

/// Relies on str::to_uppercase: the result depends on the characters of
/// the input alone.
#[verifier::external_body]
fn to_uppercase_string(s: &str) -> (r: String)
    ensures
        r@ == upper_of(s@),
{
    s.to_uppercase()
}

/// Every dot replaced by an underscore.
pub open spec fn dots_to_underscores(s: Seq<char>) -> Seq<char> {
    s.map_values(|c: char| if c == '.' { '_' } else { c })
}

/// The environment variable a dotted secret key becomes.
pub open spec fn env_key_spec(k: Seq<char>) -> Seq<char> {
    "SECRETS_"@ + dots_to_underscores(upper_of(k))
}

/// The name under which a flattened secret enters a script's
/// environment: `SECRETS_`, then the key uppercased with dots turned
/// into underscores.
pub fn to_env_key(key: &str) -> (r: String)
    ensures
        r@ == env_key_spec(key@),
{
    let up = to_uppercase_string(key);
    let mut r = String::new();
    r.append("SECRETS_");
    let n = up.as_str().unicode_len();
    let mut i: usize = 0;
    proof {
        assert(dots_to_underscores(up@.subrange(0, 0)) =~= Seq::<char>::empty());
        assert(r@ =~= "SECRETS_"@ + dots_to_underscores(up@.subrange(0, 0)));
    }
    while i < n
        invariant
            up@ == upper_of(key@),
            n == up@.len(),
            0 <= i <= n,
            r@ =~= "SECRETS_"@ + dots_to_underscores(up@.subrange(0, i as int)),
        decreases n - i,
    {
        let c = up.as_str().get_char(i);
        if c == '.' {
            r.append("_");
            proof {
                reveal_strlit("_");
            }
        } else {
            r.append(up.as_str().substring_char(i, i + 1));
        }
        proof {
            assert(dots_to_underscores(up@.subrange(0, i + 1)) =~= dots_to_underscores(
                up@.subrange(0, i as int),
            ).push(if up@[i as int] == '.' {
                '_'
            } else {
                up@[i as int]
            }));
            assert(up@.subrange(i as int, i + 1) =~= seq![up@[i as int]]);
        }
        i = i + 1;
    }
    proof {
        assert(up@.subrange(0, n as int) =~= up@);
    }
    r
}

/// Do all keys, everywhere in the tree, have at least one character?
pub open spec fn nonempty_keys(v: Value) -> bool
    decreases v, 1int,
{
    match v {
        Value::Value(_) => true,
        Value::Mapping(es) => nonempty_keys_of(es@, 0),
    }
}

pub open spec fn nonempty_keys_of(es: Seq<(String, Value)>, i: int) -> bool
    decreases es, es.len() - i, 0int,
{
    if i < 0 || i >= es.len() {
        true
    } else {
        es[i].0@.len() > 0 && nonempty_keys(es[i].1) && nonempty_keys_of(es, i + 1)
    }
}

/// The leaves of `v`: each with its path of segments and its value, in
/// traversal order.
pub open spec fn leaf_entries(v: Value) -> Seq<(Seq<Seq<char>>, Seq<char>)>
    decreases v, 1int,
{
    match v {
        Value::Value(s) => seq![(Seq::<Seq<char>>::empty(), s@)],
        Value::Mapping(es) => leaf_entries_of(es@, 0),
    }
}

pub open spec fn leaf_entries_of(es: Seq<(String, Value)>, i: int) -> Seq<
    (Seq<Seq<char>>, Seq<char>),
>
    decreases es, es.len() - i, 0int,
{
    if i < 0 || i >= es.len() {
        Seq::empty()
    } else {
        leaf_entries(es[i].1).map_values(
            |p: (Seq<Seq<char>>, Seq<char>)| (seq![es[i].0@] + p.0, p.1),
        ) + leaf_entries_of(es, i + 1)
    }
}

/// The dotted key a path of segments becomes, continued from `prefix`.
pub open spec fn join_from(prefix: Seq<char>, segs: Seq<Seq<char>>) -> Seq<char>
    decreases segs.len(),
{
    if segs.len() == 0 {
        prefix
    } else {
        join_from(join_dot(prefix, segs[0]), segs.drop_first())
    }
}

/// The dotted key a path of segments becomes.
pub open spec fn join_dots(segs: Seq<Seq<char>>) -> Seq<char> {
    join_from(Seq::empty(), segs)
}

proof fn lemma_join_cons(prefix: Seq<char>, k: Seq<char>, segs: Seq<Seq<char>>)
    ensures
        join_from(prefix, seq![k] + segs) == join_from(join_dot(prefix, k), segs),
{
    let s = seq![k] + segs;
    assert(s[0] == k);
    assert(s.drop_first() =~= segs);
}

proof fn lemma_flat_is_leaves(v: Value, prefix: Seq<char>)
    requires
        prefix.len() > 0 || v is Mapping,
        nonempty_keys(v),
    ensures
        flat_spec(v, prefix) == leaf_entries(v).map_values(
            |p: (Seq<Seq<char>>, Seq<char>)| (join_from(prefix, p.0), p.1),
        ),
    decreases v, 1int,
{
    match v {
        Value::Value(s) => {
            assert(flat_spec(v, prefix) =~= leaf_entries(v).map_values(
                |p: (Seq<Seq<char>>, Seq<char>)| (join_from(prefix, p.0), p.1),
            ));
        },
        Value::Mapping(es) => {
            lemma_flat_entries_is_leaves(es@, 0, prefix);
        },
    }
}

proof fn lemma_flat_entries_is_leaves(es: Seq<(String, Value)>, i: int, prefix: Seq<char>)
    requires
        0 <= i <= es.len(),
        nonempty_keys_of(es, i),
    ensures
        flat_entries(es, i, prefix) == leaf_entries_of(es, i).map_values(
            |p: (Seq<Seq<char>>, Seq<char>)| (join_from(prefix, p.0), p.1),
        ),
    decreases es, es.len() - i, 0int,
{
    let f = |p: (Seq<Seq<char>>, Seq<char>)| (join_from(prefix, p.0), p.1);
    if i < es.len() {
        let k = es[i].0@;
        let child = es[i].1;
        let p2 = join_dot(prefix, k);
        let g = |p: (Seq<Seq<char>>, Seq<char>)| (join_from(p2, p.0), p.1);
        let prepend = |p: (Seq<Seq<char>>, Seq<char>)| (seq![k] + p.0, p.1);
        lemma_flat_is_leaves(child, p2);
        lemma_flat_entries_is_leaves(es, i + 1, prefix);
        let lc = leaf_entries(child);
        assert forall|j: int| 0 <= j < lc.len() implies lc.map_values(prepend).map_values(f)[j]
            == lc.map_values(g)[j] by {
            lemma_join_cons(prefix, k, lc[j].0);
        }
        assert(lc.map_values(prepend).map_values(f) =~= lc.map_values(g));
        assert(leaf_entries_of(es, i).map_values(f) =~= lc.map_values(prepend).map_values(f)
            + leaf_entries_of(es, i + 1).map_values(f));
        assert(flat_entries(es, i, prefix) =~= leaf_entries_of(es, i).map_values(f));
    } else {
        assert(flat_entries(es, i, prefix) =~= leaf_entries_of(es, i).map_values(f));
    }
}

/// Flattening yields exactly one entry per leaf of the tree: the leaf's
/// value under its dotted path, in traversal order.
pub proof fn lemma_flatten_one_entry_per_leaf(v: Value)
    requires
        v is Mapping,
        nonempty_keys(v),
    ensures
        flat_spec(v, Seq::<char>::empty()) == leaf_entries(v).map_values(
            |p: (Seq<Seq<char>>, Seq<char>)| (join_dots(p.0), p.1),
        ),
{
    lemma_flat_is_leaves(v, Seq::<char>::empty());
    assert(leaf_entries(v).map_values(
        |p: (Seq<Seq<char>>, Seq<char>)| (join_from(Seq::<char>::empty(), p.0), p.1),
    ) =~= leaf_entries(v).map_values(|p: (Seq<Seq<char>>, Seq<char>)| (join_dots(p.0), p.1)));
}

} // verus!
