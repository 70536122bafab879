//! The JSON-backed vault map.
//!
//! A [`Vault`] holds the parsed contents of the vault file: a mapping
//! from service names to entries. Its mathematical model, [`Vault::as_map`],
//! is a `Map` from name to [`EntryModel`]; every operation's contract is
//! stated over that map, so the order of entries in the file never
//! matters. JSON values that are not credential records pass through the
//! store opaquely and survive a dump/reload cycle unchanged.

use vstd::prelude::*;

use crate::exceptions::VaultError;
use crate::text::str_eq;
use serde_json::Value;

verus! {

#[verifier::external_type_specification]
#[verifier::external_body]
pub struct ExValue(Value);

/// A JSON value the vault carries through unchanged. Values of this type
/// originate only from parsing the vault file, so they stay within what
/// the JSON codec can reproduce.
pub struct OpaqueValue {
    value: Value,
}

/// One field of a stored entry: either text (ciphertext strings are
/// stored this way) or some other JSON value, carried through unchanged.
pub enum FieldValue {
    Text(String),
    Other(OpaqueValue),
}

/// One stored entry: a record of named fields (a credential entry has
/// the two text fields `username` and `password`) or some other JSON
/// value, carried through unchanged.
pub enum EntryValue {
    Record(Vec<(String, FieldValue)>),
    Other(OpaqueValue),
}

/// The model of a field: its text, or the opaque value.
pub enum FieldModel {
    Text(Seq<char>),
    Other(OpaqueValue),
}

/// The model of an entry: a map from field name to field model, or the
/// opaque value.
pub enum EntryModel {
    Record(Map<Seq<char>, FieldModel>),
    Other(OpaqueValue),
}

/// Whether the keys of an association list are pairwise distinct.
pub open spec fn keys_distinct<K, V>(s: Seq<(K, V)>) -> bool {
    forall|i: int, j: int| 0 <= i < j < s.len() ==> s[i].0 != s[j].0
}

/// The map that an association list denotes; a later pair overrides an
/// earlier one with the same key.
pub open spec fn pairs_to_map<K, V>(s: Seq<(K, V)>) -> Map<K, V>
    decreases s.len(),
{
    if s.len() == 0 {
        Map::empty()
    } else {
        pairs_to_map(s.drop_last()).insert(s.last().0, s.last().1)
    }
}

/// A key is in the denoted map exactly when some pair carries it.
pub proof fn lemma_pairs_to_map_contains<K, V>(s: Seq<(K, V)>, k: K)
    ensures
        pairs_to_map(s).contains_key(k) <==> (exists|i: int| 0 <= i < s.len() && s[i].0 == k),
    decreases s.len(),
{
    if s.len() == 0 {
    } else {
        lemma_pairs_to_map_contains(s.drop_last(), k);
        if s.last().0 == k {
            assert(s[s.len() - 1].0 == k);
        } else {
            if pairs_to_map(s).contains_key(k) {
                let i = choose|i: int|
                    0 <= i < s.drop_last().len() && s.drop_last()[i].0 == k;
                assert(s[i].0 == k);
            }
            if exists|i: int| 0 <= i < s.len() && s[i].0 == k {
                let i = choose|i: int| 0 <= i < s.len() && s[i].0 == k;
                assert(s.drop_last()[i].0 == k);
            }
        }
    }
}

/// With distinct keys, the denoted map sends each pair's key to that
/// pair's value.
pub proof fn lemma_pairs_to_map_index<K, V>(s: Seq<(K, V)>, i: int)
    requires
        keys_distinct(s),
        0 <= i < s.len(),
    ensures
        pairs_to_map(s).contains_key(s[i].0),
        pairs_to_map(s)[s[i].0] == s[i].1,
    decreases s.len(),
{
    if i == s.len() - 1 {
    } else {
        assert(keys_distinct(s.drop_last()));
        assert(s.drop_last()[i] == s[i]);
        lemma_pairs_to_map_index(s.drop_last(), i);
        assert(s.last().0 != s[i].0);
    }
}

/// With distinct keys, removing a pair removes exactly its key from the
/// denoted map.
pub proof fn lemma_pairs_to_map_remove<K, V>(s: Seq<(K, V)>, i: int)
    requires
        keys_distinct(s),
        0 <= i < s.len(),
    ensures
        pairs_to_map(s.remove(i)) == pairs_to_map(s).remove(s[i].0),
    decreases s.len(),
{
    if i == s.len() - 1 {
        assert(s.remove(i) =~= s.drop_last());
        lemma_pairs_to_map_contains(s.drop_last(), s[i].0);
        assert(forall|j: int| 0 <= j < s.drop_last().len() ==> s.drop_last()[j] == s[j]);
        assert(!pairs_to_map(s.drop_last()).contains_key(s[i].0));
        assert(pairs_to_map(s.remove(i)) =~= pairs_to_map(s).remove(s[i].0));
    } else {
        assert(keys_distinct(s.drop_last()));
        lemma_pairs_to_map_remove(s.drop_last(), i);
        assert(s.remove(i).drop_last() =~= s.drop_last().remove(i));
        assert(s.remove(i).last() == s.last());
        assert(s.last().0 != s[i].0);
        assert(s.drop_last()[i] == s[i]);
        assert(pairs_to_map(s.remove(i)) =~= pairs_to_map(s).remove(s[i].0));
    }
}

/// The pairs of an entry's field list, with names and fields replaced by
/// their models.
pub open spec fn field_model_pairs(fields: Seq<(String, FieldValue)>) -> Seq<
    (Seq<char>, FieldModel),
> {
    fields.map(|i: int, p: (String, FieldValue)| (p.0@, p.1.model()))
}

/// The pairs of a vault's entry list, with names and entries replaced by
/// their models.
pub open spec fn entry_model_pairs(entries: Seq<(String, EntryValue)>) -> Seq<
    (Seq<char>, EntryModel),
> {
    entries.map(|i: int, p: (String, EntryValue)| (p.0@, p.1.model()))
}

impl FieldValue {
    /// The model of the field.
    pub open spec fn model(self) -> FieldModel {
        match self {
            FieldValue::Text(s) => FieldModel::Text(s@),
            FieldValue::Other(v) => FieldModel::Other(v),
        }
    }
}

/// Looks a field name up in an entry's model; `None` when the entry is
/// not a record or lacks the field.
pub open spec fn record_field(m: EntryModel, key: Seq<char>) -> Option<FieldModel> {
    match m {
        EntryModel::Record(fields) => if fields.contains_key(key) {
            Some(fields[key])
        } else {
            None
        },
        EntryModel::Other(_) => None,
    }
}

impl EntryValue {
    /// The model of the entry.
    pub open spec fn model(self) -> EntryModel {
        match self {
            EntryValue::Record(fields) => EntryModel::Record(
                pairs_to_map(field_model_pairs(fields@)),
            ),
            EntryValue::Other(v) => EntryModel::Other(v),
        }
    }

    /// Well-formedness: a record's field names are pairwise distinct.
    pub open spec fn wf(self) -> bool {
        match self {
            EntryValue::Record(fields) => keys_distinct(field_model_pairs(fields@)),
            EntryValue::Other(_) => true,
        }
    }

    /// The text of the named field, if the entry is a record and stores
    /// text under that name.
    pub fn field_text<'a>(&'a self, key: &str) -> (r: Option<&'a String>)
        requires
            self.wf(),
        ensures
            (r is Some) <==> (record_field(self.model(), key@) matches Some(f) && f is Text),
            (r matches Some(s) ==> record_field(self.model(), key@) == Some(
                FieldModel::Text(s@),
            )),
    {
        match self {
            EntryValue::Other(_) => None,
            EntryValue::Record(fields) => {
                let ghost pairs = field_model_pairs(fields@);
                let n = fields.len();
                let mut i: usize = 0;
                while i < n
                    invariant
                        n == fields@.len(),
                        0 <= i <= n,
                        keys_distinct(pairs),
                        pairs == field_model_pairs(fields@),
                        *self == EntryValue::Record(*fields),
                        forall|k: int| 0 <= k < i ==> pairs[k].0 != key@,
                    decreases n - i,
                {
                    if str_eq(fields[i].0.as_str(), key) {
                        proof {
                            lemma_pairs_to_map_index(pairs, i as int);
                            assert(pairs[i as int] == (
                                fields@[i as int].0@,
                                fields@[i as int].1.model(),
                            ));
                            assert(record_field(self.model(), key@) == Some(
                                fields@[i as int].1.model(),
                            ));
                        }
                        return match &fields[i].1 {
                            FieldValue::Text(s) => Some(s),
                            FieldValue::Other(_) => None,
                        };
                    }
                    i += 1;
                }
                proof {
                    lemma_pairs_to_map_contains(pairs, key@);
                }
                None
            },
        }
    }
}

/// The persisted mapping of service names to entries.
pub struct Vault {
    entries: Vec<(String, EntryValue)>,
}

impl Vault {
    /// The mapping the vault denotes.
    pub closed spec fn as_map(self) -> Map<Seq<char>, EntryModel> {
        pairs_to_map(entry_model_pairs(self.entries@))
    }

    /// Well-formedness: entry names are pairwise distinct and every
    /// record's field names are too.
    pub closed spec fn wf(self) -> bool {
        keys_distinct(entry_model_pairs(self.entries@)) && (forall|i: int|
            0 <= i < self.entries@.len() ==> self.entries@[i].1.wf())
    }

    /// The empty vault, standing for a missing or just-created file.
    pub fn new() -> (r: Vault)
        ensures
            r.wf(),
            r.as_map() == Map::<Seq<char>, EntryModel>::empty(),
    {
        Vault { entries: Vec::new() }
    }

    /// Case-sensitive exact lookup; an absent entry is a normal outcome,
    /// not an error.
    pub fn get<'a>(&'a self, name: &String) -> (r: Option<&'a EntryValue>)
        requires
            self.wf(),
        ensures
            (r is Some) <==> self.as_map().contains_key(name@),
            (r matches Some(e) ==> self.as_map()[name@] == e.model() && e.wf()),
    {
        let ghost pairs = entry_model_pairs(self.entries@);
        let n = self.entries.len();
        let mut i: usize = 0;
        while i < n
            invariant
                n == self.entries@.len(),
                0 <= i <= n,
                self.wf(),
                pairs == entry_model_pairs(self.entries@),
                forall|k: int| 0 <= k < i ==> pairs[k].0 != name@,
            decreases n - i,
        {
            if str_eq(self.entries[i].0.as_str(), name.as_str()) {
                proof {
                    lemma_pairs_to_map_index(pairs, i as int);
                }
                return Some(&self.entries[i].1);
            }
            i += 1;
        }
        proof {
            lemma_pairs_to_map_contains(pairs, name@);
        }
        None
    }

    /// Removes the entry stored under `name`, reporting whether one was
    /// present; the mapping loses exactly that key.
    pub fn delete(&mut self, name: &String) -> (r: bool)
        requires
            old(self).wf(),
        ensures
            final(self).wf(),
            r == old(self).as_map().contains_key(name@),
            final(self).as_map() == old(self).as_map().remove(name@),
    {
        let ghost pairs = entry_model_pairs(self.entries@);
        let n = self.entries.len();
        let mut i: usize = 0;
        while i < n
            invariant
                n == self.entries@.len(),
                0 <= i <= n,
                self.wf(),
                self == old(self),
                pairs == entry_model_pairs(self.entries@),
                forall|k: int| 0 <= k < i ==> pairs[k].0 != name@,
            decreases n - i,
        {
            if str_eq(self.entries[i].0.as_str(), name.as_str()) {
                proof {
                    lemma_pairs_to_map_index(pairs, i as int);
                    lemma_pairs_to_map_remove(pairs, i as int);
                }
                self.entries.remove(i);
                proof {
                    assert(entry_model_pairs(self.entries@) =~= pairs.remove(i as int));
                    assert(keys_distinct(pairs.remove(i as int)));
                    assert(forall|k: int|
                        0 <= k < self.entries@.len() ==> self.entries@[k].1.wf());
                }
                return true;
            }
            i += 1;
        }
        proof {
            lemma_pairs_to_map_contains(pairs, name@);
            assert(self.as_map().remove(name@) =~= self.as_map());
        }
        false
    }

    /// Replaces or inserts the entry at `name`: the mapping afterwards is
    /// the old one with exactly that association updated.
    pub fn upsert(&mut self, name: String, entry: EntryValue)
        requires
            old(self).wf(),
            entry.wf(),
        ensures
            final(self).wf(),
            final(self).as_map() == old(self).as_map().insert(name@, entry.model()),
    {
        self.delete(&name);
        let ghost pairs = entry_model_pairs(self.entries@);
        proof {
            lemma_pairs_to_map_contains(pairs, name@);
        }
        self.entries.push((name, entry));
        proof {
            assert(entry_model_pairs(self.entries@) =~= pairs.push(
                (name@, entry.model()),
            ));
            assert(entry_model_pairs(self.entries@).drop_last() =~= pairs);
            assert(forall|k: int| 0 <= k < self.entries@.len() ==> self.entries@[k].1.wf());
            assert(final(self).as_map() =~= old(self).as_map().insert(name@, entry.model()));
        }
    }
}

/// The result that parsing a vault file's text yields: `None` unless the
/// text is a JSON object, else the vault it denotes. A fixed function of
/// the text.
pub uninterp spec fn vault_parse(text: Seq<char>) -> Option<Vault>;

/// Relies on `serde_json::from_str::<Value>`: parses the text, `None`
/// unless it is a JSON object; object values become records of their
/// text fields, everything else is carried opaquely. The result is a
/// function of the text alone, and its entry names — the keys of a
/// parsed JSON map — are distinct, as are each record's field names.
#[verifier::external_body]
fn parse_vault_text(text: &str) -> (r: Option<Vault>)
    ensures
        r == vault_parse(text@),
        (r matches Some(v) ==> v.wf()),
{
    match serde_json::from_str(text) {
        Ok(Value::Object(m)) => Some(Vault {
            entries: m.into_iter().map(|(k, v)| (k, match v {
                Value::Object(f) => EntryValue::Record(f.into_iter().map(|(fk, fv)| (fk, match fv {
                    Value::String(s) => FieldValue::Text(s),
                    o => FieldValue::Other(OpaqueValue { value: o }),
                })).collect()),
                o => EntryValue::Other(OpaqueValue { value: o }),
            })).collect(),
        }),
        _ => None,
    }
}

/// Relies on `serde_json::to_string_pretty` over a JSON object built
/// from the entries (serializing a JSON value cannot fail): the text it
/// returns parses back — keys sorted, values reproduced exactly — to a
/// well-formed vault denoting the same mapping.
#[verifier::external_body]
fn dump_vault_text(v: &Vault) -> (r: String)
    requires
        v.wf(),
    ensures
        vault_parse(r@) is Some,
        (vault_parse(r@) matches Some(w) ==> w.as_map() == v.as_map() && w.wf()),
{
    let m: serde_json::Map<String, Value> = v.entries.iter().map(|(k, e)| (k.clone(), match e {
        EntryValue::Record(fs) => Value::Object(fs.iter().map(|(fk, fv)| (fk.clone(), match fv {
            FieldValue::Text(s) => Value::String(s.clone()),
            FieldValue::Other(o) => o.value.clone(),
        })).collect()),
        EntryValue::Other(o) => o.value.clone(),
    })).collect();
    serde_json::to_string_pretty(&m).expect("serializing a JSON object cannot fail")
}

/// Parses vault file contents into the map they denote; contents that
/// are not a JSON object are an "invalid vault schema" error, never
/// silently truncated or overwritten.
pub fn load_json_map(contents: &str) -> (r: Result<Vault, VaultError>)
    ensures
        (vault_parse(contents@) matches Some(v) ==> r == Ok::<Vault, VaultError>(v) && v.wf()),
        vault_parse(contents@) is None ==> r == Err::<Vault, VaultError>(
            VaultError::InvalidSchema,
        ),
{
    match parse_vault_text(contents) {
        Some(v) => Ok(v),
        None => Err(VaultError::InvalidSchema),
    }
}

impl Vault {
    /// The vault as pretty-printed JSON text: the whole map, written so
    /// that loading it back yields the same mapping.
    pub fn to_json_text(&self) -> (r: String)
        requires
            self.wf(),
        ensures
            vault_parse(r@) is Some,
            (vault_parse(r@) matches Some(w) ==> w.as_map() == self.as_map() && w.wf()),
    {
        dump_vault_text(self)
    }
}

/// Builds a credential entry: a record with the two ciphertext fields
/// `username` and `password`.
pub fn credentials_entry(username_ct: String, password_ct: String) -> (r: EntryValue)
    ensures
        r.wf(),
        r.model() == EntryModel::Record(
            map!["username"@ => FieldModel::Text(username_ct@), "password"@ => FieldModel::Text(password_ct@)],
        ),
{
    let ghost uct = username_ct@;
    let ghost pct = password_ct@;
    let mut fields: Vec<(String, FieldValue)> = Vec::new();
    fields.push(("username".to_owned(), FieldValue::Text(username_ct)));
    fields.push(("password".to_owned(), FieldValue::Text(password_ct)));
    proof {
        reveal_strlit("username");
        reveal_strlit("password");
        assert("username"@[0] == 'u');
        assert("password"@[0] == 'p');
        assert("username"@ != "password"@);
        let s2 = seq![("username"@, FieldModel::Text(uct)), ("password"@, FieldModel::Text(pct))];
        assert(field_model_pairs(fields@) =~= s2);
        assert(s2.drop_last() =~= seq![("username"@, FieldModel::Text(uct))]);
        assert(s2.drop_last().drop_last() =~= Seq::<(Seq<char>, FieldModel)>::empty());
        assert(pairs_to_map(s2.drop_last().drop_last()) =~= Map::<Seq<char>, FieldModel>::empty());
        assert(pairs_to_map(s2.drop_last()) =~= Map::<Seq<char>, FieldModel>::empty().insert(
            "username"@,
            FieldModel::Text(uct),
        ));
        assert(pairs_to_map(s2) =~= Map::<Seq<char>, FieldModel>::empty().insert(
            "username"@,
            FieldModel::Text(uct),
        ).insert("password"@, FieldModel::Text(pct)));
        assert(map!["username"@ => FieldModel::Text(uct), "password"@ => FieldModel::Text(pct)]
            =~= Map::<Seq<char>, FieldModel>::empty().insert("username"@, FieldModel::Text(uct))
            .insert("password"@, FieldModel::Text(pct)));
        assert(keys_distinct(s2));
    }
    EntryValue::Record(fields)
}

} // verus!
