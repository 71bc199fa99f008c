//! Configuration tools: values stored under keys, read back, replaced and
//! listed.
use vstd::prelude::*;
use vstd::string::*;
use crate::namemap::NameMap;

verus! {

/// A JSON value of `serde_json`.
#[verifier::external_type_specification]
#[verifier::external_body]
pub struct ExJsonValue(serde_json::Value);

/// Configuration values by key.
pub struct ConfigValues {
    entries: NameMap<serde_json::Value>,
}

/// The message for a key that holds no value.
pub open spec fn missing_key_text(key: Seq<char>) -> Seq<char> {
    "Config key not found: '"@ + key + "'"@
}

impl ConfigValues {
    /// The values by key.
    pub closed spec fn map(&self) -> Map<Seq<char>, serde_json::Value> {
        self.entries.map()
    }

    /// The keys are distinct.
    pub closed spec fn wf(&self) -> bool {
        self.entries.wf()
    }

    /// No values.
    pub fn new() -> (c: Self)
        ensures
            c.wf(),
            c.map() == Map::<Seq<char>, serde_json::Value>::empty(),
    {
        let c = ConfigValues { entries: NameMap::new() };
        assert(c.map() =~= Map::<Seq<char>, serde_json::Value>::empty());
        c
    }

    /// Number of keys.
    pub fn len(&self) -> (n: usize)
        requires
            self.wf(),
        ensures
            n == self.map().len(),
    {
        proof {
            crate::namemap::lemma_map_len(self.entries.rows());
        }
        self.entries.len()
    }

    /// The value under `key`, or the message that there is none.
    pub fn get(&self, key: &str) -> (res: Result<&serde_json::Value, String>)
        requires
            self.wf(),
        ensures
            self.map().contains_key(key@) ==> (res matches Ok(v) && *v == self.map()[key@]),
            !self.map().contains_key(key@) ==> (res matches Err(m) && m@ == missing_key_text(key@)),
    {
        match self.entries.get(key) {
            Some(v) => Ok(v),
            None => {
                let mut m = String::from_str("Config key not found: '");
                m.append(key);
                m.append("'");
                Err(m)
            },
        }
    }

    /// Store `value` under `key`, replacing what was there.
    pub fn set(&mut self, key: String, value: serde_json::Value)
        requires
            old(self).wf(),
        ensures
            final(self).wf(),
            final(self).map() == old(self).map().insert(key@, value),
    {
        self.entries.insert(key, value);
    }

    /// The keys, in the order they were first stored.
    pub closed spec fn keys(&self) -> Seq<Seq<char>> {
        self.entries.rows().map_values(|r: (Seq<char>, serde_json::Value)| r.0)
    }

    /// The key at position `i` of the listing, and its value.
    pub fn entry_at(&self, i: usize) -> (kv: (&str, &serde_json::Value))
        requires
            self.wf(),
            i < self.keys().len(),
        ensures
            kv.0@ == self.keys()[i as int],
            self.map().contains_key(kv.0@),
            self.map()[kv.0@] == *kv.1,
    {
        proof {
            crate::namemap::lemma_value_of_at(self.entries.rows(), i as int);
        }
        (self.entries.name_at(i), self.entries.value_at(i))
    }

    /// The number of keys in the listing.
    pub fn key_count(&self) -> (n: usize)
        ensures
            n == self.keys().len(),
    {
        self.entries.len()
    }
}

/// A value written under a key is what a read of that key gives, and a read
/// of any other key gives what it gave before: for `after` the values once
/// `set` stored `value` under `key` in `before`.
pub proof fn law_config_read_after_write(
    before: ConfigValues,
    after: ConfigValues,
    key: Seq<char>,
    value: serde_json::Value,
    other: Seq<char>,
)
    requires
        after.map() == before.map().insert(key, value),
        other != key,
    ensures
        after.map().contains_key(key),
        after.map()[key] == value,
        after.map().contains_key(other) == before.map().contains_key(other),
        before.map().contains_key(other) ==> after.map()[other] == before.map()[other],
{
}

/// Register config tools (tools are registered at the MCP level).
pub fn register() {
}

} // verus!
