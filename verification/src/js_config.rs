//! The JavaScript runtime configuration that the command-line surface
//! assembles: a collection of validated property names mapped to boolean or
//! numeric values, and the schema that says which names a plugin supports.

use vstd::prelude::*;

verus! {

/// The value of a runtime configuration option.
#[derive(Clone, Copy, Debug, PartialEq, Eq, Structural)]
pub enum JsOptionValue {
    Boolean(bool),
    Number(u64),
}

/// A property in the configuration schema a plugin reports.
pub struct JsConfigProperty {
    /// The name of the property (e.g. `simd-json-builtins`).
    pub name: String,
    /// The documentation to display for the property.
    pub doc: String,
}

/// The configuration schema a plugin reports: the set of property names it
/// understands.
pub struct ConfigSchema {
    pub supported_properties: Vec<JsConfigProperty>,
}

/// The first value stored under `name`, if any.
pub open spec fn lookup(
    entries: Seq<(String, JsOptionValue)>,
    name: Seq<char>,
) -> Option<JsOptionValue>
    decreases entries.len(),
{
    if entries.len() == 0 {
        None
    } else if entries[0].0@ == name {
        Some(entries[0].1)
    } else {
        lookup(entries.drop_first(), name)
    }
}

/// Whether the schema lists a property called `name`.
pub open spec fn name_supported(props: Seq<JsConfigProperty>, name: Seq<char>) -> bool {
    exists|i: int| 0 <= i < props.len() && #[trigger] props[i].name@ == name
}

/// A collection of property names to their values.
pub struct JsConfig {
    entries: Vec<(String, JsOptionValue)>,
}

impl View for JsConfig {
    type V = Seq<(String, JsOptionValue)>;

    closed spec fn view(&self) -> Seq<(String, JsOptionValue)> {
        self.entries@
    }
}

impl JsConfig {
    /// Create from a list of properties with their values.
    pub fn from_hash(entries: Vec<(String, JsOptionValue)>) -> (c: JsConfig)
        ensures
            c@ == entries@,
    {
        JsConfig { entries }
    }

    /// Retrieve a boolean value for a property name.
    pub fn get(&self, name: &str) -> (r: Option<bool>)
        ensures
            r == (match lookup(self@, name@) {
                Some(JsOptionValue::Boolean(b)) => Some(b),
                _ => None::<bool>,
            }),
    {
        match self.find(name) {
            Some(JsOptionValue::Boolean(b)) => Some(b),
            _ => None,
        }
    }

    /// Retrieve a numeric value for a property name.
    pub fn get_number(&self, name: &str) -> (r: Option<u64>)
        ensures
            r == (match lookup(self@, name@) {
                Some(JsOptionValue::Number(n)) => Some(n),
                _ => None::<u64>,
            }),
    {
        match self.find(name) {
            Some(JsOptionValue::Number(n)) => Some(n),
            _ => None,
        }
    }

    /// Every stored property with its value, in insertion order.
    pub fn entries(&self) -> (r: &Vec<(String, JsOptionValue)>)
        ensures
            r@ == self@,
    {
        &self.entries
    }

    /// The raw value stored for a property name.
    fn find(&self, name: &str) -> (r: Option<JsOptionValue>)
        ensures
            r == lookup(self@, name@),
    {
        lookup_value(&self.entries, name)
    }
}

/// The first value stored under `name` in an entry list.
pub fn lookup_value(entries: &Vec<(String, JsOptionValue)>, name: &str) -> (r: Option<
    JsOptionValue,
>)
    ensures
        r == lookup(entries@, name@),
{
    let mut i: usize = 0;
    proof {
        assert(entries@.skip(0) =~= entries@);
    }
    while i < entries.len()
        invariant
            i <= entries@.len(),
            lookup(entries@, name@) == lookup(entries@.skip(i as int), name@),
        decreases entries@.len() - i,
    {
        proof {
            assert(entries@.skip(i as int)[0] == entries@[i as int]);
            assert(entries@.skip(i as int).drop_first() =~= entries@.skip(i as int + 1));
        }
        if crate::text::str_eq(entries[i].0.as_str(), name) {
            return Some(entries[i].1);
        }
        i = i + 1;
    }
    proof {
        assert(entries@.skip(i as int) =~= Seq::<(String, JsOptionValue)>::empty());
    }
    None
}

/// Whether the schema lists the property `name`.
pub fn schema_supports(props: &Vec<JsConfigProperty>, name: &str) -> (r: bool)
    ensures
        r == name_supported(props@, name@),
{
    let mut i: usize = 0;
    while i < props.len()
        invariant
            i <= props@.len(),
            forall|j: int| 0 <= j < i ==> #[trigger] props@[j].name@ != name@,
        decreases props@.len() - i,
    {
        if crate::text::str_eq(props[i].name.as_str(), name) {
            return true;
        }
        i = i + 1;
    }
    proof {
        if name_supported(props@, name@) {
            let j = choose|j: int| 0 <= j < props@.len() && #[trigger] props@[j].name@ == name@;
        }
    }
    false
}

} // verus!
