//! The signal schema of a device: which of its named signals are stored,
//! under which field id, and whether as numbers or as text.

use vstd::prelude::*;
use crate::string_map::StringMap;

verus! {

/// One signal definition, as it is listed in the shared store for a device
/// and identification code.
#[derive(Debug, Clone, PartialEq, Eq)]
pub struct Signal {
    pub name: String,
    pub cache_size: usize,
    /// The id of the field under which the signal's values are stored.
    pub id: i64,
    /// The label of the signal's type. Only the numeric label is told apart;
    /// every other label means text.
    pub kind: String,
}

/// What the pipeline needs to know of a signal to store one of its values.
#[derive(Debug, Clone, Copy, PartialEq, Eq, Structural)]
pub struct SignalMapping {
    pub cache_size: usize,
    pub id: i64,
    /// Whether the signal's values are numbers.
    pub numb: bool,
}

/// The type label of numeric signals. It holds no ASCII letter, so comparing
/// with it without regard to ASCII case is plain equality.
pub open spec fn numeric_label() -> Seq<char> {
    "\u{6570}\u{5b57}"@
}

/// The mapping that a signal definition stands for.
pub open spec fn mapping_of(signal: Signal) -> SignalMapping {
    SignalMapping {
        cache_size: signal.cache_size,
        id: signal.id,
        numb: signal.kind@ == numeric_label(),
    }
}

/// The schema that a list of entries describes. An entry that could not be
/// decoded (`None`) contributes nothing; of two definitions with the same
/// name the later one counts.
pub open spec fn schema_of(entries: Seq<Option<Signal>>) -> Map<Seq<char>, SignalMapping>
    decreases entries.len(),
{
    if entries.len() == 0 {
        Map::empty()
    } else {
        let earlier = schema_of(entries.drop_last());
        match entries.last() {
            Some(signal) => earlier.insert(signal.name@, mapping_of(signal)),
            None => earlier,
        }
    }
}

/// A list in which no entry could be decoded describes the empty schema.
pub proof fn lemma_schema_of_corrupt_entries(entries: Seq<Option<Signal>>)
    requires
        forall|i: int| 0 <= i < entries.len() ==> entries[i] is None,
    ensures
        schema_of(entries) == Map::<Seq<char>, SignalMapping>::empty(),
    decreases entries.len(),
{
    if entries.len() > 0 {
        lemma_schema_of_corrupt_entries(entries.drop_last());
    }
}

/// Whether entry `i` was decoded and defines the signal `name`.
pub open spec fn defines(entries: Seq<Option<Signal>>, i: int, name: Seq<char>) -> bool {
    0 <= i < entries.len() && entries[i] is Some && entries[i]->0.name@ == name
}

/// A name is in the schema exactly if some decoded entry defines it, and it
/// is mapped as the last such entry says.
pub proof fn lemma_schema_of_names(entries: Seq<Option<Signal>>, name: Seq<char>)
    ensures
        schema_of(entries).contains_key(name) <==> exists|i: int| defines(entries, i, name),
        forall|i: int|
            #[trigger] defines(entries, i, name) && (forall|j: int|
                i < j ==> !defines(entries, j, name)) ==> schema_of(entries)[name] == mapping_of(
                entries[i]->0,
            ),
    decreases entries.len(),
{
    if entries.len() > 0 {
        let earlier = entries.drop_last();
        let last = entries.len() - 1;
        lemma_schema_of_names(earlier, name);
        if schema_of(entries).contains_key(name) {
            if defines(entries, last, name) {
            } else {
                let i = choose|i: int| defines(earlier, i, name);
                assert(defines(entries, i, name));
            }
        }
        assert forall|i: int| defines(entries, i, name) implies schema_of(entries).contains_key(
            name,
        ) by {
            if i < last {
                assert(defines(earlier, i, name));
            }
        }
        assert forall|i: int|
            #[trigger] defines(entries, i, name) && (forall|j: int|
                i < j ==> !defines(entries, j, name)) implies schema_of(entries)[name]
            == mapping_of(entries[i]->0) by {
            if i < last {
                assert(defines(earlier, i, name));
                assert(!defines(entries, last, name));
                assert forall|j: int| i < j implies !defines(earlier, j, name) by {
                    assert(!defines(entries, j, name));
                }
            }
        }
    }
}

/// Whether a type label is the numeric one.
pub fn is_numeric_kind(kind: &str) -> (numeric: bool)
    ensures
        numeric == (kind@ == numeric_label()),
{
    *kind == *"\u{6570}\u{5b57}"
}

/// Builds the schema of a device from the entries listed for it, each
/// either decoded or, where it was corrupt, `None`. Corrupt entries are
/// passed over; the result is empty if nothing else is listed.
pub fn get_mqtt_client_signal(entries: &Vec<Option<Signal>>) -> (mapping: StringMap<
    SignalMapping,
>)
    ensures
        mapping@ == schema_of(entries@),
{
    let mut mapping: StringMap<SignalMapping> = StringMap::new();
    let mut i: usize = 0;
    while i < entries.len()
        invariant
            i <= entries.len(),
            mapping@ == schema_of(entries@.take(i as int)),
        decreases entries.len() - i,
    {
        proof {
            assert(entries@.take(i + 1).drop_last() =~= entries@.take(i as int));
        }
        match &entries[i] {
            Some(signal) => {
                let numb = is_numeric_kind(signal.kind.as_str());
                let value = SignalMapping { cache_size: signal.cache_size, id: signal.id, numb };
                mapping.insert(signal.name.clone(), value);
            },
            None => {},
        }
        i += 1;
    }
    proof {
        assert(entries@.take(i as int) =~= entries@);
    }
    mapping
}

} // verus!
