//! The record that is kept of the verdict that was reported last. This module
//! says how it is laid out, how it is asked for, and how the verdict is read
//! back from the answer.
//!
//! A record holds each of its attributes under a name of its own. The table
//! keeps one record under the fixed key: a write replaces what was there, so
//! that writing the same observation twice leaves one record.

use crate::config::Config;
use crate::status::Status;
use crate::time::rfc3339_text;
use vstd::prelude::*;

verus! {

/// The key under which the one record is kept.
pub const STATUS_TABLE_PK_VALUE: &'static str = "medici";

/// What an attribute holds, as far as the probe reads it.
pub enum Value {
    /// A text.
    Text(Seq<char>),
    /// A boolean.
    Flag(bool),
    /// Anything else.
    Other,
}

/// A record as the contracts see it: what it holds under each name.
pub type Record = Map<Seq<char>, Value>;

/// What an attribute of a stored record holds.
#[derive(Clone, Debug, PartialEq, Eq)]
pub enum AttributeValue {
    /// A string.
    S(String),
    /// A boolean.
    Bool(bool),
    /// A value of a kind that the probe neither writes nor reads.
    Other,
}

impl View for AttributeValue {
    type V = Value;

    open spec fn view(&self) -> Value {
        match self {
            AttributeValue::S(text) => Value::Text(text@),
            AttributeValue::Bool(flag) => Value::Flag(*flag),
            AttributeValue::Other => Value::Other,
        }
    }
}

/// One named attribute of a stored record.
#[derive(Clone, Debug, PartialEq, Eq)]
pub struct Attribute {
    pub name: String,
    pub value: AttributeValue,
}

impl View for Attribute {
    type V = (Seq<char>, Value);

    open spec fn view(&self) -> (Seq<char>, Value) {
        (self.name@, self.value@)
    }
}

/// The attributes of `attributes` as the contracts see them, in order.
pub open spec fn entries_of(attributes: Seq<Attribute>) -> Seq<(Seq<char>, Value)> {
    attributes.map_values(|attribute: Attribute| attribute@)
}

/// No name is used by two of the entries.
pub open spec fn distinct_names(entries: Seq<(Seq<char>, Value)>) -> bool {
    forall|i: int, j: int|
        0 <= i < j < entries.len() ==> (#[trigger] entries[i]).0 != (#[trigger] entries[j]).0
}

/// Whether one of the entries has the name `name`.
pub open spec fn has_name(entries: Seq<(Seq<char>, Value)>, name: Seq<char>) -> bool {
    exists|i: int| 0 <= i < entries.len() && (#[trigger] entries[i]).0 == name
}

/// The place of an entry with the name `name`, where there is one.
pub open spec fn index_of(entries: Seq<(Seq<char>, Value)>, name: Seq<char>) -> int {
    choose|i: int| 0 <= i < entries.len() && (#[trigger] entries[i]).0 == name
}

/// The record that the entries make up: under each name that occurs, what the
/// entry of that name holds.
pub open spec fn as_record(entries: Seq<(Seq<char>, Value)>) -> Record {
    Map::new(
        |name: Seq<char>| has_name(entries, name),
        |name: Seq<char>| entries[index_of(entries, name)].1,
    )
}

/// Where no name occurs twice, each entry is what the record holds under its
/// name.
pub proof fn lemma_entry_is_held(entries: Seq<(Seq<char>, Value)>, i: int)
    requires
        distinct_names(entries),
        0 <= i < entries.len(),
    ensures
        as_record(entries).contains_key(entries[i].0),
        as_record(entries)[entries[i].0] == entries[i].1,
{
    let name = entries[i].0;
    assert(has_name(entries, name));
    let k = index_of(entries, name);
    assert(0 <= k < entries.len() && entries[k].0 == name);
    if k < i {
        assert(entries[k].0 != entries[i].0);
    } else if i < k {
        assert(entries[i].0 != entries[k].0);
    }
}

/// Putting a new value in the place of an entry puts it into the record under
/// that entry's name, and leaves the rest of the record as it was.
pub proof fn lemma_replaced_entry(
    entries: Seq<(Seq<char>, Value)>,
    k: int,
    name: Seq<char>,
    value: Value,
)
    requires
        distinct_names(entries),
        0 <= k < entries.len(),
        entries[k].0 == name,
    ensures
        distinct_names(entries.update(k, (name, value))),
        as_record(entries.update(k, (name, value))) == as_record(entries).insert(name, value),
{
    let after = entries.update(k, (name, value));
    assert forall|i: int, j: int| 0 <= i < j < after.len() implies (#[trigger] after[i]).0 != (
    #[trigger] after[j]).0 by {
        assert(entries[i].0 != entries[j].0);
    }
    assert forall|other: Seq<char>| has_name(after, other) == has_name(entries, other) by {
        if has_name(after, other) {
            let i = index_of(after, other);
            assert(entries[i].0 == other);
        }
        if has_name(entries, other) {
            let i = index_of(entries, other);
            assert(after[i].0 == other);
        }
    }
    assert forall|other: Seq<char>| has_name(after, other) implies #[trigger] as_record(after)[other]
        == as_record(entries).insert(name, value)[other] by {
        if other == name {
            lemma_entry_is_held(after, k);
        } else {
            let i = index_of(entries, other);
            assert(entries[i].0 == other);
            assert(after[i] == entries[i]);
            lemma_entry_is_held(after, i);
            lemma_entry_is_held(entries, i);
        }
    }
    assert(as_record(after) =~= as_record(entries).insert(name, value));
}

/// Adding an entry under a name that does not occur yet puts it into the
/// record, and leaves the rest of the record as it was.
pub proof fn lemma_added_entry(entries: Seq<(Seq<char>, Value)>, name: Seq<char>, value: Value)
    requires
        distinct_names(entries),
        !has_name(entries, name),
    ensures
        distinct_names(entries.push((name, value))),
        as_record(entries.push((name, value))) == as_record(entries).insert(name, value),
{
    let after = entries.push((name, value));
    let last = entries.len() as int;
    assert forall|i: int, j: int| 0 <= i < j < after.len() implies (#[trigger] after[i]).0 != (
    #[trigger] after[j]).0 by {
        if j < last {
            assert(entries[i].0 != entries[j].0);
        } else {
            assert(entries[i].0 != name);
        }
    }
    assert forall|other: Seq<char>| has_name(after, other) == (other == name || has_name(
        entries,
        other,
    )) by {
        if has_name(after, other) {
            let i = index_of(after, other);
            if i < last {
                assert(entries[i].0 == other);
            }
        }
        if has_name(entries, other) {
            let i = index_of(entries, other);
            assert(after[i].0 == other);
        }
        if other == name {
            assert(after[last].0 == other);
        }
    }
    assert forall|other: Seq<char>| has_name(after, other) implies #[trigger] as_record(after)[other]
        == as_record(entries).insert(name, value)[other] by {
        if other == name {
            lemma_entry_is_held(after, last);
        } else {
            let i = index_of(entries, other);
            assert(entries[i].0 == other);
            assert(after[i] == entries[i]);
            lemma_entry_is_held(after, i);
            lemma_entry_is_held(entries, i);
        }
    }
    assert(as_record(after) =~= as_record(entries).insert(name, value));
}

/// One stored record: attributes, each under a name of its own.
#[derive(Debug)]
pub struct Item {
    attributes: Vec<Attribute>,
}

impl Clone for Item {
    fn clone(&self) -> (copy: Item)
        ensures
            copy.wf(),
            copy.entries() == self.entries(),
            copy@ == self@,
    {
        let mut attributes: Vec<Attribute> = Vec::new();
        let mut i: usize = 0;
        while i < self.attributes.len()
            invariant
                i <= self.attributes.len(),
                attributes@.len() == i,
                forall|j: int| 0 <= j < i ==> (#[trigger] attributes@[j])@ == self.attributes@[j]@,
            decreases self.attributes.len() - i,
        {
            let attribute = &self.attributes[i];
            let value = match &attribute.value {
                AttributeValue::S(text) => AttributeValue::S(text.clone()),
                AttributeValue::Bool(flag) => AttributeValue::Bool(*flag),
                AttributeValue::Other => AttributeValue::Other,
            };
            attributes.push(Attribute { name: attribute.name.clone(), value });
            i += 1;
        }
        proof {
            use_type_invariant(self);
            assert(entries_of(attributes@) =~= self.entries());
        }
        Item { attributes }
    }
}

impl View for Item {
    type V = Record;

    open spec fn view(&self) -> Record {
        as_record(self.entries())
    }
}

/// Why a stored record gives no verdict.
#[derive(Clone, Copy, Debug, PartialEq, Eq, Structural)]
pub enum RecordError {
    /// The record has no attribute `healthy`.
    NoHealthyAttribute,
    /// The attribute `healthy` is not a boolean.
    HealthyNotBoolean,
}

/// The record of a verdict and of the text of the time at which it was
/// reached, under the fixed key.
pub open spec fn record(healthy: bool, changed_at: Seq<char>) -> Record {
    Map::<Seq<char>, Value>::empty().insert("pk"@, Value::Text(STATUS_TABLE_PK_VALUE@)).insert(
        "healthy"@,
        Value::Flag(healthy),
    ).insert("changed_at"@, Value::Text(changed_at))
}

/// The record that is written for an observation: the fixed key, the verdict,
/// and the time of the observation as RFC 3339 text.
pub open spec fn record_of(status: Status) -> Record {
    record(
        status.is_healthy(),
        rfc3339_text(status.checked_at.seconds(), status.checked_at.subsec_nanos()),
    )
}

/// The verdict that was reported last, read from the answer to the query for
/// the newest record: healthy where there is no record yet, else what the
/// first record holds under `healthy`.
pub open spec fn last_verdict(records: Seq<Record>) -> Result<bool, RecordError> {
    if records.len() == 0 {
        Ok(true)
    } else if !records[0].contains_key("healthy"@) {
        Err(RecordError::NoHealthyAttribute)
    } else {
        match records[0]["healthy"@] {
            Value::Flag(healthy) => Ok(healthy),
            _ => Err(RecordError::HealthyNotBoolean),
        }
    }
}

/// The records of `items`, in order.
pub open spec fn records_of(items: Seq<Item>) -> Seq<Record> {
    items.map_values(|item: Item| item@)
}

impl Item {
    /// The attributes in the order in which they are held.
    pub closed spec fn entries(&self) -> Seq<(Seq<char>, Value)> {
        entries_of(self.attributes@)
    }

    /// No name is used by two attributes.
    #[verifier::type_invariant]
    pub closed spec fn wf(&self) -> bool {
        distinct_names(entries_of(self.attributes@))
    }

    /// A record without attributes.
    pub fn new() -> (item: Item)
        ensures
            item.wf(),
            item.entries().len() == 0,
            item@ == Map::<Seq<char>, Value>::empty(),
    {
        let item = Item { attributes: Vec::new() };
        proof {
            assert(item@ =~= Map::<Seq<char>, Value>::empty());
        }
        item
    }

    /// How many attributes the record has.
    pub fn len(&self) -> (len: usize)
        ensures
            len == self.entries().len(),
    {
        self.attributes.len()
    }

    /// Where the attribute named `name` is held, if the record has one.
    fn position(&self, name: &String) -> (found: Option<usize>)
        ensures
            match found {
                Some(i) => i < self.entries().len() && self.entries()[i as int].0 == name@,
                None => !has_name(self.entries(), name@),
            },
    {
        let mut i: usize = 0;
        while i < self.attributes.len()
            invariant
                i <= self.attributes.len(),
                forall|j: int| 0 <= j < i ==> (#[trigger] self.entries()[j]).0 != name@,
            decreases self.attributes.len() - i,
        {
            if self.attributes[i].name == *name {
                return Some(i);
            }
            i += 1;
        }
        None
    }

    /// What the record holds under `name`, if it holds anything.
    pub fn get(&self, name: &str) -> (found: Option<&AttributeValue>)
        ensures
            match found {
                Some(value) => self@.contains_key(name@) && self@[name@] == value@,
                None => !self@.contains_key(name@),
            },
    {
        let wanted = name.to_string();
        match self.position(&wanted) {
            Some(i) => {
                proof {
                    use_type_invariant(self);
                    lemma_entry_is_held(self.entries(), i as int);
                }
                Some(&self.attributes[i].value)
            },
            None => None,
        }
    }

    /// Puts `value` under `name`, in the place of what the record held there.
    pub fn insert(self, name: String, value: AttributeValue) -> (item: Item)
        ensures
            item.wf(),
            item@ == self@.insert(name@, value@),
    {
        proof {
            use_type_invariant(&self);
        }
        let ghost before = self.entries();
        let found = self.position(&name);
        let mut attributes = self.attributes;
        match found {
            Some(i) => {
                proof {
                    lemma_replaced_entry(before, i as int, name@, value@);
                }
                attributes.set(i, Attribute { name, value });
                assert(entries_of(attributes@) =~= before.update(i as int, (name@, value@)));
            },
            None => {
                proof {
                    lemma_added_entry(before, name@, value@);
                }
                attributes.push(Attribute { name, value });
                assert(entries_of(attributes@) =~= before.push((name@, value@)));
            },
        }
        Item { attributes }
    }

    /// The attributes of the record, each under a name of its own.
    pub fn into_attributes(self) -> (attributes: Vec<Attribute>)
        ensures
            entries_of(attributes@) == self.entries(),
            distinct_names(entries_of(attributes@)),
            as_record(entries_of(attributes@)) == self@,
    {
        proof {
            use_type_invariant(&self);
        }
        self.attributes
    }

    /// The record of a verdict and of the text of the time at which it was
    /// reached.
    pub fn of_verdict(healthy: bool, changed_at: String) -> (item: Item)
        ensures
            item.wf(),
            item@ == record(healthy, changed_at@),
    {
        Item::new().insert("pk".to_string(), AttributeValue::S(STATUS_TABLE_PK_VALUE.to_string()))
            .insert("healthy".to_string(), AttributeValue::Bool(healthy)).insert(
            "changed_at".to_string(),
            AttributeValue::S(changed_at),
        )
    }

    /// The record that is written for an observation.
    pub fn from_status(status: &Status) -> (item: Item)
        ensures
            item.wf(),
            item@ == record_of(*status),
    {
        Item::of_verdict(status.healthy(), status.checked_at.to_rfc3339())
    }
}

/// The three attributes of a written record have three names.
pub proof fn lemma_record_names_distinct()
    ensures
        "pk"@ != "healthy"@,
        "pk"@ != "changed_at"@,
        "healthy"@ != "changed_at"@,
{
    reveal_strlit("pk");
    reveal_strlit("healthy");
    reveal_strlit("changed_at");
    assert("pk"@.len() == 2);
    assert("healthy"@.len() == 7);
    assert("changed_at"@.len() == 10);
}

/// The verdict that was reported last, from the answer to the query for the
/// newest record. Without a record the last verdict counts as healthy.
pub fn was_healthy(items: &Vec<Item>) -> (verdict: Result<bool, RecordError>)
    ensures
        verdict == last_verdict(records_of(items@)),
        items@.len() == 0 ==> verdict == Ok::<bool, RecordError>(true),
{
    if items.len() == 0 {
        return Ok(true);
    }
    match items[0].get("healthy") {
        None => Err(RecordError::NoHealthyAttribute),
        Some(AttributeValue::Bool(healthy)) => Ok(*healthy),
        Some(_) => Err(RecordError::HealthyNotBoolean),
    }
}

/// The query for the newest record under the fixed key.
#[derive(Clone, Debug, PartialEq, Eq)]
pub struct StatusQuery {
    /// The table that is asked.
    pub table_name: String,
    /// The condition on the key, with a placeholder for its value.
    pub key_condition_expression: String,
    /// The placeholder.
    pub pk_placeholder: String,
    /// The value that stands for the placeholder.
    pub pk_value: AttributeValue,
    /// How many records are wanted at most.
    pub limit: i32,
    /// Whether the oldest record comes first.
    pub scan_index_forward: bool,
}

/// The query whose answer [`was_healthy`] reads: for the one newest record
/// under the fixed key, in the configured table.
pub fn last_status_query(config: &Config) -> (query: StatusQuery)
    ensures
        query.table_name@ == config.status_table_name@,
        query.key_condition_expression@ == "pk = :pk"@,
        query.pk_placeholder@ == ":pk"@,
        query.pk_value@ == Value::Text(STATUS_TABLE_PK_VALUE@),
        query.limit == 1,
        !query.scan_index_forward,
{
    StatusQuery {
        table_name: config.status_table_name.clone(),
        key_condition_expression: "pk = :pk".to_string(),
        pk_placeholder: ":pk".to_string(),
        pk_value: AttributeValue::S(STATUS_TABLE_PK_VALUE.to_string()),
        limit: 1,
        scan_index_forward: false,
    }
}

/// A write of one record, which replaces the record with the same key.
#[derive(Clone, Debug)]
pub struct PutItem {
    /// The table that is written.
    pub table_name: String,
    /// The record.
    pub item: Item,
}

/// The write that records an observation as the last reported change: its
/// verdict and its time, under the fixed key, in the configured table.
pub fn insert_status_change(status: Status, config: &Config) -> (put: PutItem)
    ensures
        put.table_name@ == config.status_table_name@,
        put.item.wf(),
        put.item@ == record_of(status),
{
    PutItem { table_name: config.status_table_name.clone(), item: Item::from_status(&status) }
}

/// The table as the contracts see it: the record that is kept under each key.
pub type Table = Map<Seq<char>, Record>;

/// The table after the write for an observation.
pub open spec fn written(table: Table, status: Status) -> Table {
    table.insert(STATUS_TABLE_PK_VALUE@, record_of(status))
}

/// The answer of the table to the query for the newest record under the fixed
/// key.
pub open spec fn newest(table: Table) -> Seq<Record> {
    if table.contains_key(STATUS_TABLE_PK_VALUE@) {
        seq![table[STATUS_TABLE_PK_VALUE@]]
    } else {
        Seq::empty()
    }
}

/// What is read back from the record of an observation: its verdict under
/// `healthy`, its time under `changed_at`, the fixed key under `pk`.
pub proof fn lemma_record_holds_verdict_and_time(status: Status)
    ensures
        record_of(status).dom() == set!["pk"@, "healthy"@, "changed_at"@],
        record_of(status)["pk"@] == Value::Text(STATUS_TABLE_PK_VALUE@),
        record_of(status)["healthy"@] == Value::Flag(status.is_healthy()),
        record_of(status)["changed_at"@] == Value::Text(
            rfc3339_text(status.checked_at.seconds(), status.checked_at.subsec_nanos()),
        ),
        last_verdict(seq![record_of(status)]) == Ok::<bool, RecordError>(status.is_healthy()),
{
    lemma_record_names_distinct();
    assert(record_of(status).dom() =~= set!["pk"@, "healthy"@, "changed_at"@]);
}

/// Writing the same observation twice leaves what writing it once leaves: one
/// record under the fixed key, which the query gives back, and from which the
/// verdict of the observation is read.
pub proof fn lemma_write_is_idempotent(table: Table, status: Status)
    ensures
        written(written(table, status), status) == written(table, status),
        written(table, status).dom() == table.dom().insert(STATUS_TABLE_PK_VALUE@),
        newest(written(written(table, status), status)) == seq![record_of(status)],
        last_verdict(newest(written(written(table, status), status))) == Ok::<bool, RecordError>(
            status.is_healthy(),
        ),
{
    lemma_record_holds_verdict_and_time(status);
    assert(written(written(table, status), status) =~= written(table, status));
    assert(written(table, status).dom() =~= table.dom().insert(STATUS_TABLE_PK_VALUE@));
}

/// A write replaces: after the writes for two observations the query gives
/// back the record of the second alone.
pub proof fn lemma_write_replaces(table: Table, first: Status, second: Status)
    ensures
        written(written(table, first), second) == written(table, second),
        newest(written(written(table, first), second)) == seq![record_of(second)],
{
    assert(written(written(table, first), second) =~= written(table, second));
}

/// While nothing has been written under the fixed key, the last verdict
/// counts as healthy.
pub proof fn lemma_cold_start_is_healthy(table: Table)
    requires
        !table.contains_key(STATUS_TABLE_PK_VALUE@),
    ensures
        newest(table).len() == 0,
        last_verdict(newest(table)) == Ok::<bool, RecordError>(true),
{
}

} // verus!
