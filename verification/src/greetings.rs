//! Greeting lookup by primary key.
//!
//! A greeting row carries a semi-structured message payload that the store
//! returns as a blob; the edge that talks to the store parses it and records,
//! per row, either the parsed message or the fact that the blob was
//! malformed. A miss is a real not-found; a malformed payload is a store
//! error, never a partially-parsed object and never a silent default.

use vstd::prelude::*;
use crate::errors::{ApiError, StoreError};

verus! {

/// The message payload embedded in a greeting row. Timestamps are carried in
/// microseconds since the Unix epoch.
#[derive(Clone, Debug, PartialEq, Eq)]
pub struct GreetingMessage {
    pub external_reference: String,
    pub message_id: String,
    pub recipient: String,
    pub sender: String,
    pub heading: String,
    pub message: String,
    pub created: i64,
}

/// One greeting, as the lookup returns it.
#[derive(Clone, Debug, PartialEq, Eq)]
pub struct Greeting {
    pub id: i64,
    pub created: i64,
    pub message: GreetingMessage,
}

/// What the stored payload of one row turned out to be.
#[derive(Clone, Debug, PartialEq, Eq)]
pub enum PayloadParse {
    /// The blob deserialized into a message.
    Parsed(GreetingMessage),
    /// The blob did not deserialize: reading this row is a fatal error.
    Malformed,
}

/// One stored greeting row: its key, its creation time, and what its payload
/// parses to.
#[derive(Clone, Debug, PartialEq, Eq)]
pub struct GreetingRecord {
    pub id: i64,
    pub created: i64,
    pub payload: PayloadParse,
}

/// The first record with the given id, scanning in storage order.
pub open spec fn greeting_lookup(records: Seq<GreetingRecord>, id: i64) -> Option<GreetingRecord>
    decreases records.len(),
{
    if records.len() == 0 {
        None
    } else if records[0].id == id {
        Some(records[0])
    } else {
        greeting_lookup(records.drop_first(), id)
    }
}

/// The greetings table: rows keyed by a unique primary key.
pub struct GreetingTable {
    records: Vec<GreetingRecord>,
}

impl View for GreetingTable {
    type V = Seq<GreetingRecord>;

    closed spec fn view(&self) -> Seq<GreetingRecord> {
        self.records@
    }
}

impl GreetingMessage {
    /// A field-for-field copy, proved equal to the value it copies.
    pub fn duplicate(&self) -> (copy: GreetingMessage)
        ensures
            copy == *self,
    {
        GreetingMessage {
            external_reference: self.external_reference.clone(),
            message_id: self.message_id.clone(),
            recipient: self.recipient.clone(),
            sender: self.sender.clone(),
            heading: self.heading.clone(),
            message: self.message.clone(),
            created: self.created,
        }
    }
}

impl GreetingTable {
    /// Primary keys are unique.
    pub open spec fn wf(&self) -> bool {
        forall|i: int, j: int| 0 <= i < j < self@.len() ==> self@[i].id != self@[j].id
    }

    /// An empty greetings table.
    pub fn new() -> (table: GreetingTable)
        ensures
            table@ == Seq::<GreetingRecord>::empty(),
            table.wf(),
    {
        GreetingTable { records: Vec::new() }
    }

    /// How many greetings the table holds.
    pub fn len(&self) -> (n: usize)
        ensures
            n == self@.len(),
    {
        self.records.len()
    }

    /// Inserts a row under a key not yet present.
    pub fn insert(&mut self, record: GreetingRecord)
        requires
            old(self).wf(),
            forall|i: int| 0 <= i < old(self)@.len() ==> old(self)@[i].id != record.id,
        ensures
            final(self)@ == old(self)@.push(record),
            final(self).wf(),
    {
        self.records.push(record);
    }
}

proof fn lemma_lookup_none_iff_absent(records: Seq<GreetingRecord>, id: i64)
    ensures
        greeting_lookup(records, id) is None <==> forall|k: int|
            0 <= k < records.len() ==> (#[trigger] records[k]).id != id,
    decreases records.len(),
{
    if records.len() > 0 && records[0].id != id {
        lemma_lookup_none_iff_absent(records.drop_first(), id);
        if greeting_lookup(records.drop_first(), id) is None {
            assert forall|k: int|
                0 <= k < records.len() implies (#[trigger] records[k]).id != id by {
                if k > 0 {
                    assert(records.drop_first()[k - 1] == records[k]);
                }
            }
        } else {
            let k = choose|k: int|
                0 <= k < records.drop_first().len() && (#[trigger] records.drop_first()[k]).id
                    == id;
            assert(records[k + 1].id == id);
        }
    }
}

/// Fetches one greeting by primary key. A missing key is `NotFound` — the
/// single-resource analogue of a 404, distinct from an empty list — and a row
/// whose stored payload does not parse is a store error, never a
/// partially-parsed object.
pub fn find_greeting(table: &GreetingTable, id: i64) -> (r: Result<Greeting, ApiError>)
    requires
        table.wf(),
    ensures
        (match greeting_lookup(table@, id) {
            None => r == Err::<Greeting, ApiError>(ApiError::NotFound),
            Some(record) => match record.payload {
                PayloadParse::Parsed(m) => r == Ok::<Greeting, ApiError>(
                    Greeting { id: record.id, created: record.created, message: m },
                ),
                PayloadParse::Malformed => r matches Err(ApiError::ApplicationError(e))
                    && e.message@ == "greeting payload malformed"@,
            },
        }),
        (r == Err::<Greeting, ApiError>(ApiError::NotFound)) <==> (forall|k: int|
            0 <= k < table@.len() ==> (#[trigger] table@[k]).id != id),
{
    proof {
        lemma_lookup_none_iff_absent(table@, id);
        assert(table@.skip(0) =~= table@);
    }
    let n = table.len();
    let mut i: usize = 0;
    while i < n
        invariant
            table.wf(),
            n == table@.len(),
            0 <= i <= n,
            greeting_lookup(table@, id) == greeting_lookup(table@.skip(i as int), id),
            forall|k: int| 0 <= k < i ==> (#[trigger] table@[k]).id != id,
        decreases n - i,
    {
        let record = &table.records[i];
        proof {
            assert(table@.skip(i as int)[0] == table@[i as int]);
            assert(table@.skip(i as int).drop_first() =~= table@.skip(i as int + 1));
        }
        if record.id == id {
            assert(greeting_lookup(table@, id) == Some(table@[i as int]));
            match &record.payload {
                PayloadParse::Parsed(m) => {
                    return Ok(Greeting { id: record.id, created: record.created, message: m.duplicate() });
                },
                PayloadParse::Malformed => {
                    return Err(ApiError::ApplicationError(StoreError {
                        message: "greeting payload malformed".to_owned(),
                    }));
                },
            }
        }
        i += 1;
    }
    proof {
        assert(table@.skip(n as int) =~= Seq::<GreetingRecord>::empty());
    }
    Err(ApiError::NotFound)
}

} // verus!
