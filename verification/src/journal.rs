//! Metadata-only, fail-closed idempotency. Interrupted operations are never generated again.
use crate::app::{Input, Saved};
use crate::crypto::{random, sha256, sha256_digest, Drawn};
use crate::encoding::{hex, hex_is_injective, hex_text};
use crate::platform::FileFacts;
use crate::protocol::generator_failed;
use crate::text::{code, comes_before, copy_option, ends_with, order_is_total, order_is_transitive, precedes, starts_with};
use vstd::prelude::*;
use vstd::seq_lib::{to_multiset_build, to_multiset_insert};
use vstd::utf8::encode_utf8;

verus! {

/// Most records that a journal holds.
pub const MAX_RECORDS: usize = 10000;

/// The largest record file.
pub const MAX_RECORD_FILE: u64 = 8192;

/// One operation: its arguments, the version that it was given, and how it ended.
#[derive(Debug)]
pub struct Record {
    pub input: Input,
    pub version: u64,
    pub receipt: Option<Saved>,
    pub error: Option<String>,
    /// Unix seconds; absent in records written before 0.2.
    pub created_at: Option<u64>,
    /// Set by the owner's `delete` command. The record stays so that versions are never reused.
    pub deleted: bool,
}

impl Clone for Record {
    fn clone(&self) -> (copy: Self)
        ensures
            copy == *self,
    {
        Record {
            input: self.input.clone(),
            version: self.version,
            receipt: match &self.receipt {
                Some(receipt) => Some(receipt.clone()),
                None => None,
            },
            error: copy_option(&self.error),
            created_at: self.created_at,
            deleted: self.deleted,
        }
    }
}

/// The name of an operation's record file.
pub open spec fn record_file_name(operation: Seq<char>) -> Seq<char> {
    "op-"@ + hex_text(sha256_digest(encode_utf8(operation))) + ".json"@
}

/// The name of an operation's record file.
pub fn record_file(operation: &str) -> (name: String)
    ensures
        name@ == record_file_name(operation@),
{
    let digest = sha256(operation.as_bytes());
    let mut name = "op-".to_owned();
    name.append(hex(&digest).as_str());
    name.append(".json");
    name
}

/// Whether a file of the state folder holds a record.
pub open spec fn names_record(name: Seq<char>) -> bool {
    "op-"@.is_prefix_of(name) && ".json"@.is_suffix_of(name)
}

/// Whether a file of the state folder holds a record.
pub fn is_record_file(name: &str) -> (result: bool)
    ensures
        result == names_record(name@),
{
    starts_with(name, "op-") && ends_with(name, ".json")
}

/// Checks the state folder: a real folder that only its owner can use. `facts` is missing where there
/// are none.
pub fn check_directory(facts: Option<FileFacts>) -> (result: Result<(), &'static str>)
    ensures
        code(result) == match facts {
            None => Some("state_directory_unavailable"@),
            Some(facts) => if facts.private_folder() {
                None
            } else {
                Some("unsafe_state_directory"@)
            },
        },
{
    match facts {
        None => Err("state_directory_unavailable"),
        Some(facts) => if facts.is_private_folder() {
            Ok(())
        } else {
            Err("unsafe_state_directory")
        },
    }
}

/// Checks the lock file of the state folder.
pub fn check_lock(facts: Option<FileFacts>) -> (result: Result<(), &'static str>)
    ensures
        code(result) == match facts {
            None => Some("state_unavailable"@),
            Some(facts) => if facts.plain_file() {
                None
            } else {
                Some("unsafe_state_directory"@)
            },
        },
{
    match facts {
        None => Err("state_unavailable"),
        Some(facts) => if facts.is_file && !facts.is_symlink {
            Ok(())
        } else {
            Err("unsafe_state_directory")
        },
    }
}

/// Checks a record file before it is read.
pub fn check_record(facts: Option<FileFacts>) -> (result: Result<(), &'static str>)
    ensures
        code(result) == match facts {
            None => Some("state_unavailable"@),
            Some(facts) => if facts.plain_file() && facts.len <= MAX_RECORD_FILE {
                None
            } else {
                Some("invalid_state"@)
            },
        },
        result is Ok <==> facts is Some && facts->0.is_file && !facts->0.is_symlink && facts->0.len <= 8192,
{
    match facts {
        None => Err("state_unavailable"),
        Some(facts) => if facts.is_file && !facts.is_symlink && facts.len <= MAX_RECORD_FILE {
            Ok(())
        } else {
            Err("invalid_state")
        },
    }
}

/// The record of a file: how many bytes were read of it, and what they parsed to. `size` is missing
/// where reading failed, `parsed` where the bytes are no record.
pub fn read(size: Option<usize>, parsed: Option<Record>) -> (result: Result<Record, &'static str>)
    ensures
        match (size, parsed) {
            (None, _) => code(result) == Some("state_unavailable"@),
            (Some(len), Some(record)) => if len <= MAX_RECORD_FILE {
                result == Ok::<Record, &'static str>(record)
            } else {
                code(result) == Some("invalid_state"@)
            },
            (Some(_), None) => code(result) == Some("invalid_state"@),
        },
        result is Ok <==> size is Some && parsed is Some && size->0 <= 8192,
{
    match size {
        None => Err("state_unavailable"),
        Some(len) => match parsed {
            Some(record) => if len as u64 <= MAX_RECORD_FILE {
                Ok(record)
            } else {
                Err("invalid_state")
            },
            None => Err("invalid_state"),
        },
    }
}

/// Why an operation that has a record is not answered with its receipt; `None` where it is.
pub open spec fn replay_refusal(record: Record, input: Input) -> Option<Seq<char>> {
    if !record.input.agrees(input) {
        Some("operation_conflict"@)
    } else if record.deleted {
        Some("secret_deleted"@)
    } else if record.receipt is None {
        Some("operation_interrupted_or_failed"@)
    } else {
        None
    }
}

/// Records are ordered by label, and by version within a label.
pub open spec fn in_order(a: Record, b: Record) -> bool {
    ||| comes_before(a.input.label@, b.input.label@)
    ||| a.input.label@ == b.input.label@ && a.version <= b.version
}

/// Whether records stand in order.
pub open spec fn sorted(records: Seq<Record>) -> bool {
    forall|i: int, j: int| 0 <= i < j < records.len() ==> in_order(#[trigger] records[i], #[trigger] records[j])
}

/// The test for one version of a label.
pub open spec fn has_version(label: Seq<char>, version: u64) -> spec_fn(Record) -> bool {
    |record: Record| record.input.label@ == label && record.version == version
}

/// The records of one version of a label, as they follow each other.
pub open spec fn of_version(records: Seq<Record>, label: Seq<char>, version: u64) -> Seq<Record> {
    records.filter(has_version(label, version))
}

/// Whether two records stand in order.
fn ordered(a: &Record, b: &Record) -> (result: bool)
    ensures
        result == in_order(*a, *b),
{
    precedes(a.input.label.as_str(), b.input.label.as_str()) || (a.input.label == b.input.label && a.version <= b.version)
}

proof fn order_chains(a: Record, b: Record, c: Record)
    ensures
        in_order(a, b) || in_order(b, a),
        in_order(a, b) && in_order(b, c) ==> in_order(a, c),
{
    order_is_total(a.input.label@, b.input.label@);
    if comes_before(a.input.label@, b.input.label@) && comes_before(b.input.label@, c.input.label@) {
        order_is_transitive(a.input.label@, b.input.label@, c.input.label@);
    }
}

/// A file that takes the place of another.
#[derive(Debug)]
pub struct Replacement {
    pub temporary: String,
    pub file: String,
}

impl Replacement {
    /// Whether this writes a record through a file that is named by a nonce.
    pub open spec fn replaces(self, record: Record, nonce: Seq<u8>) -> bool {
        &&& self.temporary@ == ".tmp-"@ + hex_text(nonce)
        &&& self.file@ == record_file_name(record.input.operation_id@)
    }
}

/// An open journal: the records that were read of the state folder so far.
pub struct Journal {
    records: Vec<Record>,
}

impl View for Journal {
    type V = Seq<Record>;

    closed spec fn view(&self) -> Seq<Record> {
        self.records@
    }
}

impl Journal {
    /// A journal that is open and has read nothing: the lock file could be opened, and no other process
    /// holds it.
    pub fn open(opened: bool, locked: bool) -> (result: Result<Journal, &'static str>)
        ensures
            code(result) == if !opened {
                Some("state_unavailable"@)
            } else if !locked {
                Some("vault_busy"@)
            } else {
                None
            },
            result matches Ok(journal) ==> journal@ == Seq::<Record>::empty(),
    {
        if !opened {
            Err("state_unavailable")
        } else if !locked {
            Err("vault_busy")
        } else {
            Ok(Journal { records: Vec::new() })
        }
    }

    /// Checks that one more record may be read.
    pub fn room(&self) -> (result: Result<(), &'static str>)
        ensures
            code(result) == if self@.len() < MAX_RECORDS {
                None
            } else {
                Some("state_capacity_reached"@)
            },
            result is Ok <==> self@.len() < 10000,
    {
        if self.records.len() >= MAX_RECORDS {
            Err("state_capacity_reached")
        } else {
            Ok(())
        }
    }

    /// Adds a record.
    pub fn add(&mut self, record: Record)
        ensures
            final(self)@ == old(self)@.push(record),
    {
        self.records.push(record);
    }

    /// Every record, sorted by label and version. Records of the same version keep their order.
    pub fn records(self) -> (records: Vec<Record>)
        ensures
            sorted(records@),
            records@.to_multiset() == self@.to_multiset(),
            forall|label: Seq<char>, version: u64| #[trigger]
                of_version(records@, label, version) == of_version(self@, label, version),
    {
        let mut source = self.records;
        let ghost whole = source@;
        let mut records: Vec<Record> = Vec::new();
        proof {
            assert(source@.to_multiset().add(records@.to_multiset()) =~= whole.to_multiset()) by {
                vstd::seq_lib::lemma_seq_empty_equality::<Record>(records@);
                Seq::<Record>::empty().to_multiset_ensures();
                assert(records@ =~= Seq::<Record>::empty());
                assert(Seq::<Record>::empty().to_multiset() =~= vstd::multiset::Multiset::<Record>::empty());
            }
            reveal(Seq::filter);
        }
        while source.len() > 0
            invariant
                sorted(records@),
                source@.to_multiset().add(records@.to_multiset()) == whole.to_multiset(),
                forall|label: Seq<char>, version: u64|
                    of_version(source@, label, version) + #[trigger] of_version(records@, label, version) == of_version(whole, label, version),
            decreases source@.len(),
        {
            let ghost before = source@;
            let ghost ready = records@;
            match source.pop() {
                Some(record) => {
                    let place: usize = place_of(&records, &record);
                    records.insert(place, record);
                    proof {
                        to_multiset_build(source@, record);
                        assert(before =~= source@.push(record));
                        to_multiset_insert(ready, place as int, record);
                        assert(records@ =~= ready.insert(place as int, record));
                        assert(source@.to_multiset().add(records@.to_multiset()) =~= before.to_multiset().add(ready.to_multiset()));
                        insertion_keeps_order(ready, place as int, record);
                        assert forall|label: Seq<char>, version: u64|
                            of_version(source@, label, version) + #[trigger] of_version(records@, label, version) == of_version(
                                whole,
                                label,
                                version,
                            ) by {
                            insertion_is_stable(source@, ready, place as int, record, label, version);
                            assert(of_version(before, label, version) + of_version(ready, label, version) == of_version(whole, label, version));
                        }
                    }
                },
                None => {},
            }
        }
        proof {
            assert(source@ =~= Seq::<Record>::empty());
            assert(source@.to_multiset() =~= vstd::multiset::Multiset::<Record>::empty()) by {
                source@.to_multiset_ensures();
            }
            assert(records@.to_multiset() =~= whole.to_multiset());
            reveal(Seq::filter);
            assert forall|label: Seq<char>, version: u64| #[trigger]
                of_version(records@, label, version) == of_version(whole, label, version) by {
                assert(of_version(source@, label, version) + of_version(records@, label, version) =~= of_version(records@, label, version));
            }
        }
        records
    }

    /// The receipt of an operation that was already completed. An operation that has a record is never
    /// started again: it is answered with its receipt or refused.
    pub fn existing(found: Option<Record>, input: &Input) -> (result: Result<Option<Saved>, &'static str>)
        ensures
            match found {
                None => result == Ok::<Option<Saved>, &'static str>(None),
                Some(record) => {
                    &&& code(result) == replay_refusal(record, *input)
                    &&& result is Ok ==> result->Ok_0 == record.receipt && record.receipt is Some
                },
            },
    {
        match found {
            None => Ok(None),
            Some(record) => {
                if !record.input.same(input) {
                    return Err("operation_conflict");
                }
                if record.deleted {
                    return Err("secret_deleted");
                }
                match record.receipt {
                    Some(receipt) => Ok(Some(receipt)),
                    None => Err("operation_interrupted_or_failed"),
                }
            },
        }
    }

    /// Starts an operation: the record that is written before anything is generated.
    pub fn begin(records: &Vec<Record>, input: &Input, now: Option<u64>) -> (result: Result<Record, &'static str>)
        ensures
            exists|newest: u64| #[trigger]
                is_newest(records@, input.label@, newest) && match result {
                    Ok(record) => records@.len() < MAX_RECORDS && is_started(record, *input, newest, now),
                    Err(code) => code@ == "state_capacity_reached"@ && (records@.len() >= MAX_RECORDS || newest == u64::MAX),
                },
            records@.len() >= 10000 ==> result is Err,
            records@.len() < 10000 && result is Err ==> exists|i: int|
                0 <= i < records@.len() && (#[trigger] records@[i]).input.label@ == input.label@ && records@[i].version == u64::MAX,
    {
        let newest: u64 = newest_version(records, &input.label);
        if records.len() >= MAX_RECORDS {
            return Err("state_capacity_reached");
        }
        match newest.checked_add(1) {
            Some(version) => Ok(
                Record { input: input.clone(), version, receipt: None, error: None, created_at: now, deleted: false },
            ),
            None => Err("state_capacity_reached"),
        }
    }

    /// How a record is written: to a new file, which then replaces the operation's record file.
    pub fn write(record: &Record) -> (result: Result<Replacement, &'static str>)
        ensures
            match result {
                Ok(replacement) => exists|nonce: Drawn<16>| replacement.replaces(*record, #[trigger] nonce@),
                Err(code) => code@ == "entropy_unavailable"@ && generator_failed(),
            },
    {
        match random::<16>() {
            Ok(nonce) => {
                let result = Journal::write_with(record, Some(nonce.bytes()));
                assert(result->Ok_0.replaces(*record, nonce@));
                result
            },
            Err(failure) => {
                assert(failure.happened());
                Journal::write_with(record, None)
            },
        }
    }

    /// How a record is written, given 16 random bytes that were drawn or could not be.
    pub fn write_with(record: &Record, nonce: Option<[u8; 16]>) -> (result: Result<Replacement, &'static str>)
        ensures
            match (nonce, result) {
                (Some(nonce), Ok(replacement)) => replacement.replaces(*record, nonce@),
                (None, Err(code)) => code@ == "entropy_unavailable"@,
                _ => false,
            },
    {
        match nonce {
            Some(nonce) => {
                let mut temporary = ".tmp-".to_owned();
                temporary.append(hex(&nonce).as_str());
                Ok(Replacement { temporary, file: record_file(record.input.operation_id.as_str()) })
            },
            None => Err("entropy_unavailable"),
        }
    }
}

/// How many of the sorted records come strictly before a record.
fn place_of(records: &Vec<Record>, record: &Record) -> (place: usize)
    requires
        sorted(records@),
    ensures
        place <= records@.len(),
        forall|i: int| 0 <= i < place ==> !in_order(*record, #[trigger] records@[i]),
        place < records@.len() ==> in_order(*record, records@[place as int]),
{
    let mut place: usize = 0;
    let mut end: usize = records.len();
    while place < end
        invariant
            sorted(records@),
            place <= end <= records@.len(),
            forall|i: int| 0 <= i < place ==> !in_order(*record, #[trigger] records@[i]),
            forall|i: int| end <= i < records@.len() ==> in_order(*record, #[trigger] records@[i]),
        decreases end - place,
    {
        let middle: usize = place + (end - place) / 2;
        proof {
            assert forall|i: int, j: int|
                0 <= i <= j < records@.len() && in_order(*record, #[trigger] records@[i]) implies in_order(*record, #[trigger] records@[j]) by {
                order_chains(*record, records@[i], records@[j]);
            }
        }
        if ordered(record, &records[middle]) {
            end = middle;
        } else {
            place = middle + 1;
        }
    }
    place
}

proof fn insertion_keeps_order(records: Seq<Record>, place: int, record: Record)
    requires
        sorted(records),
        0 <= place <= records.len(),
        forall|i: int| 0 <= i < place ==> !in_order(record, #[trigger] records[i]),
        place < records.len() ==> in_order(record, records[place]),
    ensures
        sorted(records.insert(place, record)),
{
    let all = records.insert(place, record);
    assert forall|i: int, j: int| 0 <= i < j < all.len() implies in_order(#[trigger] all[i], #[trigger] all[j]) by {
        if i < place && j == place {
            order_chains(record, records[i], record);
        } else if i == place {
            if j > place + 1 {
                order_chains(record, records[place], records[j - 1]);
            }
        }
    }
}

/// A record that moves from the end of one list to its place in a sorted one stays where it was among the
/// records of its version.
proof fn insertion_is_stable(source: Seq<Record>, records: Seq<Record>, place: int, record: Record, label: Seq<char>, version: u64)
    requires
        0 <= place <= records.len(),
        forall|i: int| 0 <= i < place ==> !in_order(record, #[trigger] records[i]),
    ensures
        of_version(source.push(record), label, version) + of_version(records, label, version) == of_version(source, label, version)
            + of_version(records.insert(place, record), label, version),
{
    let chosen = has_version(label, version);
    let one = seq![record];
    let head = records.take(place);
    let tail = records.skip(place);
    assert(source.push(record) =~= source + one);
    assert(records =~= head + tail);
    assert(records.insert(place, record) =~= head + (one + tail));
    Seq::filter_distributes_over_add(source, one, chosen);
    Seq::filter_distributes_over_add(head, tail, chosen);
    Seq::filter_distributes_over_add(head, one + tail, chosen);
    Seq::filter_distributes_over_add(one, tail, chosen);
    if chosen(record) {
        assert(head.all(|x: Record| !chosen(x))) by {
            assert forall|i: int| 0 <= i < head.len() implies !chosen(#[trigger] head[i]) by {
                assert(!in_order(record, records[i]));
            }
        }
        head.lemma_all_neg_filter_empty(chosen);
    } else {
        assert(one.all(|x: Record| !chosen(x)));
        one.lemma_all_neg_filter_empty(chosen);
    }
    assert(of_version(source.push(record), label, version) + of_version(records, label, version) =~= of_version(source, label, version)
        + of_version(records.insert(place, record), label, version));
}

/// The greatest version of a label; zero where it has none.
pub open spec fn is_newest(records: Seq<Record>, label: Seq<char>, version: u64) -> bool {
    &&& forall|i: int| 0 <= i < records.len() && (#[trigger] records[i]).input.label@ == label ==> records[i].version <= version
    &&& version > 0 ==> exists|i: int| 0 <= i < records.len() && (#[trigger] records[i]).input.label@ == label && records[i].version == version
}

/// The greatest version of a label; zero where it has none.
pub fn newest_version(records: &Vec<Record>, label: &String) -> (version: u64)
    ensures
        is_newest(records@, label@, version),
{
    let mut version: u64 = 0;
    let mut i: usize = 0;
    while i < records.len()
        invariant
            i <= records@.len(),
            is_newest(records@.take(i as int), label@, version),
        decreases records@.len() - i,
    {
        let ghost seen = records@.take(i as int);
        let ghost now = records@.take(i + 1);
        let ghost before = version;
        if records[i].input.label == *label && records[i].version > version {
            version = records[i].version;
        }
        proof {
            assert(now =~= seen.push(records@[i as int]));
            if version > 0 {
                if version == before {
                    let j = choose|j: int| 0 <= j < seen.len() && (#[trigger] seen[j]).input.label@ == label@ && seen[j].version == version;
                    assert(now[j].input.label@ == label@ && now[j].version == version);
                } else {
                    assert(now[i as int].version == version);
                }
            }
        }
        i += 1;
    }
    assert(records@.take(records@.len() as int) =~= records@);
    version
}

/// The record that a new operation starts with: the next version of its label, neither completed nor
/// failed.
pub open spec fn is_started(record: Record, input: Input, newest: u64, now: Option<u64>) -> bool {
    &&& record.input == input
    &&& record.version == newest + 1
    &&& record.receipt is None
    &&& record.error is None
    &&& record.created_at == now
    &&& !record.deleted
}

/// A journal in which every operation has one record, and every version of a label belongs to one
/// operation.
pub open spec fn kept(records: Seq<Record>) -> bool {
    forall|i: int, j: int|
        0 <= i < j < records.len() ==> {
            &&& (#[trigger] records[i]).input.operation_id@ != (#[trigger] records[j]).input.operation_id@
            &&& records[i].input.label@ != records[j].input.label@ || records[i].version != records[j].version
        }
}

/// Starting a new operation keeps the journal in order: its version is greater than every version
/// that its label ever had, deleted and failed ones too.
pub proof fn starting_keeps_the_journal(records: Seq<Record>, input: Input, newest: u64, now: Option<u64>, record: Record)
    requires
        kept(records),
        forall|i: int| 0 <= i < records.len() ==> (#[trigger] records[i]).input.operation_id@ != input.operation_id@,
        is_newest(records, input.label@, newest),
        is_started(record, input, newest, now),
    ensures
        kept(records.push(record)),
        forall|i: int| 0 <= i < records.len() && (#[trigger] records[i]).input.label@ == input.label@ ==> records[i].version < record.version,
{
}

/// Completing, failing or deleting an operation keeps the journal in order, and keeps the greatest
/// version of every label: no version is free again.
pub proof fn updating_keeps_the_journal(records: Seq<Record>, i: int, updated: Record, label: Seq<char>, newest: u64)
    requires
        kept(records),
        0 <= i < records.len(),
        updated.input.agrees(records[i].input),
        updated.version == records[i].version,
        is_newest(records, label, newest),
    ensures
        kept(records.update(i, updated)),
        is_newest(records.update(i, updated), label, newest),
{
    let after = records.update(i, updated);
    if newest > 0 {
        let j = choose|j: int| 0 <= j < records.len() && (#[trigger] records[j]).input.label@ == label && records[j].version == newest;
        assert(after[j].input.label@ == label && after[j].version == newest);
    }
}

/// The greatest version of a label is one number.
pub proof fn newest_is_unique(records: Seq<Record>, label: Seq<char>, a: u64, b: u64)
    requires
        is_newest(records, label, a),
        is_newest(records, label, b),
    ensures
        a == b,
{
    if a > 0 {
        let i = choose|i: int| 0 <= i < records.len() && (#[trigger] records[i]).input.label@ == label && records[i].version == a;
        assert(records[i].version <= b);
    }
    if b > 0 {
        let i = choose|i: int| 0 <= i < records.len() && (#[trigger] records[i]).input.label@ == label && records[i].version == b;
        assert(records[i].version <= a);
    }
}

/// Every record file is found by a scan of the state folder, and two operations share one only where
/// their digests are equal.
pub proof fn record_files_are_scanned(a: Seq<char>, b: Seq<char>)
    ensures
        names_record(record_file_name(a)),
        record_file_name(a) == record_file_name(b) ==> sha256_digest(encode_utf8(a)) == sha256_digest(encode_utf8(b)),
{
    let head = "op-"@;
    let tail = ".json"@;
    let x = hex_text(sha256_digest(encode_utf8(a)));
    let y = hex_text(sha256_digest(encode_utf8(b)));
    let name = record_file_name(a);
    assert(name.subrange(0, head.len() as int) =~= head);
    assert(name.subrange(name.len() - tail.len(), name.len() as int) =~= tail);
    if name == record_file_name(b) {
        let other = record_file_name(b);
        assert(name.len() == head.len() + x.len() + tail.len() && other.len() == head.len() + y.len() + tail.len());
        assert(name.subrange(head.len() as int, name.len() - tail.len()) =~= x);
        assert(other.subrange(head.len() as int, other.len() - tail.len()) =~= y);
        hex_is_injective(sha256_digest(encode_utf8(a)), sha256_digest(encode_utf8(b)));
    }
}

/// An operation that has a record is answered with its receipt only for the very same label, size and
/// identifier, and only where its secret was saved and not deleted; each other outcome has its own code.
pub proof fn only_the_same_arguments_are_answered(record: Record, input: Input)
    ensures
        record.input.label@ != input.label@ ==> replay_refusal(record, input) == Some("operation_conflict"@),
        record.input.n != input.n ==> replay_refusal(record, input) == Some("operation_conflict"@),
        record.input.operation_id@ != input.operation_id@ ==> replay_refusal(record, input) == Some("operation_conflict"@),
        record.input.label@ == input.label@ && record.input.n == input.n && record.input.operation_id@ == input.operation_id@ ==> {
            &&& record.deleted ==> replay_refusal(record, input) == Some("secret_deleted"@)
            &&& !record.deleted && record.receipt is None ==> replay_refusal(record, input) == Some("operation_interrupted_or_failed"@)
            &&& !record.deleted && record.receipt is Some ==> replay_refusal(record, input) is None
        },
{
}

/// A new operation starts with its own arguments, the time it was given, and nothing else; its version is
/// one more than the greatest version of its label, and one where its label has none.
pub proof fn new_operations_start_clean(records: Seq<Record>, input: Input, newest: u64, now: Option<u64>, record: Record)
    requires
        is_newest(records, input.label@, newest),
        is_started(record, input, newest, now),
    ensures
        record.input.label@ == input.label@,
        record.input.n == input.n,
        record.input.operation_id@ == input.operation_id@,
        record.receipt is None,
        record.error is None,
        record.created_at == now,
        !record.deleted,
        forall|i: int| 0 <= i < records.len() && (#[trigger] records[i]).input.label@ == input.label@ ==> records[i].version < record.version,
        (forall|i: int| 0 <= i < records.len() ==> (#[trigger] records[i]).input.label@ != input.label@) ==> record.version == 1,
        record.version > 1 ==> exists|i: int|
            0 <= i < records.len() && (#[trigger] records[i]).input.label@ == input.label@ && records[i].version + 1 == record.version,
{
    if newest > 0 {
        let i = choose|i: int| 0 <= i < records.len() && (#[trigger] records[i]).input.label@ == input.label@ && records[i].version == newest;
        assert(records[i].version + 1 == record.version);
    }
}

/// In a sorted journal the labels stand in order, and the versions of one label count up.
pub proof fn sorted_journals_count_up(records: Seq<Record>, i: int, j: int)
    requires
        sorted(records),
        0 <= i < j < records.len(),
    ensures
        records[i].input.label@ == records[j].input.label@ ==> records[i].version <= records[j].version,
        records[i].input.label@ != records[j].input.label@ ==> comes_before(records[i].input.label@, records[j].input.label@),
        forall|k: int| i <= k <= j && records[i].input.label@ == records[j].input.label@ ==> (#[trigger] records[k]).input.label@ == records[i].input.label@,
{
    let label = records[i].input.label@;
    order_is_total(label, label);
    assert(in_order(records[i], records[j]));
    assert forall|k: int| i <= k <= j && label == records[j].input.label@ implies (#[trigger] records[k]).input.label@ == label by {
        if i < k < j {
            assert(in_order(records[i], records[k]) && in_order(records[k], records[j]));
            order_is_total(label, records[k].input.label@);
        }
    }
}

/// A record file is `op-`, the hexadecimal digest of the operation's identifier, and `.json`; the file that
/// it is written through is none.
pub proof fn records_have_their_own_files(replacement: Replacement, record: Record, nonce: Seq<u8>)
    requires
        replacement.replaces(record, nonce),
    ensures
        replacement.file@ == "op-"@ + hex_text(sha256_digest(encode_utf8(record.input.operation_id@))) + ".json"@,
        replacement.temporary@ == ".tmp-"@ + hex_text(nonce),
        names_record(replacement.file@),
        !names_record(replacement.temporary@),
{
    record_files_are_scanned(record.input.operation_id@, record.input.operation_id@);
    reveal_strlit("op-");
    reveal_strlit(".tmp-");
    let name = replacement.temporary@;
    assert(name[0] == '.');
    if names_record(name) {
        assert(name.subrange(0, 3)[0] == "op-"@[0]);
    }
}

/// A file holds a record exactly where its name starts with `op-` and ends with `.json`.
pub proof fn record_names_are_spelled_out(name: Seq<char>)
    ensures
        names_record(name) <==> {
            &&& name.len() >= 5
            &&& name[0] == 'o' && name[1] == 'p' && name[2] == '-'
            &&& name[name.len() - 5] == '.' && name[name.len() - 4] == 'j' && name[name.len() - 3] == 's' && name[name.len() - 2] == 'o'
                && name[name.len() - 1] == 'n'
        },
{
    reveal_strlit("op-");
    reveal_strlit(".json");
    let (head, tail) = ("op-"@, ".json"@);
    assert(head.len() == 3 && head[0] == 'o' && head[1] == 'p' && head[2] == '-');
    assert(tail.len() == 5 && tail[0] == '.' && tail[1] == 'j' && tail[2] == 's' && tail[3] == 'o' && tail[4] == 'n');
    if name.len() >= 5 {
        let (start, end) = (name.subrange(0, 3), name.subrange(name.len() - 5, name.len() as int));
        assert(start[0] == name[0] && start[1] == name[1] && start[2] == name[2]);
        assert(end[0] == name[name.len() - 5] && end[1] == name[name.len() - 4] && end[2] == name[name.len() - 3] && end[3] == name[name.len()
            - 2] && end[4] == name[name.len() - 1]);
        if name[0] == 'o' && name[1] == 'p' && name[2] == '-' {
            assert(start =~= head);
        }
        if end[0] == '.' && end[1] == 'j' && end[2] == 's' && end[3] == 'o' && end[4] == 'n' {
            assert(end =~= tail);
        }
    }
}

/// Two nonces never name the same temporary file.
pub proof fn temporary_files_are_distinct(a: Replacement, b: Replacement, record: Record, other: Record, x: Seq<u8>, y: Seq<u8>)
    requires
        a.replaces(record, x),
        b.replaces(other, y),
        a.temporary@ == b.temporary@,
    ensures
        x == y,
{
    let head = ".tmp-"@;
    assert(a.temporary@.skip(head.len() as int) =~= hex_text(x));
    assert(b.temporary@.skip(head.len() as int) =~= hex_text(y));
    hex_is_injective(x, y);
}

} // verus!
