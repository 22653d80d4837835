//! What the operations on the sensor service amount to, from first query to
//! result, when the service answers each query in one way.
//!
//! The steps of an operation are stated in [`crate::smc`] and
//! [`crate::snapshot`]. Here the service is a function from queries to
//! replies, an operation is run against it until it is over, and the result
//! is shown to be what a plain description of the service's contents says:
//! the value of a key, the keys that can be read, the snapshot.

use vstd::prelude::*;
use vstd::utf8::encode_utf8;
use crate::decode::{be_u32, decoded, fan_index, Decoded};
use crate::error::Error;
use crate::fourcc::{code_text, fourcc_of, law_text_keeps_code};
use crate::snapshot::{
    fans_below, fans_in_order, fresh, is_gpu_temp, is_primary, kept, noted, passed, survey_after,
    survey_begin, temp_of, visit, Fan, Harvest, Snapshot, Survey, SurveyStage,
};
use crate::mean::mean_of;
use crate::smc::{
    index_query, info_after, info_begin, info_query, name_after, outcome, scan_after, scan_begin,
    scan_enter, value_after, value_begin, value_of, value_query, KeyInfo, Next, Reading, Record,
    Reply, Scan, ScanStage, Value,
};

verus! {

/// How an operation ends when it is run against `svc` from the step `p`
/// on, each query being answered by the service, and what is known of the
/// keys then. `fuel` bounds the number of queries; there is no result where
/// it runs out.
pub open spec fn run<M, T>(
    after: spec_fn(M, Map<u32, KeyInfo>, Reply) -> (Next<M, T>, Map<u32, KeyInfo>),
    svc: spec_fn(Record) -> Reply,
    p: Next<M, T>,
    known: Map<u32, KeyInfo>,
    fuel: nat,
) -> (Option<Result<T, Error>>, Map<u32, KeyInfo>)
    decreases fuel,
{
    match p {
        Next::Done(t) => (Some(Ok(t)), known),
        Next::Failed(e) => (Some(Err(e)), known),
        Next::Call(m, q) => if fuel == 0 {
            (None, known)
        } else {
            let (next, learned) = after(m, known, svc(q));
            run(after, svc, next, learned, (fuel - 1) as nat)
        },
    }
}

/// What the service says of the key with the code `key`.
pub open spec fn told(svc: spec_fn(Record) -> Reply, key: u32) -> Result<KeyInfo, Error> {
    match outcome(svc(info_query(key))) {
        Ok(out) => Ok(out.key_info),
        Err(e) => Err(e),
    }
}

/// Whether what is known of the keys is what the service says of them.
pub open spec fn faithful(known: Map<u32, KeyInfo>, svc: spec_fn(Record) -> Reply) -> bool {
    forall|k: u32| #[trigger] known.contains_key(k) ==> told(svc, k) == Ok::<KeyInfo, Error>(known[k])
}

/// What the service says of the key `key`, a key being four bytes.
pub open spec fn info_at(svc: spec_fn(Record) -> Reply, key: Seq<u8>) -> Result<KeyInfo, Error> {
    if key.len() != 4 {
        Err(Error::InvalidKey)
    } else {
        told(svc, fourcc_of(key))
    }
}

/// The value that the service holds for the key `name`: the service is
/// asked for the key, and then for the value.
pub open spec fn value_at(svc: spec_fn(Record) -> Reply, name: Seq<char>) -> Result<Value, Error> {
    let key = fourcc_of(encode_utf8(name));
    match info_at(svc, encode_utf8(name)) {
        Err(e) => Err(e),
        Ok(info) => match outcome(svc(value_query(key, info))) {
            Err(e) => Err(e),
            Ok(out) => value_of(name, info, out),
        },
    }
}

/// What is known of the keys once the service was asked about `key`, if it
/// had to be asked: what it said, where it said something.
pub open spec fn learning(
    svc: spec_fn(Record) -> Reply,
    known: Map<u32, KeyInfo>,
    key: Seq<u8>,
) -> Map<u32, KeyInfo> {
    if key.len() == 4 && !known.contains_key(fourcc_of(key)) {
        match told(svc, fourcc_of(key)) {
            Ok(info) => known.insert(fourcc_of(key), info),
            Err(_) => known,
        }
    } else {
        known
    }
}

/// The steps of a lookup as a function.
pub open spec fn info_steps() -> spec_fn(u32, Map<u32, KeyInfo>, Reply) -> (
    Next<u32, KeyInfo>,
    Map<u32, KeyInfo>,
) {
    |m: u32, k: Map<u32, KeyInfo>, r: Reply| info_after(m, k, r)
}

/// The steps of a read as a function.
pub open spec fn value_steps() -> spec_fn(Reading, Map<u32, KeyInfo>, Reply) -> (
    Next<Reading, Value>,
    Map<u32, KeyInfo>,
) {
    |m: Reading, k: Map<u32, KeyInfo>, r: Reply| value_after(m, k, r)
}

/// More fuel than an operation needs changes nothing.
pub proof fn lemma_fuel<M, T>(
    after: spec_fn(M, Map<u32, KeyInfo>, Reply) -> (Next<M, T>, Map<u32, KeyInfo>),
    svc: spec_fn(Record) -> Reply,
    p: Next<M, T>,
    known: Map<u32, KeyInfo>,
    fuel: nat,
    more: nat,
)
    requires
        run(after, svc, p, known, fuel).0 is Some,
        fuel <= more,
    ensures
        run(after, svc, p, known, more) == run(after, svc, p, known, fuel),
    decreases fuel,
{
    match p {
        Next::Call(m, q) => {
            let (next, learned) = after(m, known, svc(q));
            lemma_fuel(after, svc, next, learned, (fuel - 1) as nat, (more - 1) as nat);
        },
        _ => {},
    }
}

/// What was learned from the service is what the service says.
pub proof fn lemma_learning(svc: spec_fn(Record) -> Reply, known: Map<u32, KeyInfo>, key: Seq<u8>)
    requires
        faithful(known, svc),
    ensures
        faithful(learning(svc, known, key), svc),
        known.submap_of(learning(svc, known, key)),
{
}

/// Looking up a key gives what the service says of it: run against a
/// service of which nothing wrong is known, `read_key_info` ends within one
/// query with [`info_at`], and what it learned is [`learning`].
pub proof fn law_key_info(svc: spec_fn(Record) -> Reply, known: Map<u32, KeyInfo>, key: Seq<u8>)
    requires
        faithful(known, svc),
    ensures
        run(info_steps(), svc, info_begin(known, key), known, 1) == (
            Some(info_at(svc, key)),
            learning(svc, known, key),
        ),
{
    let after = info_steps();
    match info_begin(known, key) {
        Next::Call(m, q) => {
            let (next, learned) = after(m, known, svc(q));
            assert(run(after, svc, info_begin(known, key), known, 1) == run(
                after,
                svc,
                next,
                learned,
                0,
            ));
        },
        _ => {},
    }
}

/// How a pending read of a value ends against a service, and what is
/// known of the keys then.
pub open spec fn reading_at(svc: spec_fn(Record) -> Reply, r: Reading, q: Record, known: Map<
    u32,
    KeyInfo,
>) -> (Result<Value, Error>, Map<u32, KeyInfo>) {
    let (next, learned) = value_after(r, known, svc(q));
    match next {
        Next::Done(v) => (Ok(v), learned),
        Next::Failed(e) => (Err(e), learned),
        Next::Call(r2, q2) => {
            let (last, at_last) = value_after(r2, learned, svc(q2));
            match last {
                Next::Done(v) => (Ok(v), at_last),
                Next::Failed(e) => (Err(e), at_last),
                Next::Call(_, _) => (Err(Error::InvalidKey), at_last),
            }
        },
    }
}

/// A read that has begun under faithful knowledge ends with the value that
/// the service holds.
pub proof fn lemma_reading(svc: spec_fn(Record) -> Reply, known: Map<u32, KeyInfo>, name: Seq<char>)
    requires
        faithful(known, svc),
        value_begin(known, name) is Call,
    ensures
        ({
            let r = value_begin(known, name)->Call_0;
            let q = value_begin(known, name)->Call_1;
            reading_at(svc, r, q, known) == (
                value_at(svc, name),
                learning(svc, known, encode_utf8(name)),
            )
        }),
{
}

/// Reading a key gives the value that the service holds: run against a
/// service of which nothing wrong is known, `read_val` ends within two
/// queries with [`value_at`], and what it learned is [`learning`].
pub proof fn law_value(svc: spec_fn(Record) -> Reply, known: Map<u32, KeyInfo>, name: Seq<char>)
    requires
        faithful(known, svc),
    ensures
        run(value_steps(), svc, value_begin(known, name), known, 2) == (
            Some(value_at(svc, name)),
            learning(svc, known, encode_utf8(name)),
        ),
{
    let after = value_steps();
    match value_begin(known, name) {
        Next::Call(r, q) => {
            lemma_reading(svc, known, name);
            let (next, learned) = after(r, known, svc(q));
            assert(run(after, svc, value_begin(known, name), known, 2) == run(
                after,
                svc,
                next,
                learned,
                1,
            ));
            match next {
                Next::Call(r2, q2) => {
                    let (last, at_last) = after(r2, learned, svc(q2));
                    assert(run(after, svc, next, learned, 1) == run(after, svc, last, at_last, 0));
                },
                _ => {},
            }
        },
        _ => {},
    }
}

/// The name of the key that the service has at `index`.
pub open spec fn name_at(svc: spec_fn(Record) -> Reply, index: u32) -> Result<Seq<char>, Error> {
    match outcome(svc(index_query(index))) {
        Err(e) => Err(e),
        Ok(out) => match code_text(out.key) {
            Some(name) => Ok(name),
            None => Err(Error::InvalidText),
        },
    }
}

/// The steps of a query for a name as a function: nothing is learned.
pub open spec fn name_steps() -> spec_fn(u32, Map<u32, KeyInfo>, Reply) -> (
    Next<u32, Seq<char>>,
    Map<u32, KeyInfo>,
) {
    |m: u32, k: Map<u32, KeyInfo>, r: Reply| (name_after(r), k)
}

/// Asking for the key at an index gives the name that the service has
/// there: `key_by_index` ends within one query with [`name_at`].
pub proof fn law_key_name(svc: spec_fn(Record) -> Reply, known: Map<u32, KeyInfo>, index: u32)
    ensures
        run(
            name_steps(),
            svc,
            Next::<u32, Seq<char>>::Call(index, index_query(index)),
            known,
            1,
        ) == (Some(name_at(svc, index)), known),
{
    let first = Next::<u32, Seq<char>>::Call(index, index_query(index));
    let next = name_after(svc(index_query(index)));
    assert(run(name_steps(), svc, first, known, 1) == run(name_steps(), svc, next, known, 0));
}

/// A key that the service names is a key that can be asked for: its name is
/// four bytes long, and asking for it by name asks for the code that the
/// service gave.
pub proof fn law_named_key(svc: spec_fn(Record) -> Reply, index: u32)
    requires
        name_at(svc, index) is Ok,
    ensures
        ({
            let name = name_at(svc, index)->Ok_0;
            let code = outcome(svc(index_query(index)))->Ok_0.key;
            &&& encode_utf8(name).len() == 4
            &&& fourcc_of(encode_utf8(name)) == code
            &&& info_at(svc, encode_utf8(name)) == told(svc, code)
        }),
{
    law_text_keeps_code(outcome(svc(index_query(index)))->Ok_0.key);
}

/// The key that discovery finds at `index`: the key that the service names
/// there, if its value can be read.
pub open spec fn found_at(svc: spec_fn(Record) -> Reply, index: u32) -> Option<Seq<char>> {
    match name_at(svc, index) {
        Ok(name) => if value_at(svc, name) is Ok {
            Some(name)
        } else {
            None
        },
        Err(_) => None,
    }
}

/// The keys that discovery finds at the indices below `bound`, in the
/// order of the indices.
pub open spec fn keys_below(svc: spec_fn(Record) -> Reply, bound: nat) -> Seq<Seq<char>>
    decreases bound,
{
    if bound == 0 {
        Seq::empty()
    } else {
        match found_at(svc, (bound - 1) as u32) {
            Some(name) => keys_below(svc, (bound - 1) as nat).push(name),
            None => keys_below(svc, (bound - 1) as nat),
        }
    }
}

/// The number of keys that the service says it has: the big-endian number
/// in the first four bytes of the value of `#KEY`.
pub open spec fn count_at(svc: spec_fn(Record) -> Reply) -> Result<u32, Error> {
    match value_at(svc, "#KEY"@) {
        Err(e) => Err(e),
        Ok(v) => if v.data.len() < 4 {
            Err(Error::ShortPayload)
        } else {
            Ok(be_u32(v.data))
        },
    }
}

/// The keys of the service whose values can be read, in the order of their
/// indices. There are none to be had where the count cannot be read.
pub open spec fn keys_at(svc: spec_fn(Record) -> Reply) -> Result<Seq<Seq<char>>, Error> {
    match count_at(svc) {
        Err(e) => Err(e),
        Ok(count) => Ok(keys_below(svc, count as nat)),
    }
}

/// What is known of the keys once the indices from `from` up to `count`
/// were visited.
pub open spec fn learning_between(
    svc: spec_fn(Record) -> Reply,
    known: Map<u32, KeyInfo>,
    from: nat,
    count: nat,
) -> Map<u32, KeyInfo>
    decreases count - from,
{
    if from >= count {
        known
    } else {
        learning_between(
            svc,
            match name_at(svc, from as u32) {
                Ok(name) => learning(svc, known, encode_utf8(name)),
                Err(_) => known,
            },
            from + 1,
            count,
        )
    }
}

/// What is known of the keys once they were discovered.
pub open spec fn discovering(svc: spec_fn(Record) -> Reply, known: Map<u32, KeyInfo>) -> Map<
    u32,
    KeyInfo,
> {
    let first = learning(svc, known, encode_utf8("#KEY"@));
    match count_at(svc) {
        Err(_) => first,
        Ok(count) => learning_between(svc, first, 0, count as nat),
    }
}

/// The number of queries within which a discovery is over.
pub open spec fn discovery_fuel(svc: spec_fn(Record) -> Reply) -> nat {
    match count_at(svc) {
        Err(_) => 2,
        Ok(count) => (2 + 3 * count) as nat,
    }
}

/// The steps of a scan as a function.
pub open spec fn scan_steps() -> spec_fn(Scan, Map<u32, KeyInfo>, Reply) -> (
    Next<Scan, Seq<Seq<char>>>,
    Map<u32, KeyInfo>,
) {
    |m: Scan, k: Map<u32, KeyInfo>, r: Reply| scan_after(m, k, r)
}

proof fn lemma_learning_between(
    svc: spec_fn(Record) -> Reply,
    known: Map<u32, KeyInfo>,
    from: nat,
    count: nat,
)
    requires
        faithful(known, svc),
    ensures
        faithful(learning_between(svc, known, from, count), svc),
        known.submap_of(learning_between(svc, known, from, count)),
    decreases count - from,
{
    if from < count {
        let next = match name_at(svc, from as u32) {
            Ok(name) => learning(svc, known, encode_utf8(name)),
            Err(_) => known,
        };
        if name_at(svc, from as u32) is Ok {
            lemma_learning(svc, known, encode_utf8(name_at(svc, from as u32)->Ok_0));
        }
        lemma_learning_between(svc, next, from + 1, count);
        vstd::map_lib::lemma_submap_of_trans(known, next, learning_between(svc, known, from, count));
    }
}

/// What a discovery learned is what the service says.
pub proof fn lemma_discovering(svc: spec_fn(Record) -> Reply, known: Map<u32, KeyInfo>)
    requires
        faithful(known, svc),
    ensures
        faithful(discovering(svc, known), svc),
        known.submap_of(discovering(svc, known)),
{
    let first = learning(svc, known, encode_utf8("#KEY"@));
    lemma_learning(svc, known, encode_utf8("#KEY"@));
    match count_at(svc) {
        Err(_) => {},
        Ok(count) => {
            lemma_learning_between(svc, first, 0, count as nat);
            vstd::map_lib::lemma_submap_of_trans(known, first, discovering(svc, known));
        },
    }
}

/// A scan that reads a value goes on, once the value is read or the read
/// has failed, as [`scan_then`] says.
proof fn lemma_scan_reads(
    svc: spec_fn(Record) -> Reply,
    s: Scan,
    q: Record,
    known: Map<u32, KeyInfo>,
    fuel: nat,
)
    requires
        s.stage is Count || s.stage is Value,
        ({
            let r = if s.stage is Count {
                s.stage->Count_0
            } else {
                s.stage->Value_0
            };
            let (res, learned) = reading_at(svc, r, q, known);
            let (first, mid) = value_after(r, known, svc(q));
            &&& first matches Next::Call(r2, q2) ==> !(value_after(r2, mid, svc(q2)).0 is Call)
            &&& run(scan_steps(), svc, scan_then(s, res), learned, fuel).0 is Some
        }),
    ensures
        ({
            let r = if s.stage is Count {
                s.stage->Count_0
            } else {
                s.stage->Value_0
            };
            let (res, learned) = reading_at(svc, r, q, known);
            run(scan_steps(), svc, Next::<Scan, Seq<Seq<char>>>::Call(s, q), known, fuel + 2) == run(
                scan_steps(),
                svc,
                scan_then(s, res),
                learned,
                fuel,
            )
        }),
{
    let r = if s.stage is Count {
        s.stage->Count_0
    } else {
        s.stage->Value_0
    };
    let (res, learned) = reading_at(svc, r, q, known);
    let (next, mid) = scan_after(s, known, svc(q));
    let (first, mid2) = value_after(r, known, svc(q));
    assert(run(scan_steps(), svc, Next::<Scan, Seq<Seq<char>>>::Call(s, q), known, fuel + 2) == run(
        scan_steps(),
        svc,
        next,
        mid,
        (fuel + 1) as nat,
    ));
    match first {
        Next::Call(r2, q2) => {
            let s2 = next->Call_0;
            let (last, at_last) = scan_after(s2, mid, svc(q2));
            assert(run(scan_steps(), svc, next, mid, (fuel + 1) as nat) == run(
                scan_steps(),
                svc,
                last,
                at_last,
                fuel,
            ));
        },
        _ => {
            lemma_fuel(scan_steps(), svc, scan_then(s, res), learned, fuel, fuel + 1);
        },
    }
}

/// How a scan goes on once the value it was reading is read, or the read
/// has failed.
pub open spec fn scan_then(s: Scan, res: Result<Value, Error>) -> Next<Scan, Seq<Seq<char>>> {
    match s.stage {
        ScanStage::Count(_) => match res {
            Err(e) => Next::Failed(e),
            Ok(v) => if v.data.len() < 4 {
                Next::Failed(Error::ShortPayload)
            } else {
                scan_enter(
                    Scan { stage: s.stage, count: be_u32(v.data), index: s.index, keys: s.keys },
                    0,
                )
            },
        },
        ScanStage::Value(r) => match res {
            Ok(_) => scan_enter(
                Scan { stage: s.stage, count: s.count, index: s.index, keys: s.keys.push(r.name) },
                s.index + 1,
            ),
            Err(_) => scan_enter(s, s.index + 1),
        },
        ScanStage::Name => scan_enter(s, s.index + 1),
    }
}

proof fn lemma_scan_from(
    svc: spec_fn(Record) -> Reply,
    count: u32,
    from: nat,
    known: Map<u32, KeyInfo>,
    s: Scan,
)
    requires
        faithful(known, svc),
        from <= count,
        s.count == count,
        s.keys == keys_below(svc, from),
    ensures
        run(scan_steps(), svc, scan_enter(s, from as int), known, (3 * (count - from)) as nat) == (
            Some(Ok::<Seq<Seq<char>>, Error>(keys_below(svc, count as nat))),
            learning_between(svc, known, from, count as nat),
        ),
    decreases count - from,
{
    if from < count {
        let fuel = (3 * (count - from)) as nat;
        let rest = (3 * (count - from - 1)) as nat;
        let here = Scan { stage: ScanStage::Name, count, index: from as u32, keys: s.keys };
        let q = index_query(from as u32);
        assert(scan_enter(s, from as int) == Next::<Scan, Seq<Seq<char>>>::Call(here, q));
        let (next, mid) = scan_after(here, known, svc(q));
        assert(mid == known);
        assert(run(scan_steps(), svc, Next::<Scan, Seq<Seq<char>>>::Call(here, q), known, fuel) == run(
            scan_steps(),
            svc,
            next,
            known,
            (fuel - 1) as nat,
        ));
        let learned = match name_at(svc, from as u32) {
            Ok(name) => learning(svc, known, encode_utf8(name)),
            Err(_) => known,
        };
        if name_at(svc, from as u32) is Ok {
            lemma_learning(svc, known, encode_utf8(name_at(svc, from as u32)->Ok_0));
        }
        let after = Scan { stage: ScanStage::Name, count, index: 0, keys: keys_below(svc, from + 1) };
        lemma_scan_from(svc, count, from + 1, learned, after);
        match name_at(svc, from as u32) {
            Ok(name) => {
                match value_begin(known, name) {
                    Next::Call(r, q2) => {
                        lemma_reading(svc, known, name);
                        let reading = Scan {
                            stage: ScanStage::Value(r),
                            count,
                            index: from as u32,
                            keys: s.keys,
                        };
                        assert(next == Next::<Scan, Seq<Seq<char>>>::Call(reading, q2));
                        let (res, got) = reading_at(svc, r, q2, known);
                        assert(scan_then(reading, res) == scan_enter(after, from as int + 1));
                        lemma_scan_reads(svc, reading, q2, known, rest);
                    },
                    _ => {
                        assert(next == scan_enter(after, from as int + 1));
                        lemma_fuel(scan_steps(), svc, next, known, rest, (fuel - 1) as nat);
                    },
                }
            },
            Err(_) => {
                assert(next == scan_enter(after, from as int + 1));
                lemma_fuel(scan_steps(), svc, next, known, rest, (fuel - 1) as nat);
            },
        }
    }
}

/// Discovery finds the keys that can be read: run against a service of
/// which nothing wrong is known, `read_all_keys` ends within
/// [`discovery_fuel`] queries with [`keys_at`]: the keys that the service
/// names at the indices below its count and whose values it gives, in the
/// order of the indices. What it learned on the way is what the service
/// says, and nothing that was known is lost.
pub proof fn law_discovery(svc: spec_fn(Record) -> Reply, known: Map<u32, KeyInfo>)
    requires
        faithful(known, svc),
    ensures
        run(scan_steps(), svc, scan_begin(known), known, discovery_fuel(svc)) == (
            Some(keys_at(svc)),
            discovering(svc, known),
        ),
        faithful(discovering(svc, known), svc),
        known.submap_of(discovering(svc, known)),
{
    lemma_discovering(svc, known);
    let name = "#KEY"@;
    match value_begin(known, name) {
        Next::Call(r, q) => {
            lemma_reading(svc, known, name);
            lemma_learning(svc, known, encode_utf8(name));
            let s = Scan { stage: ScanStage::Count(r), count: 0, index: 0, keys: Seq::empty() };
            let (res, learned) = reading_at(svc, r, q, known);
            match count_at(svc) {
                Ok(count) => {
                    let counted = Scan {
                        stage: s.stage,
                        count,
                        index: 0,
                        keys: keys_below(svc, 0),
                    };
                    lemma_scan_from(svc, count, 0, learned, counted);
                    assert(scan_then(s, res) == scan_enter(counted, 0));
                    lemma_scan_reads(svc, s, q, known, (3 * count) as nat);
                },
                Err(_) => {
                    lemma_scan_reads(svc, s, q, known, 0);
                },
            }
        },
        _ => {},
    }
}

/// The temperature that a key adds to the snapshot: the key names a GPU
/// temperature and no fan, the service knows it and gives its value, and
/// the value is a number other than zero.
pub open spec fn temp_at(svc: spec_fn(Record) -> Reply, key: Seq<char>) -> Option<Decoded> {
    if fan_index(encode_utf8(key)) is Some || !is_gpu_temp(key) {
        None
    } else {
        match info_at(svc, encode_utf8(key)) {
            Err(_) => None,
            Ok(info) => match value_at(svc, key) {
                Err(_) => None,
                Ok(v) => match temp_of(is_primary(info), v) {
                    Some(d) => if d.zero() {
                        None
                    } else {
                        Some(d)
                    },
                    None => None,
                },
            },
        }
    }
}

/// The fan that a key adds to the snapshot: the key is a fan-speed key, and
/// the service gives its value, which is a number.
pub open spec fn fan_at(svc: spec_fn(Record) -> Reply, key: Seq<char>) -> Option<Fan> {
    match fan_index(encode_utf8(key)) {
        None => None,
        Some(index) => match value_at(svc, key) {
            Err(_) => None,
            Ok(v) => match decoded(v.unit, v.data) {
                Some(rpm) => Some(Fan { index, rpm, key: v.name, encoding: v.unit }),
                None => None,
            },
        },
    }
}

/// The temperatures that the keys add, in the order of the keys.
pub open spec fn temps_of(svc: spec_fn(Record) -> Reply, keys: Seq<Seq<char>>) -> Seq<Decoded> {
    keys.filter_map(|key: Seq<char>| temp_at(svc, key))
}

/// The fans that the keys add, by index: of two keys for one index the
/// later counts.
pub open spec fn fans_of(svc: spec_fn(Record) -> Reply, keys: Seq<Seq<char>>) -> Map<u8, Fan>
    decreases keys.len(),
{
    if keys.len() == 0 {
        Map::empty()
    } else {
        match fan_at(svc, keys.last()) {
            Some(f) => fans_of(svc, keys.drop_last()).insert(f.index, f),
            None => fans_of(svc, keys.drop_last()),
        }
    }
}

/// The keys of the service that a survey visits: those that can be read,
/// and none where they cannot be discovered.
pub open spec fn surveyed(svc: spec_fn(Record) -> Reply) -> Seq<Seq<char>> {
    match keys_at(svc) {
        Ok(keys) => keys,
        Err(_) => Seq::empty(),
    }
}

/// The snapshot of a service: the GPU temperatures other than zero, in the
/// order of their keys, with their mean, and the fans in the order of their
/// indices.
pub open spec fn snapshot_at(svc: spec_fn(Record) -> Reply) -> Snapshot {
    Snapshot {
        gpu_temp_avg: mean_of(temps_of(svc, surveyed(svc))),
        gpu_temps: temps_of(svc, surveyed(svc)),
        fans: fans_in_order(fans_of(svc, surveyed(svc))),
    }
}

/// What is known of the keys once the keys from position `from` on were
/// visited: the service was asked about the fan-speed keys and the GPU
/// temperature keys among them.
pub open spec fn learning_keys(
    svc: spec_fn(Record) -> Reply,
    known: Map<u32, KeyInfo>,
    keys: Seq<Seq<char>>,
    from: nat,
) -> Map<u32, KeyInfo>
    decreases keys.len() - from,
{
    if from >= keys.len() {
        known
    } else {
        let key = keys[from as int];
        learning_keys(
            svc,
            if fan_index(encode_utf8(key)) is Some || is_gpu_temp(key) {
                learning(svc, known, encode_utf8(key))
            } else {
                known
            },
            keys,
            from + 1,
        )
    }
}

/// What is known of the keys once the service was surveyed.
pub open spec fn surveying(svc: spec_fn(Record) -> Reply, known: Map<u32, KeyInfo>) -> Map<
    u32,
    KeyInfo,
> {
    learning_keys(svc, discovering(svc, known), surveyed(svc), 0)
}

/// The number of queries within which a survey is over.
pub open spec fn survey_fuel(svc: spec_fn(Record) -> Reply) -> nat {
    discovery_fuel(svc) + 2 * surveyed(svc).len()
}

/// The steps of a survey as a function.
pub open spec fn survey_steps() -> spec_fn(Survey, Map<u32, KeyInfo>, Reply) -> (
    Next<Survey, Snapshot>,
    Map<u32, KeyInfo>,
) {
    |m: Survey, k: Map<u32, KeyInfo>, r: Reply| survey_after(m, k, r)
}

/// How a survey goes on once the value it was reading is read, or the read
/// has failed.
pub open spec fn survey_then(s: Survey, res: Result<Value, Error>, learned: Map<u32, KeyInfo>) -> Next<
    Survey,
    Snapshot,
> {
    let h = s.harvest;
    match res {
        Err(_) => visit(learned, passed(h)),
        Ok(v) => match s.stage {
            SurveyStage::Fan(index, _) => visit(
                learned,
                Harvest {
                    keys: h.keys,
                    pos: h.pos + 1,
                    temps: h.temps,
                    fans: noted(h.fans, index, v),
                },
            ),
            SurveyStage::Temp(primary, _) => visit(
                learned,
                Harvest {
                    keys: h.keys,
                    pos: h.pos + 1,
                    temps: kept(h.temps, temp_of(primary, v)),
                    fans: h.fans,
                },
            ),
            _ => visit(learned, passed(h)),
        },
    }
}

proof fn lemma_learning_keys(
    svc: spec_fn(Record) -> Reply,
    known: Map<u32, KeyInfo>,
    keys: Seq<Seq<char>>,
    from: nat,
)
    requires
        faithful(known, svc),
    ensures
        faithful(learning_keys(svc, known, keys, from), svc),
        known.submap_of(learning_keys(svc, known, keys, from)),
    decreases keys.len() - from,
{
    if from < keys.len() {
        let key = keys[from as int];
        let next = if fan_index(encode_utf8(key)) is Some || is_gpu_temp(key) {
            learning(svc, known, encode_utf8(key))
        } else {
            known
        };
        lemma_learning(svc, known, encode_utf8(key));
        lemma_learning_keys(svc, next, keys, from + 1);
        vstd::map_lib::lemma_submap_of_trans(known, next, learning_keys(svc, known, keys, from));
    }
}

/// A survey that reads a value goes on, once the value is read or the read
/// has failed, as [`survey_then`] says.
proof fn lemma_survey_reads(
    svc: spec_fn(Record) -> Reply,
    s: Survey,
    q: Record,
    known: Map<u32, KeyInfo>,
    fuel: nat,
)
    requires
        s.stage is Fan || s.stage is Temp,
        ({
            let r = if s.stage is Fan {
                s.stage->Fan_1
            } else {
                s.stage->Temp_1
            };
            let (res, learned) = reading_at(svc, r, q, known);
            let (first, mid) = value_after(r, known, svc(q));
            &&& first matches Next::Call(r2, q2) ==> !(value_after(r2, mid, svc(q2)).0 is Call)
            &&& run(survey_steps(), svc, survey_then(s, res, learned), learned, fuel).0 is Some
        }),
    ensures
        ({
            let r = if s.stage is Fan {
                s.stage->Fan_1
            } else {
                s.stage->Temp_1
            };
            let (res, learned) = reading_at(svc, r, q, known);
            run(survey_steps(), svc, Next::<Survey, Snapshot>::Call(s, q), known, fuel + 2) == run(
                survey_steps(),
                svc,
                survey_then(s, res, learned),
                learned,
                fuel,
            )
        }),
{
    let r = if s.stage is Fan {
        s.stage->Fan_1
    } else {
        s.stage->Temp_1
    };
    let (res, learned) = reading_at(svc, r, q, known);
    let (next, mid) = survey_after(s, known, svc(q));
    let (first, mid2) = value_after(r, known, svc(q));
    assert(run(survey_steps(), svc, Next::<Survey, Snapshot>::Call(s, q), known, fuel + 2) == run(
        survey_steps(),
        svc,
        next,
        mid,
        (fuel + 1) as nat,
    ));
    match first {
        Next::Call(r2, q2) => {
            let s2 = next->Call_0;
            let (last, at_last) = survey_after(s2, mid, svc(q2));
            assert(run(survey_steps(), svc, next, mid, (fuel + 1) as nat) == run(
                survey_steps(),
                svc,
                last,
                at_last,
                fuel,
            ));
        },
        _ => {
            lemma_fuel(survey_steps(), svc, survey_then(s, res, learned), learned, fuel, fuel + 1);
        },
    }
}

/// The harvest once the key being visited was dealt with, given that the
/// harvest so far is what the keys before it add.
pub open spec fn harvest_after(svc: spec_fn(Record) -> Reply, h: Harvest) -> Harvest {
    Harvest {
        keys: h.keys,
        pos: h.pos + 1,
        temps: temps_of(svc, h.keys.take(h.pos as int + 1)),
        fans: fans_of(svc, h.keys.take(h.pos as int + 1)),
    }
}

/// Whether a harvest is what the keys before the one being visited add.
pub open spec fn gathered(svc: spec_fn(Record) -> Reply, h: Harvest) -> bool {
    &&& h.pos <= h.keys.len()
    &&& h.temps == temps_of(svc, h.keys.take(h.pos as int))
    &&& h.fans == fans_of(svc, h.keys.take(h.pos as int))
}

proof fn lemma_harvest_after(svc: spec_fn(Record) -> Reply, h: Harvest)
    requires
        gathered(svc, h),
        h.pos < h.keys.len(),
    ensures
        gathered(svc, harvest_after(svc, h)),
        harvest_after(svc, h).temps == match temp_at(svc, h.keys[h.pos as int]) {
            Some(d) => h.temps.push(d),
            None => h.temps,
        },
        harvest_after(svc, h).fans == match fan_at(svc, h.keys[h.pos as int]) {
            Some(f) => h.fans.insert(f.index, f),
            None => h.fans,
        },
{
    let upto = h.keys.take(h.pos as int + 1);
    assert(upto.drop_last() =~= h.keys.take(h.pos as int));
    assert(upto.last() == h.keys[h.pos as int]);
    h.keys.lemma_filter_map_take_succ(|key: Seq<char>| temp_at(svc, key), h.pos as int);
    match temp_at(svc, h.keys[h.pos as int]) {
        Some(d) => {
            assert(h.temps + seq![d] =~= h.temps.push(d));
        },
        None => {
            assert(h.temps + Seq::<Decoded>::empty() =~= h.temps);
        },
    }
}

/// The visit of a key that adds nothing and asks nothing.
proof fn lemma_visit_passes(
    svc: spec_fn(Record) -> Reply,
    known: Map<u32, KeyInfo>,
    h: Harvest,
    target: (Option<Result<Snapshot, Error>>, Map<u32, KeyInfo>),
)
    requires
        gathered(svc, h),
        h.pos < h.keys.len(),
        visit(known, h) == visit(known, passed(h)),
        temp_at(svc, h.keys[h.pos as int]) is None,
        fan_at(svc, h.keys[h.pos as int]) is None,
        target.0 is Some,
        run(
            survey_steps(),
            svc,
            visit(known, harvest_after(svc, h)),
            known,
            (2 * (h.keys.len() - h.pos - 1)) as nat,
        ) == target,
    ensures
        run(survey_steps(), svc, visit(known, h), known, (2 * (h.keys.len() - h.pos)) as nat)
            == target,
{
    lemma_harvest_after(svc, h);
    assert(harvest_after(svc, h) == passed(h));
    lemma_fuel(
        survey_steps(),
        svc,
        visit(known, passed(h)),
        known,
        (2 * (h.keys.len() - h.pos - 1)) as nat,
        (2 * (h.keys.len() - h.pos)) as nat,
    );
}

/// The visit of a key whose value is read, as a fan's speed or as a
/// temperature.
proof fn lemma_visit_reads(
    svc: spec_fn(Record) -> Reply,
    known: Map<u32, KeyInfo>,
    h: Harvest,
    stage: SurveyStage,
    target: (Option<Result<Snapshot, Error>>, Map<u32, KeyInfo>),
)
    requires
        faithful(known, svc),
        gathered(svc, h),
        h.pos < h.keys.len(),
        value_begin(known, h.keys[h.pos as int]) is Call,
        ({
            let key = h.keys[h.pos as int];
            let r = value_begin(known, key)->Call_0;
            match fan_index(encode_utf8(key)) {
                Some(index) => stage == SurveyStage::Fan(index, r),
                None => is_gpu_temp(key) && info_at(svc, encode_utf8(key)) is Ok && stage
                    == SurveyStage::Temp(is_primary(info_at(svc, encode_utf8(key))->Ok_0), r),
            }
        }),
        target.0 is Some,
        run(
            survey_steps(),
            svc,
            visit(learning(svc, known, encode_utf8(h.keys[h.pos as int])), harvest_after(svc, h)),
            learning(svc, known, encode_utf8(h.keys[h.pos as int])),
            (2 * (h.keys.len() - h.pos - 1)) as nat,
        ) == target,
    ensures
        run(
            survey_steps(),
            svc,
            Next::<Survey, Snapshot>::Call(
                Survey { stage, harvest: h },
                value_begin(known, h.keys[h.pos as int])->Call_1,
            ),
            known,
            (2 * (h.keys.len() - h.pos)) as nat,
        ) == target,
{
    let key = h.keys[h.pos as int];
    let r = value_begin(known, key)->Call_0;
    let q = value_begin(known, key)->Call_1;
    let s = Survey { stage, harvest: h };
    let rest = (2 * (h.keys.len() - h.pos - 1)) as nat;
    lemma_harvest_after(svc, h);
    lemma_reading(svc, known, key);
    let (res, got) = reading_at(svc, r, q, known);
    let after = harvest_after(svc, h);
    match res {
        Ok(v) => {
            match fan_index(encode_utf8(key)) {
                Some(index) => {
                    assert(after.fans =~= noted(h.fans, index, v));
                    assert(after.temps == h.temps);
                },
                None => {
                    let info = info_at(svc, encode_utf8(key))->Ok_0;
                    assert(after.temps =~= kept(h.temps, temp_of(is_primary(info), v)));
                    assert(after.fans == h.fans);
                },
            }
        },
        Err(_) => {
            assert(after == passed(h));
        },
    }
    assert(survey_then(s, res, got) == visit(got, after));
    lemma_survey_reads(svc, s, q, known, rest);
}

/// The visit of a GPU temperature key about which the service is asked
/// first.
proof fn lemma_visit_asks(
    svc: spec_fn(Record) -> Reply,
    known: Map<u32, KeyInfo>,
    h: Harvest,
    target: (Option<Result<Snapshot, Error>>, Map<u32, KeyInfo>),
)
    requires
        faithful(known, svc),
        gathered(svc, h),
        h.pos < h.keys.len(),
        fan_index(encode_utf8(h.keys[h.pos as int])) is None,
        is_gpu_temp(h.keys[h.pos as int]),
        info_begin(known, encode_utf8(h.keys[h.pos as int])) is Call,
        target.0 is Some,
        run(
            survey_steps(),
            svc,
            visit(learning(svc, known, encode_utf8(h.keys[h.pos as int])), harvest_after(svc, h)),
            learning(svc, known, encode_utf8(h.keys[h.pos as int])),
            (2 * (h.keys.len() - h.pos - 1)) as nat,
        ) == target,
    ensures
        run(survey_steps(), svc, visit(known, h), known, (2 * (h.keys.len() - h.pos)) as nat)
            == target,
{
    let steps = survey_steps();
    let key = h.keys[h.pos as int];
    let fuel = (2 * (h.keys.len() - h.pos)) as nat;
    let rest = (2 * (h.keys.len() - h.pos - 1)) as nat;
    let learned = learning(svc, known, encode_utf8(key));
    let after = harvest_after(svc, h);
    lemma_harvest_after(svc, h);
    lemma_learning(svc, known, encode_utf8(key));
    let k = info_begin(known, encode_utf8(key))->Call_0;
    let q = info_begin(known, encode_utf8(key))->Call_1;
    let s = Survey { stage: SurveyStage::TempInfo(k), harvest: h };
    assert(visit(known, h) == Next::<Survey, Snapshot>::Call(s, q));
    let (next, mid) = survey_after(s, known, svc(q));
    assert(run(steps, svc, visit(known, h), known, fuel) == run(
        steps,
        svc,
        next,
        mid,
        (fuel - 1) as nat,
    ));
    assert(mid == learned);
    match info_at(svc, encode_utf8(key)) {
        Err(_) => {
            assert(after == passed(h));
            assert(next == visit(learned, after));
            lemma_fuel(steps, svc, visit(learned, after), learned, rest, (fuel - 1) as nat);
        },
        Ok(info) => {
            lemma_reading(svc, learned, key);
            let r = value_begin(learned, key)->Call_0;
            let q2 = value_begin(learned, key)->Call_1;
            let t = Survey { stage: SurveyStage::Temp(is_primary(info), r), harvest: h };
            assert(next == Next::<Survey, Snapshot>::Call(t, q2));
            let (res, got) = reading_at(svc, r, q2, learned);
            assert(got == learned);
            match res {
                Ok(v) => {
                    assert(after.temps =~= kept(h.temps, temp_of(is_primary(info), v)));
                },
                Err(_) => {
                    assert(after == passed(h));
                },
            }
            let (last, at_last) = survey_after(t, learned, svc(q2));
            assert(last == visit(learned, after));
            assert(run(steps, svc, next, learned, (fuel - 1) as nat) == run(
                steps,
                svc,
                last,
                at_last,
                rest,
            ));
        },
    }
}

proof fn lemma_visit(svc: spec_fn(Record) -> Reply, known: Map<u32, KeyInfo>, h: Harvest)
    requires
        faithful(known, svc),
        gathered(svc, h),
    ensures
        run(survey_steps(), svc, visit(known, h), known, (2 * (h.keys.len() - h.pos)) as nat) == (
            Some(
                Ok::<Snapshot, Error>(
                    Snapshot {
                        gpu_temp_avg: mean_of(temps_of(svc, h.keys)),
                        gpu_temps: temps_of(svc, h.keys),
                        fans: fans_in_order(fans_of(svc, h.keys)),
                    },
                ),
            ),
            learning_keys(svc, known, h.keys, h.pos),
        ),
    decreases h.keys.len() - h.pos,
{
    if h.pos >= h.keys.len() {
        assert(h.keys.take(h.pos as int) =~= h.keys);
    } else {
        let key = h.keys[h.pos as int];
        let asked = fan_index(encode_utf8(key)) is Some || is_gpu_temp(key);
        let learned = if asked {
            learning(svc, known, encode_utf8(key))
        } else {
            known
        };
        let target = (
            Some(
                Ok::<Snapshot, Error>(
                    Snapshot {
                        gpu_temp_avg: mean_of(temps_of(svc, h.keys)),
                        gpu_temps: temps_of(svc, h.keys),
                        fans: fans_in_order(fans_of(svc, h.keys)),
                    },
                ),
            ),
            learning_keys(svc, known, h.keys, h.pos),
        );
        lemma_learning(svc, known, encode_utf8(key));
        lemma_harvest_after(svc, h);
        lemma_visit(svc, learned, harvest_after(svc, h));
        if value_begin(known, key) is Call {
            if fan_index(encode_utf8(key)) is Some {
                let index = fan_index(encode_utf8(key))->Some_0;
                let r = value_begin(known, key)->Call_0;
                lemma_visit_reads(svc, known, h, SurveyStage::Fan(index, r), target);
            } else if !is_gpu_temp(key) {
                lemma_visit_passes(svc, known, h, target);
            } else if info_begin(known, encode_utf8(key)) is Call {
                lemma_visit_asks(svc, known, h, target);
            } else {
                let info = info_begin(known, encode_utf8(key))->Done_0;
                let r = value_begin(known, key)->Call_0;
                lemma_visit_reads(svc, known, h, SurveyStage::Temp(is_primary(info), r), target);
            }
        } else {
            assert(learned == known);
            lemma_visit_passes(svc, known, h, target);
        }
    }
}

/// A survey that discovers the keys goes on, once they are discovered or
/// the discovery has failed, to visit them.
proof fn lemma_survey_scans(
    svc: spec_fn(Record) -> Reply,
    scan: Scan,
    q: Record,
    known: Map<u32, KeyInfo>,
    fuel: nat,
    more: nat,
)
    requires
        run(scan_steps(), svc, Next::<Scan, Seq<Seq<char>>>::Call(scan, q), known, fuel).0 is Some,
        ({
            let (res, learned) = run(
                scan_steps(),
                svc,
                Next::<Scan, Seq<Seq<char>>>::Call(scan, q),
                known,
                fuel,
            );
            run(
                survey_steps(),
                svc,
                visit(
                    learned,
                    fresh(
                        match res->0 {
                            Ok(keys) => keys,
                            Err(_) => Seq::empty(),
                        },
                    ),
                ),
                learned,
                more,
            ).0 is Some
        }),
    ensures
        ({
            let (res, learned) = run(
                scan_steps(),
                svc,
                Next::<Scan, Seq<Seq<char>>>::Call(scan, q),
                known,
                fuel,
            );
            run(
                survey_steps(),
                svc,
                Next::<Survey, Snapshot>::Call(
                    Survey { stage: SurveyStage::Scan(scan), harvest: fresh(Seq::empty()) },
                    q,
                ),
                known,
                fuel + more,
            ) == run(
                survey_steps(),
                svc,
                visit(
                    learned,
                    fresh(
                        match res->0 {
                            Ok(keys) => keys,
                            Err(_) => Seq::empty(),
                        },
                    ),
                ),
                learned,
                more,
            )
        }),
    decreases fuel,
{
    let s = Survey { stage: SurveyStage::Scan(scan), harvest: fresh(Seq::empty()) };
    let (next, mid) = scan_after(scan, known, svc(q));
    let (lifted, mid2) = survey_after(s, known, svc(q));
    assert(run(scan_steps(), svc, Next::<Scan, Seq<Seq<char>>>::Call(scan, q), known, fuel) == run(
        scan_steps(),
        svc,
        next,
        mid,
        (fuel - 1) as nat,
    ));
    assert(run(
        survey_steps(),
        svc,
        Next::<Survey, Snapshot>::Call(s, q),
        known,
        fuel + more,
    ) == run(survey_steps(), svc, lifted, mid, (fuel + more - 1) as nat));
    match next {
        Next::Call(scan2, q2) => {
            lemma_survey_scans(svc, scan2, q2, mid, (fuel - 1) as nat, more);
        },
        _ => {
            lemma_fuel(survey_steps(), svc, lifted, mid, more, (fuel + more - 1) as nat);
        },
    }
}

/// A survey gives the snapshot of the service: run against a service of
/// which nothing wrong is known, `read_smc_snapshot` ends within
/// [`survey_fuel`] queries, never fails, and gives [`snapshot_at`]: of the
/// keys that can be read, the GPU temperatures other than zero in the order
/// of the keys, and the fans by index, the later of two keys for one index
/// counting. What it learned on the way is what the service says, and
/// nothing that was known is lost.
pub proof fn law_survey(svc: spec_fn(Record) -> Reply, known: Map<u32, KeyInfo>)
    requires
        faithful(known, svc),
    ensures
        run(survey_steps(), svc, survey_begin(known), known, survey_fuel(svc)) == (
            Some(Ok::<Snapshot, Error>(snapshot_at(svc))),
            surveying(svc, known),
        ),
        faithful(surveying(svc, known), svc),
        known.submap_of(surveying(svc, known)),
{
    law_discovery(svc, known);
    let keys = surveyed(svc);
    let learned = discovering(svc, known);
    lemma_learning_keys(svc, learned, keys, 0);
    vstd::map_lib::lemma_submap_of_trans(known, learned, surveying(svc, known));
    let h = fresh(keys);
    assert(keys.take(0) =~= Seq::<Seq<char>>::empty());
    assert(temps_of(svc, Seq::<Seq<char>>::empty()) =~= Seq::<Decoded>::empty());
    assert(gathered(svc, h));
    lemma_visit(svc, learned, h);
    match scan_begin(known) {
        Next::Call(scan, q) => {
            lemma_survey_scans(svc, scan, q, known, discovery_fuel(svc), 2 * keys.len());
        },
        _ => {},
    }
}

proof fn lemma_fans_of(svc: spec_fn(Record) -> Reply, keys: Seq<Seq<char>>)
    ensures
        forall|i: u8| #[trigger] fans_of(svc, keys).contains_key(i) ==> fans_of(svc, keys)[i].index == i,
    decreases keys.len(),
{
    if keys.len() > 0 {
        lemma_fans_of(svc, keys.drop_last());
    }
}

proof fn lemma_fans_below(fans: Map<u8, Fan>, bound: int)
    requires
        forall|i: u8| #[trigger] fans.contains_key(i) ==> fans[i].index == i,
        0 <= bound <= 256,
    ensures
        forall|i: int|
            0 <= i < fans_below(fans, bound).len() ==> (#[trigger] fans_below(fans, bound)[i]).index
                < bound,
        forall|i: int, j: int|
            0 <= i < j < fans_below(fans, bound).len() ==> (#[trigger] fans_below(fans, bound)[i]).index
                < (#[trigger] fans_below(fans, bound)[j]).index,
    decreases bound,
{
    if bound > 0 {
        lemma_fans_below(fans, bound - 1);
    }
}

proof fn lemma_temps_of(svc: spec_fn(Record) -> Reply, keys: Seq<Seq<char>>)
    ensures
        forall|i: int| 0 <= i < temps_of(svc, keys).len() ==> !(#[trigger] temps_of(svc, keys)[i]).zero(),
    decreases keys.len(),
{
    if keys.len() > 0 {
        lemma_temps_of(svc, keys.drop_last());
        let rest = temps_of(svc, keys.drop_last());
        match temp_at(svc, keys.last()) {
            Some(d) => {
                assert(temps_of(svc, keys) == rest + seq![d]);
            },
            None => {},
        }
    }
}

/// A snapshot holds what it says: its fans stand in the strict order of
/// their indices, so that no index comes twice; none of its temperatures
/// is zero; and its mean is the mean of those temperatures, absent exactly
/// where there is none of them.
pub proof fn law_snapshot_shape(svc: spec_fn(Record) -> Reply)
    ensures
        snapshot_at(svc).gpu_temp_avg == mean_of(snapshot_at(svc).gpu_temps),
        snapshot_at(svc).gpu_temp_avg is None <==> snapshot_at(svc).gpu_temps.len() == 0,
        forall|i: int, j: int|
            0 <= i < j < snapshot_at(svc).fans.len() ==> (#[trigger] snapshot_at(svc).fans[i]).index
                < (#[trigger] snapshot_at(svc).fans[j]).index,
        forall|i: int|
            0 <= i < snapshot_at(svc).gpu_temps.len() ==> !(#[trigger] snapshot_at(
                svc,
            ).gpu_temps[i]).zero(),
{
    lemma_fans_of(svc, surveyed(svc));
    lemma_fans_below(fans_of(svc, surveyed(svc)), 256);
    lemma_temps_of(svc, surveyed(svc));
}

} // verus!
