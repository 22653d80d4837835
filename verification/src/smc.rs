//! The sensor controller's key-value service: its records, and the rules
//! by which keys are looked up, values read and the key space discovered.
//!
//! Nothing here calls the service. An operation that needs the service
//! answers with [`Progress::Call`], which carries the record to send and a
//! pending operation; the reply is handed to that operation's `resume`,
//! which again says what follows. What each step does is stated over a
//! mathematical model of the protocol: the functions `*_begin` and
//! `*_after` below.

use vstd::prelude::*;
use vstd::string::StringSliceAdditionalSpecFns;
use vstd::utf8::encode_utf8;
use std::collections::HashMap;
use crate::decode::be_u32;
use crate::error::Error;
use crate::fourcc::{code_text, fourcc_of, fourcc_str_to_u32, fourcc_text};

verus! {

broadcast use vstd::std_specs::hash::group_hash_axioms;

/// The service's version record.
#[derive(Clone, Copy, Debug, PartialEq, Eq, Structural)]
pub struct KeyDataVer {
    pub major: u8,
    pub minor: u8,
    pub build: u8,
    pub reserved: u8,
    pub release: u16,
}

/// The service's power-limit record.
#[derive(Clone, Copy, Debug, PartialEq, Eq, Structural)]
pub struct PLimitData {
    pub version: u16,
    pub length: u16,
    pub cpu_p_limit: u32,
    pub gpu_p_limit: u32,
    pub mem_p_limit: u32,
}

/// What the service knows of a key: the size of its value and the
/// four-character code of the value's type.
#[derive(Clone, Copy, Debug, PartialEq, Eq, Structural)]
pub struct KeyInfo {
    pub data_size: u32,
    pub data_type: u32,
    pub data_attributes: u8,
}

/// The record that goes to the service and comes back from it.
#[derive(Clone, Copy, Debug)]
pub struct KeyData {
    pub key: u32,
    pub vers: KeyDataVer,
    pub p_limit_data: PLimitData,
    pub key_info: KeyInfo,
    pub result: u8,
    pub status: u8,
    pub data8: u8,
    pub data32: u32,
    pub bytes: [u8; 32],
}

/// What one call of the service brought back.
#[derive(Clone, Copy, Debug)]
pub struct CallReply {
    /// The code with which the call itself returned; 0 is success.
    pub kr: i32,
    /// The record the service filled in.
    pub out: KeyData,
}

/// One value as read from the service, not yet decoded.
#[derive(Clone, Debug)]
pub struct SensorVal {
    /// The key under which the value was read.
    pub name: String,
    /// The value's type tag, e.g. `"flt "`.
    pub unit: String,
    /// The value's bytes.
    pub data: Vec<u8>,
}

/// A session with the sensor service: the connection and what has been
/// learned of its keys.
#[derive(Debug)]
pub struct SMC {
    conn: u32,
    cache: HashMap<u32, KeyInfo>,
}

/// How far an operation has come.
#[derive(Debug)]
pub enum Progress<M, T> {
    /// The service must be called with this record, and its reply handed to
    /// the pending operation.
    Call(M, KeyData),
    /// The operation is over and has this result.
    Done(T),
    /// The operation is over and has failed.
    Failed(Error),
}

/// The mathematical content of a [`KeyData`].
pub struct Record {
    pub key: u32,
    pub vers: KeyDataVer,
    pub p_limit_data: PLimitData,
    pub key_info: KeyInfo,
    pub result: u8,
    pub status: u8,
    pub data8: u8,
    pub data32: u32,
    pub bytes: Seq<u8>,
}

/// The mathematical content of a [`CallReply`].
pub struct Reply {
    pub kr: i32,
    pub out: Record,
}

/// The mathematical content of a [`SensorVal`].
pub struct Value {
    pub name: Seq<char>,
    pub unit: Seq<char>,
    pub data: Seq<u8>,
}

/// The mathematical content of a [`Progress`].
pub enum Next<M, T> {
    Call(M, Record),
    Done(T),
    Failed(Error),
}

/// The selector of the service's one method.
pub const SMC_SELECTOR: u32 = 2;

/// The command that asks for the key at an index.
pub const CMD_KEY_BY_INDEX: u8 = 8;

/// The command that asks what the service knows of a key.
pub const CMD_KEY_INFO: u8 = 9;

/// The command that asks for a key's value.
pub const CMD_READ_BYTES: u8 = 5;

/// The result code with which the service says that it has no such key.
pub const RESULT_KEY_NOT_FOUND: u8 = 132;

/// The name of the service class under which the sensor controller is
/// found.
pub const SMC_SERVICE: &'static str = "AppleSMC";

/// The name of the service's entry that takes the calls.
pub const SMC_ENDPOINT: &'static str = "AppleSMCKeysEndpoint";

/// The key under which the service tells how many keys it has.
pub const KEY_COUNT: &'static str = "#KEY";

impl DeepView for KeyInfo {
    type V = KeyInfo;

    open spec fn deep_view(&self) -> KeyInfo {
        *self
    }
}

impl DeepView for KeyData {
    type V = Record;

    open spec fn deep_view(&self) -> Record {
        Record {
            key: self.key,
            vers: self.vers,
            p_limit_data: self.p_limit_data,
            key_info: self.key_info,
            result: self.result,
            status: self.status,
            data8: self.data8,
            data32: self.data32,
            bytes: self.bytes@,
        }
    }
}

impl DeepView for CallReply {
    type V = Reply;

    open spec fn deep_view(&self) -> Reply {
        Reply { kr: self.kr, out: self.out.deep_view() }
    }
}

impl DeepView for SensorVal {
    type V = Value;

    open spec fn deep_view(&self) -> Value {
        Value { name: self.name@, unit: self.unit@, data: self.data@ }
    }
}

impl<M: DeepView, T: DeepView> DeepView for Progress<M, T> {
    type V = Next<M::V, T::V>;

    open spec fn deep_view(&self) -> Next<M::V, T::V> {
        match self {
            Progress::Call(m, q) => Next::Call(m.deep_view(), q.deep_view()),
            Progress::Done(t) => Next::Done(t.deep_view()),
            Progress::Failed(e) => Next::Failed(*e),
        }
    }
}

/// The record in which every field is zero.
pub open spec fn blank() -> Record {
    Record {
        key: 0,
        vers: KeyDataVer { major: 0, minor: 0, build: 0, reserved: 0, release: 0 },
        p_limit_data: PLimitData {
            version: 0,
            length: 0,
            cpu_p_limit: 0,
            gpu_p_limit: 0,
            mem_p_limit: 0,
        },
        key_info: KeyInfo { data_size: 0, data_type: 0, data_attributes: 0 },
        result: 0,
        status: 0,
        data8: 0,
        data32: 0,
        bytes: Seq::new(32, |i: int| 0u8),
    }
}

/// The record that asks for the key at `index`.
pub open spec fn index_query(index: u32) -> Record {
    Record { data8: 8, data32: index, ..blank() }
}

/// The record that asks what the service knows of `key`.
pub open spec fn info_query(key: u32) -> Record {
    Record { data8: 9, key, ..blank() }
}

/// The record that asks for the value of `key`, of which `info` is known.
pub open spec fn value_query(key: u32, info: KeyInfo) -> Record {
    Record { data8: 5, key, key_info: info, ..blank() }
}

/// What a reply amounts to: the record, where the call returned 0 and the
/// service's result code is 0; `KeyNotFound`, where the call returned 0 and
/// the result code is 132; `ReadFailure` with the first nonzero code
/// otherwise.
pub open spec fn outcome(reply: Reply) -> Result<Record, Error> {
    if reply.kr != 0 {
        Err(Error::ReadFailure { code: reply.kr })
    } else if reply.out.result == 132 {
        Err(Error::KeyNotFound)
    } else if reply.out.result != 0 {
        Err(Error::ReadFailure { code: reply.out.result as i32 })
    } else {
        Ok(reply.out)
    }
}

/// The value that a record holds for a key of which `info` is known: the
/// first `info.data_size` of the record's bytes, all 32 where the size is
/// larger. It has no text form where the type's code is not UTF-8.
pub open spec fn value_of(name: Seq<char>, info: KeyInfo, out: Record) -> Result<Value, Error> {
    match code_text(info.data_type) {
        Some(unit) => Ok(
            Value {
                name,
                unit,
                data: out.bytes.take(
                    if info.data_size < 32 {
                        info.data_size as int
                    } else {
                        32
                    },
                ),
            },
        ),
        None => Err(Error::InvalidText),
    }
}

impl Default for KeyDataVer {
    fn default() -> (r: Self)
        ensures
            r == blank().vers,
    {
        KeyDataVer { major: 0, minor: 0, build: 0, reserved: 0, release: 0 }
    }
}

impl Default for PLimitData {
    fn default() -> (r: Self)
        ensures
            r == blank().p_limit_data,
    {
        PLimitData { version: 0, length: 0, cpu_p_limit: 0, gpu_p_limit: 0, mem_p_limit: 0 }
    }
}

impl Default for KeyInfo {
    fn default() -> (r: Self)
        ensures
            r == blank().key_info,
    {
        KeyInfo { data_size: 0, data_type: 0, data_attributes: 0 }
    }
}

impl Default for KeyData {
    fn default() -> (r: Self)
        ensures
            r.deep_view() == blank(),
    {
        let r = KeyData {
            key: 0,
            vers: KeyDataVer { major: 0, minor: 0, build: 0, reserved: 0, release: 0 },
            p_limit_data: PLimitData {
                version: 0,
                length: 0,
                cpu_p_limit: 0,
                gpu_p_limit: 0,
                mem_p_limit: 0,
            },
            key_info: KeyInfo { data_size: 0, data_type: 0, data_attributes: 0 },
            result: 0,
            status: 0,
            data8: 0,
            data32: 0,
            bytes: [0u8; 32],
        };
        assert(r.bytes@ =~= Seq::new(32, |i: int| 0u8));
        r
    }
}

impl KeyData {
    /// The record that asks for the key at `index`.
    pub fn index_query(index: u32) -> (q: KeyData)
        ensures
            q.deep_view() == index_query(index),
    {
        let mut q = KeyData::default();
        q.data8 = CMD_KEY_BY_INDEX;
        q.data32 = index;
        q
    }

    /// The record that asks what the service knows of `key`.
    pub fn info_query(key: u32) -> (q: KeyData)
        ensures
            q.deep_view() == info_query(key),
    {
        let mut q = KeyData::default();
        q.data8 = CMD_KEY_INFO;
        q.key = key;
        q
    }

    /// The record that asks for the value of `key`, of which `info` is
    /// known.
    pub fn value_query(key: u32, info: KeyInfo) -> (q: KeyData)
        ensures
            q.deep_view() == value_query(key, info),
    {
        let mut q = KeyData::default();
        q.data8 = CMD_READ_BYTES;
        q.key = key;
        q.key_info = info;
        q
    }
}

/// The mathematical content of a [`ValueRead`]: the key's name and code,
/// and what is known of the key once the service has said it.
pub struct Reading {
    pub name: Seq<char>,
    pub key: u32,
    pub info: Option<KeyInfo>,
}

/// Where a [`KeyScan`] stands: reading the key count, asking for the key at
/// the current index, or reading that key's value.
pub enum ScanStage {
    Count(Reading),
    Name,
    Value(Reading),
}

/// The mathematical content of a [`KeyScan`].
pub struct Scan {
    pub stage: ScanStage,
    pub count: u32,
    pub index: u32,
    pub keys: Seq<Seq<char>>,
}

/// What the reply to a query for the key at an index amounts to: the
/// key's name, where the four bytes of its code are UTF-8.
pub open spec fn name_after(reply: Reply) -> Next<u32, Seq<char>> {
    match outcome(reply) {
        Err(e) => Next::Failed(e),
        Ok(out) => match code_text(out.key) {
            Some(name) => Next::Done(name),
            None => Next::Failed(Error::InvalidText),
        },
    }
}

/// How looking up a key begins: a key that is not four bytes long is
/// refused, a key already known is answered from memory, and for any other
/// the service is asked.
pub open spec fn info_begin(known: Map<u32, KeyInfo>, key: Seq<u8>) -> Next<u32, KeyInfo> {
    if key.len() != 4 {
        Next::Failed(Error::InvalidKey)
    } else if known.contains_key(fourcc_of(key)) {
        Next::Done(known[fourcc_of(key)])
    } else {
        Next::Call(fourcc_of(key), info_query(fourcc_of(key)))
    }
}

/// How looking up the key with code `key` ends, and what is known of the
/// keys afterwards: what the service says of a key is remembered.
pub open spec fn info_after(key: u32, known: Map<u32, KeyInfo>, reply: Reply) -> (
    Next<u32, KeyInfo>,
    Map<u32, KeyInfo>,
) {
    match outcome(reply) {
        Err(e) => (Next::Failed(e), known),
        Ok(out) => (Next::Done(out.key_info), known.insert(key, out.key_info)),
    }
}

/// How reading the value of the key `name` begins: with the query for the
/// value where the key is known, with the query for the key otherwise.
pub open spec fn value_begin(known: Map<u32, KeyInfo>, name: Seq<char>) -> Next<Reading, Value> {
    let key = fourcc_of(encode_utf8(name));
    if encode_utf8(name).len() != 4 {
        Next::Failed(Error::InvalidKey)
    } else if known.contains_key(key) {
        Next::Call(Reading { name, key, info: Some(known[key]) }, value_query(key, known[key]))
    } else {
        Next::Call(Reading { name, key, info: None }, info_query(key))
    }
}

/// How reading a value goes on when a reply arrives, and what is known of
/// the keys afterwards. A reply that is no success ends the read. The
/// reply to the query for the key is remembered and followed by the query
/// for the value; the reply to that one holds the value.
pub open spec fn value_after(r: Reading, known: Map<u32, KeyInfo>, reply: Reply) -> (
    Next<Reading, Value>,
    Map<u32, KeyInfo>,
) {
    match outcome(reply) {
        Err(e) => (Next::Failed(e), known),
        Ok(out) => match r.info {
            None => (
                Next::Call(
                    Reading { name: r.name, key: r.key, info: Some(out.key_info) },
                    value_query(r.key, out.key_info),
                ),
                known.insert(r.key, out.key_info),
            ),
            Some(info) => (
                match value_of(r.name, info, out) {
                    Ok(v) => Next::Done(v),
                    Err(e) => Next::Failed(e),
                },
                known,
            ),
        },
    }
}

/// How discovering the keys begins: by reading the key count.
pub open spec fn scan_begin(known: Map<u32, KeyInfo>) -> Next<Scan, Seq<Seq<char>>> {
    match value_begin(known, "#KEY"@) {
        Next::Call(r, q) => Next::Call(
            Scan { stage: ScanStage::Count(r), count: 0, index: 0, keys: Seq::empty() },
            q,
        ),
        _ => Next::Failed(Error::InvalidKey),
    }
}

/// How a scan goes on to the key at `index`: it is over where there is no
/// such index, and asks for the key otherwise.
pub open spec fn scan_enter(s: Scan, index: int) -> Next<Scan, Seq<Seq<char>>> {
    if index >= s.count {
        Next::Done(s.keys)
    } else {
        Next::Call(
            Scan { stage: ScanStage::Name, count: s.count, index: index as u32, keys: s.keys },
            index_query(index as u32),
        )
    }
}

/// How a scan goes on when a reply arrives, and what is known of the keys
/// afterwards. The count is the big-endian number in the first four bytes
/// of the value of `#KEY`; without it the scan fails. After that nothing
/// fails: an index at which the service names no key, or names a key whose
/// value cannot be read, is passed over, and the keys whose values could be
/// read are kept in the order of their indices.
pub open spec fn scan_after(s: Scan, known: Map<u32, KeyInfo>, reply: Reply) -> (
    Next<Scan, Seq<Seq<char>>>,
    Map<u32, KeyInfo>,
) {
    match s.stage {
        ScanStage::Count(r) => {
            let (next, learned) = value_after(r, known, reply);
            (
                match next {
                    Next::Call(r2, q) => Next::Call(
                        Scan {
                            stage: ScanStage::Count(r2),
                            count: s.count,
                            index: s.index,
                            keys: s.keys,
                        },
                        q,
                    ),
                    Next::Failed(e) => Next::Failed(e),
                    Next::Done(v) => if v.data.len() < 4 {
                        Next::Failed(Error::ShortPayload)
                    } else {
                        scan_enter(
                            Scan {
                                stage: s.stage,
                                count: be_u32(v.data),
                                index: s.index,
                                keys: s.keys,
                            },
                            0,
                        )
                    },
                },
                learned,
            )
        },
        ScanStage::Name => (
            match name_after(reply) {
                Next::Done(name) => match value_begin(known, name) {
                    Next::Call(r, q) => Next::Call(
                        Scan {
                            stage: ScanStage::Value(r),
                            count: s.count,
                            index: s.index,
                            keys: s.keys,
                        },
                        q,
                    ),
                    _ => scan_enter(s, s.index + 1),
                },
                _ => scan_enter(s, s.index + 1),
            },
            known,
        ),
        ScanStage::Value(r) => {
            let (next, learned) = value_after(r, known, reply);
            (
                match next {
                    Next::Call(r2, q) => Next::Call(
                        Scan {
                            stage: ScanStage::Value(r2),
                            count: s.count,
                            index: s.index,
                            keys: s.keys,
                        },
                        q,
                    ),
                    Next::Done(_) => scan_enter(
                        Scan {
                            stage: s.stage,
                            count: s.count,
                            index: s.index,
                            keys: s.keys.push(r.name),
                        },
                        s.index + 1,
                    ),
                    Next::Failed(_) => scan_enter(s, s.index + 1),
                },
                learned,
            )
        },
    }
}

/// A pending query for the key at an index.
#[derive(Debug)]
pub struct NameRead {
    index: u32,
}

/// A pending query for what the service knows of a key.
#[derive(Debug)]
pub struct InfoRead {
    key: u32,
}

/// A pending read of a key's value.
#[derive(Debug)]
pub struct ValueRead {
    name: String,
    key: u32,
    info: Option<KeyInfo>,
}

#[derive(Debug)]
enum Stage {
    Count(ValueRead),
    Name,
    Value(ValueRead),
}

/// A pending discovery of the service's keys.
#[derive(Debug)]
pub struct KeyScan {
    stage: Stage,
    count: u32,
    index: u32,
    keys: Vec<String>,
}

impl DeepView for NameRead {
    type V = u32;

    closed spec fn deep_view(&self) -> u32 {
        self.index
    }
}

impl DeepView for InfoRead {
    type V = u32;

    closed spec fn deep_view(&self) -> u32 {
        self.key
    }
}

impl DeepView for ValueRead {
    type V = Reading;

    closed spec fn deep_view(&self) -> Reading {
        Reading { name: self.name@, key: self.key, info: self.info }
    }
}

impl DeepView for KeyScan {
    type V = Scan;

    closed spec fn deep_view(&self) -> Scan {
        Scan {
            stage: match self.stage {
                Stage::Count(r) => ScanStage::Count(r.deep_view()),
                Stage::Name => ScanStage::Name,
                Stage::Value(r) => ScanStage::Value(r.deep_view()),
            },
            count: self.count,
            index: self.index,
            keys: self.keys.deep_view(),
        }
    }
}

/// The position of the entry that takes the calls among the entries of the
/// service class [`SMC_SERVICE`], given their names in the order met: the
/// first that is named [`SMC_ENDPOINT`].
pub fn endpoint_position(names: &Vec<String>) -> (r: Option<usize>)
    ensures
        match r {
            Some(i) => i < names@.len() && names@[i as int]@ == "AppleSMCKeysEndpoint"@
                && forall|j: int| 0 <= j < i ==> names@[j]@ != "AppleSMCKeysEndpoint"@,
            None => forall|j: int| 0 <= j < names@.len() ==> names@[j]@ != "AppleSMCKeysEndpoint"@,
        },
{
    let mut i: usize = 0;
    while i < names.len()
        invariant
            i <= names@.len(),
            forall|j: int| 0 <= j < i ==> names@[j]@ != "AppleSMCKeysEndpoint"@,
        decreases names@.len() - i,
    {
        if crate::text::same_text(names[i].as_str(), SMC_ENDPOINT) {
            return Some(i);
        }
        i += 1;
    }
    None
}

impl SMC {
    /// The connection to the service.
    pub closed spec fn handle(&self) -> u32 {
        self.conn
    }

    /// What the session has learned of the service's keys, by their codes.
    pub closed spec fn known(&self) -> Map<u32, KeyInfo> {
        self.cache@
    }

    /// Begins a session on the connection `conn` that opening the endpoint
    /// gave, `kr` being the code that the opening returned. A nonzero code,
    /// or the connection 0 that stands for no endpoint, is a setup failure.
    /// The session begins knowing no key.
    pub fn new(kr: i32, conn: u32) -> (r: Result<SMC, Error>)
        ensures
            match r {
                Ok(smc) => kr == 0 && conn != 0 && smc.handle() == conn && smc.known() == Map::<
                    u32,
                    KeyInfo,
                >::empty(),
                Err(e) => e == Error::SetupFailure && (kr != 0 || conn == 0),
            },
    {
        if kr != 0 || conn == 0 {
            Err(Error::SetupFailure)
        } else {
            Ok(SMC { conn, cache: HashMap::new() })
        }
    }

    /// The connection to the service.
    pub fn conn(&self) -> (c: u32)
        ensures
            c == self.handle(),
    {
        self.conn
    }

    /// Judges a reply: see [`outcome`].
    pub fn read_call(reply: &CallReply) -> (r: Result<KeyData, Error>)
        ensures
            match r {
                Ok(out) => outcome(reply.deep_view()) == Ok::<Record, Error>(out.deep_view())
                    && out.deep_view() == reply.out.deep_view(),
                Err(e) => outcome(reply.deep_view()) == Err::<Record, Error>(e),
            },
    {
        if reply.kr != 0 {
            Err(Error::ReadFailure { code: reply.kr })
        } else if reply.out.result == RESULT_KEY_NOT_FOUND {
            Err(Error::KeyNotFound)
        } else if reply.out.result != 0 {
            Err(Error::ReadFailure { code: reply.out.result as i32 })
        } else {
            Ok(reply.out)
        }
    }

    /// Asks for the name of the key at `index`.
    pub fn key_by_index(&self, index: u32) -> (p: Progress<NameRead, String>)
        ensures
            p.deep_view() == Next::<u32, Seq<char>>::Call(index, index_query(index)),
    {
        Progress::Call(NameRead { index }, KeyData::index_query(index))
    }

    /// Looks up what the service knows of `key`: see [`info_begin`].
    pub fn read_key_info(&self, key: &str) -> (p: Progress<InfoRead, KeyInfo>)
        ensures
            p.deep_view() == info_begin(self.known(), key.spec_bytes()),
    {
        if key.as_bytes().len() != 4 {
            return Progress::Failed(Error::InvalidKey);
        }
        let k = fourcc_str_to_u32(key);
        match self.cache.get(&k) {
            Some(info) => Progress::Done(*info),
            None => Progress::Call(InfoRead { key: k }, KeyData::info_query(k)),
        }
    }

    /// Reads the value of `key`: see [`value_begin`].
    pub fn read_val(&self, key: &str) -> (p: Progress<ValueRead, SensorVal>)
        ensures
            p.deep_view() == value_begin(self.known(), key@),
    {
        let name = key.to_owned();
        if key.as_bytes().len() != 4 {
            return Progress::Failed(Error::InvalidKey);
        }
        let k = fourcc_str_to_u32(key);
        match self.cache.get(&k) {
            Some(info) => Progress::Call(
                ValueRead { name, key: k, info: Some(*info) },
                KeyData::value_query(k, *info),
            ),
            None => Progress::Call(ValueRead { name, key: k, info: None }, KeyData::info_query(k)),
        }
    }

    /// Discovers the keys whose values can be read: see [`scan_begin`].
    pub fn read_all_keys(&self) -> (p: Progress<KeyScan, Vec<String>>)
        ensures
            p.deep_view() == scan_begin(self.known()),
    {
        match self.read_val(KEY_COUNT) {
            Progress::Call(read, q) => {
                let keys: Vec<String> = Vec::new();
                assert(keys.deep_view() =~= Seq::<Seq<char>>::empty());
                Progress::Call(KeyScan { stage: Stage::Count(read), count: 0, index: 0, keys }, q)
            },
            _ => Progress::Failed(Error::InvalidKey),
        }
    }
}

impl NameRead {
    /// Takes the reply to the query: see [`name_after`].
    pub fn resume(self, reply: &CallReply) -> (p: Progress<NameRead, String>)
        ensures
            p.deep_view() == name_after(reply.deep_view()),
    {
        match SMC::read_call(reply) {
            Err(e) => Progress::Failed(e),
            Ok(out) => match fourcc_text(out.key) {
                Some(name) => Progress::Done(name),
                None => Progress::Failed(Error::InvalidText),
            },
        }
    }
}

impl InfoRead {
    /// Takes the reply to the query: see [`info_after`].
    pub fn resume(self, smc: &mut SMC, reply: &CallReply) -> (p: Progress<InfoRead, KeyInfo>)
        ensures
            p.deep_view() == info_after(self.deep_view(), old(smc).known(), reply.deep_view()).0,
            final(smc).known() == info_after(
                self.deep_view(),
                old(smc).known(),
                reply.deep_view(),
            ).1,
            final(smc).handle() == old(smc).handle(),
    {
        match SMC::read_call(reply) {
            Err(e) => Progress::Failed(e),
            Ok(out) => {
                smc.cache.insert(self.key, out.key_info);
                Progress::Done(out.key_info)
            },
        }
    }
}

/// The first `n` of the 32 bytes of a record.
fn leading_bytes(out: &KeyData, n: usize) -> (v: Vec<u8>)
    requires
        n <= 32,
    ensures
        v@ == out.bytes@.take(n as int),
{
    let mut v: Vec<u8> = Vec::new();
    let mut i: usize = 0;
    while i < n
        invariant
            i <= n <= 32,
            v@ == out.bytes@.take(i as int),
        decreases n - i,
    {
        v.push(out.bytes[i]);
        assert(v@ =~= out.bytes@.take(i + 1));
        i += 1;
    }
    v
}

impl ValueRead {
    /// Takes the reply to the last query: see [`value_after`].
    pub fn resume(self, smc: &mut SMC, reply: &CallReply) -> (p: Progress<ValueRead, SensorVal>)
        ensures
            p.deep_view() == value_after(self.deep_view(), old(smc).known(), reply.deep_view()).0,
            final(smc).known() == value_after(
                self.deep_view(),
                old(smc).known(),
                reply.deep_view(),
            ).1,
            final(smc).handle() == old(smc).handle(),
    {
        let out = match SMC::read_call(reply) {
            Ok(out) => out,
            Err(e) => {
                return Progress::Failed(e);
            },
        };
        match self.info {
            None => {
                smc.cache.insert(self.key, out.key_info);
                Progress::Call(
                    ValueRead { name: self.name, key: self.key, info: Some(out.key_info) },
                    KeyData::value_query(self.key, out.key_info),
                )
            },
            Some(info) => match fourcc_text(info.data_type) {
                None => Progress::Failed(Error::InvalidText),
                Some(unit) => {
                    let n: usize = if info.data_size < 32 {
                        info.data_size as usize
                    } else {
                        32
                    };
                    let data = leading_bytes(&out, n);
                    Progress::Done(SensorVal { name: self.name, unit, data })
                },
            },
        }
    }
}

impl KeyScan {
    /// Goes on to the key at `index`: see [`scan_enter`].
    fn enter(count: u32, index: u64, keys: Vec<String>) -> (p: Progress<KeyScan, Vec<String>>)
        ensures
            p.deep_view() == scan_enter(
                Scan { stage: ScanStage::Name, count, index: 0, keys: keys.deep_view() },
                index as int,
            ),
    {
        if index >= count as u64 {
            Progress::Done(keys)
        } else {
            let at: u32 = index as u32;
            Progress::Call(
                KeyScan { stage: Stage::Name, count, index: at, keys },
                KeyData::index_query(at),
            )
        }
    }

    /// Takes the reply to the last query: see [`scan_after`].
    pub fn resume(self, smc: &mut SMC, reply: &CallReply) -> (p: Progress<KeyScan, Vec<String>>)
        ensures
            p.deep_view() == scan_after(self.deep_view(), old(smc).known(), reply.deep_view()).0,
            final(smc).known() == scan_after(
                self.deep_view(),
                old(smc).known(),
                reply.deep_view(),
            ).1,
            final(smc).handle() == old(smc).handle(),
    {
        let KeyScan { stage, count, index, keys } = self;
        let after: u64 = index as u64 + 1;
        match stage {
            Stage::Count(read) => match read.resume(smc, reply) {
                Progress::Call(read, q) => Progress::Call(
                    KeyScan { stage: Stage::Count(read), count, index, keys },
                    q,
                ),
                Progress::Failed(e) => Progress::Failed(e),
                Progress::Done(v) => {
                    if v.data.len() < 4 {
                        Progress::Failed(Error::ShortPayload)
                    } else {
                        let b0: u32 = v.data[0] as u32;
                        let b1: u32 = v.data[1] as u32;
                        let b2: u32 = v.data[2] as u32;
                        let b3: u32 = v.data[3] as u32;
                        let n: u32 = b0 * 0x100_0000 + b1 * 0x1_0000 + b2 * 0x100 + b3;
                        KeyScan::enter(n, 0, keys)
                    }
                },
            },
            Stage::Name => match (NameRead { index }).resume(reply) {
                Progress::Done(name) => match smc.read_val(name.as_str()) {
                    Progress::Call(read, q) => Progress::Call(
                        KeyScan { stage: Stage::Value(read), count, index, keys },
                        q,
                    ),
                    _ => KeyScan::enter(count, after, keys),
                },
                _ => KeyScan::enter(count, after, keys),
            },
            Stage::Value(read) => match read.resume(smc, reply) {
                Progress::Call(read, q) => Progress::Call(
                    KeyScan { stage: Stage::Value(read), count, index, keys },
                    q,
                ),
                Progress::Done(v) => {
                    let mut keys = keys;
                    let ghost before = keys.deep_view();
                    keys.push(v.name);
                    assert(keys.deep_view() =~= before.push(v.name@));
                    KeyScan::enter(count, after, keys)
                },
                Progress::Failed(_) => KeyScan::enter(count, after, keys),
            },
        }
    }
}

} // verus!
