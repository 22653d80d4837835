//! The sensor snapshot: the GPU temperatures and the fans, gathered from
//! whatever keys the service turns out to have.
//!
//! Like the reads it is made of, the survey never calls the service: it
//! answers with the record to send and takes the reply in
//! [`SnapshotRead::resume`]. What it does is stated by [`survey_begin`] and
//! [`survey_after`].

use vstd::prelude::*;
use vstd::utf8::encode_utf8;
use std::collections::BTreeMap;
use crate::decode::{
    decode_numeric, decoded, fan_index, fan_index_from_key, le_u32, Decoded, Encoding,
};
use crate::mean::{mean, mean_of, mean_view, Mean, MeanValue};
use crate::smc::{
    info_after, info_begin, scan_after, scan_begin, value_after, value_begin, CallReply, InfoRead,
    KeyInfo, KeyScan, Next, Progress, Reading, Reply, Scan, Value, ValueRead, SMC,
};
use crate::text::starts_with;

verus! {

/// The speed of one fan.
#[derive(Clone, Debug)]
pub struct FanReading {
    /// The fan's index.
    pub index: u8,
    /// Revolutions per minute.
    pub rpm: Decoded,
    /// The key under which the speed was read, e.g. `"F0Ac"`.
    pub key: String,
    /// The type tag of the value, e.g. `"fpe2"`.
    pub encoding: String,
}

/// What the sensors say at one moment.
#[derive(Clone, Debug)]
pub struct SmcSnapshot {
    /// The GPU's temperature in degrees Celsius: the exact mean of
    /// `gpu_temps` (see [`mean_of`]). There is none exactly where no
    /// reading counts.
    pub gpu_temp_avg: Option<Mean>,
    /// The GPU temperatures that count, in the order of their keys: a
    /// reading of zero stands for an absent sensor and is left out.
    pub gpu_temps: Vec<Decoded>,
    /// The fans, ordered by index, each index once.
    pub fans: Vec<FanReading>,
}

/// The mathematical content of a [`FanReading`].
pub struct Fan {
    pub index: u8,
    pub rpm: Decoded,
    pub key: Seq<char>,
    pub encoding: Seq<char>,
}

/// The mathematical content of an [`SmcSnapshot`].
pub struct Snapshot {
    pub gpu_temp_avg: Option<MeanValue>,
    pub gpu_temps: Seq<Decoded>,
    pub fans: Seq<Fan>,
}

/// What a survey has gathered: the keys to visit, the position of the one
/// being visited, and the temperatures and fans found so far.
pub struct Harvest {
    pub keys: Seq<Seq<char>>,
    pub pos: nat,
    pub temps: Seq<Decoded>,
    pub fans: Map<u8, Fan>,
}

/// Where a survey stands: discovering the keys, reading the speed of the
/// fan with an index, looking up a temperature key, or reading a
/// temperature (by the primary rule or not).
pub enum SurveyStage {
    Scan(Scan),
    Fan(u8, Reading),
    TempInfo(u32),
    Temp(bool, Reading),
}

/// The mathematical content of a [`SnapshotRead`].
pub struct Survey {
    pub stage: SurveyStage,
    pub harvest: Harvest,
}

/// The code of the type tag `"flt "`.
pub const FLOAT_TYPE: u32 = 0x666C_7420;

impl DeepView for FanReading {
    type V = Fan;

    open spec fn deep_view(&self) -> Fan {
        Fan { index: self.index, rpm: self.rpm, key: self.key@, encoding: self.encoding@ }
    }
}

impl DeepView for SmcSnapshot {
    type V = Snapshot;

    open spec fn deep_view(&self) -> Snapshot {
        Snapshot {
            gpu_temp_avg: mean_view(self.gpu_temp_avg),
            gpu_temps: self.gpu_temps@,
            fans: self.fans.deep_view(),
        }
    }
}

/// Whether a key names a GPU temperature: it begins with `"Tg"`.
pub open spec fn is_gpu_temp(key: Seq<char>) -> bool {
    "Tg"@.is_prefix_of(key)
}

/// Whether a key's value is read by the primary rule: it is declared as
/// four bytes of type `"flt "`.
pub open spec fn is_primary(info: KeyInfo) -> bool {
    info.data_size == 4 && info.data_type == 0x666C_7420
}

/// The temperature that a value holds: by the primary rule the float in its
/// first four bytes, otherwise whatever its type tag makes of it.
pub open spec fn temp_of(primary: bool, v: Value) -> Option<Decoded> {
    if primary {
        if v.data.len() >= 4 {
            Some(Decoded::Float32 { bits: le_u32(v.data) })
        } else {
            None
        }
    } else {
        decoded(v.unit, v.data)
    }
}

/// The temperatures after a reading: a reading of zero stands for an absent
/// sensor and is not kept.
pub open spec fn kept(temps: Seq<Decoded>, t: Option<Decoded>) -> Seq<Decoded> {
    match t {
        Some(d) => if d.zero() {
            temps
        } else {
            temps.push(d)
        },
        None => temps,
    }
}

/// The fans after the value of a fan key was read: where the value is a
/// number, it takes the place of whatever was known of that index.
pub open spec fn noted(fans: Map<u8, Fan>, index: u8, v: Value) -> Map<u8, Fan> {
    match decoded(v.unit, v.data) {
        Some(rpm) => fans.insert(index, Fan { index, rpm, key: v.name, encoding: v.unit }),
        None => fans,
    }
}

/// The fans with an index below `bound`, in the order of their indices.
pub open spec fn fans_below(fans: Map<u8, Fan>, bound: int) -> Seq<Fan>
    decreases bound,
{
    if bound <= 0 {
        Seq::empty()
    } else if fans.contains_key((bound - 1) as u8) {
        fans_below(fans, bound - 1).push(fans[(bound - 1) as u8])
    } else {
        fans_below(fans, bound - 1)
    }
}

/// All the fans, in the order of their indices.
pub open spec fn fans_in_order(fans: Map<u8, Fan>) -> Seq<Fan> {
    fans_below(fans, 256)
}

/// The harvest with which a survey begins to visit `keys`.
pub open spec fn fresh(keys: Seq<Seq<char>>) -> Harvest {
    Harvest { keys, pos: 0, temps: Seq::empty(), fans: Map::empty() }
}

/// The harvest once the key being visited is done with.
pub open spec fn passed(h: Harvest) -> Harvest {
    Harvest { keys: h.keys, pos: h.pos + 1, temps: h.temps, fans: h.fans }
}

/// How reading the temperature under the key being visited begins, `info`
/// being what is known of the key; none where the key cannot be read.
pub open spec fn temp_begin(known: Map<u32, KeyInfo>, h: Harvest, info: KeyInfo) -> Option<
    Next<Survey, Snapshot>,
> {
    if h.pos >= h.keys.len() {
        None
    } else {
        match value_begin(known, h.keys[h.pos as int]) {
            Next::Call(r, q) => Some(
                Next::Call(Survey { stage: SurveyStage::Temp(is_primary(info), r), harvest: h }, q),
            ),
            _ => None,
        }
    }
}

/// How a survey visits the keys from the one at `h.pos` on. A fan-speed key
/// has its value read. A key that begins with `"Tg"` is looked up and then
/// has its value read. Every other key, and every key that cannot be read,
/// is passed over. After the last key the snapshot is made: the
/// temperatures with their mean, and the fans in the order of their indices.
pub open spec fn visit(known: Map<u32, KeyInfo>, h: Harvest) -> Next<Survey, Snapshot>
    decreases h.keys.len() - h.pos,
{
    if h.pos >= h.keys.len() {
        Next::Done(
            Snapshot {
                gpu_temp_avg: mean_of(h.temps),
                gpu_temps: h.temps,
                fans: fans_in_order(h.fans),
            },
        )
    } else {
        let key = h.keys[h.pos as int];
        match fan_index(encode_utf8(key)) {
            Some(index) => match value_begin(known, key) {
                Next::Call(r, q) => Next::Call(
                    Survey { stage: SurveyStage::Fan(index, r), harvest: h },
                    q,
                ),
                _ => visit(known, passed(h)),
            },
            None => if !is_gpu_temp(key) {
                visit(known, passed(h))
            } else {
                match info_begin(known, encode_utf8(key)) {
                    Next::Call(k, q) => Next::Call(
                        Survey { stage: SurveyStage::TempInfo(k), harvest: h },
                        q,
                    ),
                    Next::Done(info) => match temp_begin(known, h, info) {
                        Some(next) => next,
                        None => visit(known, passed(h)),
                    },
                    Next::Failed(_) => visit(known, passed(h)),
                }
            },
        }
    }
}

/// How a survey begins: by discovering the keys.
pub open spec fn survey_begin(known: Map<u32, KeyInfo>) -> Next<Survey, Snapshot> {
    match scan_begin(known) {
        Next::Call(scan, q) => Next::Call(
            Survey { stage: SurveyStage::Scan(scan), harvest: fresh(Seq::empty()) },
            q,
        ),
        _ => visit(known, fresh(Seq::empty())),
    }
}

/// How a survey goes on when a reply arrives, and what is known of the keys
/// afterwards. A discovery that fails leaves no keys to visit. A fan's
/// speed is noted under its index, the last reading for an index taking
/// the place of an earlier one; a temperature is kept unless it is zero.
/// No failure ends the survey: a key that cannot be read is passed over.
pub open spec fn survey_after(s: Survey, known: Map<u32, KeyInfo>, reply: Reply) -> (
    Next<Survey, Snapshot>,
    Map<u32, KeyInfo>,
) {
    let h = s.harvest;
    match s.stage {
        SurveyStage::Scan(scan) => {
            let (next, learned) = scan_after(scan, known, reply);
            (
                match next {
                    Next::Call(scan2, q) => Next::Call(
                        Survey { stage: SurveyStage::Scan(scan2), harvest: h },
                        q,
                    ),
                    Next::Done(keys) => visit(learned, fresh(keys)),
                    Next::Failed(_) => visit(learned, fresh(Seq::empty())),
                },
                learned,
            )
        },
        SurveyStage::Fan(index, r) => {
            let (next, learned) = value_after(r, known, reply);
            (
                match next {
                    Next::Call(r2, q) => Next::Call(
                        Survey { stage: SurveyStage::Fan(index, r2), harvest: h },
                        q,
                    ),
                    Next::Done(v) => visit(
                        learned,
                        Harvest {
                            keys: h.keys,
                            pos: h.pos + 1,
                            temps: h.temps,
                            fans: noted(h.fans, index, v),
                        },
                    ),
                    Next::Failed(_) => visit(learned, passed(h)),
                },
                learned,
            )
        },
        SurveyStage::TempInfo(k) => {
            let (next, learned) = info_after(k, known, reply);
            (
                match next {
                    Next::Done(info) => match temp_begin(learned, h, info) {
                        Some(next) => next,
                        None => visit(learned, passed(h)),
                    },
                    _ => visit(learned, passed(h)),
                },
                learned,
            )
        },
        SurveyStage::Temp(primary, r) => {
            let (next, learned) = value_after(r, known, reply);
            (
                match next {
                    Next::Call(r2, q) => Next::Call(
                        Survey { stage: SurveyStage::Temp(primary, r2), harvest: h },
                        q,
                    ),
                    Next::Done(v) => visit(
                        learned,
                        Harvest {
                            keys: h.keys,
                            pos: h.pos + 1,
                            temps: kept(h.temps, temp_of(primary, v)),
                            fans: h.fans,
                        },
                    ),
                    Next::Failed(_) => visit(learned, passed(h)),
                },
                learned,
            )
        },
    }
}

/// The fans of a map by their mathematical content.
pub open spec fn fans_model(fans: Map<u8, FanReading>) -> Map<u8, Fan> {
    Map::new(|i: u8| fans.contains_key(i), |i: u8| fans[i].deep_view())
}

#[derive(Debug)]
enum Stage {
    Scan(KeyScan),
    Fan(u8, ValueRead),
    TempInfo(InfoRead),
    Temp(bool, ValueRead),
}

/// A pending survey of the sensors.
#[derive(Debug)]
pub struct SnapshotRead {
    stage: Stage,
    keys: Vec<String>,
    pos: usize,
    temps: Vec<Decoded>,
    fans: BTreeMap<u8, FanReading>,
}

impl DeepView for SnapshotRead {
    type V = Survey;

    closed spec fn deep_view(&self) -> Survey {
        Survey {
            stage: match self.stage {
                Stage::Scan(scan) => SurveyStage::Scan(scan.deep_view()),
                Stage::Fan(index, r) => SurveyStage::Fan(index, r.deep_view()),
                Stage::TempInfo(r) => SurveyStage::TempInfo(r.deep_view()),
                Stage::Temp(primary, r) => SurveyStage::Temp(primary, r.deep_view()),
            },
            harvest: Harvest {
                keys: self.keys.deep_view(),
                pos: self.pos as nat,
                temps: self.temps@,
                fans: fans_model(self.fans@),
            },
        }
    }
}

impl Default for SmcSnapshot {
    /// The snapshot of a machine without sensors.
    fn default() -> (r: Self)
        ensures
            r.deep_view() == (Snapshot {
                gpu_temp_avg: None,
                gpu_temps: Seq::empty(),
                fans: Seq::empty(),
            }),
    {
        let r = SmcSnapshot { gpu_temp_avg: None, gpu_temps: Vec::new(), fans: Vec::new() };
        assert(r.fans.deep_view() =~= Seq::<Fan>::empty());
        r
    }
}

impl FanReading {
    /// A copy of the reading.
    pub fn duplicate(&self) -> (r: FanReading)
        ensures
            r.deep_view() == self.deep_view(),
    {
        FanReading {
            index: self.index,
            rpm: self.rpm,
            key: self.key.clone(),
            encoding: self.encoding.clone(),
        }
    }
}

/// The fans of a map in the order of their indices.
fn fans_by_index(fans: &BTreeMap<u8, FanReading>) -> (out: Vec<FanReading>)
    ensures
        out.deep_view() == fans_in_order(fans_model(fans@)),
{
    let mut out: Vec<FanReading> = Vec::new();
    let mut bound: u16 = 0;
    assert(out.deep_view() =~= fans_below(fans_model(fans@), 0));
    while bound < 256
        invariant
            bound <= 256,
            out.deep_view() == fans_below(fans_model(fans@), bound as int),
        decreases 256 - bound,
    {
        let index: u8 = bound as u8;
        let ghost before = out.deep_view();
        match fans.get(&index) {
            Some(f) => {
                let copy = f.duplicate();
                out.push(copy);
                assert(out.deep_view() =~= before.push(copy.deep_view()));
            },
            None => {},
        }
        bound += 1;
    }
    out
}

/// Begins to read the temperature under the key at `pos`.
fn begin_temp(
    smc: &SMC,
    keys: Vec<String>,
    pos: usize,
    temps: Vec<Decoded>,
    fans: BTreeMap<u8, FanReading>,
    info: KeyInfo,
) -> (r: Result<Progress<SnapshotRead, SmcSnapshot>, (Vec<String>, Vec<Decoded>, BTreeMap<u8, FanReading>)>)
    requires
        pos < keys@.len(),
    ensures
        ({
            let h = Harvest {
                keys: keys.deep_view(),
                pos: pos as nat,
                temps: temps@,
                fans: fans_model(fans@),
            };
            match r {
                Ok(p) => temp_begin(smc.known(), h, info) == Some(p.deep_view()),
                Err((k, t, f)) => temp_begin(smc.known(), h, info) is None && k == keys && t
                    == temps && f == fans,
            }
        }),
{
    let primary = info.data_size == 4 && info.data_type == FLOAT_TYPE;
    match smc.read_val(keys[pos].as_str()) {
        Progress::Call(read, q) => Ok(
            Progress::Call(
                SnapshotRead { stage: Stage::Temp(primary, read), keys, pos, temps, fans },
                q,
            ),
        ),
        _ => Err((keys, temps, fans)),
    }
}

/// Visits the keys from the one at `pos` on: see [`visit`].
fn proceed(
    smc: &SMC,
    keys: Vec<String>,
    pos: usize,
    temps: Vec<Decoded>,
    fans: BTreeMap<u8, FanReading>,
) -> (p: Progress<SnapshotRead, SmcSnapshot>)
    ensures
        p.deep_view() == visit(
            smc.known(),
            Harvest {
                keys: keys.deep_view(),
                pos: pos as nat,
                temps: temps@,
                fans: fans_model(fans@),
            },
        ),
{
    let ghost goal = visit(
        smc.known(),
        Harvest { keys: keys.deep_view(), pos: pos as nat, temps: temps@, fans: fans_model(fans@) },
    );
    let mut ks = keys;
    let mut ts = temps;
    let mut fs = fans;
    let mut at: usize = pos;
    while at < ks.len()
        invariant
            goal == visit(
                smc.known(),
                Harvest {
                    keys: keys.deep_view(),
                    pos: pos as nat,
                    temps: temps@,
                    fans: fans_model(fans@),
                },
            ),
            goal == visit(
                smc.known(),
                Harvest {
                    keys: ks.deep_view(),
                    pos: at as nat,
                    temps: ts@,
                    fans: fans_model(fs@),
                },
            ),
        decreases ks@.len() - at,
    {
        let ghost h = Harvest {
            keys: ks.deep_view(),
            pos: at as nat,
            temps: ts@,
            fans: fans_model(fs@),
        };
        assert(h.keys[at as int] == ks@[at as int]@);
        match fan_index_from_key(ks[at].as_str()) {
            Some(index) => {
                match smc.read_val(ks[at].as_str()) {
                    Progress::Call(read, q) => {
                        return Progress::Call(
                            SnapshotRead {
                                stage: Stage::Fan(index, read),
                                keys: ks,
                                pos: at,
                                temps: ts,
                                fans: fs,
                            },
                            q,
                        );
                    },
                    _ => {},
                }
            },
            None => {
                if starts_with(ks[at].as_str(), "Tg") {
                    match smc.read_key_info(ks[at].as_str()) {
                        Progress::Call(read, q) => {
                            return Progress::Call(
                                SnapshotRead {
                                    stage: Stage::TempInfo(read),
                                    keys: ks,
                                    pos: at,
                                    temps: ts,
                                    fans: fs,
                                },
                                q,
                            );
                        },
                        Progress::Done(info) => {
                            match begin_temp(smc, ks, at, ts, fs, info) {
                                Ok(p) => {
                                    return p;
                                },
                                Err((k, t, f)) => {
                                    ks = k;
                                    ts = t;
                                    fs = f;
                                },
                            }
                        },
                        Progress::Failed(_) => {},
                    }
                }
            },
        }
        assert(goal == visit(smc.known(), passed(h)));
        at += 1;
    }
    let fans = fans_by_index(&fs);
    Progress::Done(SmcSnapshot { gpu_temp_avg: mean(&ts), gpu_temps: ts, fans })
}

/// Passes over the key at `pos` and visits the keys after it.
fn pass(
    smc: &SMC,
    keys: Vec<String>,
    pos: usize,
    temps: Vec<Decoded>,
    fans: BTreeMap<u8, FanReading>,
) -> (p: Progress<SnapshotRead, SmcSnapshot>)
    ensures
        p.deep_view() == visit(
            smc.known(),
            passed(
                Harvest {
                    keys: keys.deep_view(),
                    pos: pos as nat,
                    temps: temps@,
                    fans: fans_model(fans@),
                },
            ),
        ),
{
    if pos < keys.len() {
        proceed(smc, keys, pos + 1, temps, fans)
    } else {
        proceed(smc, keys, pos, temps, fans)
    }
}

/// Begins a survey of the sensors: see [`survey_begin`].
pub fn read_smc_snapshot(smc: &SMC) -> (p: Progress<SnapshotRead, SmcSnapshot>)
    ensures
        p.deep_view() == survey_begin(smc.known()),
{
    let keys: Vec<String> = Vec::new();
    let temps: Vec<Decoded> = Vec::new();
    let fans: BTreeMap<u8, FanReading> = BTreeMap::new();
    assert(keys.deep_view() =~= Seq::<Seq<char>>::empty());
    assert(fans_model(fans@) =~= Map::<u8, Fan>::empty());
    match smc.read_all_keys() {
        Progress::Call(scan, q) => Progress::Call(
            SnapshotRead { stage: Stage::Scan(scan), keys, pos: 0, temps, fans },
            q,
        ),
        _ => proceed(smc, keys, 0, temps, fans),
    }
}

impl SnapshotRead {
    /// Takes the reply to the last query: see [`survey_after`].
    pub fn resume(self, smc: &mut SMC, reply: &CallReply) -> (p: Progress<
        SnapshotRead,
        SmcSnapshot,
    >)
        ensures
            p.deep_view() == survey_after(self.deep_view(), old(smc).known(), reply.deep_view()).0,
            final(smc).known() == survey_after(
                self.deep_view(),
                old(smc).known(),
                reply.deep_view(),
            ).1,
            final(smc).handle() == old(smc).handle(),
    {
        let SnapshotRead { stage, keys, pos, temps, fans } = self;
        let ghost h = self.deep_view().harvest;
        match stage {
            Stage::Scan(scan) => match scan.resume(smc, reply) {
                Progress::Call(scan, q) => Progress::Call(
                    SnapshotRead { stage: Stage::Scan(scan), keys, pos, temps, fans },
                    q,
                ),
                Progress::Done(found) => {
                    let temps: Vec<Decoded> = Vec::new();
                    let fans: BTreeMap<u8, FanReading> = BTreeMap::new();
                    assert(fans_model(fans@) =~= Map::<u8, Fan>::empty());
                    proceed(smc, found, 0, temps, fans)
                },
                Progress::Failed(_) => {
                    let none: Vec<String> = Vec::new();
                    let temps: Vec<Decoded> = Vec::new();
                    let fans: BTreeMap<u8, FanReading> = BTreeMap::new();
                    assert(none.deep_view() =~= Seq::<Seq<char>>::empty());
                    assert(fans_model(fans@) =~= Map::<u8, Fan>::empty());
                    proceed(smc, none, 0, temps, fans)
                },
            },
            Stage::Fan(index, read) => match read.resume(smc, reply) {
                Progress::Call(read, q) => Progress::Call(
                    SnapshotRead { stage: Stage::Fan(index, read), keys, pos, temps, fans },
                    q,
                ),
                Progress::Done(v) => {
                    let mut fans = fans;
                    let ghost value = v.deep_view();
                    match decode_numeric(&v) {
                        Some(rpm) => {
                            let reading = FanReading {
                                index,
                                rpm,
                                key: v.name,
                                encoding: v.unit,
                            };
                            fans.insert(index, reading);
                        },
                        None => {},
                    }
                    assert(fans_model(fans@) =~= noted(h.fans, index, value));
                    pass(smc, keys, pos, temps, fans)
                },
                Progress::Failed(_) => {
                    pass(smc, keys, pos, temps, fans)
                },
            },
            Stage::TempInfo(read) => match read.resume(smc, reply) {
                Progress::Done(info) => {
                    if pos < keys.len() {
                        match begin_temp(smc, keys, pos, temps, fans, info) {
                            Ok(p) => p,
                            Err((k, t, f)) => pass(smc, k, pos, t, f),
                        }
                    } else {
                        pass(smc, keys, pos, temps, fans)
                    }
                },
                _ => {
                    pass(smc, keys, pos, temps, fans)
                },
            },
            Stage::Temp(primary, read) => match read.resume(smc, reply) {
                Progress::Call(read, q) => Progress::Call(
                    SnapshotRead { stage: Stage::Temp(primary, read), keys, pos, temps, fans },
                    q,
                ),
                Progress::Done(v) => {
                    let mut temps = temps;
                    let t = if primary {
                        if v.data.len() >= 4 {
                            Encoding::Float32LE.decode(v.data.as_slice())
                        } else {
                            None
                        }
                    } else {
                        decode_numeric(&v)
                    };
                    match t {
                        Some(d) => {
                            if !d.is_zero() {
                                temps.push(d);
                            }
                        },
                        None => {},
                    }
                    pass(smc, keys, pos, temps, fans)
                },
                Progress::Failed(_) => {
                    pass(smc, keys, pos, temps, fans)
                },
            },
        }
    }
}

} // verus!
