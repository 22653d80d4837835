use apple_smi::decode::Decoded;
use apple_smi::error::Error;
use apple_smi::fourcc::fourcc_str_to_u32;
use apple_smi::mean::{Mean, Wide};
use apple_smi::smc::{
    endpoint_position, CallReply, KeyData, KeyInfo, Progress, SensorVal, SMC,
};
use apple_smi::snapshot::{read_smc_snapshot, SmcSnapshot};

/// A stand-in for the sensor service: a list of keys with their types and
/// payloads, answering the three commands as the real service does.
struct Service {
    entries: Vec<(u32, KeyInfo, Vec<u8>)>,
    /// Keys for which the value command fails with this result code.
    broken: Vec<(u32, u8)>,
    calls: std::cell::RefCell<Vec<KeyData>>,
}

impl Service {
    fn new() -> Service {
        Service { entries: Vec::new(), broken: Vec::new(), calls: std::cell::RefCell::new(Vec::new()) }
    }

    fn with(mut self, key: &str, tag: &str, payload: &[u8]) -> Service {
        let info = KeyInfo {
            data_size: payload.len() as u32,
            data_type: fourcc_str_to_u32(tag),
            data_attributes: 0,
        };
        self.entries.push((fourcc_str_to_u32(key), info, payload.to_vec()));
        self
    }

    fn with_raw(mut self, key: u32, info: KeyInfo, payload: &[u8]) -> Service {
        self.entries.push((key, info, payload.to_vec()));
        self
    }

    fn with_count(self) -> Service {
        let n = self.entries.len() as u32 + 1;
        self.with("#KEY", "ui32", &n.to_be_bytes())
    }

    fn breaking(mut self, key: &str, result: u8) -> Service {
        self.broken.push((fourcc_str_to_u32(key), result));
        self
    }

    fn serve(&self, q: &KeyData) -> CallReply {
        self.calls.borrow_mut().push(*q);
        let mut out = KeyData::default();
        match q.data8 {
            8 => match self.entries.get(q.data32 as usize) {
                Some((key, _, _)) => out.key = *key,
                None => out.result = 132,
            },
            9 => match self.entries.iter().find(|e| e.0 == q.key) {
                Some((_, info, _)) => out.key_info = *info,
                None => out.result = 132,
            },
            5 => match self.entries.iter().find(|e| e.0 == q.key) {
                Some((key, _, payload)) => {
                    if let Some((_, result)) = self.broken.iter().find(|b| b.0 == *key) {
                        out.result = *result;
                    } else {
                        for (i, b) in payload.iter().enumerate().take(32) {
                            out.bytes[i] = *b;
                        }
                    }
                }
                None => out.result = 132,
            },
            _ => out.result = 1,
        }
        CallReply { kr: 0, out }
    }

    fn calls(&self) -> usize {
        self.calls.borrow().len()
    }
}

fn session() -> SMC {
    SMC::new(0, 7).unwrap()
}

fn value(service: &Service, smc: &mut SMC, key: &str) -> Result<SensorVal, Error> {
    let mut p = smc.read_val(key);
    loop {
        match p {
            Progress::Call(pending, q) => p = pending.resume(smc, &service.serve(&q)),
            Progress::Done(v) => return Ok(v),
            Progress::Failed(e) => return Err(e),
        }
    }
}

fn info(service: &Service, smc: &mut SMC, key: &str) -> Result<KeyInfo, Error> {
    let mut p = smc.read_key_info(key);
    loop {
        match p {
            Progress::Call(pending, q) => p = pending.resume(smc, &service.serve(&q)),
            Progress::Done(v) => return Ok(v),
            Progress::Failed(e) => return Err(e),
        }
    }
}

fn name(service: &Service, smc: &SMC, index: u32) -> Result<String, Error> {
    let mut p = smc.key_by_index(index);
    loop {
        match p {
            Progress::Call(pending, q) => p = pending.resume(&service.serve(&q)),
            Progress::Done(v) => return Ok(v),
            Progress::Failed(e) => return Err(e),
        }
    }
}

fn keys(service: &Service, smc: &mut SMC) -> Result<Vec<String>, Error> {
    let mut p = smc.read_all_keys();
    loop {
        match p {
            Progress::Call(pending, q) => p = pending.resume(smc, &service.serve(&q)),
            Progress::Done(v) => return Ok(v),
            Progress::Failed(e) => return Err(e),
        }
    }
}

fn snapshot(service: &Service, smc: &mut SMC) -> SmcSnapshot {
    let mut p = read_smc_snapshot(smc);
    loop {
        match p {
            Progress::Call(pending, q) => p = pending.resume(smc, &service.serve(&q)),
            Progress::Done(v) => return v,
            Progress::Failed(e) => panic!("a survey does not fail: {:?}", e),
        }
    }
}

fn as_f32(d: &Decoded) -> f32 {
    match *d {
        Decoded::Float32 { bits } => f32::from_bits(bits),
        Decoded::Quarters { quarters } => quarters as f32 / 4.0,
        Decoded::Fraction256 { parts } => parts as f32 / 256.0,
    }
}

fn average(temps: &[Decoded]) -> Option<f32> {
    if temps.is_empty() {
        return None;
    }
    Some(temps.iter().map(as_f32).sum::<f32>() / temps.len() as f32)
}

fn wide_as_f64(w: &Wide) -> f64 {
    let negative = w.high < 0;
    let mut limbs = [w.w0, w.w1, w.w2, w.w3];
    let mut high = w.high;
    if negative {
        let mut carry = true;
        for limb in limbs.iter_mut() {
            let (v, c) = (!*limb).overflowing_add(carry as u64);
            *limb = v;
            carry = c;
        }
        high = if carry { -high } else { -high - 1 };
    }
    let mut x = high as f64;
    for limb in limbs.iter().rev() {
        x = x * 18446744073709551616.0 + *limb as f64;
    }
    if negative {
        -x
    } else {
        x
    }
}

fn mean_as_f32(m: &Mean) -> f32 {
    match m {
        Mean::Exact { sum, count } => (wide_as_f64(sum) * 2f64.powi(-149) / *count as f64) as f32,
        Mean::Infinite { negative: false } => f32::INFINITY,
        Mean::Infinite { negative: true } => f32::NEG_INFINITY,
        Mean::NotANumber => f32::NAN,
    }
}

#[test]
fn session_needs_an_open_endpoint() {
    assert!(SMC::new(0, 7).is_ok());
    assert_eq!(SMC::new(0, 7).unwrap().conn(), 7);
    assert!(matches!(SMC::new(0, 0), Err(Error::SetupFailure)));
    assert!(matches!(SMC::new(-536870206, 7), Err(Error::SetupFailure)));
}

#[test]
fn endpoint_is_the_first_entry_of_that_name() {
    let names = |v: &[&str]| v.iter().map(|s| s.to_string()).collect::<Vec<String>>();
    assert_eq!(endpoint_position(&names(&["AppleSMC", "AppleSMCKeysEndpoint"])), Some(1));
    assert_eq!(
        endpoint_position(&names(&["AppleSMCKeysEndpoint", "AppleSMCKeysEndpoint"])),
        Some(0)
    );
    assert_eq!(endpoint_position(&names(&["AppleSMC", "applesmckeysendpoint", ""])), None);
    assert_eq!(endpoint_position(&names(&[])), None);
}

#[test]
fn queries_carry_their_command() {
    let q = KeyData::index_query(17);
    assert_eq!((q.data8, q.data32, q.key), (8, 17, 0));
    let q = KeyData::info_query(0x5467_3031);
    assert_eq!((q.data8, q.data32, q.key), (9, 0, 0x5467_3031));
    let info = KeyInfo { data_size: 4, data_type: 0x666C_7420, data_attributes: 3 };
    let q = KeyData::value_query(0x5467_3031, info);
    assert_eq!((q.data8, q.key, q.key_info), (5, 0x5467_3031, info));
    assert_eq!(q.bytes, [0u8; 32]);
    assert_eq!((q.result, q.status), (0, 0));
}

#[test]
fn replies_are_judged_by_their_codes() {
    let mut out = KeyData::default();
    out.key = 5;
    assert_eq!(SMC::read_call(&CallReply { kr: 0, out }).unwrap().key, 5);
    assert!(matches!(
        SMC::read_call(&CallReply { kr: -3, out }),
        Err(Error::ReadFailure { code: -3 })
    ));
    out.result = 132;
    assert!(matches!(SMC::read_call(&CallReply { kr: 0, out }), Err(Error::KeyNotFound)));
    assert!(matches!(
        SMC::read_call(&CallReply { kr: 9, out }),
        Err(Error::ReadFailure { code: 9 })
    ));
    out.result = 133;
    assert!(matches!(
        SMC::read_call(&CallReply { kr: 0, out }),
        Err(Error::ReadFailure { code: 133 })
    ));
}

#[test]
fn value_is_read_in_two_calls_then_one() {
    let service = Service::new().with("Tg01", "flt ", &40.0f32.to_le_bytes());
    let mut smc = session();
    let v = value(&service, &mut smc, "Tg01").unwrap();
    assert_eq!((v.name.as_str(), v.unit.as_str()), ("Tg01", "flt "));
    assert_eq!(v.data, 40.0f32.to_le_bytes().to_vec());
    assert_eq!(service.calls(), 2);
    let v = value(&service, &mut smc, "Tg01").unwrap();
    assert_eq!(v.data, 40.0f32.to_le_bytes().to_vec());
    assert_eq!(service.calls(), 3);
    let sent = service.calls.borrow();
    assert_eq!(sent[0].data8, 9);
    assert_eq!(sent[1].data8, 5);
    assert_eq!(sent[1].key_info.data_size, 4);
    assert_eq!(sent[2].data8, 5);
}

#[test]
fn key_info_is_remembered() {
    let service = Service::new().with("F0Ac", "fpe2", &[0x12, 0x34]);
    let mut smc = session();
    let first = info(&service, &mut smc, "F0Ac").unwrap();
    assert_eq!(first, KeyInfo { data_size: 2, data_type: 0x6670_6532, data_attributes: 0 });
    assert_eq!(service.calls(), 1);
    assert!(matches!(smc.read_key_info("F0Ac"), Progress::Done(i) if i == first));
    assert_eq!(info(&service, &mut smc, "F0Ac").unwrap(), first);
    assert_eq!(service.calls(), 1);
}

#[test]
fn a_failed_lookup_is_not_remembered() {
    let service = Service::new();
    let mut smc = session();
    assert_eq!(info(&service, &mut smc, "Tg01"), Err(Error::KeyNotFound));
    assert_eq!(info(&service, &mut smc, "Tg01"), Err(Error::KeyNotFound));
    assert_eq!(service.calls(), 2);
}

#[test]
fn keys_must_be_four_bytes() {
    let service = Service::new();
    let mut smc = session();
    for key in ["", "Tg0", "Tg011", "\u{e9}\u{e9}\u{e9}\u{e9}"] {
        assert_eq!(info(&service, &mut smc, key), Err(Error::InvalidKey));
        assert_eq!(value(&service, &mut smc, key).err(), Some(Error::InvalidKey));
    }
    assert_eq!(service.calls(), 0);
    // Four bytes, two characters.
    assert_eq!(info(&service, &mut smc, "\u{e9}\u{e9}"), Err(Error::KeyNotFound));
}

#[test]
fn missing_and_failing_values() {
    let service = Service::new().with("Tg01", "flt ", &[0; 4]).breaking("Tg01", 135);
    let mut smc = session();
    assert_eq!(value(&service, &mut smc, "Tg02").err(), Some(Error::KeyNotFound));
    assert_eq!(value(&service, &mut smc, "Tg01").err(), Some(Error::ReadFailure { code: 135 }));
}

#[test]
fn value_is_cut_to_the_declared_size() {
    let long = KeyInfo { data_size: 40, data_type: 0x6368_382A, data_attributes: 0 };
    let service = Service::new()
        .with("ab12", "ui8 ", &[9])
        .with_raw(0x4C4F_4E47, long, &[7; 32])
        .with("zero", "flt ", &[]);
    let mut smc = session();
    assert_eq!(value(&service, &mut smc, "ab12").unwrap().data, vec![9]);
    assert_eq!(value(&service, &mut smc, "LONG").unwrap().data, vec![7; 32]);
    assert_eq!(value(&service, &mut smc, "zero").unwrap().data, Vec::<u8>::new());
}

#[test]
fn a_type_that_is_not_text_fails_the_read() {
    let odd = KeyInfo { data_size: 1, data_type: 0xFFFF_FFFF, data_attributes: 0 };
    let service = Service::new().with_raw(0x6162_3132, odd, &[1]);
    let mut smc = session();
    assert_eq!(value(&service, &mut smc, "ab12").err(), Some(Error::InvalidText));
    assert_eq!(service.calls(), 2);
    assert_eq!(info(&service, &mut smc, "ab12"), Ok(odd));
}

#[test]
fn key_by_index_names_the_key() {
    let service = Service::new().with("Tg01", "flt ", &[0; 4]).with_raw(
        0xFFFF_FFFF,
        KeyInfo { data_size: 0, data_type: 0, data_attributes: 0 },
        &[],
    );
    let smc = session();
    assert_eq!(name(&service, &smc, 0), Ok("Tg01".to_string()));
    assert_eq!(name(&service, &smc, 1), Err(Error::InvalidText));
    assert_eq!(name(&service, &smc, 2), Err(Error::KeyNotFound));
}

#[test]
fn discovery_keeps_the_keys_that_can_be_read() {
    let unnamed = KeyInfo { data_size: 1, data_type: 0x7569_3820, data_attributes: 0 };
    let untyped = KeyInfo { data_size: 1, data_type: 0x80_0000_00, data_attributes: 0 };
    let service = Service::new()
        .with("Tg01", "flt ", &40.0f32.to_le_bytes())
        .with_raw(0xC328_4141, unnamed, &[1])
        .with("F0Ac", "fpe2", &[0x12, 0x34])
        .with("Tb0k", "flt ", &[0; 4])
        .with_raw(0x5579_7065, untyped, &[1])
        .with("Tg02", "sp78", &[0x20, 0x00])
        .breaking("Tb0k", 131)
        .with_count();
    let mut smc = session();
    assert_eq!(
        keys(&service, &mut smc).unwrap(),
        vec!["Tg01".to_string(), "F0Ac".to_string(), "Tg02".to_string(), "#KEY".to_string()]
    );
}

#[test]
fn discovery_stops_at_the_count() {
    let service = Service::new()
        .with("#KEY", "ui32", &2u32.to_be_bytes())
        .with("Tg01", "flt ", &[0; 4])
        .with("Tg02", "flt ", &[0; 4]);
    let mut smc = session();
    assert_eq!(keys(&service, &mut smc).unwrap(), vec!["#KEY".to_string(), "Tg01".to_string()]);
    let empty = Service::new().with("#KEY", "ui32", &[0, 0, 0, 0, 9]);
    let mut smc = session();
    assert_eq!(keys(&empty, &mut smc).unwrap(), Vec::<String>::new());
    assert_eq!(empty.calls(), 2);
}

#[test]
fn discovery_passes_over_indices_without_a_key() {
    let service = Service::new().with("Tg01", "flt ", &[0; 4]).with("#KEY", "ui32", &[0, 0, 0, 5]);
    let mut smc = session();
    assert_eq!(keys(&service, &mut smc).unwrap(), vec!["Tg01".to_string(), "#KEY".to_string()]);
}

#[test]
fn discovery_needs_the_count() {
    let mut smc = session();
    assert_eq!(keys(&Service::new(), &mut smc), Err(Error::KeyNotFound));
    let short = Service::new().with("#KEY", "ui16", &[0, 2]);
    assert_eq!(keys(&short, &mut smc), Err(Error::ShortPayload));
    let broken = Service::new().with("#KEY", "ui32", &[0, 0, 0, 1]).breaking("#KEY", 1);
    let mut smc = session();
    assert_eq!(keys(&broken, &mut smc), Err(Error::ReadFailure { code: 1 }));
}

#[test]
fn gpu_temperature_is_the_average_of_the_readings_that_count() {
    let service = Service::new()
        .with("Tg01", "flt ", &40.0f32.to_le_bytes())
        .with("Tg02", "flt ", &44.0f32.to_le_bytes())
        .with("Tg03", "flt ", &0.0f32.to_le_bytes())
        .with_count();
    let mut smc = session();
    let snap = snapshot(&service, &mut smc);
    assert_eq!(
        snap.gpu_temps,
        vec![
            Decoded::Float32 { bits: 40.0f32.to_bits() },
            Decoded::Float32 { bits: 44.0f32.to_bits() }
        ]
    );
    // 40 + 44 = 0x1500000 * 2^-18 = 0x1500000 * 2^131 units of 2^-149.
    assert_eq!(
        snap.gpu_temp_avg,
        Some(Mean::Exact {
            sum: Wide { w0: 0, w1: 0, w2: 0x150_0000 << 3, w3: 0, high: 0 },
            count: 2
        })
    );
    assert_eq!(snap.gpu_temp_avg.as_ref().map(mean_as_f32), Some(42.0));
    assert_eq!(average(&snap.gpu_temps), Some(42.0));
    assert!(snap.fans.is_empty());
}

#[test]
fn only_gpu_temperatures_count() {
    let service = Service::new()
        .with("Tp01", "flt ", &90.0f32.to_le_bytes())
        .with("Te05", "flt ", &80.0f32.to_le_bytes())
        .with("Tg0D", "sp78", &[0x2a, 0x80])
        .with("Tg0E", "sp78", &[0x00, 0x00])
        .with("Tg0F", "flt ", &(-0.0f32).to_le_bytes())
        .with("Tg0G", "ch8*", &[0x31, 0x32, 0x33, 0x34])
        .with("Tg0H", "fpe2", &[0x00, 0xa4])
        .with("TG0I", "flt ", &70.0f32.to_le_bytes())
        .with_count();
    let mut smc = session();
    let snap = snapshot(&service, &mut smc);
    assert_eq!(
        snap.gpu_temps,
        vec![Decoded::Fraction256 { parts: 0x2a80 }, Decoded::Quarters { quarters: 0xa4 }]
    );
    // 0x2a80 / 2^8 + 0xa4 / 2^2 = 0x5380 * 2^141 units of 2^-149.
    assert_eq!(
        snap.gpu_temp_avg,
        Some(Mean::Exact {
            sum: Wide { w0: 0, w1: 0, w2: 0x5380 << 13, w3: 0, high: 0 },
            count: 2
        })
    );
    assert_eq!(snap.gpu_temp_avg.as_ref().map(mean_as_f32), Some((42.5 + 41.0) / 2.0));
    assert_eq!(average(&snap.gpu_temps), Some((42.5 + 41.0) / 2.0));
}

#[test]
fn no_temperature_is_no_average() {
    let service = Service::new().with("Tg01", "flt ", &[0; 4]).with_count();
    let mut smc = session();
    let snap = snapshot(&service, &mut smc);
    assert!(snap.gpu_temps.is_empty());
    assert_eq!(snap.gpu_temp_avg, None);
    assert_eq!(average(&snap.gpu_temps), None);
}

#[test]
fn fans_come_in_the_order_of_their_indices() {
    let service = Service::new()
        .with("FAAc", "fpe2", &(4 * 3000u16).to_be_bytes())
        .with("F1Ac", "flt ", &1200.0f32.to_le_bytes())
        .with("F0Ac", "fpe2", &(4 * 1000u16).to_be_bytes())
        .with("F2Ac", "ch8*", &[1, 2])
        .with("F1Mn", "fpe2", &[0, 0])
        .with_count();
    let mut smc = session();
    let snap = snapshot(&service, &mut smc);
    let seen: Vec<(u8, f32, &str, &str)> = snap
        .fans
        .iter()
        .map(|f| (f.index, as_f32(&f.rpm), f.key.as_str(), f.encoding.as_str()))
        .collect();
    assert_eq!(
        seen,
        vec![
            (0, 1000.0, "F0Ac", "fpe2"),
            (1, 1200.0, "F1Ac", "flt "),
            (10, 3000.0, "FAAc", "fpe2")
        ]
    );
    assert!(snap.gpu_temps.is_empty());
}

#[test]
fn the_last_reading_of_a_fan_index_wins() {
    let service = Service::new()
        .with("FaAc", "fpe2", &(4 * 100u16).to_be_bytes())
        .with("F3Ac", "fpe2", &(4 * 300u16).to_be_bytes())
        .with("FAAc", "fpe2", &(4 * 200u16).to_be_bytes())
        .with_count();
    let mut smc = session();
    let snap = snapshot(&service, &mut smc);
    let seen: Vec<(u8, u16, &str)> = snap
        .fans
        .iter()
        .map(|f| match f.rpm {
            Decoded::Quarters { quarters } => (f.index, quarters / 4, f.key.as_str()),
            _ => panic!("fpe2 decodes to quarters"),
        })
        .collect();
    assert_eq!(seen, vec![(3, 300, "F3Ac"), (10, 200, "FAAc")]);
}

#[test]
fn a_survey_without_keys_is_empty() {
    let mut smc = session();
    let snap = snapshot(&Service::new(), &mut smc);
    assert!(snap.gpu_temps.is_empty() && snap.fans.is_empty());
    let short = Service::new().with("#KEY", "ui8 ", &[3]);
    let snap = snapshot(&short, &mut smc);
    assert!(snap.gpu_temps.is_empty() && snap.fans.is_empty());
}

#[test]
fn a_survey_reads_each_key_once_more() {
    let service = Service::new()
        .with("Tg01", "flt ", &40.0f32.to_le_bytes())
        .with("F0Ac", "fpe2", &[0x10, 0x00])
        .with("Tb0k", "flt ", &[0; 4])
        .with_count();
    let mut smc = session();
    let snap = snapshot(&service, &mut smc);
    assert_eq!(snap.gpu_temps.len(), 1);
    assert_eq!(snap.fans.len(), 1);
    // Count: 2 calls. Discovery: per key a name, a lookup and a value, the
    // lookup of `#KEY` being remembered. Survey: one value per key of
    // interest.
    assert_eq!(service.calls(), 2 + (3 * 3 + 2) + 2);
}

#[test]
fn the_default_snapshot_is_empty() {
    let snap = SmcSnapshot::default();
    assert!(snap.gpu_temps.is_empty() && snap.fans.is_empty());
    assert_eq!(snap.gpu_temp_avg, None);
    let zeroed = KeyData::default();
    assert_eq!((zeroed.key, zeroed.data8, zeroed.data32, zeroed.bytes), (0, 0, 0, [0u8; 32]));
    assert_eq!(KeyInfo::default(), KeyInfo { data_size: 0, data_type: 0, data_attributes: 0 });
}

#[test]
fn a_tiny_reading_still_has_a_mean() {
    let service = Service::new()
        .with("Tg01", "flt ", &40.0f32.to_le_bytes())
        .with("Tg02", "flt ", &f32::from_bits(1).to_le_bytes())
        .with_count();
    let mut smc = session();
    let snap = snapshot(&service, &mut smc);
    assert_eq!(snap.gpu_temps.len(), 2);
    assert_eq!(
        snap.gpu_temp_avg,
        Some(Mean::Exact {
            sum: Wide { w0: 1, w1: 0, w2: 0xA0_0000 << 3, w3: 0, high: 0 },
            count: 2
        })
    );
    assert_eq!(snap.gpu_temp_avg.as_ref().map(mean_as_f32), Some(20.0));
    assert_eq!(average(&snap.gpu_temps), Some(20.0));
}

#[test]
fn readings_that_are_no_numbers_have_a_mean_too() {
    let service = Service::new()
        .with("Tg01", "flt ", &40.0f32.to_le_bytes())
        .with("Tg02", "flt ", &f32::INFINITY.to_le_bytes())
        .with_count();
    let mut smc = session();
    let snap = snapshot(&service, &mut smc);
    assert_eq!(snap.gpu_temp_avg, Some(Mean::Infinite { negative: false }));
    assert_eq!(snap.gpu_temp_avg.as_ref().map(mean_as_f32), average(&snap.gpu_temps));
    let service = Service::new()
        .with("Tg01", "flt ", &40.0f32.to_le_bytes())
        .with("Tg02", "flt ", &f32::NAN.to_le_bytes())
        .with_count();
    let mut smc = session();
    let snap = snapshot(&service, &mut smc);
    assert_eq!(snap.gpu_temp_avg, Some(Mean::NotANumber));
    assert!(average(&snap.gpu_temps).unwrap().is_nan());
}
