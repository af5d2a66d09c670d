use macmon::smc::{
    key_code, key_name, temp_sensor_kind, KeyInfo, KeyInfoStep, KeyScan, SensorKind, SensorVal, SmcError, SMC,
    CMD_KEY_BY_INDEX, CMD_KEY_INFO, CMD_READ_VALUE, FLOAT_TYPE,
};
use macmon::soc::{cpu_freq_scale, get_dvfs_mhz, parse_cpu_cores, parse_memory_gb, parse_u64, to_mhz, DvfsBlobs, ProfileError, SocInfo};

#[test]
fn fourcc_codes() {
    assert_eq!(key_code("#KEY"), Ok(0x234B_4559));
    assert_eq!(key_code("ABC"), Err(SmcError::KeyLength));
    assert_eq!(key_code("ABCDE"), Err(SmcError::KeyLength));
    assert_eq!(key_name(0x5470_3031), Ok("Tp01".to_string()));
    assert_eq!(key_name(FLOAT_TYPE), Ok("flt ".to_string()));
    assert_eq!(key_name(0xFF00_0000), Err(SmcError::KeyText));
}

#[test]
fn reply_result_codes() {
    let mut reply = SMC::key_by_index_request(3);
    assert_eq!(reply.data8, CMD_KEY_BY_INDEX);
    assert_eq!(reply.data32, 3);
    assert!(SMC::read(0, reply).is_ok());
    assert_eq!(SMC::read(-536870206, reply).err(), Some(SmcError::Transport(-536870206)));
    reply.result = 132;
    assert_eq!(SMC::read(0, reply).err(), Some(SmcError::KeyNotFound));
    reply.result = 7;
    assert_eq!(SMC::read(0, reply).err(), Some(SmcError::Protocol(7)));
}

#[test]
fn missing_key_is_skipped_in_enumeration() {
    let count = SensorVal { name: "#KEY".to_string(), unit: "ui32".to_string(), data: vec![0, 0, 0, 2] };
    let mut scan = KeyScan::new(&count).unwrap();
    assert_eq!(scan.count, 2);
    assert_eq!(scan.next_index(), Some(0));
    let mut reply = SMC::key_by_index_request(0);
    reply.result = 132;
    let missing = SMC::read(0, reply).map(|_| SensorVal { name: "TX0A".to_string(), unit: String::new(), data: vec![] });
    assert_eq!(missing.as_ref().err(), Some(&SmcError::KeyNotFound));
    scan.record("TX0A".to_string(), &missing);
    let ok: Result<SensorVal, SmcError> = Ok(SensorVal { name: "Tp01".to_string(), unit: "flt ".to_string(), data: vec![0; 4] });
    scan.record("Tp01".to_string(), &ok);
    assert_eq!(scan.next_index(), None);
    assert_eq!(scan.keys, vec!["Tp01".to_string()]);
}

#[test]
fn key_count_needs_four_bytes() {
    let short = SensorVal { name: "#KEY".to_string(), unit: "ui32".to_string(), data: vec![1, 2] };
    assert_eq!(KeyScan::new(&short).err(), Some(SmcError::DataSize));
    let big = SensorVal { name: "#KEY".to_string(), unit: "ui32".to_string(), data: vec![0, 0, 1, 2] };
    assert_eq!(KeyScan::new(&big).unwrap().count, 258);
}

#[test]
fn key_info_is_cached() {
    let mut smc = SMC::new();
    assert_eq!(smc.key_info_step("T").err(), Some(SmcError::KeyLength));
    let req = match smc.key_info_step("Tp01").unwrap() {
        KeyInfoStep::Request(d) => d,
        KeyInfoStep::Cached(_) => panic!("nothing is cached yet"),
    };
    assert_eq!(req.data8, CMD_KEY_INFO);
    assert_eq!(req.key, 0x5470_3031);
    let mut reply = req;
    reply.key_info = KeyInfo { data_size: 4, data_type: FLOAT_TYPE, data_attributes: 0 };
    let info = smc.read_key_info("Tp01", SMC::read(0, reply)).unwrap();
    assert_eq!(info.data_size, 4);
    match smc.key_info_step("Tp01").unwrap() {
        KeyInfoStep::Cached(cached) => assert_eq!(cached, info),
        KeyInfoStep::Request(_) => panic!("a cached key needs no request"),
    }
    let mut missing = req;
    missing.result = 132;
    assert_eq!(smc.read_key_info("Tg0A", SMC::read(0, missing)), Err(SmcError::KeyNotFound));
    assert!(matches!(smc.key_info_step("Tg0A").unwrap(), KeyInfoStep::Request(_)));
}

#[test]
fn value_reply_payload() {
    let info = KeyInfo { data_size: 4, data_type: FLOAT_TYPE, data_attributes: 0 };
    let req = SMC::read_val_request("Tp01", info).unwrap();
    assert_eq!(req.data8, CMD_READ_VALUE);
    assert_eq!(req.key_info, info);
    let mut reply = req;
    reply.bytes[0] = 0;
    reply.bytes[1] = 0;
    reply.bytes[2] = 0x34;
    reply.bytes[3] = 0x42;
    reply.bytes[4] = 9;
    let v = SMC::read_val("Tp01", info, SMC::read(0, reply)).unwrap();
    assert_eq!(v.name, "Tp01");
    assert_eq!(v.unit, "flt ");
    assert_eq!(v.data, vec![0, 0, 0x34, 0x42]);
    let huge = KeyInfo { data_size: 33, data_type: FLOAT_TYPE, data_attributes: 0 };
    assert_eq!(SMC::read_val("Tp01", huge, SMC::read(0, reply)).err(), Some(SmcError::DataSize));
}

#[test]
fn temperature_key_kinds() {
    let flt = KeyInfo { data_size: 4, data_type: FLOAT_TYPE, data_attributes: 0 };
    assert_eq!(temp_sensor_kind("Tp01", flt), Some(SensorKind::Cpu));
    assert_eq!(temp_sensor_kind("Te05", flt), Some(SensorKind::Cpu));
    assert_eq!(temp_sensor_kind("Tg0f", flt), Some(SensorKind::Gpu));
    assert_eq!(temp_sensor_kind("TB0T", flt), None);
    let ui8 = KeyInfo { data_size: 1, data_type: FLOAT_TYPE, data_attributes: 0 };
    assert_eq!(temp_sensor_kind("Tp01", ui8), None);
}

#[test]
fn decimal_parsing() {
    assert_eq!(parse_u64("12"), Some(12));
    assert_eq!(parse_u64("+12"), Some(12));
    assert_eq!(parse_u64(""), None);
    assert_eq!(parse_u64("+"), None);
    assert_eq!(parse_u64("1a"), None);
    assert_eq!(parse_u64("-1"), None);
    assert_eq!(parse_u64("18446744073709551615"), Some(u64::MAX));
    assert_eq!(parse_u64("18446744073709551616"), None);
}

#[test]
fn inventory_fields() {
    assert_eq!(parse_memory_gb(Some("16 GB")), 16);
    assert_eq!(parse_memory_gb(Some("16GB")), 0);
    assert_eq!(parse_memory_gb(None), 0);
    assert_eq!(parse_cpu_cores(Some("proc 10:8:2")), Some((2, 8)));
    assert_eq!(parse_cpu_cores(Some("proc 10:8")), None);
    assert_eq!(parse_cpu_cores(Some("proc 10:8:2:1")), None);
    assert_eq!(parse_cpu_cores(Some("proc 10:x:4")), None);
    assert_eq!(parse_cpu_cores(Some("10:8:2")), None);
    assert_eq!(parse_cpu_cores(None), None);
    assert_eq!(cpu_freq_scale("Apple M2 Pro"), 1_000_000);
    assert_eq!(cpu_freq_scale("Apple M4 Max"), 1_000);
}

fn blob(pairs: &[(u32, u32)]) -> Vec<u8> {
    let mut b = Vec::new();
    for (f, v) in pairs {
        b.extend_from_slice(&f.to_le_bytes());
        b.extend_from_slice(&v.to_le_bytes());
    }
    b
}

#[test]
fn dvfs_tables_decode() {
    let mut b = blob(&[(600_000_000, 700), (1_200_000_000, 800)]);
    b.push(1);
    let (volts, freqs) = get_dvfs_mhz(&b);
    assert_eq!(volts, vec![700, 800]);
    assert_eq!(freqs, vec![600_000_000, 1_200_000_000]);
    assert_eq!(to_mhz(freqs, 1_000_000), vec![600, 1200]);
}

#[test]
fn profile_from_inventory() {
    let blobs = DvfsBlobs {
        ecpu: blob(&[(600_000, 1), (2_064_000, 2)]),
        pcpu: blob(&[(660_000, 1), (4_512_000, 2)]),
        gpu: blob(&[(0, 0), (338_000_000, 1)]),
    };
    let s = SocInfo::from_profile(Some("Apple M4 Pro"), None, Some("24 GB"), Some("proc 14:10:4"), Some("20"), Some(&blobs)).unwrap();
    assert_eq!(s.chip_name, "Apple M4 Pro");
    assert_eq!(s.mac_model, "Unknown model");
    assert_eq!(s.memory_gb, 24);
    assert_eq!((s.ecpu_cores, s.pcpu_cores, s.gpu_cores), (4, 10, 20));
    assert_eq!(s.ecpu_freqs, vec![600, 2064]);
    assert_eq!(s.pcpu_freqs, vec![660, 4512]);
    assert_eq!(s.gpu_freqs, vec![0, 338]);
    assert_eq!(
        SocInfo::from_profile(None, None, None, Some("proc 2:1:1"), None, None).err(),
        Some(ProfileError::NoCpuFrequencies)
    );
    let empty = DvfsBlobs { ecpu: vec![], pcpu: blob(&[(1, 1)]), gpu: vec![] };
    assert_eq!(
        SocInfo::from_profile(None, None, None, Some("proc 2:1:1"), None, Some(&empty)).err(),
        Some(ProfileError::NoCpuFrequencies)
    );
    assert_eq!(
        SocInfo::from_profile(None, None, None, Some("proc 2:1"), None, Some(&blobs)).err(),
        Some(ProfileError::Topology)
    );
    let unsorted = DvfsBlobs { ecpu: blob(&[(2_000_000, 1), (1_000_000, 2)]), pcpu: blob(&[(1_000_000, 1)]), gpu: vec![] };
    assert_eq!(
        SocInfo::from_profile(Some("Apple M4"), None, None, Some("proc 2:1:1"), None, Some(&unsorted)).err(),
        Some(ProfileError::Unsorted)
    );
    let defaults = SocInfo::from_profile(None, None, Some("lots"), Some("proc 2:1:1"), None, Some(&blobs)).unwrap();
    assert_eq!(defaults.chip_name, "Unknown chip");
    assert_eq!((defaults.memory_gb, defaults.gpu_cores), (0, 0));
    assert_eq!(defaults.ecpu_freqs, vec![600, 2064]);
}

#[test]
fn profile_from_json_report() {
    let blobs = DvfsBlobs {
        ecpu: blob(&[(744_000_000, 1), (2_064_000_000, 2)]),
        pcpu: blob(&[(660_000_000, 1), (3_228_000_000, 2)]),
        gpu: blob(&[(0, 0), (396_000_000, 1)]),
    };
    let report = r#"{
        "SPHardwareDataType": [{"chip_type": "Apple M1 Pro", "machine_model": "MacBookPro18,3",
            "physical_memory": "16 GB", "number_processors": "proc 10:8:2"}],
        "SPDisplaysDataType": [{"sppci_cores": "14"}]
    }"#;
    let s = SocInfo::from_report(report, Some(&blobs)).unwrap();
    assert_eq!(s.chip_name, "Apple M1 Pro");
    assert_eq!(s.mac_model, "MacBookPro18,3");
    assert_eq!((s.memory_gb, s.ecpu_cores, s.pcpu_cores, s.gpu_cores), (16, 2, 8, 14));
    assert_eq!(s.ecpu_freqs, vec![744, 2064]);
    assert_eq!(s.pcpu_freqs, vec![660, 3228]);
    assert_eq!(s.gpu_freqs, vec![0, 396]);
    assert_eq!(SocInfo::from_report("not json", Some(&blobs)).err(), Some(ProfileError::Report));
    assert_eq!(SocInfo::from_report("{}", Some(&blobs)).err(), Some(ProfileError::Topology));
}
