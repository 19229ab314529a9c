use hpu_sim::cpn::regmap::preset::presets;
use hpu_sim::cpn::regmap::register::{Half, Register};
use hpu_sim::cpn::regmap::unit::{
    application, application_code, names_differ, Command, KeyReset, RegisterEntry, Request,
    Response,
};
use hpu_sim::cpn::{Regmap, RegmapParams, HBM_BSK_PC_MAX, HBM_KSK_PC_MAX, MEM_CT_PC_MAX};
use hpu_sim::params::hpu::{
    HpuIscParameters, HpuKeyswitchParameters, HpuModulusSwitchType, HpuNoiseDistributionInputRaw,
    HpuNttCoreArch, HpuNttParameters, HpuNttPrime, HpuPBSParameters, HpuParameters,
    HpuPcParameters, HpuRegfileParameters,
};
use tfhe_hpu_backend::interface::rtl::params::{
    CONCRETE_BOOLEAN, MSG2_CARRY2, MSG2_CARRY2_44B, MSG2_CARRY2_64B, MSG2_CARRY2_64B_FAKE,
    MSG2_CARRY2_GAUSSIAN, MSG2_CARRY2_PFAIL64_132B_GAUSSIAN_1F72DBA, MSG2_CARRY2_TUNIFORM,
};
use tfhe_hpu_backend::prelude::parameters::{
    HpuModulusSwitchType as BackendSwitch, HpuNoiseDistributionInput, HpuPBSParameters as Backend,
};

fn parameters() -> HpuParameters {
    HpuParameters {
        pbs_params: HpuPBSParameters {
            lwe_dimension: 804,
            glwe_dimension: 1,
            polynomial_size: 2048,
            lwe_noise_distribution: HpuNoiseDistributionInputRaw { mode: 2, raw_0: 3, raw_1: 0 },
            glwe_noise_distribution: HpuNoiseDistributionInputRaw { mode: 1, raw_0: 5, raw_1: 6 },
            pbs_base_log: 23,
            pbs_level: 1,
            ks_base_log: 2,
            ks_level: 8,
            message_width: 2,
            carry_width: 3,
            ciphertext_width: 64,
            log2_p_fail: 0,
            modulus_switch_type: HpuModulusSwitchType::Standard,
        },
        ntt_params: HpuNttParameters {
            core_arch: HpuNttCoreArch::GF64(vec![5, 6, 1]),
            min_pbs_nb: None,
            batch_pbs_nb: 8,
            total_pbs_nb: 32,
            ct_width: 64,
            radix: 2,
            stg_nb: 11,
            prime_modulus: HpuNttPrime::Solinas3_32_17_13,
            psi: 0x20,
            delta: 8,
        },
        ks_params: HpuKeyswitchParameters { width: 21, lbx: 2, lby: 64, lbz: 3 },
        pc_params: HpuPcParameters {
            ksk_pc: 4,
            ksk_bytes_w: 64,
            bsk_pc: 8,
            glwe_pc: 1,
            bsk_bytes_w: 32,
            pem_pc: 2,
            pem_bytes_w: 16,
            glwe_bytes_w: 8,
        },
        regf_params: HpuRegfileParameters { reg_nb: 64, coef_nb: 32 },
        isc_params: HpuIscParameters { depth: 64, min_iop_size: 45 },
    }
}

/// Registers at consecutive words from an offset.
const BASE: usize = 0x1000;

const NAMES: [&str; 50] = [
    "info::ntt_structure",
    "info::ntt_rdx_cut",
    "info::ntt_architecture",
    "info::ntt_pbs",
    "info::ntt_modulo",
    "info::application",
    "info::ks_structure",
    "info::ks_crypto_param",
    "info::hbm_axi4_nb",
    "info::hbm_axi4_dataw_ksk",
    "info::hbm_axi4_dataw_bsk",
    "info::hbm_axi4_dataw_pem",
    "info::hbm_axi4_dataw_glwe",
    "info::regf_structure",
    "info::isc_structure",
    "bsk_avail::avail",
    "bsk_avail::reset",
    "ksk_avail::avail",
    "ksk_avail::reset",
    "bpip::use",
    "bpip::timeout",
    "hbm_axi4_addr_1in3::ct_pc0_msb",
    "hbm_axi4_addr_1in3::ct_pc0_lsb",
    "hbm_axi4_addr_1in3::ct_pc1_msb",
    "hbm_axi4_addr_1in3::ct_pc1_lsb",
    "hbm_axi4_addr_3in3::bsk_pc0_msb",
    "hbm_axi4_addr_3in3::bsk_pc15_lsb",
    "hbm_axi4_addr_1in3::ksk_pc0_lsb",
    "hbm_axi4_addr_1in3::ksk_pc15_msb",
    "hbm_axi4_addr_1in3::glwe_pc0_msb",
    "hbm_axi4_addr_1in3::glwe_pc0_lsb",
    "hbm_axi4_addr_1in3::trc_pc0_msb",
    "hbm_axi4_addr_1in3::trc_pc0_lsb",
    "pbs_parameters::lwe_dimension",
    "pbs_parameters::glwe_dimension",
    "pbs_parameters::polynomial_size",
    "pbs_parameters::pbs_base_log",
    "pbs_parameters::pbs_level",
    "pbs_parameters::ks_base_log",
    "pbs_parameters::ks_level",
    "pbs_parameters::message_width",
    "pbs_parameters::carry_width",
    "pbs_parameters::ciphertext_width",
    "pbs_noise_lwe::mode",
    "pbs_noise_lwe::raw_0",
    "pbs_noise_lwe::raw_1",
    "pbs_noise_glwe::mode",
    "pbs_noise_glwe::raw_0",
    "pbs_noise_glwe::raw_1",
    "runtime::counter",
];

fn regmap(rtl: HpuParameters) -> Regmap {
    let table = NAMES
        .iter()
        .enumerate()
        .map(|(i, name)| RegisterEntry { name: name.to_string(), offset: BASE + 4 * i })
        .collect();
    Regmap::new(RegmapParams { regmap_files: vec![], rtl, latency: 1 }, table)
}

fn read(map: &mut Regmap, name: &str) -> u32 {
    let addr = map.get_register_addr(&name.to_string());
    assert!(map.can_read(addr));
    map.read_reg(addr)
}

fn write(map: &mut Regmap, name: &str, value: u32) -> Option<KeyReset> {
    let addr = map.get_register_addr(&name.to_string());
    assert!(map.is_mapped(addr));
    map.write_reg(addr, value)
}

#[test]
fn registers_show_the_parameters() {
    let mut map = regmap(parameters());
    let expected = [
        ("info::ntt_structure", 2 + (0x20 << 8) + (8 << 24)),
        ("info::ntt_rdx_cut", 0x165),
        ("info::ntt_architecture", 0x505),
        ("info::ntt_pbs", 8 + (32 << 8)),
        ("info::ntt_modulo", 0x601),
        ("info::application", 1),
        ("info::ks_structure", 2 + (64 << 8) + (3 << 16)),
        ("info::ks_crypto_param", 21 + (8 << 8) + (2 << 16)),
        ("info::hbm_axi4_nb", 8 + (4 << 8) + (2 << 16)),
        ("info::hbm_axi4_dataw_ksk", 512),
        ("info::hbm_axi4_dataw_bsk", 256),
        ("info::hbm_axi4_dataw_pem", 128),
        ("info::hbm_axi4_dataw_glwe", 64),
        ("info::regf_structure", 64 + (32 << 8)),
        ("info::isc_structure", 64 + (45 << 8)),
        ("pbs_parameters::lwe_dimension", 804),
        ("pbs_parameters::glwe_dimension", 1),
        ("pbs_parameters::polynomial_size", 2048),
        ("pbs_parameters::pbs_base_log", 23),
        ("pbs_parameters::pbs_level", 1),
        ("pbs_parameters::ks_base_log", 2),
        ("pbs_parameters::ks_level", 8),
        ("pbs_parameters::message_width", 2),
        ("pbs_parameters::carry_width", 3),
        ("pbs_parameters::ciphertext_width", 64),
        ("pbs_noise_lwe::mode", 2),
        ("pbs_noise_lwe::raw_0", 3),
        ("pbs_noise_lwe::raw_1", 0),
        ("pbs_noise_glwe::mode", 1),
        ("pbs_noise_glwe::raw_0", 5),
        ("pbs_noise_glwe::raw_1", 6),
        ("runtime::counter", 0),
    ];
    for (name, value) in expected {
        assert_eq!(read(&mut map, name), value, "{name}");
    }
}

#[test]
fn the_other_cores_are_cut_by_delta() {
    for arch in [HpuNttCoreArch::WmmCompactPcg, HpuNttCoreArch::WmmUnfoldPcg] {
        let mut rtl = parameters();
        rtl.ntt_params.core_arch = arch;
        let mut map = regmap(rtl);
        assert_eq!(read(&mut map, "info::ntt_rdx_cut"), 8);
        assert_eq!(read(&mut map, "info::ntt_architecture"), 0x504);
    }
}

#[test]
fn too_many_cuts_cannot_be_read() {
    let mut rtl = parameters();
    rtl.ntt_params.core_arch = HpuNttCoreArch::GF64(vec![1; 9]);
    let map = regmap(rtl);
    let addr = map.get_register_addr(&"info::ntt_rdx_cut".to_string());
    assert!(map.is_mapped(addr));
    assert!(!map.can_read(addr));
    let addr = map.get_register_addr(&"info::ntt_pbs".to_string());
    assert!(map.can_read(addr));
}

/// Standard deviation of a noise.
fn std_dev(noise: HpuNoiseDistributionInputRaw) -> f64 {
    assert_eq!(noise.mode, 1);
    f64::from_bits(noise.raw_0 as u64 | (noise.raw_1 as u64) << 32)
}

fn gaussian(noise: HpuNoiseDistributionInput) -> f64 {
    match noise {
        HpuNoiseDistributionInput::GaussianStdDev(std_dev) => std_dev,
        other => panic!("{other:?}"),
    }
}

fn assert_same(ours: &HpuPBSParameters, other: Backend) {
    assert_eq!(ours.lwe_dimension, other.lwe_dimension);
    assert_eq!(ours.glwe_dimension, other.glwe_dimension);
    assert_eq!(ours.polynomial_size, other.polynomial_size);
    assert_eq!(std_dev(ours.lwe_noise_distribution), gaussian(other.lwe_noise_distribution));
    assert_eq!(std_dev(ours.glwe_noise_distribution), gaussian(other.glwe_noise_distribution));
    assert_eq!(ours.pbs_base_log, other.pbs_base_log);
    assert_eq!(ours.pbs_level, other.pbs_level);
    assert_eq!(ours.ks_base_log, other.ks_base_log);
    assert_eq!(ours.ks_level, other.ks_level);
    assert_eq!(ours.message_width, other.message_width);
    assert_eq!(ours.carry_width, other.carry_width);
    assert_eq!(ours.ciphertext_width, other.ciphertext_width);
    assert_eq!(f64::from_bits(ours.log2_p_fail), other.log2_p_fail);
    assert_eq!(ours.modulus_switch_type, HpuModulusSwitchType::Standard);
    assert_eq!(other.modulus_switch_type, BackendSwitch::Standard);
}

#[test]
fn known_applications_have_a_code() {
    let sets = presets();
    let backend = [
        (0x700, CONCRETE_BOOLEAN),
        (0x701, MSG2_CARRY2),
        (0x703, MSG2_CARRY2_64B),
        (0x704, MSG2_CARRY2_44B),
        (0x709, MSG2_CARRY2_64B_FAKE),
        (0x70a, MSG2_CARRY2_GAUSSIAN),
        (0x70b, MSG2_CARRY2_TUNIFORM),
        (0x70c, MSG2_CARRY2_PFAIL64_132B_GAUSSIAN_1F72DBA),
    ];
    assert_eq!(sets.len(), backend.len());
    for ((code, ours), (value, other)) in sets.iter().zip(backend) {
        assert_same(ours, other);
        assert_eq!(application(ours), value);
        assert_eq!(code + 0x700, value);
    }
    // Any other set of parameters.
    let mut other = sets[2].1;
    other.ks_level += 1;
    assert_eq!(application(&other), 1);
    assert_eq!(application_code(&other, &vec![(5, sets[0].1), (6, other), (7, other)]), 0x706);
}

#[test]
fn known_applications_have_given_values() {
    let sets = presets();
    let boolean = sets[0].1;
    assert_eq!((boolean.lwe_dimension, boolean.polynomial_size), (586, 512));
    assert_eq!(boolean.ciphertext_width, 32);
    assert_eq!(std_dev(boolean.lwe_noise_distribution), 0.00000000007069849454709433);
    assert_eq!(std_dev(boolean.glwe_noise_distribution), 0.0000000000000000000029403601535432533);
    assert_eq!((sets[3].1.ciphertext_width, sets[4].1.ciphertext_width), (44, 64));
    let last = sets[7].1;
    assert_eq!((last.lwe_dimension, last.ks_base_log, last.ks_level), (804, 2, 8));
    assert_eq!(std_dev(last.lwe_noise_distribution), 5.963_599_673_924_788e-6);
    assert_eq!(std_dev(last.glwe_noise_distribution), 2.8452674713391114e-15);
    assert_eq!(f64::from_bits(last.log2_p_fail), -64.0);
}

#[test]
fn words_are_read_back() {
    let mut map = regmap(parameters());
    let words = [
        "bpip::timeout",
        "hbm_axi4_addr_1in3::ct_pc0_msb",
        "hbm_axi4_addr_1in3::ct_pc0_lsb",
        "hbm_axi4_addr_1in3::ct_pc1_msb",
        "hbm_axi4_addr_1in3::ct_pc1_lsb",
        "hbm_axi4_addr_3in3::bsk_pc0_msb",
        "hbm_axi4_addr_3in3::bsk_pc15_lsb",
        "hbm_axi4_addr_1in3::ksk_pc0_lsb",
        "hbm_axi4_addr_1in3::ksk_pc15_msb",
        "hbm_axi4_addr_1in3::glwe_pc0_msb",
        "hbm_axi4_addr_1in3::glwe_pc0_lsb",
        "hbm_axi4_addr_1in3::trc_pc0_msb",
        "hbm_axi4_addr_1in3::trc_pc0_lsb",
    ];
    for (i, name) in words.iter().enumerate() {
        assert_eq!(read(&mut map, name), 0);
        assert_eq!(write(&mut map, name, 0xabc0 + i as u32), None);
    }
    // A write leaves the other registers as they are.
    for (i, name) in words.iter().enumerate() {
        assert_eq!(read(&mut map, name), 0xabc0 + i as u32);
    }
    assert_eq!(map.inner.addr_ofst.bsk.len(), HBM_BSK_PC_MAX);
    assert_eq!(map.inner.addr_ofst.ksk.len(), HBM_KSK_PC_MAX);
    assert_eq!(map.inner.addr_ofst.ldst.len(), MEM_CT_PC_MAX);
    assert_eq!(map.inner.addr_ofst.bsk[15].lsb, 0xabc6);
}

#[test]
fn flags_are_the_low_bits_of_a_word() {
    let mut map = regmap(parameters());
    write(&mut map, "bsk_avail::avail", 0xff);
    assert_eq!(read(&mut map, "bsk_avail::avail"), 1);
    write(&mut map, "ksk_avail::avail", 0xfe);
    assert_eq!(read(&mut map, "ksk_avail::avail"), 0);
    for value in 0..4 {
        write(&mut map, "bpip::use", 0xf0 + value);
        assert_eq!(read(&mut map, "bpip::use"), value);
    }
    // A register that shows a parameter cannot be written.
    assert_eq!(write(&mut map, "info::ntt_pbs", 7), None);
    assert_eq!(read(&mut map, "info::ntt_pbs"), 8 + (32 << 8));
}

#[test]
fn the_reset_of_a_key_is_reported_once() {
    let mut map = regmap(parameters());
    for (avail, reset, key) in [
        ("bsk_avail::avail", "bsk_avail::reset", KeyReset::Bsk),
        ("ksk_avail::avail", "ksk_avail::reset", KeyReset::Ksk),
    ] {
        write(&mut map, avail, 1);
        assert_eq!(write(&mut map, reset, 2), None);
        assert_eq!(read(&mut map, avail), 1);
        assert_eq!(write(&mut map, reset, 1), Some(key));
        assert_eq!(read(&mut map, avail), 0);
        assert_eq!(read(&mut map, reset), 0x8000_0000);
        assert_eq!(read(&mut map, reset), 0);
        assert_eq!(read(&mut map, avail), 0);
    }
}

#[test]
fn a_reset_waits_for_its_read_whatever_is_accessed() {
    let mut map = regmap(parameters());
    for (reset, other) in
        [("bsk_avail::reset", "ksk_avail::reset"), ("ksk_avail::reset", "bsk_avail::reset")]
    {
        write(&mut map, reset, 1);
        write(&mut map, "bpip::timeout", 0xffff_ffff);
        write(&mut map, other, 1);
        write(&mut map, reset, 0);
        assert_eq!(read(&mut map, other), 0x8000_0000);
        assert_eq!(read(&mut map, "bpip::timeout"), 0xffff_ffff);
        assert_eq!(read(&mut map, reset), 0x8000_0000);
        // Nothing more is reported until the next reset.
        write(&mut map, other, 1);
        write(&mut map, reset, 2);
        write(&mut map, "bsk_avail::avail", 1);
        assert_eq!(read(&mut map, reset), 0);
        assert_eq!(read(&mut map, other), 0x8000_0000);
        assert_eq!(read(&mut map, "bsk_avail::avail"), 1);
        write(&mut map, reset, 3);
        assert_eq!(read(&mut map, reset), 0x8000_0000);
    }
}

#[test]
fn a_word_stays_until_it_is_written_again() {
    let mut map = regmap(parameters());
    write(&mut map, "hbm_axi4_addr_3in3::bsk_pc0_msb", 0x1234);
    for name in NAMES {
        if name != "hbm_axi4_addr_3in3::bsk_pc0_msb" {
            write(&mut map, name, 0xffff_ffff);
            assert_eq!(read(&mut map, "hbm_axi4_addr_3in3::bsk_pc0_msb"), 0x1234);
        }
        read(&mut map, name);
        assert_eq!(read(&mut map, "hbm_axi4_addr_3in3::bsk_pc0_msb"), 0x1234);
    }
    write(&mut map, "hbm_axi4_addr_3in3::bsk_pc0_msb", 0x5678);
    assert_eq!(read(&mut map, "hbm_axi4_addr_3in3::bsk_pc0_msb"), 0x5678);
}

#[test]
fn names_found_twice_are_known() {
    let entry = |name: &str, offset| RegisterEntry { name: name.to_string(), offset };
    assert!(names_differ(&vec![]));
    assert!(names_differ(&vec![entry("a::b", 0), entry("a::c", 0)]));
    assert!(!names_differ(&vec![entry("a::b", 0), entry("a::c", 4), entry("a::b", 8)]));
}

fn request(addr: Option<usize>, size_b: Option<usize>, cmd: Command, value: u32) -> Request {
    Request { addr, size_b, cmd, value }
}

#[test]
fn memory_accesses_are_answered() {
    let mut map = regmap(parameters());
    let timeout = map.get_register_addr(&"bpip::timeout".to_string()) as usize;
    let reset = map.get_register_addr(&"ksk_avail::reset".to_string()) as usize;
    let response = map.handle_request(&request(Some(timeout), Some(4), Command::Write, 99));
    assert_eq!(response, Response::Written(None));
    let response = map.handle_request(&request(Some(timeout), Some(4), Command::Read, 0));
    assert_eq!(response, Response::Value(99));
    let response = map.handle_request(&request(Some(reset), Some(4), Command::Write, 1));
    assert_eq!(response, Response::Written(Some(KeyReset::Ksk)));
}

#[test]
fn memory_accesses_that_are_not_one_word_are_refused() {
    let mut map = regmap(parameters());
    let addr = Some(BASE);
    let response = map.handle_request(&request(None, Some(4), Command::Read, 0));
    assert_eq!(response, Response::SubRangeError);
    let response = map.handle_request(&request(addr, None, Command::Read, 0));
    assert_eq!(response, Response::PatternError);
    let response = map.handle_request(&request(addr, Some(8), Command::Write, 0));
    assert_eq!(response, Response::PatternError);
    let response = map.handle_request(&request(addr, Some(4), Command::Other, 0));
    assert_eq!(response, Response::CmdError);
}

#[test]
fn addresses_that_are_not_mapped_are_known() {
    let map = regmap(parameters());
    assert!(map.is_mapped(BASE as u64));
    assert!(!map.is_mapped(BASE as u64 + 2));
    assert!(!map.is_mapped(0));
    assert!(!map.can_read(0));
}

#[test]
fn registers_are_found_by_name() {
    let named = |name: &str| Register::from_name(&name.to_string());
    for pc in 0..16u8 {
        for (suffix, half) in [("msb", Half::Msb), ("lsb", Half::Lsb)] {
            assert_eq!(
                named(&format!("hbm_axi4_addr_3in3::bsk_pc{pc}_{suffix}")),
                Register::BskAddr { pc, half }
            );
            assert_eq!(
                named(&format!("hbm_axi4_addr_1in3::ksk_pc{pc}_{suffix}")),
                Register::KskAddr { pc, half }
            );
        }
    }
    assert_eq!(named("hbm_axi4_addr_1in3::ct_pc2_msb"), Register::Unhooked);
    assert_eq!(named("hbm_axi4_addr_3in3::bsk_pc16_msb"), Register::Unhooked);
    assert_eq!(named("bpip::use"), Register::BpipUse);
}
