use hpu_sim::params::hpu::{
    HpuIscParameters, HpuKeyswitchParameters, HpuModulusSwitchType, HpuNoiseDistributionInputRaw,
    HpuNttCoreArch, HpuNttParameters, HpuNttPrime, HpuPBSParameters, HpuParameters,
    HpuPcParameters, HpuRegfileParameters,
};
use hpu_sim::params::ParamsName;

#[test]
fn names_are_read_in_both_spellings() {
    let cases = [
        ("gaussian44bfast", "gaussian-44b-fast", "gaussian_44b_fast.toml"),
        ("gaussian44b", "gaussian-44b", "gaussian_44b.toml"),
        ("gaussian64bfast", "gaussian-64b-fast", "gaussian_64b_fast.toml"),
        ("gaussian64b", "gaussian-64b", "gaussian_64b.toml"),
        ("gaussian64bpfail64", "gaussian-64b-pfail64", "gaussian_64b_pfail64.toml"),
        (
            "gaussian64bpfail64psi64",
            "gaussian-64b-pfail64-psi64",
            "gaussian_64b_pfail64_psi64.toml",
        ),
        ("tuniform64bfast", "tuniform-64b-fast", "tuniform_64b_fast.toml"),
        (
            "tuniform64bpfail64psi64",
            "tuniform-64b-pfail64-psi64",
            "tuniform_64b_pfail64_psi64.toml",
        ),
        (
            "tuniform64bpfail128psi64",
            "tuniform-64b-pfail128-psi64",
            "tuniform_64b_pfail128_psi64.toml",
        ),
    ];
    for (plain, dashed, file) in cases {
        assert_eq!(ParamsName::parse(plain).file_name(), Some(file));
        assert_eq!(ParamsName::parse(dashed).file_name(), Some(file));
    }
}

#[test]
fn names_are_read_whatever_their_case() {
    assert!(matches!(ParamsName::parse("Gaussian-64b-PFail64"), ParamsName::Gaussian64bPFail64));
    assert!(matches!(ParamsName::parse("TUniform64bFast"), ParamsName::TUniform64bFast));
    let parsed: ParamsName = "GAUSSIAN44B".parse().unwrap();
    assert!(matches!(parsed, ParamsName::Gaussian44b));
}

#[test]
fn other_texts_are_paths_in_lower_case() {
    match ParamsName::parse("Some/Path.TOML") {
        ParamsName::CustomPath(path) => assert_eq!(path, "some/path.toml"),
        other => panic!("{other:?}"),
    }
    let name = ParamsName::parse("a/path");
    assert!(matches!(name.clone(), ParamsName::CustomPath(path) if path == "a/path"));
    assert_eq!(ParamsName::parse("gaussian-44").file_name(), None);
    match ParamsName::from_lower("Gaussian44b".to_string()) {
        ParamsName::CustomPath(path) => assert_eq!(path, "Gaussian44b"),
        other => panic!("{other:?}"),
    }
}

fn sample() -> HpuParameters {
    let noise = HpuNoiseDistributionInputRaw { mode: 2, raw_0: 3, raw_1: 0 };
    HpuParameters {
        pbs_params: HpuPBSParameters {
            lwe_dimension: 804,
            glwe_dimension: 1,
            polynomial_size: 2048,
            lwe_noise_distribution: noise,
            glwe_noise_distribution: noise,
            pbs_base_log: 23,
            pbs_level: 1,
            ks_base_log: 2,
            ks_level: 8,
            message_width: 2,
            carry_width: 2,
            ciphertext_width: 64,
            log2_p_fail: 0,
            modulus_switch_type: HpuModulusSwitchType::Standard,
        },
        ntt_params: HpuNttParameters {
            core_arch: HpuNttCoreArch::GF64(vec![5, 6]),
            min_pbs_nb: None,
            batch_pbs_nb: 8,
            total_pbs_nb: 32,
            ct_width: 64,
            radix: 2,
            stg_nb: 11,
            prime_modulus: HpuNttPrime::GF64,
            psi: 32,
            delta: 8,
        },
        ks_params: HpuKeyswitchParameters { width: 21, lbx: 2, lby: 64, lbz: 3 },
        pc_params: HpuPcParameters {
            ksk_pc: 8,
            ksk_bytes_w: 64,
            bsk_pc: 8,
            glwe_pc: 1,
            bsk_bytes_w: 64,
            pem_pc: 2,
            pem_bytes_w: 64,
            glwe_bytes_w: 64,
        },
        regf_params: HpuRegfileParameters { reg_nb: 64, coef_nb: 32 },
        isc_params: HpuIscParameters { depth: 64, min_iop_size: 45 },
    }
}

#[test]
fn options_replace_registers_and_depth() {
    let mut params = sample();
    params.override_with(None, None);
    assert_eq!((params.regf_params.reg_nb, params.isc_params.depth), (64, 64));
    params.override_with(Some(32), None);
    assert_eq!((params.regf_params.reg_nb, params.isc_params.depth), (32, 64));
    params.override_with(None, Some(16));
    assert_eq!((params.regf_params.reg_nb, params.isc_params.depth), (32, 16));
    assert_eq!((params.regf_params.coef_nb, params.isc_params.min_iop_size), (32, 45));
}

#[test]
fn copies_of_parameters_are_the_same() {
    let params = sample();
    assert_eq!(format!("{:?}", params.clone()), format!("{params:?}"));
    for arch in [HpuNttCoreArch::WmmCompactPcg, HpuNttCoreArch::WmmUnfoldPcg] {
        assert_eq!(format!("{:?}", arch.clone()), format!("{arch:?}"));
    }
}
