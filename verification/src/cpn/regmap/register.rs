//! Registers of a node, by name.
use vstd::prelude::*;

verus! {

/// Half of a memory offset.
#[derive(Clone, Copy, Debug, PartialEq, Eq, Structural)]
pub enum Half {
    Msb,
    Lsb,
}

/// Register with a meaning for the model.
#[derive(Clone, Copy, Debug, PartialEq, Eq, Structural)]
pub enum Register {
    NttStructure,
    NttRdxCut,
    NttArchitecture,
    NttPbs,
    NttModulo,
    Application,
    KsStructure,
    KsCryptoParam,
    HbmAxi4Nb,
    HbmDatawKsk,
    HbmDatawBsk,
    HbmDatawPem,
    HbmDatawGlwe,
    RegfStructure,
    IscStructure,
    BskAvail,
    BskReset,
    KskAvail,
    KskReset,
    BpipUse,
    BpipTimeout,
    /// Offset of the ciphertexts in a memory channel.
    CtAddr { pc: u8, half: Half },
    /// Offset of the bootstrapping key in a memory channel.
    BskAddr { pc: u8, half: Half },
    /// Offset of the keyswitching key in a memory channel.
    KskAddr { pc: u8, half: Half },
    /// Offset of the lookup tables.
    LutAddr { half: Half },
    /// Offset of the trace.
    TraceAddr { half: Half },
    LweDimension,
    GlweDimension,
    PolynomialSize,
    PbsBaseLog,
    PbsLevel,
    KsBaseLog,
    KsLevel,
    MessageWidth,
    CarryWidth,
    CiphertextWidth,
    NoiseLweMode,
    NoiseLweRaw0,
    NoiseLweRaw1,
    NoiseGlweMode,
    NoiseGlweRaw0,
    NoiseGlweRaw1,
    /// Any other register.
    Unhooked,
}

/// Whether a name is a given one.
fn is_named(name: &String, other: &str) -> (r: bool)
    ensures
        r == (name@ == other@),
{
    *name == other.to_owned()
}

/// Memory channel and half of a register that holds an offset of the ciphertexts.
pub open spec fn ct_addr_named(name: Seq<char>) -> Option<(u8, Half)> {
    if name == "hbm_axi4_addr_1in3::ct_pc0_msb"@ {
        Some((0u8, Half::Msb))
    } else if name == "hbm_axi4_addr_1in3::ct_pc0_lsb"@ {
        Some((0u8, Half::Lsb))
    } else if name == "hbm_axi4_addr_1in3::ct_pc1_msb"@ {
        Some((1u8, Half::Msb))
    } else if name == "hbm_axi4_addr_1in3::ct_pc1_lsb"@ {
        Some((1u8, Half::Lsb))
    } else {
        None
    }
}

fn ct_addr_of(name: &String) -> (r: Option<(u8, Half)>)
    ensures
        r == ct_addr_named(name@),
{
    if is_named(name, "hbm_axi4_addr_1in3::ct_pc0_msb") {
        Some((0u8, Half::Msb))
    } else if is_named(name, "hbm_axi4_addr_1in3::ct_pc0_lsb") {
        Some((0u8, Half::Lsb))
    } else if is_named(name, "hbm_axi4_addr_1in3::ct_pc1_msb") {
        Some((1u8, Half::Msb))
    } else if is_named(name, "hbm_axi4_addr_1in3::ct_pc1_lsb") {
        Some((1u8, Half::Lsb))
    } else {
        None
    }
}

/// Memory channel and half of a register that holds an offset of the bootstrapping key.
pub open spec fn bsk_addr_named(name: Seq<char>) -> Option<(u8, Half)> {
    if name == "hbm_axi4_addr_3in3::bsk_pc0_msb"@ {
        Some((0u8, Half::Msb))
    } else if name == "hbm_axi4_addr_3in3::bsk_pc0_lsb"@ {
        Some((0u8, Half::Lsb))
    } else if name == "hbm_axi4_addr_3in3::bsk_pc1_msb"@ {
        Some((1u8, Half::Msb))
    } else if name == "hbm_axi4_addr_3in3::bsk_pc1_lsb"@ {
        Some((1u8, Half::Lsb))
    } else if name == "hbm_axi4_addr_3in3::bsk_pc2_msb"@ {
        Some((2u8, Half::Msb))
    } else if name == "hbm_axi4_addr_3in3::bsk_pc2_lsb"@ {
        Some((2u8, Half::Lsb))
    } else if name == "hbm_axi4_addr_3in3::bsk_pc3_msb"@ {
        Some((3u8, Half::Msb))
    } else if name == "hbm_axi4_addr_3in3::bsk_pc3_lsb"@ {
        Some((3u8, Half::Lsb))
    } else if name == "hbm_axi4_addr_3in3::bsk_pc4_msb"@ {
        Some((4u8, Half::Msb))
    } else if name == "hbm_axi4_addr_3in3::bsk_pc4_lsb"@ {
        Some((4u8, Half::Lsb))
    } else if name == "hbm_axi4_addr_3in3::bsk_pc5_msb"@ {
        Some((5u8, Half::Msb))
    } else if name == "hbm_axi4_addr_3in3::bsk_pc5_lsb"@ {
        Some((5u8, Half::Lsb))
    } else if name == "hbm_axi4_addr_3in3::bsk_pc6_msb"@ {
        Some((6u8, Half::Msb))
    } else if name == "hbm_axi4_addr_3in3::bsk_pc6_lsb"@ {
        Some((6u8, Half::Lsb))
    } else if name == "hbm_axi4_addr_3in3::bsk_pc7_msb"@ {
        Some((7u8, Half::Msb))
    } else if name == "hbm_axi4_addr_3in3::bsk_pc7_lsb"@ {
        Some((7u8, Half::Lsb))
    } else if name == "hbm_axi4_addr_3in3::bsk_pc8_msb"@ {
        Some((8u8, Half::Msb))
    } else if name == "hbm_axi4_addr_3in3::bsk_pc8_lsb"@ {
        Some((8u8, Half::Lsb))
    } else if name == "hbm_axi4_addr_3in3::bsk_pc9_msb"@ {
        Some((9u8, Half::Msb))
    } else if name == "hbm_axi4_addr_3in3::bsk_pc9_lsb"@ {
        Some((9u8, Half::Lsb))
    } else if name == "hbm_axi4_addr_3in3::bsk_pc10_msb"@ {
        Some((10u8, Half::Msb))
    } else if name == "hbm_axi4_addr_3in3::bsk_pc10_lsb"@ {
        Some((10u8, Half::Lsb))
    } else if name == "hbm_axi4_addr_3in3::bsk_pc11_msb"@ {
        Some((11u8, Half::Msb))
    } else if name == "hbm_axi4_addr_3in3::bsk_pc11_lsb"@ {
        Some((11u8, Half::Lsb))
    } else if name == "hbm_axi4_addr_3in3::bsk_pc12_msb"@ {
        Some((12u8, Half::Msb))
    } else if name == "hbm_axi4_addr_3in3::bsk_pc12_lsb"@ {
        Some((12u8, Half::Lsb))
    } else if name == "hbm_axi4_addr_3in3::bsk_pc13_msb"@ {
        Some((13u8, Half::Msb))
    } else if name == "hbm_axi4_addr_3in3::bsk_pc13_lsb"@ {
        Some((13u8, Half::Lsb))
    } else if name == "hbm_axi4_addr_3in3::bsk_pc14_msb"@ {
        Some((14u8, Half::Msb))
    } else if name == "hbm_axi4_addr_3in3::bsk_pc14_lsb"@ {
        Some((14u8, Half::Lsb))
    } else if name == "hbm_axi4_addr_3in3::bsk_pc15_msb"@ {
        Some((15u8, Half::Msb))
    } else if name == "hbm_axi4_addr_3in3::bsk_pc15_lsb"@ {
        Some((15u8, Half::Lsb))
    } else {
        None
    }
}

fn bsk_addr_of(name: &String) -> (r: Option<(u8, Half)>)
    ensures
        r == bsk_addr_named(name@),
{
    if is_named(name, "hbm_axi4_addr_3in3::bsk_pc0_msb") {
        Some((0u8, Half::Msb))
    } else if is_named(name, "hbm_axi4_addr_3in3::bsk_pc0_lsb") {
        Some((0u8, Half::Lsb))
    } else if is_named(name, "hbm_axi4_addr_3in3::bsk_pc1_msb") {
        Some((1u8, Half::Msb))
    } else if is_named(name, "hbm_axi4_addr_3in3::bsk_pc1_lsb") {
        Some((1u8, Half::Lsb))
    } else if is_named(name, "hbm_axi4_addr_3in3::bsk_pc2_msb") {
        Some((2u8, Half::Msb))
    } else if is_named(name, "hbm_axi4_addr_3in3::bsk_pc2_lsb") {
        Some((2u8, Half::Lsb))
    } else if is_named(name, "hbm_axi4_addr_3in3::bsk_pc3_msb") {
        Some((3u8, Half::Msb))
    } else if is_named(name, "hbm_axi4_addr_3in3::bsk_pc3_lsb") {
        Some((3u8, Half::Lsb))
    } else if is_named(name, "hbm_axi4_addr_3in3::bsk_pc4_msb") {
        Some((4u8, Half::Msb))
    } else if is_named(name, "hbm_axi4_addr_3in3::bsk_pc4_lsb") {
        Some((4u8, Half::Lsb))
    } else if is_named(name, "hbm_axi4_addr_3in3::bsk_pc5_msb") {
        Some((5u8, Half::Msb))
    } else if is_named(name, "hbm_axi4_addr_3in3::bsk_pc5_lsb") {
        Some((5u8, Half::Lsb))
    } else if is_named(name, "hbm_axi4_addr_3in3::bsk_pc6_msb") {
        Some((6u8, Half::Msb))
    } else if is_named(name, "hbm_axi4_addr_3in3::bsk_pc6_lsb") {
        Some((6u8, Half::Lsb))
    } else if is_named(name, "hbm_axi4_addr_3in3::bsk_pc7_msb") {
        Some((7u8, Half::Msb))
    } else if is_named(name, "hbm_axi4_addr_3in3::bsk_pc7_lsb") {
        Some((7u8, Half::Lsb))
    } else if is_named(name, "hbm_axi4_addr_3in3::bsk_pc8_msb") {
        Some((8u8, Half::Msb))
    } else if is_named(name, "hbm_axi4_addr_3in3::bsk_pc8_lsb") {
        Some((8u8, Half::Lsb))
    } else if is_named(name, "hbm_axi4_addr_3in3::bsk_pc9_msb") {
        Some((9u8, Half::Msb))
    } else if is_named(name, "hbm_axi4_addr_3in3::bsk_pc9_lsb") {
        Some((9u8, Half::Lsb))
    } else if is_named(name, "hbm_axi4_addr_3in3::bsk_pc10_msb") {
        Some((10u8, Half::Msb))
    } else if is_named(name, "hbm_axi4_addr_3in3::bsk_pc10_lsb") {
        Some((10u8, Half::Lsb))
    } else if is_named(name, "hbm_axi4_addr_3in3::bsk_pc11_msb") {
        Some((11u8, Half::Msb))
    } else if is_named(name, "hbm_axi4_addr_3in3::bsk_pc11_lsb") {
        Some((11u8, Half::Lsb))
    } else if is_named(name, "hbm_axi4_addr_3in3::bsk_pc12_msb") {
        Some((12u8, Half::Msb))
    } else if is_named(name, "hbm_axi4_addr_3in3::bsk_pc12_lsb") {
        Some((12u8, Half::Lsb))
    } else if is_named(name, "hbm_axi4_addr_3in3::bsk_pc13_msb") {
        Some((13u8, Half::Msb))
    } else if is_named(name, "hbm_axi4_addr_3in3::bsk_pc13_lsb") {
        Some((13u8, Half::Lsb))
    } else if is_named(name, "hbm_axi4_addr_3in3::bsk_pc14_msb") {
        Some((14u8, Half::Msb))
    } else if is_named(name, "hbm_axi4_addr_3in3::bsk_pc14_lsb") {
        Some((14u8, Half::Lsb))
    } else if is_named(name, "hbm_axi4_addr_3in3::bsk_pc15_msb") {
        Some((15u8, Half::Msb))
    } else if is_named(name, "hbm_axi4_addr_3in3::bsk_pc15_lsb") {
        Some((15u8, Half::Lsb))
    } else {
        None
    }
}

/// Memory channel and half of a register that holds an offset of the keyswitching key.
pub open spec fn ksk_addr_named(name: Seq<char>) -> Option<(u8, Half)> {
    if name == "hbm_axi4_addr_1in3::ksk_pc0_msb"@ {
        Some((0u8, Half::Msb))
    } else if name == "hbm_axi4_addr_1in3::ksk_pc0_lsb"@ {
        Some((0u8, Half::Lsb))
    } else if name == "hbm_axi4_addr_1in3::ksk_pc1_msb"@ {
        Some((1u8, Half::Msb))
    } else if name == "hbm_axi4_addr_1in3::ksk_pc1_lsb"@ {
        Some((1u8, Half::Lsb))
    } else if name == "hbm_axi4_addr_1in3::ksk_pc2_msb"@ {
        Some((2u8, Half::Msb))
    } else if name == "hbm_axi4_addr_1in3::ksk_pc2_lsb"@ {
        Some((2u8, Half::Lsb))
    } else if name == "hbm_axi4_addr_1in3::ksk_pc3_msb"@ {
        Some((3u8, Half::Msb))
    } else if name == "hbm_axi4_addr_1in3::ksk_pc3_lsb"@ {
        Some((3u8, Half::Lsb))
    } else if name == "hbm_axi4_addr_1in3::ksk_pc4_msb"@ {
        Some((4u8, Half::Msb))
    } else if name == "hbm_axi4_addr_1in3::ksk_pc4_lsb"@ {
        Some((4u8, Half::Lsb))
    } else if name == "hbm_axi4_addr_1in3::ksk_pc5_msb"@ {
        Some((5u8, Half::Msb))
    } else if name == "hbm_axi4_addr_1in3::ksk_pc5_lsb"@ {
        Some((5u8, Half::Lsb))
    } else if name == "hbm_axi4_addr_1in3::ksk_pc6_msb"@ {
        Some((6u8, Half::Msb))
    } else if name == "hbm_axi4_addr_1in3::ksk_pc6_lsb"@ {
        Some((6u8, Half::Lsb))
    } else if name == "hbm_axi4_addr_1in3::ksk_pc7_msb"@ {
        Some((7u8, Half::Msb))
    } else if name == "hbm_axi4_addr_1in3::ksk_pc7_lsb"@ {
        Some((7u8, Half::Lsb))
    } else if name == "hbm_axi4_addr_1in3::ksk_pc8_msb"@ {
        Some((8u8, Half::Msb))
    } else if name == "hbm_axi4_addr_1in3::ksk_pc8_lsb"@ {
        Some((8u8, Half::Lsb))
    } else if name == "hbm_axi4_addr_1in3::ksk_pc9_msb"@ {
        Some((9u8, Half::Msb))
    } else if name == "hbm_axi4_addr_1in3::ksk_pc9_lsb"@ {
        Some((9u8, Half::Lsb))
    } else if name == "hbm_axi4_addr_1in3::ksk_pc10_msb"@ {
        Some((10u8, Half::Msb))
    } else if name == "hbm_axi4_addr_1in3::ksk_pc10_lsb"@ {
        Some((10u8, Half::Lsb))
    } else if name == "hbm_axi4_addr_1in3::ksk_pc11_msb"@ {
        Some((11u8, Half::Msb))
    } else if name == "hbm_axi4_addr_1in3::ksk_pc11_lsb"@ {
        Some((11u8, Half::Lsb))
    } else if name == "hbm_axi4_addr_1in3::ksk_pc12_msb"@ {
        Some((12u8, Half::Msb))
    } else if name == "hbm_axi4_addr_1in3::ksk_pc12_lsb"@ {
        Some((12u8, Half::Lsb))
    } else if name == "hbm_axi4_addr_1in3::ksk_pc13_msb"@ {
        Some((13u8, Half::Msb))
    } else if name == "hbm_axi4_addr_1in3::ksk_pc13_lsb"@ {
        Some((13u8, Half::Lsb))
    } else if name == "hbm_axi4_addr_1in3::ksk_pc14_msb"@ {
        Some((14u8, Half::Msb))
    } else if name == "hbm_axi4_addr_1in3::ksk_pc14_lsb"@ {
        Some((14u8, Half::Lsb))
    } else if name == "hbm_axi4_addr_1in3::ksk_pc15_msb"@ {
        Some((15u8, Half::Msb))
    } else if name == "hbm_axi4_addr_1in3::ksk_pc15_lsb"@ {
        Some((15u8, Half::Lsb))
    } else {
        None
    }
}

fn ksk_addr_of(name: &String) -> (r: Option<(u8, Half)>)
    ensures
        r == ksk_addr_named(name@),
{
    if is_named(name, "hbm_axi4_addr_1in3::ksk_pc0_msb") {
        Some((0u8, Half::Msb))
    } else if is_named(name, "hbm_axi4_addr_1in3::ksk_pc0_lsb") {
        Some((0u8, Half::Lsb))
    } else if is_named(name, "hbm_axi4_addr_1in3::ksk_pc1_msb") {
        Some((1u8, Half::Msb))
    } else if is_named(name, "hbm_axi4_addr_1in3::ksk_pc1_lsb") {
        Some((1u8, Half::Lsb))
    } else if is_named(name, "hbm_axi4_addr_1in3::ksk_pc2_msb") {
        Some((2u8, Half::Msb))
    } else if is_named(name, "hbm_axi4_addr_1in3::ksk_pc2_lsb") {
        Some((2u8, Half::Lsb))
    } else if is_named(name, "hbm_axi4_addr_1in3::ksk_pc3_msb") {
        Some((3u8, Half::Msb))
    } else if is_named(name, "hbm_axi4_addr_1in3::ksk_pc3_lsb") {
        Some((3u8, Half::Lsb))
    } else if is_named(name, "hbm_axi4_addr_1in3::ksk_pc4_msb") {
        Some((4u8, Half::Msb))
    } else if is_named(name, "hbm_axi4_addr_1in3::ksk_pc4_lsb") {
        Some((4u8, Half::Lsb))
    } else if is_named(name, "hbm_axi4_addr_1in3::ksk_pc5_msb") {
        Some((5u8, Half::Msb))
    } else if is_named(name, "hbm_axi4_addr_1in3::ksk_pc5_lsb") {
        Some((5u8, Half::Lsb))
    } else if is_named(name, "hbm_axi4_addr_1in3::ksk_pc6_msb") {
        Some((6u8, Half::Msb))
    } else if is_named(name, "hbm_axi4_addr_1in3::ksk_pc6_lsb") {
        Some((6u8, Half::Lsb))
    } else if is_named(name, "hbm_axi4_addr_1in3::ksk_pc7_msb") {
        Some((7u8, Half::Msb))
    } else if is_named(name, "hbm_axi4_addr_1in3::ksk_pc7_lsb") {
        Some((7u8, Half::Lsb))
    } else if is_named(name, "hbm_axi4_addr_1in3::ksk_pc8_msb") {
        Some((8u8, Half::Msb))
    } else if is_named(name, "hbm_axi4_addr_1in3::ksk_pc8_lsb") {
        Some((8u8, Half::Lsb))
    } else if is_named(name, "hbm_axi4_addr_1in3::ksk_pc9_msb") {
        Some((9u8, Half::Msb))
    } else if is_named(name, "hbm_axi4_addr_1in3::ksk_pc9_lsb") {
        Some((9u8, Half::Lsb))
    } else if is_named(name, "hbm_axi4_addr_1in3::ksk_pc10_msb") {
        Some((10u8, Half::Msb))
    } else if is_named(name, "hbm_axi4_addr_1in3::ksk_pc10_lsb") {
        Some((10u8, Half::Lsb))
    } else if is_named(name, "hbm_axi4_addr_1in3::ksk_pc11_msb") {
        Some((11u8, Half::Msb))
    } else if is_named(name, "hbm_axi4_addr_1in3::ksk_pc11_lsb") {
        Some((11u8, Half::Lsb))
    } else if is_named(name, "hbm_axi4_addr_1in3::ksk_pc12_msb") {
        Some((12u8, Half::Msb))
    } else if is_named(name, "hbm_axi4_addr_1in3::ksk_pc12_lsb") {
        Some((12u8, Half::Lsb))
    } else if is_named(name, "hbm_axi4_addr_1in3::ksk_pc13_msb") {
        Some((13u8, Half::Msb))
    } else if is_named(name, "hbm_axi4_addr_1in3::ksk_pc13_lsb") {
        Some((13u8, Half::Lsb))
    } else if is_named(name, "hbm_axi4_addr_1in3::ksk_pc14_msb") {
        Some((14u8, Half::Msb))
    } else if is_named(name, "hbm_axi4_addr_1in3::ksk_pc14_lsb") {
        Some((14u8, Half::Lsb))
    } else if is_named(name, "hbm_axi4_addr_1in3::ksk_pc15_msb") {
        Some((15u8, Half::Msb))
    } else if is_named(name, "hbm_axi4_addr_1in3::ksk_pc15_lsb") {
        Some((15u8, Half::Lsb))
    } else {
        None
    }
}

/// Register named by a text, apart from the offsets of the memory channels.
pub open spec fn plain_named(name: Seq<char>) -> Register {
    if name == "info::ntt_structure"@ {
        Register::NttStructure
    } else if name == "info::ntt_rdx_cut"@ {
        Register::NttRdxCut
    } else if name == "info::ntt_architecture"@ {
        Register::NttArchitecture
    } else if name == "info::ntt_pbs"@ {
        Register::NttPbs
    } else if name == "info::ntt_modulo"@ {
        Register::NttModulo
    } else if name == "info::application"@ {
        Register::Application
    } else if name == "info::ks_structure"@ {
        Register::KsStructure
    } else if name == "info::ks_crypto_param"@ {
        Register::KsCryptoParam
    } else if name == "info::hbm_axi4_nb"@ {
        Register::HbmAxi4Nb
    } else if name == "info::hbm_axi4_dataw_ksk"@ {
        Register::HbmDatawKsk
    } else if name == "info::hbm_axi4_dataw_bsk"@ {
        Register::HbmDatawBsk
    } else if name == "info::hbm_axi4_dataw_pem"@ {
        Register::HbmDatawPem
    } else if name == "info::hbm_axi4_dataw_glwe"@ {
        Register::HbmDatawGlwe
    } else if name == "info::regf_structure"@ {
        Register::RegfStructure
    } else if name == "info::isc_structure"@ {
        Register::IscStructure
    } else if name == "bsk_avail::avail"@ {
        Register::BskAvail
    } else if name == "bsk_avail::reset"@ {
        Register::BskReset
    } else if name == "ksk_avail::avail"@ {
        Register::KskAvail
    } else if name == "ksk_avail::reset"@ {
        Register::KskReset
    } else if name == "bpip::use"@ {
        Register::BpipUse
    } else if name == "bpip::timeout"@ {
        Register::BpipTimeout
    } else if name == "hbm_axi4_addr_1in3::glwe_pc0_msb"@ {
        Register::LutAddr { half: Half::Msb }
    } else if name == "hbm_axi4_addr_1in3::glwe_pc0_lsb"@ {
        Register::LutAddr { half: Half::Lsb }
    } else if name == "hbm_axi4_addr_1in3::trc_pc0_msb"@ {
        Register::TraceAddr { half: Half::Msb }
    } else if name == "hbm_axi4_addr_1in3::trc_pc0_lsb"@ {
        Register::TraceAddr { half: Half::Lsb }
    } else if name == "pbs_parameters::lwe_dimension"@ {
        Register::LweDimension
    } else if name == "pbs_parameters::glwe_dimension"@ {
        Register::GlweDimension
    } else if name == "pbs_parameters::polynomial_size"@ {
        Register::PolynomialSize
    } else if name == "pbs_parameters::pbs_base_log"@ {
        Register::PbsBaseLog
    } else if name == "pbs_parameters::pbs_level"@ {
        Register::PbsLevel
    } else if name == "pbs_parameters::ks_base_log"@ {
        Register::KsBaseLog
    } else if name == "pbs_parameters::ks_level"@ {
        Register::KsLevel
    } else if name == "pbs_parameters::message_width"@ {
        Register::MessageWidth
    } else if name == "pbs_parameters::carry_width"@ {
        Register::CarryWidth
    } else if name == "pbs_parameters::ciphertext_width"@ {
        Register::CiphertextWidth
    } else if name == "pbs_noise_lwe::mode"@ {
        Register::NoiseLweMode
    } else if name == "pbs_noise_lwe::raw_0"@ {
        Register::NoiseLweRaw0
    } else if name == "pbs_noise_lwe::raw_1"@ {
        Register::NoiseLweRaw1
    } else if name == "pbs_noise_glwe::mode"@ {
        Register::NoiseGlweMode
    } else if name == "pbs_noise_glwe::raw_0"@ {
        Register::NoiseGlweRaw0
    } else if name == "pbs_noise_glwe::raw_1"@ {
        Register::NoiseGlweRaw1
    } else {
        Register::Unhooked
    }
}

fn plain_of(name: &String) -> (r: Register)
    ensures
        r == plain_named(name@),
{
    if is_named(name, "info::ntt_structure") {
        Register::NttStructure
    } else if is_named(name, "info::ntt_rdx_cut") {
        Register::NttRdxCut
    } else if is_named(name, "info::ntt_architecture") {
        Register::NttArchitecture
    } else if is_named(name, "info::ntt_pbs") {
        Register::NttPbs
    } else if is_named(name, "info::ntt_modulo") {
        Register::NttModulo
    } else if is_named(name, "info::application") {
        Register::Application
    } else if is_named(name, "info::ks_structure") {
        Register::KsStructure
    } else if is_named(name, "info::ks_crypto_param") {
        Register::KsCryptoParam
    } else if is_named(name, "info::hbm_axi4_nb") {
        Register::HbmAxi4Nb
    } else if is_named(name, "info::hbm_axi4_dataw_ksk") {
        Register::HbmDatawKsk
    } else if is_named(name, "info::hbm_axi4_dataw_bsk") {
        Register::HbmDatawBsk
    } else if is_named(name, "info::hbm_axi4_dataw_pem") {
        Register::HbmDatawPem
    } else if is_named(name, "info::hbm_axi4_dataw_glwe") {
        Register::HbmDatawGlwe
    } else if is_named(name, "info::regf_structure") {
        Register::RegfStructure
    } else if is_named(name, "info::isc_structure") {
        Register::IscStructure
    } else if is_named(name, "bsk_avail::avail") {
        Register::BskAvail
    } else if is_named(name, "bsk_avail::reset") {
        Register::BskReset
    } else if is_named(name, "ksk_avail::avail") {
        Register::KskAvail
    } else if is_named(name, "ksk_avail::reset") {
        Register::KskReset
    } else if is_named(name, "bpip::use") {
        Register::BpipUse
    } else if is_named(name, "bpip::timeout") {
        Register::BpipTimeout
    } else if is_named(name, "hbm_axi4_addr_1in3::glwe_pc0_msb") {
        Register::LutAddr { half: Half::Msb }
    } else if is_named(name, "hbm_axi4_addr_1in3::glwe_pc0_lsb") {
        Register::LutAddr { half: Half::Lsb }
    } else if is_named(name, "hbm_axi4_addr_1in3::trc_pc0_msb") {
        Register::TraceAddr { half: Half::Msb }
    } else if is_named(name, "hbm_axi4_addr_1in3::trc_pc0_lsb") {
        Register::TraceAddr { half: Half::Lsb }
    } else if is_named(name, "pbs_parameters::lwe_dimension") {
        Register::LweDimension
    } else if is_named(name, "pbs_parameters::glwe_dimension") {
        Register::GlweDimension
    } else if is_named(name, "pbs_parameters::polynomial_size") {
        Register::PolynomialSize
    } else if is_named(name, "pbs_parameters::pbs_base_log") {
        Register::PbsBaseLog
    } else if is_named(name, "pbs_parameters::pbs_level") {
        Register::PbsLevel
    } else if is_named(name, "pbs_parameters::ks_base_log") {
        Register::KsBaseLog
    } else if is_named(name, "pbs_parameters::ks_level") {
        Register::KsLevel
    } else if is_named(name, "pbs_parameters::message_width") {
        Register::MessageWidth
    } else if is_named(name, "pbs_parameters::carry_width") {
        Register::CarryWidth
    } else if is_named(name, "pbs_parameters::ciphertext_width") {
        Register::CiphertextWidth
    } else if is_named(name, "pbs_noise_lwe::mode") {
        Register::NoiseLweMode
    } else if is_named(name, "pbs_noise_lwe::raw_0") {
        Register::NoiseLweRaw0
    } else if is_named(name, "pbs_noise_lwe::raw_1") {
        Register::NoiseLweRaw1
    } else if is_named(name, "pbs_noise_glwe::mode") {
        Register::NoiseGlweMode
    } else if is_named(name, "pbs_noise_glwe::raw_0") {
        Register::NoiseGlweRaw0
    } else if is_named(name, "pbs_noise_glwe::raw_1") {
        Register::NoiseGlweRaw1
    } else {
        Register::Unhooked
    }
}

/// Register named by a text.
pub open spec fn named(name: Seq<char>) -> Register {
    match (ct_addr_named(name), bsk_addr_named(name), ksk_addr_named(name)) {
        (Some((pc, half)), _, _) => Register::CtAddr { pc, half },
        (None, Some((pc, half)), _) => Register::BskAddr { pc, half },
        (None, None, Some((pc, half))) => Register::KskAddr { pc, half },
        (None, None, None) => plain_named(name),
    }
}

impl Register {
    /// The memory channel of the register exists.
    pub open spec fn wf(self) -> bool {
        match self {
            Register::CtAddr { pc, .. } => pc < 2,
            Register::BskAddr { pc, .. } => pc < 16,
            Register::KskAddr { pc, .. } => pc < 16,
            _ => true,
        }
    }

    /// Register named by a text.
    pub fn from_name(name: &String) -> (r: Register)
        ensures
            r == named(name@),
            r.wf(),
    {
        if let Some((pc, half)) = ct_addr_of(name) {
            Register::CtAddr { pc, half }
        } else if let Some((pc, half)) = bsk_addr_of(name) {
            Register::BskAddr { pc, half }
        } else if let Some((pc, half)) = ksk_addr_of(name) {
            Register::KskAddr { pc, half }
        } else {
            plain_of(name)
        }
    }
}

} // verus!
