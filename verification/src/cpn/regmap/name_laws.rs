//! Names of the registers: the text by which the host asks for each of them.
use vstd::prelude::*;

use super::register::{
    bsk_addr_named, ct_addr_named, ksk_addr_named, named, plain_named, Half, Register,
};
use crate::cpn::topology::{decimal, numbered, numbered_is_unique};

verus! {

/// Name of a register that holds half of an offset, in a memory channel.
pub open spec fn channel_name(prefix: Seq<char>, pc: int, half: Half) -> Seq<char> {
    numbered(prefix, pc) + match half {
        Half::Msb => "_msb"@,
        Half::Lsb => "_lsb"@,
    }
}

/// Some characters of a name, which tell the names apart.
spec fn mark(name: Seq<char>) -> (nat, char, char, char, char) {
    (name.len(), name[0], name[6], name[name.len() - 1], name[name.len() - 3])
}

/// Start of the names of the offsets that are numbered.
spec fn starts_numbered(name: Seq<char>) -> bool {
    name[0] == 'h' && (name[20] == 'c' || name[20] == 'b' || name[20] == 'k')
}

#[verifier::rlimit(60)]
proof fn lemma_marks()
    ensures
        mark("info::ntt_structure"@) == (19nat, 'i', 'n', 'e', 'u'),
        mark("info::ntt_rdx_cut"@) == (17nat, 'i', 'n', 't', 'c'),
        mark("info::ntt_architecture"@) == (22nat, 'i', 'n', 'e', 'u'),
        mark("info::ntt_pbs"@) == (13nat, 'i', 'n', 's', 'p'),
        mark("info::ntt_modulo"@) == (16nat, 'i', 'n', 'o', 'u'),
        mark("info::application"@) == (17nat, 'i', 'a', 'n', 'i'),
        mark("info::ks_structure"@) == (18nat, 'i', 'k', 'e', 'u'),
        mark("info::ks_crypto_param"@) == (21nat, 'i', 'k', 'm', 'r'),
        mark("info::hbm_axi4_nb"@) == (17nat, 'i', 'h', 'b', '_'),
        mark("info::hbm_axi4_dataw_ksk"@) == (24nat, 'i', 'h', 'k', 'k'),
        mark("info::hbm_axi4_dataw_bsk"@) == (24nat, 'i', 'h', 'k', 'b'),
        mark("info::hbm_axi4_dataw_pem"@) == (24nat, 'i', 'h', 'm', 'p'),
        mark("info::hbm_axi4_dataw_glwe"@) == (25nat, 'i', 'h', 'e', 'l'),
        mark("info::regf_structure"@) == (20nat, 'i', 'r', 'e', 'u'),
        mark("info::isc_structure"@) == (19nat, 'i', 'i', 'e', 'u'),
        mark("bsk_avail::avail"@) == (16nat, 'b', 'a', 'l', 'a'),
        mark("bsk_avail::reset"@) == (16nat, 'b', 'a', 't', 's'),
        mark("ksk_avail::avail"@) == (16nat, 'k', 'a', 'l', 'a'),
        mark("ksk_avail::reset"@) == (16nat, 'k', 'a', 't', 's'),
        mark("bpip::use"@) == (9nat, 'b', 'u', 'e', 'u'),
        mark("bpip::timeout"@) == (13nat, 'b', 't', 't', 'o'),
        mark("hbm_axi4_addr_1in3::glwe_pc0_msb"@) == (32nat, 'h', 'i', 'b', 'm'),
        !starts_numbered("hbm_axi4_addr_1in3::glwe_pc0_msb"@),
        mark("hbm_axi4_addr_1in3::glwe_pc0_lsb"@) == (32nat, 'h', 'i', 'b', 'l'),
        !starts_numbered("hbm_axi4_addr_1in3::glwe_pc0_lsb"@),
        mark("hbm_axi4_addr_1in3::trc_pc0_msb"@) == (31nat, 'h', 'i', 'b', 'm'),
        !starts_numbered("hbm_axi4_addr_1in3::trc_pc0_msb"@),
        mark("hbm_axi4_addr_1in3::trc_pc0_lsb"@) == (31nat, 'h', 'i', 'b', 'l'),
        !starts_numbered("hbm_axi4_addr_1in3::trc_pc0_lsb"@),
        mark("pbs_parameters::lwe_dimension"@) == (29nat, 'p', 'r', 'n', 'i'),
        mark("pbs_parameters::glwe_dimension"@) == (30nat, 'p', 'r', 'n', 'i'),
        mark("pbs_parameters::polynomial_size"@) == (31nat, 'p', 'r', 'e', 'i'),
        mark("pbs_parameters::pbs_base_log"@) == (28nat, 'p', 'r', 'g', 'l'),
        mark("pbs_parameters::pbs_level"@) == (25nat, 'p', 'r', 'l', 'v'),
        mark("pbs_parameters::ks_base_log"@) == (27nat, 'p', 'r', 'g', 'l'),
        mark("pbs_parameters::ks_level"@) == (24nat, 'p', 'r', 'l', 'v'),
        mark("pbs_parameters::message_width"@) == (29nat, 'p', 'r', 'h', 'd'),
        mark("pbs_parameters::carry_width"@) == (27nat, 'p', 'r', 'h', 'd'),
        mark("pbs_parameters::ciphertext_width"@) == (32nat, 'p', 'r', 'h', 'd'),
        mark("pbs_noise_lwe::mode"@) == (19nat, 'p', 'i', 'e', 'o'),
        mark("pbs_noise_lwe::raw_0"@) == (20nat, 'p', 'i', '0', 'w'),
        mark("pbs_noise_lwe::raw_1"@) == (20nat, 'p', 'i', '1', 'w'),
        mark("pbs_noise_glwe::mode"@) == (20nat, 'p', 'i', 'e', 'o'),
        mark("pbs_noise_glwe::raw_0"@) == (21nat, 'p', 'i', '0', 'w'),
        mark("pbs_noise_glwe::raw_1"@) == (21nat, 'p', 'i', '1', 'w'),
{
    reveal_strlit("info::ntt_structure");
    reveal_strlit("info::ntt_rdx_cut");
    reveal_strlit("info::ntt_architecture");
    reveal_strlit("info::ntt_pbs");
    reveal_strlit("info::ntt_modulo");
    reveal_strlit("info::application");
    reveal_strlit("info::ks_structure");
    reveal_strlit("info::ks_crypto_param");
    reveal_strlit("info::hbm_axi4_nb");
    reveal_strlit("info::hbm_axi4_dataw_ksk");
    reveal_strlit("info::hbm_axi4_dataw_bsk");
    reveal_strlit("info::hbm_axi4_dataw_pem");
    reveal_strlit("info::hbm_axi4_dataw_glwe");
    reveal_strlit("info::regf_structure");
    reveal_strlit("info::isc_structure");
    reveal_strlit("bsk_avail::avail");
    reveal_strlit("bsk_avail::reset");
    reveal_strlit("ksk_avail::avail");
    reveal_strlit("ksk_avail::reset");
    reveal_strlit("bpip::use");
    reveal_strlit("bpip::timeout");
    reveal_strlit("hbm_axi4_addr_1in3::glwe_pc0_msb");
    reveal_strlit("hbm_axi4_addr_1in3::glwe_pc0_lsb");
    reveal_strlit("hbm_axi4_addr_1in3::trc_pc0_msb");
    reveal_strlit("hbm_axi4_addr_1in3::trc_pc0_lsb");
    reveal_strlit("pbs_parameters::lwe_dimension");
    reveal_strlit("pbs_parameters::glwe_dimension");
    reveal_strlit("pbs_parameters::polynomial_size");
    reveal_strlit("pbs_parameters::pbs_base_log");
    reveal_strlit("pbs_parameters::pbs_level");
    reveal_strlit("pbs_parameters::ks_base_log");
    reveal_strlit("pbs_parameters::ks_level");
    reveal_strlit("pbs_parameters::message_width");
    reveal_strlit("pbs_parameters::carry_width");
    reveal_strlit("pbs_parameters::ciphertext_width");
    reveal_strlit("pbs_noise_lwe::mode");
    reveal_strlit("pbs_noise_lwe::raw_0");
    reveal_strlit("pbs_noise_lwe::raw_1");
    reveal_strlit("pbs_noise_glwe::mode");
    reveal_strlit("pbs_noise_glwe::raw_0");
    reveal_strlit("pbs_noise_glwe::raw_1");
}

#[verifier::rlimit(60)]
proof fn lemma_ct_names(name: Seq<char>)
    ensures
        ct_addr_named(name) matches Some((pc, half)) ==> {
            &&& pc < 2
            &&& name == channel_name("hbm_axi4_addr_1in3::ct_pc"@, pc as int, half)
            &&& name[0] == 'h' && name[20] == 'c'
        },
        forall|pc: int, half: Half|
            0 <= pc < 2 ==> ct_addr_named(#[trigger] channel_name("hbm_axi4_addr_1in3::ct_pc"@, pc, half)) is Some,
{
    reveal_strlit("hbm_axi4_addr_1in3::ct_pc");
    reveal_strlit("_msb");
    reveal_strlit("_lsb");
    reveal_with_fuel(decimal, 2);
    assert("hbm_axi4_addr_1in3::ct_pc0_msb"@ =~= channel_name("hbm_axi4_addr_1in3::ct_pc"@, 0, Half::Msb) && "hbm_axi4_addr_1in3::ct_pc0_msb"@[20] == 'c' && "hbm_axi4_addr_1in3::ct_pc0_msb"@[0]
        == 'h') by {
        reveal_strlit("hbm_axi4_addr_1in3::ct_pc0_msb");
    }
    assert("hbm_axi4_addr_1in3::ct_pc0_lsb"@ =~= channel_name("hbm_axi4_addr_1in3::ct_pc"@, 0, Half::Lsb) && "hbm_axi4_addr_1in3::ct_pc0_lsb"@[20] == 'c' && "hbm_axi4_addr_1in3::ct_pc0_lsb"@[0]
        == 'h') by {
        reveal_strlit("hbm_axi4_addr_1in3::ct_pc0_lsb");
    }
    assert("hbm_axi4_addr_1in3::ct_pc1_msb"@ =~= channel_name("hbm_axi4_addr_1in3::ct_pc"@, 1, Half::Msb) && "hbm_axi4_addr_1in3::ct_pc1_msb"@[20] == 'c' && "hbm_axi4_addr_1in3::ct_pc1_msb"@[0]
        == 'h') by {
        reveal_strlit("hbm_axi4_addr_1in3::ct_pc1_msb");
    }
    assert("hbm_axi4_addr_1in3::ct_pc1_lsb"@ =~= channel_name("hbm_axi4_addr_1in3::ct_pc"@, 1, Half::Lsb) && "hbm_axi4_addr_1in3::ct_pc1_lsb"@[20] == 'c' && "hbm_axi4_addr_1in3::ct_pc1_lsb"@[0]
        == 'h') by {
        reveal_strlit("hbm_axi4_addr_1in3::ct_pc1_lsb");
    }
    assert forall|pc: int, half: Half| 0 <= pc < 2 implies ct_addr_named(
        #[trigger] channel_name("hbm_axi4_addr_1in3::ct_pc"@, pc, half),
    ) is Some by {
        lemma_in_order(pc);
    }
}

#[verifier::rlimit(60)]
proof fn lemma_bsk_names(name: Seq<char>)
    ensures
        bsk_addr_named(name) matches Some((pc, half)) ==> {
            &&& pc < 16
            &&& name == channel_name("hbm_axi4_addr_3in3::bsk_pc"@, pc as int, half)
            &&& name[0] == 'h' && name[20] == 'b'
        },
        forall|pc: int, half: Half|
            0 <= pc < 16 ==> bsk_addr_named(#[trigger] channel_name("hbm_axi4_addr_3in3::bsk_pc"@, pc, half)) is Some,
{
    reveal_strlit("hbm_axi4_addr_3in3::bsk_pc");
    reveal_strlit("_msb");
    reveal_strlit("_lsb");
    reveal_with_fuel(decimal, 2);
    assert("hbm_axi4_addr_3in3::bsk_pc0_msb"@ =~= channel_name("hbm_axi4_addr_3in3::bsk_pc"@, 0, Half::Msb) && "hbm_axi4_addr_3in3::bsk_pc0_msb"@[20] == 'b' && "hbm_axi4_addr_3in3::bsk_pc0_msb"@[0]
        == 'h') by {
        reveal_strlit("hbm_axi4_addr_3in3::bsk_pc0_msb");
    }
    assert("hbm_axi4_addr_3in3::bsk_pc0_lsb"@ =~= channel_name("hbm_axi4_addr_3in3::bsk_pc"@, 0, Half::Lsb) && "hbm_axi4_addr_3in3::bsk_pc0_lsb"@[20] == 'b' && "hbm_axi4_addr_3in3::bsk_pc0_lsb"@[0]
        == 'h') by {
        reveal_strlit("hbm_axi4_addr_3in3::bsk_pc0_lsb");
    }
    assert("hbm_axi4_addr_3in3::bsk_pc1_msb"@ =~= channel_name("hbm_axi4_addr_3in3::bsk_pc"@, 1, Half::Msb) && "hbm_axi4_addr_3in3::bsk_pc1_msb"@[20] == 'b' && "hbm_axi4_addr_3in3::bsk_pc1_msb"@[0]
        == 'h') by {
        reveal_strlit("hbm_axi4_addr_3in3::bsk_pc1_msb");
    }
    assert("hbm_axi4_addr_3in3::bsk_pc1_lsb"@ =~= channel_name("hbm_axi4_addr_3in3::bsk_pc"@, 1, Half::Lsb) && "hbm_axi4_addr_3in3::bsk_pc1_lsb"@[20] == 'b' && "hbm_axi4_addr_3in3::bsk_pc1_lsb"@[0]
        == 'h') by {
        reveal_strlit("hbm_axi4_addr_3in3::bsk_pc1_lsb");
    }
    assert("hbm_axi4_addr_3in3::bsk_pc2_msb"@ =~= channel_name("hbm_axi4_addr_3in3::bsk_pc"@, 2, Half::Msb) && "hbm_axi4_addr_3in3::bsk_pc2_msb"@[20] == 'b' && "hbm_axi4_addr_3in3::bsk_pc2_msb"@[0]
        == 'h') by {
        reveal_strlit("hbm_axi4_addr_3in3::bsk_pc2_msb");
    }
    assert("hbm_axi4_addr_3in3::bsk_pc2_lsb"@ =~= channel_name("hbm_axi4_addr_3in3::bsk_pc"@, 2, Half::Lsb) && "hbm_axi4_addr_3in3::bsk_pc2_lsb"@[20] == 'b' && "hbm_axi4_addr_3in3::bsk_pc2_lsb"@[0]
        == 'h') by {
        reveal_strlit("hbm_axi4_addr_3in3::bsk_pc2_lsb");
    }
    assert("hbm_axi4_addr_3in3::bsk_pc3_msb"@ =~= channel_name("hbm_axi4_addr_3in3::bsk_pc"@, 3, Half::Msb) && "hbm_axi4_addr_3in3::bsk_pc3_msb"@[20] == 'b' && "hbm_axi4_addr_3in3::bsk_pc3_msb"@[0]
        == 'h') by {
        reveal_strlit("hbm_axi4_addr_3in3::bsk_pc3_msb");
    }
    assert("hbm_axi4_addr_3in3::bsk_pc3_lsb"@ =~= channel_name("hbm_axi4_addr_3in3::bsk_pc"@, 3, Half::Lsb) && "hbm_axi4_addr_3in3::bsk_pc3_lsb"@[20] == 'b' && "hbm_axi4_addr_3in3::bsk_pc3_lsb"@[0]
        == 'h') by {
        reveal_strlit("hbm_axi4_addr_3in3::bsk_pc3_lsb");
    }
    assert("hbm_axi4_addr_3in3::bsk_pc4_msb"@ =~= channel_name("hbm_axi4_addr_3in3::bsk_pc"@, 4, Half::Msb) && "hbm_axi4_addr_3in3::bsk_pc4_msb"@[20] == 'b' && "hbm_axi4_addr_3in3::bsk_pc4_msb"@[0]
        == 'h') by {
        reveal_strlit("hbm_axi4_addr_3in3::bsk_pc4_msb");
    }
    assert("hbm_axi4_addr_3in3::bsk_pc4_lsb"@ =~= channel_name("hbm_axi4_addr_3in3::bsk_pc"@, 4, Half::Lsb) && "hbm_axi4_addr_3in3::bsk_pc4_lsb"@[20] == 'b' && "hbm_axi4_addr_3in3::bsk_pc4_lsb"@[0]
        == 'h') by {
        reveal_strlit("hbm_axi4_addr_3in3::bsk_pc4_lsb");
    }
    assert("hbm_axi4_addr_3in3::bsk_pc5_msb"@ =~= channel_name("hbm_axi4_addr_3in3::bsk_pc"@, 5, Half::Msb) && "hbm_axi4_addr_3in3::bsk_pc5_msb"@[20] == 'b' && "hbm_axi4_addr_3in3::bsk_pc5_msb"@[0]
        == 'h') by {
        reveal_strlit("hbm_axi4_addr_3in3::bsk_pc5_msb");
    }
    assert("hbm_axi4_addr_3in3::bsk_pc5_lsb"@ =~= channel_name("hbm_axi4_addr_3in3::bsk_pc"@, 5, Half::Lsb) && "hbm_axi4_addr_3in3::bsk_pc5_lsb"@[20] == 'b' && "hbm_axi4_addr_3in3::bsk_pc5_lsb"@[0]
        == 'h') by {
        reveal_strlit("hbm_axi4_addr_3in3::bsk_pc5_lsb");
    }
    assert("hbm_axi4_addr_3in3::bsk_pc6_msb"@ =~= channel_name("hbm_axi4_addr_3in3::bsk_pc"@, 6, Half::Msb) && "hbm_axi4_addr_3in3::bsk_pc6_msb"@[20] == 'b' && "hbm_axi4_addr_3in3::bsk_pc6_msb"@[0]
        == 'h') by {
        reveal_strlit("hbm_axi4_addr_3in3::bsk_pc6_msb");
    }
    assert("hbm_axi4_addr_3in3::bsk_pc6_lsb"@ =~= channel_name("hbm_axi4_addr_3in3::bsk_pc"@, 6, Half::Lsb) && "hbm_axi4_addr_3in3::bsk_pc6_lsb"@[20] == 'b' && "hbm_axi4_addr_3in3::bsk_pc6_lsb"@[0]
        == 'h') by {
        reveal_strlit("hbm_axi4_addr_3in3::bsk_pc6_lsb");
    }
    assert("hbm_axi4_addr_3in3::bsk_pc7_msb"@ =~= channel_name("hbm_axi4_addr_3in3::bsk_pc"@, 7, Half::Msb) && "hbm_axi4_addr_3in3::bsk_pc7_msb"@[20] == 'b' && "hbm_axi4_addr_3in3::bsk_pc7_msb"@[0]
        == 'h') by {
        reveal_strlit("hbm_axi4_addr_3in3::bsk_pc7_msb");
    }
    assert("hbm_axi4_addr_3in3::bsk_pc7_lsb"@ =~= channel_name("hbm_axi4_addr_3in3::bsk_pc"@, 7, Half::Lsb) && "hbm_axi4_addr_3in3::bsk_pc7_lsb"@[20] == 'b' && "hbm_axi4_addr_3in3::bsk_pc7_lsb"@[0]
        == 'h') by {
        reveal_strlit("hbm_axi4_addr_3in3::bsk_pc7_lsb");
    }
    assert("hbm_axi4_addr_3in3::bsk_pc8_msb"@ =~= channel_name("hbm_axi4_addr_3in3::bsk_pc"@, 8, Half::Msb) && "hbm_axi4_addr_3in3::bsk_pc8_msb"@[20] == 'b' && "hbm_axi4_addr_3in3::bsk_pc8_msb"@[0]
        == 'h') by {
        reveal_strlit("hbm_axi4_addr_3in3::bsk_pc8_msb");
    }
    assert("hbm_axi4_addr_3in3::bsk_pc8_lsb"@ =~= channel_name("hbm_axi4_addr_3in3::bsk_pc"@, 8, Half::Lsb) && "hbm_axi4_addr_3in3::bsk_pc8_lsb"@[20] == 'b' && "hbm_axi4_addr_3in3::bsk_pc8_lsb"@[0]
        == 'h') by {
        reveal_strlit("hbm_axi4_addr_3in3::bsk_pc8_lsb");
    }
    assert("hbm_axi4_addr_3in3::bsk_pc9_msb"@ =~= channel_name("hbm_axi4_addr_3in3::bsk_pc"@, 9, Half::Msb) && "hbm_axi4_addr_3in3::bsk_pc9_msb"@[20] == 'b' && "hbm_axi4_addr_3in3::bsk_pc9_msb"@[0]
        == 'h') by {
        reveal_strlit("hbm_axi4_addr_3in3::bsk_pc9_msb");
    }
    assert("hbm_axi4_addr_3in3::bsk_pc9_lsb"@ =~= channel_name("hbm_axi4_addr_3in3::bsk_pc"@, 9, Half::Lsb) && "hbm_axi4_addr_3in3::bsk_pc9_lsb"@[20] == 'b' && "hbm_axi4_addr_3in3::bsk_pc9_lsb"@[0]
        == 'h') by {
        reveal_strlit("hbm_axi4_addr_3in3::bsk_pc9_lsb");
    }
    assert("hbm_axi4_addr_3in3::bsk_pc10_msb"@ =~= channel_name("hbm_axi4_addr_3in3::bsk_pc"@, 10, Half::Msb) && "hbm_axi4_addr_3in3::bsk_pc10_msb"@[20] == 'b' && "hbm_axi4_addr_3in3::bsk_pc10_msb"@[0]
        == 'h') by {
        reveal_strlit("hbm_axi4_addr_3in3::bsk_pc10_msb");
    }
    assert("hbm_axi4_addr_3in3::bsk_pc10_lsb"@ =~= channel_name("hbm_axi4_addr_3in3::bsk_pc"@, 10, Half::Lsb) && "hbm_axi4_addr_3in3::bsk_pc10_lsb"@[20] == 'b' && "hbm_axi4_addr_3in3::bsk_pc10_lsb"@[0]
        == 'h') by {
        reveal_strlit("hbm_axi4_addr_3in3::bsk_pc10_lsb");
    }
    assert("hbm_axi4_addr_3in3::bsk_pc11_msb"@ =~= channel_name("hbm_axi4_addr_3in3::bsk_pc"@, 11, Half::Msb) && "hbm_axi4_addr_3in3::bsk_pc11_msb"@[20] == 'b' && "hbm_axi4_addr_3in3::bsk_pc11_msb"@[0]
        == 'h') by {
        reveal_strlit("hbm_axi4_addr_3in3::bsk_pc11_msb");
    }
    assert("hbm_axi4_addr_3in3::bsk_pc11_lsb"@ =~= channel_name("hbm_axi4_addr_3in3::bsk_pc"@, 11, Half::Lsb) && "hbm_axi4_addr_3in3::bsk_pc11_lsb"@[20] == 'b' && "hbm_axi4_addr_3in3::bsk_pc11_lsb"@[0]
        == 'h') by {
        reveal_strlit("hbm_axi4_addr_3in3::bsk_pc11_lsb");
    }
    assert("hbm_axi4_addr_3in3::bsk_pc12_msb"@ =~= channel_name("hbm_axi4_addr_3in3::bsk_pc"@, 12, Half::Msb) && "hbm_axi4_addr_3in3::bsk_pc12_msb"@[20] == 'b' && "hbm_axi4_addr_3in3::bsk_pc12_msb"@[0]
        == 'h') by {
        reveal_strlit("hbm_axi4_addr_3in3::bsk_pc12_msb");
    }
    assert("hbm_axi4_addr_3in3::bsk_pc12_lsb"@ =~= channel_name("hbm_axi4_addr_3in3::bsk_pc"@, 12, Half::Lsb) && "hbm_axi4_addr_3in3::bsk_pc12_lsb"@[20] == 'b' && "hbm_axi4_addr_3in3::bsk_pc12_lsb"@[0]
        == 'h') by {
        reveal_strlit("hbm_axi4_addr_3in3::bsk_pc12_lsb");
    }
    assert("hbm_axi4_addr_3in3::bsk_pc13_msb"@ =~= channel_name("hbm_axi4_addr_3in3::bsk_pc"@, 13, Half::Msb) && "hbm_axi4_addr_3in3::bsk_pc13_msb"@[20] == 'b' && "hbm_axi4_addr_3in3::bsk_pc13_msb"@[0]
        == 'h') by {
        reveal_strlit("hbm_axi4_addr_3in3::bsk_pc13_msb");
    }
    assert("hbm_axi4_addr_3in3::bsk_pc13_lsb"@ =~= channel_name("hbm_axi4_addr_3in3::bsk_pc"@, 13, Half::Lsb) && "hbm_axi4_addr_3in3::bsk_pc13_lsb"@[20] == 'b' && "hbm_axi4_addr_3in3::bsk_pc13_lsb"@[0]
        == 'h') by {
        reveal_strlit("hbm_axi4_addr_3in3::bsk_pc13_lsb");
    }
    assert("hbm_axi4_addr_3in3::bsk_pc14_msb"@ =~= channel_name("hbm_axi4_addr_3in3::bsk_pc"@, 14, Half::Msb) && "hbm_axi4_addr_3in3::bsk_pc14_msb"@[20] == 'b' && "hbm_axi4_addr_3in3::bsk_pc14_msb"@[0]
        == 'h') by {
        reveal_strlit("hbm_axi4_addr_3in3::bsk_pc14_msb");
    }
    assert("hbm_axi4_addr_3in3::bsk_pc14_lsb"@ =~= channel_name("hbm_axi4_addr_3in3::bsk_pc"@, 14, Half::Lsb) && "hbm_axi4_addr_3in3::bsk_pc14_lsb"@[20] == 'b' && "hbm_axi4_addr_3in3::bsk_pc14_lsb"@[0]
        == 'h') by {
        reveal_strlit("hbm_axi4_addr_3in3::bsk_pc14_lsb");
    }
    assert("hbm_axi4_addr_3in3::bsk_pc15_msb"@ =~= channel_name("hbm_axi4_addr_3in3::bsk_pc"@, 15, Half::Msb) && "hbm_axi4_addr_3in3::bsk_pc15_msb"@[20] == 'b' && "hbm_axi4_addr_3in3::bsk_pc15_msb"@[0]
        == 'h') by {
        reveal_strlit("hbm_axi4_addr_3in3::bsk_pc15_msb");
    }
    assert("hbm_axi4_addr_3in3::bsk_pc15_lsb"@ =~= channel_name("hbm_axi4_addr_3in3::bsk_pc"@, 15, Half::Lsb) && "hbm_axi4_addr_3in3::bsk_pc15_lsb"@[20] == 'b' && "hbm_axi4_addr_3in3::bsk_pc15_lsb"@[0]
        == 'h') by {
        reveal_strlit("hbm_axi4_addr_3in3::bsk_pc15_lsb");
    }
    assert forall|pc: int, half: Half| 0 <= pc < 16 implies bsk_addr_named(
        #[trigger] channel_name("hbm_axi4_addr_3in3::bsk_pc"@, pc, half),
    ) is Some by {
        lemma_in_order(pc);
    }
}

#[verifier::rlimit(60)]
proof fn lemma_ksk_names(name: Seq<char>)
    ensures
        ksk_addr_named(name) matches Some((pc, half)) ==> {
            &&& pc < 16
            &&& name == channel_name("hbm_axi4_addr_1in3::ksk_pc"@, pc as int, half)
            &&& name[0] == 'h' && name[20] == 'k'
        },
        forall|pc: int, half: Half|
            0 <= pc < 16 ==> ksk_addr_named(#[trigger] channel_name("hbm_axi4_addr_1in3::ksk_pc"@, pc, half)) is Some,
{
    reveal_strlit("hbm_axi4_addr_1in3::ksk_pc");
    reveal_strlit("_msb");
    reveal_strlit("_lsb");
    reveal_with_fuel(decimal, 2);
    assert("hbm_axi4_addr_1in3::ksk_pc0_msb"@ =~= channel_name("hbm_axi4_addr_1in3::ksk_pc"@, 0, Half::Msb) && "hbm_axi4_addr_1in3::ksk_pc0_msb"@[20] == 'k' && "hbm_axi4_addr_1in3::ksk_pc0_msb"@[0]
        == 'h') by {
        reveal_strlit("hbm_axi4_addr_1in3::ksk_pc0_msb");
    }
    assert("hbm_axi4_addr_1in3::ksk_pc0_lsb"@ =~= channel_name("hbm_axi4_addr_1in3::ksk_pc"@, 0, Half::Lsb) && "hbm_axi4_addr_1in3::ksk_pc0_lsb"@[20] == 'k' && "hbm_axi4_addr_1in3::ksk_pc0_lsb"@[0]
        == 'h') by {
        reveal_strlit("hbm_axi4_addr_1in3::ksk_pc0_lsb");
    }
    assert("hbm_axi4_addr_1in3::ksk_pc1_msb"@ =~= channel_name("hbm_axi4_addr_1in3::ksk_pc"@, 1, Half::Msb) && "hbm_axi4_addr_1in3::ksk_pc1_msb"@[20] == 'k' && "hbm_axi4_addr_1in3::ksk_pc1_msb"@[0]
        == 'h') by {
        reveal_strlit("hbm_axi4_addr_1in3::ksk_pc1_msb");
    }
    assert("hbm_axi4_addr_1in3::ksk_pc1_lsb"@ =~= channel_name("hbm_axi4_addr_1in3::ksk_pc"@, 1, Half::Lsb) && "hbm_axi4_addr_1in3::ksk_pc1_lsb"@[20] == 'k' && "hbm_axi4_addr_1in3::ksk_pc1_lsb"@[0]
        == 'h') by {
        reveal_strlit("hbm_axi4_addr_1in3::ksk_pc1_lsb");
    }
    assert("hbm_axi4_addr_1in3::ksk_pc2_msb"@ =~= channel_name("hbm_axi4_addr_1in3::ksk_pc"@, 2, Half::Msb) && "hbm_axi4_addr_1in3::ksk_pc2_msb"@[20] == 'k' && "hbm_axi4_addr_1in3::ksk_pc2_msb"@[0]
        == 'h') by {
        reveal_strlit("hbm_axi4_addr_1in3::ksk_pc2_msb");
    }
    assert("hbm_axi4_addr_1in3::ksk_pc2_lsb"@ =~= channel_name("hbm_axi4_addr_1in3::ksk_pc"@, 2, Half::Lsb) && "hbm_axi4_addr_1in3::ksk_pc2_lsb"@[20] == 'k' && "hbm_axi4_addr_1in3::ksk_pc2_lsb"@[0]
        == 'h') by {
        reveal_strlit("hbm_axi4_addr_1in3::ksk_pc2_lsb");
    }
    assert("hbm_axi4_addr_1in3::ksk_pc3_msb"@ =~= channel_name("hbm_axi4_addr_1in3::ksk_pc"@, 3, Half::Msb) && "hbm_axi4_addr_1in3::ksk_pc3_msb"@[20] == 'k' && "hbm_axi4_addr_1in3::ksk_pc3_msb"@[0]
        == 'h') by {
        reveal_strlit("hbm_axi4_addr_1in3::ksk_pc3_msb");
    }
    assert("hbm_axi4_addr_1in3::ksk_pc3_lsb"@ =~= channel_name("hbm_axi4_addr_1in3::ksk_pc"@, 3, Half::Lsb) && "hbm_axi4_addr_1in3::ksk_pc3_lsb"@[20] == 'k' && "hbm_axi4_addr_1in3::ksk_pc3_lsb"@[0]
        == 'h') by {
        reveal_strlit("hbm_axi4_addr_1in3::ksk_pc3_lsb");
    }
    assert("hbm_axi4_addr_1in3::ksk_pc4_msb"@ =~= channel_name("hbm_axi4_addr_1in3::ksk_pc"@, 4, Half::Msb) && "hbm_axi4_addr_1in3::ksk_pc4_msb"@[20] == 'k' && "hbm_axi4_addr_1in3::ksk_pc4_msb"@[0]
        == 'h') by {
        reveal_strlit("hbm_axi4_addr_1in3::ksk_pc4_msb");
    }
    assert("hbm_axi4_addr_1in3::ksk_pc4_lsb"@ =~= channel_name("hbm_axi4_addr_1in3::ksk_pc"@, 4, Half::Lsb) && "hbm_axi4_addr_1in3::ksk_pc4_lsb"@[20] == 'k' && "hbm_axi4_addr_1in3::ksk_pc4_lsb"@[0]
        == 'h') by {
        reveal_strlit("hbm_axi4_addr_1in3::ksk_pc4_lsb");
    }
    assert("hbm_axi4_addr_1in3::ksk_pc5_msb"@ =~= channel_name("hbm_axi4_addr_1in3::ksk_pc"@, 5, Half::Msb) && "hbm_axi4_addr_1in3::ksk_pc5_msb"@[20] == 'k' && "hbm_axi4_addr_1in3::ksk_pc5_msb"@[0]
        == 'h') by {
        reveal_strlit("hbm_axi4_addr_1in3::ksk_pc5_msb");
    }
    assert("hbm_axi4_addr_1in3::ksk_pc5_lsb"@ =~= channel_name("hbm_axi4_addr_1in3::ksk_pc"@, 5, Half::Lsb) && "hbm_axi4_addr_1in3::ksk_pc5_lsb"@[20] == 'k' && "hbm_axi4_addr_1in3::ksk_pc5_lsb"@[0]
        == 'h') by {
        reveal_strlit("hbm_axi4_addr_1in3::ksk_pc5_lsb");
    }
    assert("hbm_axi4_addr_1in3::ksk_pc6_msb"@ =~= channel_name("hbm_axi4_addr_1in3::ksk_pc"@, 6, Half::Msb) && "hbm_axi4_addr_1in3::ksk_pc6_msb"@[20] == 'k' && "hbm_axi4_addr_1in3::ksk_pc6_msb"@[0]
        == 'h') by {
        reveal_strlit("hbm_axi4_addr_1in3::ksk_pc6_msb");
    }
    assert("hbm_axi4_addr_1in3::ksk_pc6_lsb"@ =~= channel_name("hbm_axi4_addr_1in3::ksk_pc"@, 6, Half::Lsb) && "hbm_axi4_addr_1in3::ksk_pc6_lsb"@[20] == 'k' && "hbm_axi4_addr_1in3::ksk_pc6_lsb"@[0]
        == 'h') by {
        reveal_strlit("hbm_axi4_addr_1in3::ksk_pc6_lsb");
    }
    assert("hbm_axi4_addr_1in3::ksk_pc7_msb"@ =~= channel_name("hbm_axi4_addr_1in3::ksk_pc"@, 7, Half::Msb) && "hbm_axi4_addr_1in3::ksk_pc7_msb"@[20] == 'k' && "hbm_axi4_addr_1in3::ksk_pc7_msb"@[0]
        == 'h') by {
        reveal_strlit("hbm_axi4_addr_1in3::ksk_pc7_msb");
    }
    assert("hbm_axi4_addr_1in3::ksk_pc7_lsb"@ =~= channel_name("hbm_axi4_addr_1in3::ksk_pc"@, 7, Half::Lsb) && "hbm_axi4_addr_1in3::ksk_pc7_lsb"@[20] == 'k' && "hbm_axi4_addr_1in3::ksk_pc7_lsb"@[0]
        == 'h') by {
        reveal_strlit("hbm_axi4_addr_1in3::ksk_pc7_lsb");
    }
    assert("hbm_axi4_addr_1in3::ksk_pc8_msb"@ =~= channel_name("hbm_axi4_addr_1in3::ksk_pc"@, 8, Half::Msb) && "hbm_axi4_addr_1in3::ksk_pc8_msb"@[20] == 'k' && "hbm_axi4_addr_1in3::ksk_pc8_msb"@[0]
        == 'h') by {
        reveal_strlit("hbm_axi4_addr_1in3::ksk_pc8_msb");
    }
    assert("hbm_axi4_addr_1in3::ksk_pc8_lsb"@ =~= channel_name("hbm_axi4_addr_1in3::ksk_pc"@, 8, Half::Lsb) && "hbm_axi4_addr_1in3::ksk_pc8_lsb"@[20] == 'k' && "hbm_axi4_addr_1in3::ksk_pc8_lsb"@[0]
        == 'h') by {
        reveal_strlit("hbm_axi4_addr_1in3::ksk_pc8_lsb");
    }
    assert("hbm_axi4_addr_1in3::ksk_pc9_msb"@ =~= channel_name("hbm_axi4_addr_1in3::ksk_pc"@, 9, Half::Msb) && "hbm_axi4_addr_1in3::ksk_pc9_msb"@[20] == 'k' && "hbm_axi4_addr_1in3::ksk_pc9_msb"@[0]
        == 'h') by {
        reveal_strlit("hbm_axi4_addr_1in3::ksk_pc9_msb");
    }
    assert("hbm_axi4_addr_1in3::ksk_pc9_lsb"@ =~= channel_name("hbm_axi4_addr_1in3::ksk_pc"@, 9, Half::Lsb) && "hbm_axi4_addr_1in3::ksk_pc9_lsb"@[20] == 'k' && "hbm_axi4_addr_1in3::ksk_pc9_lsb"@[0]
        == 'h') by {
        reveal_strlit("hbm_axi4_addr_1in3::ksk_pc9_lsb");
    }
    assert("hbm_axi4_addr_1in3::ksk_pc10_msb"@ =~= channel_name("hbm_axi4_addr_1in3::ksk_pc"@, 10, Half::Msb) && "hbm_axi4_addr_1in3::ksk_pc10_msb"@[20] == 'k' && "hbm_axi4_addr_1in3::ksk_pc10_msb"@[0]
        == 'h') by {
        reveal_strlit("hbm_axi4_addr_1in3::ksk_pc10_msb");
    }
    assert("hbm_axi4_addr_1in3::ksk_pc10_lsb"@ =~= channel_name("hbm_axi4_addr_1in3::ksk_pc"@, 10, Half::Lsb) && "hbm_axi4_addr_1in3::ksk_pc10_lsb"@[20] == 'k' && "hbm_axi4_addr_1in3::ksk_pc10_lsb"@[0]
        == 'h') by {
        reveal_strlit("hbm_axi4_addr_1in3::ksk_pc10_lsb");
    }
    assert("hbm_axi4_addr_1in3::ksk_pc11_msb"@ =~= channel_name("hbm_axi4_addr_1in3::ksk_pc"@, 11, Half::Msb) && "hbm_axi4_addr_1in3::ksk_pc11_msb"@[20] == 'k' && "hbm_axi4_addr_1in3::ksk_pc11_msb"@[0]
        == 'h') by {
        reveal_strlit("hbm_axi4_addr_1in3::ksk_pc11_msb");
    }
    assert("hbm_axi4_addr_1in3::ksk_pc11_lsb"@ =~= channel_name("hbm_axi4_addr_1in3::ksk_pc"@, 11, Half::Lsb) && "hbm_axi4_addr_1in3::ksk_pc11_lsb"@[20] == 'k' && "hbm_axi4_addr_1in3::ksk_pc11_lsb"@[0]
        == 'h') by {
        reveal_strlit("hbm_axi4_addr_1in3::ksk_pc11_lsb");
    }
    assert("hbm_axi4_addr_1in3::ksk_pc12_msb"@ =~= channel_name("hbm_axi4_addr_1in3::ksk_pc"@, 12, Half::Msb) && "hbm_axi4_addr_1in3::ksk_pc12_msb"@[20] == 'k' && "hbm_axi4_addr_1in3::ksk_pc12_msb"@[0]
        == 'h') by {
        reveal_strlit("hbm_axi4_addr_1in3::ksk_pc12_msb");
    }
    assert("hbm_axi4_addr_1in3::ksk_pc12_lsb"@ =~= channel_name("hbm_axi4_addr_1in3::ksk_pc"@, 12, Half::Lsb) && "hbm_axi4_addr_1in3::ksk_pc12_lsb"@[20] == 'k' && "hbm_axi4_addr_1in3::ksk_pc12_lsb"@[0]
        == 'h') by {
        reveal_strlit("hbm_axi4_addr_1in3::ksk_pc12_lsb");
    }
    assert("hbm_axi4_addr_1in3::ksk_pc13_msb"@ =~= channel_name("hbm_axi4_addr_1in3::ksk_pc"@, 13, Half::Msb) && "hbm_axi4_addr_1in3::ksk_pc13_msb"@[20] == 'k' && "hbm_axi4_addr_1in3::ksk_pc13_msb"@[0]
        == 'h') by {
        reveal_strlit("hbm_axi4_addr_1in3::ksk_pc13_msb");
    }
    assert("hbm_axi4_addr_1in3::ksk_pc13_lsb"@ =~= channel_name("hbm_axi4_addr_1in3::ksk_pc"@, 13, Half::Lsb) && "hbm_axi4_addr_1in3::ksk_pc13_lsb"@[20] == 'k' && "hbm_axi4_addr_1in3::ksk_pc13_lsb"@[0]
        == 'h') by {
        reveal_strlit("hbm_axi4_addr_1in3::ksk_pc13_lsb");
    }
    assert("hbm_axi4_addr_1in3::ksk_pc14_msb"@ =~= channel_name("hbm_axi4_addr_1in3::ksk_pc"@, 14, Half::Msb) && "hbm_axi4_addr_1in3::ksk_pc14_msb"@[20] == 'k' && "hbm_axi4_addr_1in3::ksk_pc14_msb"@[0]
        == 'h') by {
        reveal_strlit("hbm_axi4_addr_1in3::ksk_pc14_msb");
    }
    assert("hbm_axi4_addr_1in3::ksk_pc14_lsb"@ =~= channel_name("hbm_axi4_addr_1in3::ksk_pc"@, 14, Half::Lsb) && "hbm_axi4_addr_1in3::ksk_pc14_lsb"@[20] == 'k' && "hbm_axi4_addr_1in3::ksk_pc14_lsb"@[0]
        == 'h') by {
        reveal_strlit("hbm_axi4_addr_1in3::ksk_pc14_lsb");
    }
    assert("hbm_axi4_addr_1in3::ksk_pc15_msb"@ =~= channel_name("hbm_axi4_addr_1in3::ksk_pc"@, 15, Half::Msb) && "hbm_axi4_addr_1in3::ksk_pc15_msb"@[20] == 'k' && "hbm_axi4_addr_1in3::ksk_pc15_msb"@[0]
        == 'h') by {
        reveal_strlit("hbm_axi4_addr_1in3::ksk_pc15_msb");
    }
    assert("hbm_axi4_addr_1in3::ksk_pc15_lsb"@ =~= channel_name("hbm_axi4_addr_1in3::ksk_pc"@, 15, Half::Lsb) && "hbm_axi4_addr_1in3::ksk_pc15_lsb"@[20] == 'k' && "hbm_axi4_addr_1in3::ksk_pc15_lsb"@[0]
        == 'h') by {
        reveal_strlit("hbm_axi4_addr_1in3::ksk_pc15_lsb");
    }
    assert forall|pc: int, half: Half| 0 <= pc < 16 implies ksk_addr_named(
        #[trigger] channel_name("hbm_axi4_addr_1in3::ksk_pc"@, pc, half),
    ) is Some by {
        lemma_in_order(pc);
    }
}

/// A number below sixteen is one of them.
proof fn lemma_in_order(pc: int)
    requires
        0 <= pc < 16,
    ensures
        pc == 0 || pc == 1 || pc == 2 || pc == 3 || pc == 4 || pc == 5 || pc == 6 || pc == 7 || pc
            == 8 || pc == 9 || pc == 10 || pc == 11 || pc == 12 || pc == 13 || pc == 14 || pc == 15,
{
}

proof fn lemma_channel_name(prefix: Seq<char>, a: int, b: int, x: Half, y: Half)
    requires
        channel_name(prefix, a, x) == channel_name(prefix, b, y),
        a >= 0,
        b >= 0,
    ensures
        a == b,
        x == y,
{
    reveal_strlit("_msb");
    reveal_strlit("_lsb");
    let (p, q) = (channel_name(prefix, a, x), channel_name(prefix, b, y));
    assert("_msb"@[1] == 'm' && "_lsb"@[1] == 'l');
    assert(p[p.len() - 3] == (match x {
        Half::Msb => "_msb"@,
        Half::Lsb => "_lsb"@,
    })[1]);
    assert(q[q.len() - 3] == (match y {
        Half::Msb => "_msb"@,
        Half::Lsb => "_lsb"@,
    })[1]);
    assert(p.take(p.len() - 4) =~= numbered(prefix, a));
    assert(q.take(q.len() - 4) =~= numbered(prefix, b));
    numbered_is_unique(prefix, a, b);
}

/// The offsets of the ciphertexts, of the bootstrapping key and of the keyswitching key are
/// under names that give the number of their memory channel and which half they are, and under
/// no other one.
pub proof fn offsets_have_numbered_names(name: Seq<char>, pc: u8, half: Half)
    ensures
        named(name) == (Register::CtAddr { pc, half }) <==> pc < 2 && name == channel_name(
            "hbm_axi4_addr_1in3::ct_pc"@,
            pc as int,
            half,
        ),
        named(name) == (Register::BskAddr { pc, half }) <==> pc < 16 && name == channel_name(
            "hbm_axi4_addr_3in3::bsk_pc"@,
            pc as int,
            half,
        ),
        named(name) == (Register::KskAddr { pc, half }) <==> pc < 16 && name == channel_name(
            "hbm_axi4_addr_1in3::ksk_pc"@,
            pc as int,
            half,
        ),
{
    lemma_ct_names(name);
    lemma_bsk_names(name);
    lemma_ksk_names(name);
    lemma_no_plain_offset(name);
    if let Some((n, x)) = ct_addr_named(name) {
        if name == channel_name("hbm_axi4_addr_1in3::ct_pc"@, pc as int, half) {
            lemma_channel_name("hbm_axi4_addr_1in3::ct_pc"@, n as int, pc as int, x, half);
        }
    }
    if let Some((n, x)) = bsk_addr_named(name) {
        if name == channel_name("hbm_axi4_addr_3in3::bsk_pc"@, pc as int, half) {
            lemma_channel_name("hbm_axi4_addr_3in3::bsk_pc"@, n as int, pc as int, x, half);
        }
    }
    if let Some((n, x)) = ksk_addr_named(name) {
        if name == channel_name("hbm_axi4_addr_1in3::ksk_pc"@, pc as int, half) {
            lemma_channel_name("hbm_axi4_addr_1in3::ksk_pc"@, n as int, pc as int, x, half);
        }
    }
}

proof fn lemma_no_plain_offset(name: Seq<char>)
    ensures
        !(plain_named(name) is CtAddr || plain_named(name) is BskAddr || plain_named(name)
            is KskAddr),
{
}

/// Each of the other registers is under its own name.
#[verifier::rlimit(60)]
pub proof fn registers_have_their_names()
    ensures
        named("info::ntt_structure"@) == (Register::NttStructure),
        named("info::ntt_rdx_cut"@) == (Register::NttRdxCut),
        named("info::ntt_architecture"@) == (Register::NttArchitecture),
        named("info::ntt_pbs"@) == (Register::NttPbs),
        named("info::ntt_modulo"@) == (Register::NttModulo),
        named("info::application"@) == (Register::Application),
        named("info::ks_structure"@) == (Register::KsStructure),
        named("info::ks_crypto_param"@) == (Register::KsCryptoParam),
        named("info::hbm_axi4_nb"@) == (Register::HbmAxi4Nb),
        named("info::hbm_axi4_dataw_ksk"@) == (Register::HbmDatawKsk),
        named("info::hbm_axi4_dataw_bsk"@) == (Register::HbmDatawBsk),
        named("info::hbm_axi4_dataw_pem"@) == (Register::HbmDatawPem),
        named("info::hbm_axi4_dataw_glwe"@) == (Register::HbmDatawGlwe),
        named("info::regf_structure"@) == (Register::RegfStructure),
        named("info::isc_structure"@) == (Register::IscStructure),
        named("bsk_avail::avail"@) == (Register::BskAvail),
        named("bsk_avail::reset"@) == (Register::BskReset),
        named("ksk_avail::avail"@) == (Register::KskAvail),
        named("ksk_avail::reset"@) == (Register::KskReset),
        named("bpip::use"@) == (Register::BpipUse),
        named("bpip::timeout"@) == (Register::BpipTimeout),
        named("hbm_axi4_addr_1in3::glwe_pc0_msb"@) == (Register::LutAddr { half: Half::Msb }),
        named("hbm_axi4_addr_1in3::glwe_pc0_lsb"@) == (Register::LutAddr { half: Half::Lsb }),
        named("hbm_axi4_addr_1in3::trc_pc0_msb"@) == (Register::TraceAddr { half: Half::Msb }),
        named("hbm_axi4_addr_1in3::trc_pc0_lsb"@) == (Register::TraceAddr { half: Half::Lsb }),
        named("pbs_parameters::lwe_dimension"@) == (Register::LweDimension),
        named("pbs_parameters::glwe_dimension"@) == (Register::GlweDimension),
        named("pbs_parameters::polynomial_size"@) == (Register::PolynomialSize),
        named("pbs_parameters::pbs_base_log"@) == (Register::PbsBaseLog),
        named("pbs_parameters::pbs_level"@) == (Register::PbsLevel),
        named("pbs_parameters::ks_base_log"@) == (Register::KsBaseLog),
        named("pbs_parameters::ks_level"@) == (Register::KsLevel),
        named("pbs_parameters::message_width"@) == (Register::MessageWidth),
        named("pbs_parameters::carry_width"@) == (Register::CarryWidth),
        named("pbs_parameters::ciphertext_width"@) == (Register::CiphertextWidth),
        named("pbs_noise_lwe::mode"@) == (Register::NoiseLweMode),
        named("pbs_noise_lwe::raw_0"@) == (Register::NoiseLweRaw0),
        named("pbs_noise_lwe::raw_1"@) == (Register::NoiseLweRaw1),
        named("pbs_noise_glwe::mode"@) == (Register::NoiseGlweMode),
        named("pbs_noise_glwe::raw_0"@) == (Register::NoiseGlweRaw0),
        named("pbs_noise_glwe::raw_1"@) == (Register::NoiseGlweRaw1),
{
    lemma_marks();
    lemma_not_numbered("info::ntt_structure"@);
    lemma_not_numbered("info::ntt_rdx_cut"@);
    lemma_not_numbered("info::ntt_architecture"@);
    lemma_not_numbered("info::ntt_pbs"@);
    lemma_not_numbered("info::ntt_modulo"@);
    lemma_not_numbered("info::application"@);
    lemma_not_numbered("info::ks_structure"@);
    lemma_not_numbered("info::ks_crypto_param"@);
    lemma_not_numbered("info::hbm_axi4_nb"@);
    lemma_not_numbered("info::hbm_axi4_dataw_ksk"@);
    lemma_not_numbered("info::hbm_axi4_dataw_bsk"@);
    lemma_not_numbered("info::hbm_axi4_dataw_pem"@);
    lemma_not_numbered("info::hbm_axi4_dataw_glwe"@);
    lemma_not_numbered("info::regf_structure"@);
    lemma_not_numbered("info::isc_structure"@);
    lemma_not_numbered("bsk_avail::avail"@);
    lemma_not_numbered("bsk_avail::reset"@);
    lemma_not_numbered("ksk_avail::avail"@);
    lemma_not_numbered("ksk_avail::reset"@);
    lemma_not_numbered("bpip::use"@);
    lemma_not_numbered("bpip::timeout"@);
    lemma_not_numbered("hbm_axi4_addr_1in3::glwe_pc0_msb"@);
    lemma_not_numbered("hbm_axi4_addr_1in3::glwe_pc0_lsb"@);
    lemma_not_numbered("hbm_axi4_addr_1in3::trc_pc0_msb"@);
    lemma_not_numbered("hbm_axi4_addr_1in3::trc_pc0_lsb"@);
    lemma_not_numbered("pbs_parameters::lwe_dimension"@);
    lemma_not_numbered("pbs_parameters::glwe_dimension"@);
    lemma_not_numbered("pbs_parameters::polynomial_size"@);
    lemma_not_numbered("pbs_parameters::pbs_base_log"@);
    lemma_not_numbered("pbs_parameters::pbs_level"@);
    lemma_not_numbered("pbs_parameters::ks_base_log"@);
    lemma_not_numbered("pbs_parameters::ks_level"@);
    lemma_not_numbered("pbs_parameters::message_width"@);
    lemma_not_numbered("pbs_parameters::carry_width"@);
    lemma_not_numbered("pbs_parameters::ciphertext_width"@);
    lemma_not_numbered("pbs_noise_lwe::mode"@);
    lemma_not_numbered("pbs_noise_lwe::raw_0"@);
    lemma_not_numbered("pbs_noise_lwe::raw_1"@);
    lemma_not_numbered("pbs_noise_glwe::mode"@);
    lemma_not_numbered("pbs_noise_glwe::raw_0"@);
    lemma_not_numbered("pbs_noise_glwe::raw_1"@);
}

proof fn lemma_not_numbered(name: Seq<char>)
    ensures
        !starts_numbered(name) ==> named(name) == plain_named(name),
{
    lemma_ct_names(name);
    lemma_bsk_names(name);
    lemma_ksk_names(name);
}

/// A name that is none of those has no meaning: it is the name of a register that the model
/// does not hold.
pub proof fn other_names_have_no_meaning(name: Seq<char>)
    requires
        name != "info::ntt_structure"@,
        name != "info::ntt_rdx_cut"@,
        name != "info::ntt_architecture"@,
        name != "info::ntt_pbs"@,
        name != "info::ntt_modulo"@,
        name != "info::application"@,
        name != "info::ks_structure"@,
        name != "info::ks_crypto_param"@,
        name != "info::hbm_axi4_nb"@,
        name != "info::hbm_axi4_dataw_ksk"@,
        name != "info::hbm_axi4_dataw_bsk"@,
        name != "info::hbm_axi4_dataw_pem"@,
        name != "info::hbm_axi4_dataw_glwe"@,
        name != "info::regf_structure"@,
        name != "info::isc_structure"@,
        name != "bsk_avail::avail"@,
        name != "bsk_avail::reset"@,
        name != "ksk_avail::avail"@,
        name != "ksk_avail::reset"@,
        name != "bpip::use"@,
        name != "bpip::timeout"@,
        name != "hbm_axi4_addr_1in3::glwe_pc0_msb"@,
        name != "hbm_axi4_addr_1in3::glwe_pc0_lsb"@,
        name != "hbm_axi4_addr_1in3::trc_pc0_msb"@,
        name != "hbm_axi4_addr_1in3::trc_pc0_lsb"@,
        name != "pbs_parameters::lwe_dimension"@,
        name != "pbs_parameters::glwe_dimension"@,
        name != "pbs_parameters::polynomial_size"@,
        name != "pbs_parameters::pbs_base_log"@,
        name != "pbs_parameters::pbs_level"@,
        name != "pbs_parameters::ks_base_log"@,
        name != "pbs_parameters::ks_level"@,
        name != "pbs_parameters::message_width"@,
        name != "pbs_parameters::carry_width"@,
        name != "pbs_parameters::ciphertext_width"@,
        name != "pbs_noise_lwe::mode"@,
        name != "pbs_noise_lwe::raw_0"@,
        name != "pbs_noise_lwe::raw_1"@,
        name != "pbs_noise_glwe::mode"@,
        name != "pbs_noise_glwe::raw_0"@,
        name != "pbs_noise_glwe::raw_1"@,
        forall|pc: int, half: Half|
            name != #[trigger] channel_name("hbm_axi4_addr_1in3::ct_pc"@, pc, half) && name
                != channel_name("hbm_axi4_addr_3in3::bsk_pc"@, pc, half) && name != channel_name(
                "hbm_axi4_addr_1in3::ksk_pc"@,
                pc,
                half,
            ),
    ensures
        named(name) == Register::Unhooked,
{
    lemma_ct_names(name);
    lemma_bsk_names(name);
    lemma_ksk_names(name);
    if let Some((pc, half)) = bsk_addr_named(name) {
        assert(name != channel_name("hbm_axi4_addr_1in3::ct_pc"@, pc as int, half));
    }
    if let Some((pc, half)) = ksk_addr_named(name) {
        assert(name != channel_name("hbm_axi4_addr_1in3::ct_pc"@, pc as int, half));
    }
}

} // verus!
