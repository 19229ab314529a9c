//! Selection of the parameters by name.
use vstd::prelude::*;

use super::hpu::HpuParameters;

verus! {

/// Parameters known by their name, or the path of a file that holds some.
#[derive(Clone, Debug)]
pub enum ParamsName {
    Gaussian44bFast,
    Gaussian44b,
    Gaussian64bFast,
    Gaussian64b,
    Gaussian64bPFail64,
    Gaussian64bPFail64Psi64,
    TUniform64bFast,
    TUniform64bPFail64Psi64,
    TUniform64bPFail128Psi64,
    CustomPath(String),
}

/// The two spellings of the known names, and the file of their parameters.
pub open spec fn spellings(name: ParamsName) -> Option<(Seq<char>, Seq<char>, Seq<char>)> {
    match name {
        ParamsName::Gaussian44bFast => Some(
            ("gaussian44bfast"@, "gaussian-44b-fast"@, "gaussian_44b_fast.toml"@),
        ),
        ParamsName::Gaussian44b => Some(("gaussian44b"@, "gaussian-44b"@, "gaussian_44b.toml"@)),
        ParamsName::Gaussian64bFast => Some(
            ("gaussian64bfast"@, "gaussian-64b-fast"@, "gaussian_64b_fast.toml"@),
        ),
        ParamsName::Gaussian64b => Some(("gaussian64b"@, "gaussian-64b"@, "gaussian_64b.toml"@)),
        ParamsName::Gaussian64bPFail64 => Some(
            ("gaussian64bpfail64"@, "gaussian-64b-pfail64"@, "gaussian_64b_pfail64.toml"@),
        ),
        ParamsName::Gaussian64bPFail64Psi64 => Some(
            (
                "gaussian64bpfail64psi64"@,
                "gaussian-64b-pfail64-psi64"@,
                "gaussian_64b_pfail64_psi64.toml"@,
            ),
        ),
        ParamsName::TUniform64bFast => Some(
            ("tuniform64bfast"@, "tuniform-64b-fast"@, "tuniform_64b_fast.toml"@),
        ),
        ParamsName::TUniform64bPFail64Psi64 => Some(
            (
                "tuniform64bpfail64psi64"@,
                "tuniform-64b-pfail64-psi64"@,
                "tuniform_64b_pfail64_psi64.toml"@,
            ),
        ),
        ParamsName::TUniform64bPFail128Psi64 => Some(
            (
                "tuniform64bpfail128psi64"@,
                "tuniform-64b-pfail128-psi64"@,
                "tuniform_64b_pfail128_psi64.toml"@,
            ),
        ),
        ParamsName::CustomPath(_) => None,
    }
}

/// A text is one of the spellings of a name.
pub open spec fn spelled(name: ParamsName, text: Seq<char>) -> bool {
    match spellings(name) {
        Some((plain, dashed, _)) => text == plain || text == dashed,
        None => false,
    }
}

/// What a text in lower case stands for: a known name, or a path.
pub open spec fn stands_for(text: Seq<char>, name: ParamsName) -> bool {
    match name {
        ParamsName::CustomPath(path) => path@ == text && forall|other: ParamsName|
            !#[trigger] spelled(other, text),
        _ => spelled(name, text),
    }
}

/// Lower case of a text.
pub uninterp spec fn lowered(text: Seq<char>) -> Seq<char>;

/// Lower case of an ASCII character.
pub open spec fn ascii_lower(c: char) -> char {
    if 'A' <= c && c <= 'Z' {
        (c as u32 + 32) as char
    } else {
        c
    }
}

/// All the characters of a text are ASCII ones.
pub open spec fn is_ascii(text: Seq<char>) -> bool {
    forall|i: int| 0 <= i < text.len() ==> (#[trigger] text[i] as u32) < 128
}

/// Calls `str::to_lowercase`. The contract names the result, and says that the
/// letters of an ASCII text are put in lower case one by one.
#[verifier::external_body]
fn to_lowercase(text: &str) -> (r: String)
    ensures
        r@ == lowered(text@),
        is_ascii(text@) ==> r@ == text@.map_values(|c: char| ascii_lower(c)),
{
    text.to_lowercase()
}

fn is(text: &String, plain: &str, dashed: &str) -> (r: bool)
    ensures
        r == (text@ == plain@ || text@ == dashed@),
{
    *text == plain.to_owned() || *text == dashed.to_owned()
}

impl ParamsName {
    /// What a text stands for, whatever its case. A path is put in lower case too.
    pub fn parse(text: &str) -> (r: ParamsName)
        ensures
            stands_for(lowered(text@), r),
            is_ascii(text@) ==> stands_for(text@.map_values(|c: char| ascii_lower(c)), r),
    {
        Self::from_lower(to_lowercase(text))
    }

    /// What a text in lower case stands for.
    pub fn from_lower(text: String) -> (r: ParamsName)
        ensures
            stands_for(text@, r),
    {
        if is(&text, "gaussian44bfast", "gaussian-44b-fast") {
            ParamsName::Gaussian44bFast
        } else if is(&text, "gaussian44b", "gaussian-44b") {
            ParamsName::Gaussian44b
        } else if is(&text, "gaussian64bfast", "gaussian-64b-fast") {
            ParamsName::Gaussian64bFast
        } else if is(&text, "gaussian64b", "gaussian-64b") {
            ParamsName::Gaussian64b
        } else if is(&text, "gaussian64bpfail64", "gaussian-64b-pfail64") {
            ParamsName::Gaussian64bPFail64
        } else if is(&text, "gaussian64bpfail64psi64", "gaussian-64b-pfail64-psi64") {
            ParamsName::Gaussian64bPFail64Psi64
        } else if is(&text, "tuniform64bfast", "tuniform-64b-fast") {
            ParamsName::TUniform64bFast
        } else if is(&text, "tuniform64bpfail64psi64", "tuniform-64b-pfail64-psi64") {
            ParamsName::TUniform64bPFail64Psi64
        } else if is(&text, "tuniform64bpfail128psi64", "tuniform-64b-pfail128-psi64") {
            ParamsName::TUniform64bPFail128Psi64
        } else {
            ParamsName::CustomPath(text)
        }
    }

    /// File that holds the parameters of a known name.
    pub fn file_name(&self) -> (r: Option<&'static str>)
        ensures
            match (r, spellings(*self)) {
                (Some(file), Some((_, _, expected))) => file@ == expected,
                (None, None) => true,
                _ => false,
            },
    {
        match self {
            ParamsName::Gaussian44bFast => Some("gaussian_44b_fast.toml"),
            ParamsName::Gaussian44b => Some("gaussian_44b.toml"),
            ParamsName::Gaussian64bFast => Some("gaussian_64b_fast.toml"),
            ParamsName::Gaussian64b => Some("gaussian_64b.toml"),
            ParamsName::Gaussian64bPFail64 => Some("gaussian_64b_pfail64.toml"),
            ParamsName::Gaussian64bPFail64Psi64 => Some("gaussian_64b_pfail64_psi64.toml"),
            ParamsName::TUniform64bFast => Some("tuniform_64b_fast.toml"),
            ParamsName::TUniform64bPFail64Psi64 => Some("tuniform_64b_pfail64_psi64.toml"),
            ParamsName::TUniform64bPFail128Psi64 => Some("tuniform_64b_pfail128_psi64.toml"),
            ParamsName::CustomPath(_) => None,
        }
    }
}

impl std::str::FromStr for ParamsName {
    type Err = std::convert::Infallible;

    /// What a text stands for, whatever its case. Every text stands for something.
    fn from_str(text: &str) -> (r: Result<ParamsName, std::convert::Infallible>)
        ensures
            r matches Ok(name) && stands_for(lowered(text@), name) && (is_ascii(text@)
                ==> stands_for(text@.map_values(|c: char| ascii_lower(c)), name)),
    {
        Ok(ParamsName::parse(text))
    }
}

/// Lengths of the two spellings of a name, its initial and its first digit.
spec fn outline(name: ParamsName) -> (nat, nat, char, char) {
    match name {
        ParamsName::Gaussian44bFast => (15, 17, 'g', '4'),
        ParamsName::Gaussian44b => (11, 12, 'g', '4'),
        ParamsName::Gaussian64bFast => (15, 17, 'g', '6'),
        ParamsName::Gaussian64b => (11, 12, 'g', '6'),
        ParamsName::Gaussian64bPFail64 => (18, 20, 'g', '6'),
        ParamsName::Gaussian64bPFail64Psi64 => (23, 26, 'g', '6'),
        ParamsName::TUniform64bFast => (15, 17, 't', '6'),
        ParamsName::TUniform64bPFail64Psi64 => (23, 26, 't', '6'),
        ParamsName::TUniform64bPFail128Psi64 => (24, 27, 't', '6'),
        ParamsName::CustomPath(_) => (0, 0, ' ', ' '),
    }
}

proof fn lemma_outline(name: ParamsName, text: Seq<char>)
    requires
        spelled(name, text),
    ensures
        text[0] == outline(name).2,
        text.len() == outline(name).0 && text[8] == outline(name).3 || text.len()
            == outline(name).1 && text[9] == outline(name).3,
{
    match name {
        ParamsName::Gaussian44bFast => {
            reveal_strlit("gaussian44bfast");
            reveal_strlit("gaussian-44b-fast");
        },
        ParamsName::Gaussian44b => {
            reveal_strlit("gaussian44b");
            reveal_strlit("gaussian-44b");
        },
        ParamsName::Gaussian64bFast => {
            reveal_strlit("gaussian64bfast");
            reveal_strlit("gaussian-64b-fast");
        },
        ParamsName::Gaussian64b => {
            reveal_strlit("gaussian64b");
            reveal_strlit("gaussian-64b");
        },
        ParamsName::Gaussian64bPFail64 => {
            reveal_strlit("gaussian64bpfail64");
            reveal_strlit("gaussian-64b-pfail64");
        },
        ParamsName::Gaussian64bPFail64Psi64 => {
            reveal_strlit("gaussian64bpfail64psi64");
            reveal_strlit("gaussian-64b-pfail64-psi64");
        },
        ParamsName::TUniform64bFast => {
            reveal_strlit("tuniform64bfast");
            reveal_strlit("tuniform-64b-fast");
        },
        ParamsName::TUniform64bPFail64Psi64 => {
            reveal_strlit("tuniform64bpfail64psi64");
            reveal_strlit("tuniform-64b-pfail64-psi64");
        },
        ParamsName::TUniform64bPFail128Psi64 => {
            reveal_strlit("tuniform64bpfail128psi64");
            reveal_strlit("tuniform-64b-pfail128-psi64");
        },
        ParamsName::CustomPath(_) => {},
    }
}

/// A text is a spelling of one name only.
pub proof fn spelling_is_unique(a: ParamsName, b: ParamsName, text: Seq<char>)
    requires
        spelled(a, text),
        spelled(b, text),
    ensures
        a == b,
{
    lemma_outline(a, text);
    lemma_outline(b, text);
}

/// A text without its dashes.
pub open spec fn undashed(text: Seq<char>) -> Seq<char>
    decreases text.len(),
{
    if text.len() == 0 {
        Seq::empty()
    } else {
        let rest = undashed(text.drop_last());
        if text.last() == '-' {
            rest
        } else {
            rest.push(text.last())
        }
    }
}

/// A text with its dashes underlined.
pub open spec fn underlined(text: Seq<char>) -> Seq<char> {
    text.map_values(
        |c: char|
            if c == '-' {
                '_'
            } else {
                c
            },
    )
}

/// The spellings of a name and its file are made of the same words: they are joined in one
/// spelling, apart by dashes in the other one, and by underscores in the file.
pub proof fn spellings_have_the_same_words(name: ParamsName)
    ensures
        spellings(name) is None <==> name is CustomPath,
        spellings(name) matches Some((plain, dashed, file)) ==> plain == undashed(dashed) && file
            == underlined(dashed) + ".toml"@,
{
    reveal_strlit(".toml");
    match name {
        ParamsName::Gaussian44bFast => {
            reveal_strlit("gaussian44bfast");
            reveal_strlit("gaussian-44b-fast");
            reveal_strlit("gaussian_44b_fast.toml");
            reveal_strlit("gaussian");
            reveal_strlit("44b");
            reveal_strlit("fast");
            lemma_no_dash("fast"@);
            lemma_first_word("44b"@, "fast"@);
            lemma_first_word("gaussian"@, ("44b"@ + seq!['-'] + "fast"@));
            assert("gaussian-44b-fast"@ =~= ("gaussian"@ + seq!['-'] + ("44b"@ + seq!['-'] + "fast"@)));
            assert("gaussian44bfast"@ =~= ("gaussian"@ + ("44b"@ + "fast"@)));
            assert(underlined("gaussian-44b-fast"@) + ".toml"@ =~= "gaussian_44b_fast.toml"@);
        },
        ParamsName::Gaussian44b => {
            reveal_strlit("gaussian44b");
            reveal_strlit("gaussian-44b");
            reveal_strlit("gaussian_44b.toml");
            reveal_strlit("gaussian");
            reveal_strlit("44b");
            lemma_no_dash("44b"@);
            lemma_first_word("gaussian"@, "44b"@);
            assert("gaussian-44b"@ =~= ("gaussian"@ + seq!['-'] + "44b"@));
            assert("gaussian44b"@ =~= ("gaussian"@ + "44b"@));
            assert(underlined("gaussian-44b"@) + ".toml"@ =~= "gaussian_44b.toml"@);
        },
        ParamsName::Gaussian64bFast => {
            reveal_strlit("gaussian64bfast");
            reveal_strlit("gaussian-64b-fast");
            reveal_strlit("gaussian_64b_fast.toml");
            reveal_strlit("gaussian");
            reveal_strlit("64b");
            reveal_strlit("fast");
            lemma_no_dash("fast"@);
            lemma_first_word("64b"@, "fast"@);
            lemma_first_word("gaussian"@, ("64b"@ + seq!['-'] + "fast"@));
            assert("gaussian-64b-fast"@ =~= ("gaussian"@ + seq!['-'] + ("64b"@ + seq!['-'] + "fast"@)));
            assert("gaussian64bfast"@ =~= ("gaussian"@ + ("64b"@ + "fast"@)));
            assert(underlined("gaussian-64b-fast"@) + ".toml"@ =~= "gaussian_64b_fast.toml"@);
        },
        ParamsName::Gaussian64b => {
            reveal_strlit("gaussian64b");
            reveal_strlit("gaussian-64b");
            reveal_strlit("gaussian_64b.toml");
            reveal_strlit("gaussian");
            reveal_strlit("64b");
            lemma_no_dash("64b"@);
            lemma_first_word("gaussian"@, "64b"@);
            assert("gaussian-64b"@ =~= ("gaussian"@ + seq!['-'] + "64b"@));
            assert("gaussian64b"@ =~= ("gaussian"@ + "64b"@));
            assert(underlined("gaussian-64b"@) + ".toml"@ =~= "gaussian_64b.toml"@);
        },
        ParamsName::Gaussian64bPFail64 => {
            reveal_strlit("gaussian64bpfail64");
            reveal_strlit("gaussian-64b-pfail64");
            reveal_strlit("gaussian_64b_pfail64.toml");
            reveal_strlit("gaussian");
            reveal_strlit("64b");
            reveal_strlit("pfail64");
            lemma_no_dash("pfail64"@);
            lemma_first_word("64b"@, "pfail64"@);
            lemma_first_word("gaussian"@, ("64b"@ + seq!['-'] + "pfail64"@));
            assert("gaussian-64b-pfail64"@ =~= ("gaussian"@ + seq!['-'] + ("64b"@ + seq!['-'] + "pfail64"@)));
            assert("gaussian64bpfail64"@ =~= ("gaussian"@ + ("64b"@ + "pfail64"@)));
            assert(underlined("gaussian-64b-pfail64"@) + ".toml"@ =~= "gaussian_64b_pfail64.toml"@);
        },
        ParamsName::Gaussian64bPFail64Psi64 => {
            reveal_strlit("gaussian64bpfail64psi64");
            reveal_strlit("gaussian-64b-pfail64-psi64");
            reveal_strlit("gaussian_64b_pfail64_psi64.toml");
            reveal_strlit("gaussian");
            reveal_strlit("64b");
            reveal_strlit("pfail64");
            reveal_strlit("psi64");
            lemma_no_dash("psi64"@);
            lemma_first_word("pfail64"@, "psi64"@);
            lemma_first_word("64b"@, ("pfail64"@ + seq!['-'] + "psi64"@));
            lemma_first_word("gaussian"@, ("64b"@ + seq!['-'] + ("pfail64"@ + seq!['-'] + "psi64"@)));
            assert("gaussian-64b-pfail64-psi64"@ =~= ("gaussian"@ + seq!['-'] + ("64b"@ + seq!['-'] + ("pfail64"@ + seq!['-'] + "psi64"@))));
            assert("gaussian64bpfail64psi64"@ =~= ("gaussian"@ + ("64b"@ + ("pfail64"@ + "psi64"@))));
            assert(underlined("gaussian-64b-pfail64-psi64"@) + ".toml"@ =~= "gaussian_64b_pfail64_psi64.toml"@);
        },
        ParamsName::TUniform64bFast => {
            reveal_strlit("tuniform64bfast");
            reveal_strlit("tuniform-64b-fast");
            reveal_strlit("tuniform_64b_fast.toml");
            reveal_strlit("tuniform");
            reveal_strlit("64b");
            reveal_strlit("fast");
            lemma_no_dash("fast"@);
            lemma_first_word("64b"@, "fast"@);
            lemma_first_word("tuniform"@, ("64b"@ + seq!['-'] + "fast"@));
            assert("tuniform-64b-fast"@ =~= ("tuniform"@ + seq!['-'] + ("64b"@ + seq!['-'] + "fast"@)));
            assert("tuniform64bfast"@ =~= ("tuniform"@ + ("64b"@ + "fast"@)));
            assert(underlined("tuniform-64b-fast"@) + ".toml"@ =~= "tuniform_64b_fast.toml"@);
        },
        ParamsName::TUniform64bPFail64Psi64 => {
            reveal_strlit("tuniform64bpfail64psi64");
            reveal_strlit("tuniform-64b-pfail64-psi64");
            reveal_strlit("tuniform_64b_pfail64_psi64.toml");
            reveal_strlit("tuniform");
            reveal_strlit("64b");
            reveal_strlit("pfail64");
            reveal_strlit("psi64");
            lemma_no_dash("psi64"@);
            lemma_first_word("pfail64"@, "psi64"@);
            lemma_first_word("64b"@, ("pfail64"@ + seq!['-'] + "psi64"@));
            lemma_first_word("tuniform"@, ("64b"@ + seq!['-'] + ("pfail64"@ + seq!['-'] + "psi64"@)));
            assert("tuniform-64b-pfail64-psi64"@ =~= ("tuniform"@ + seq!['-'] + ("64b"@ + seq!['-'] + ("pfail64"@ + seq!['-'] + "psi64"@))));
            assert("tuniform64bpfail64psi64"@ =~= ("tuniform"@ + ("64b"@ + ("pfail64"@ + "psi64"@))));
            assert(underlined("tuniform-64b-pfail64-psi64"@) + ".toml"@ =~= "tuniform_64b_pfail64_psi64.toml"@);
        },
        ParamsName::TUniform64bPFail128Psi64 => {
            reveal_strlit("tuniform64bpfail128psi64");
            reveal_strlit("tuniform-64b-pfail128-psi64");
            reveal_strlit("tuniform_64b_pfail128_psi64.toml");
            reveal_strlit("tuniform");
            reveal_strlit("64b");
            reveal_strlit("pfail128");
            reveal_strlit("psi64");
            lemma_no_dash("psi64"@);
            lemma_first_word("pfail128"@, "psi64"@);
            lemma_first_word("64b"@, ("pfail128"@ + seq!['-'] + "psi64"@));
            lemma_first_word("tuniform"@, ("64b"@ + seq!['-'] + ("pfail128"@ + seq!['-'] + "psi64"@)));
            assert("tuniform-64b-pfail128-psi64"@ =~= ("tuniform"@ + seq!['-'] + ("64b"@ + seq!['-'] + ("pfail128"@ + seq!['-'] + "psi64"@))));
            assert("tuniform64bpfail128psi64"@ =~= ("tuniform"@ + ("64b"@ + ("pfail128"@ + "psi64"@))));
            assert(underlined("tuniform-64b-pfail128-psi64"@) + ".toml"@ =~= "tuniform_64b_pfail128_psi64.toml"@);
        },
        ParamsName::CustomPath(_) => {},
    }
}

proof fn lemma_undashed_join(a: Seq<char>, b: Seq<char>)
    ensures
        undashed(a + b) == undashed(a) + undashed(b),
    decreases b.len(),
{
    if b.len() == 0 {
        assert(a + b =~= a);
        assert(undashed(a) + undashed(b) =~= undashed(a));
    } else {
        lemma_undashed_join(a, b.drop_last());
        assert((a + b).drop_last() =~= a + b.drop_last());
        assert((a + b).last() == b.last());
        assert((undashed(a) + undashed(b.drop_last())).push(b.last()) =~= undashed(a) + undashed(
            b.drop_last(),
        ).push(b.last()));
    }
}

proof fn lemma_no_dash(a: Seq<char>)
    requires
        forall|i: int| 0 <= i < a.len() ==> #[trigger] a[i] != '-',
    ensures
        undashed(a) == a,
    decreases a.len(),
{
    if a.len() > 0 {
        lemma_no_dash(a.drop_last());
        assert(a.drop_last().push(a.last()) =~= a);
    } else {
        assert(undashed(a) =~= a);
    }
}

proof fn lemma_first_word(a: Seq<char>, rest: Seq<char>)
    requires
        forall|i: int| 0 <= i < a.len() ==> #[trigger] a[i] != '-',
    ensures
        undashed(a + seq!['-'] + rest) == a + undashed(rest),
{
    lemma_no_dash(a);
    lemma_undashed_join(a + seq!['-'], rest);
    lemma_undashed_join(a, seq!['-']);
    reveal_with_fuel(undashed, 2);
    assert(seq!['-'].drop_last() =~= Seq::<char>::empty());
    assert(undashed(seq!['-']) =~= Seq::<char>::empty());
    assert(a + Seq::<char>::empty() =~= a);
}

/// A name is given by its spelling with dashes, and by no name of another one.
pub proof fn names_are_given_by_their_spelling(name: ParamsName)
    ensures
        stands_for("gaussian-44b-fast"@, name) ==> name == ParamsName::Gaussian44bFast,
        stands_for("gaussian-44b-fast"@, ParamsName::Gaussian44bFast),
        stands_for("gaussian-44b"@, name) ==> name == ParamsName::Gaussian44b,
        stands_for("gaussian-44b"@, ParamsName::Gaussian44b),
        stands_for("gaussian-64b-fast"@, name) ==> name == ParamsName::Gaussian64bFast,
        stands_for("gaussian-64b-fast"@, ParamsName::Gaussian64bFast),
        stands_for("gaussian-64b"@, name) ==> name == ParamsName::Gaussian64b,
        stands_for("gaussian-64b"@, ParamsName::Gaussian64b),
        stands_for("gaussian-64b-pfail64"@, name) ==> name == ParamsName::Gaussian64bPFail64,
        stands_for("gaussian-64b-pfail64"@, ParamsName::Gaussian64bPFail64),
        stands_for("gaussian-64b-pfail64-psi64"@, name) ==> name == ParamsName::Gaussian64bPFail64Psi64,
        stands_for("gaussian-64b-pfail64-psi64"@, ParamsName::Gaussian64bPFail64Psi64),
        stands_for("tuniform-64b-fast"@, name) ==> name == ParamsName::TUniform64bFast,
        stands_for("tuniform-64b-fast"@, ParamsName::TUniform64bFast),
        stands_for("tuniform-64b-pfail64-psi64"@, name) ==> name == ParamsName::TUniform64bPFail64Psi64,
        stands_for("tuniform-64b-pfail64-psi64"@, ParamsName::TUniform64bPFail64Psi64),
        stands_for("tuniform-64b-pfail128-psi64"@, name) ==> name == ParamsName::TUniform64bPFail128Psi64,
        stands_for("tuniform-64b-pfail128-psi64"@, ParamsName::TUniform64bPFail128Psi64),
{
    assert(spelled(ParamsName::Gaussian44bFast, "gaussian-44b-fast"@));
    if stands_for("gaussian-44b-fast"@, name) && !(name is CustomPath) {
        spelling_is_unique(name, ParamsName::Gaussian44bFast, "gaussian-44b-fast"@);
    }
    assert(spelled(ParamsName::Gaussian44b, "gaussian-44b"@));
    if stands_for("gaussian-44b"@, name) && !(name is CustomPath) {
        spelling_is_unique(name, ParamsName::Gaussian44b, "gaussian-44b"@);
    }
    assert(spelled(ParamsName::Gaussian64bFast, "gaussian-64b-fast"@));
    if stands_for("gaussian-64b-fast"@, name) && !(name is CustomPath) {
        spelling_is_unique(name, ParamsName::Gaussian64bFast, "gaussian-64b-fast"@);
    }
    assert(spelled(ParamsName::Gaussian64b, "gaussian-64b"@));
    if stands_for("gaussian-64b"@, name) && !(name is CustomPath) {
        spelling_is_unique(name, ParamsName::Gaussian64b, "gaussian-64b"@);
    }
    assert(spelled(ParamsName::Gaussian64bPFail64, "gaussian-64b-pfail64"@));
    if stands_for("gaussian-64b-pfail64"@, name) && !(name is CustomPath) {
        spelling_is_unique(name, ParamsName::Gaussian64bPFail64, "gaussian-64b-pfail64"@);
    }
    assert(spelled(ParamsName::Gaussian64bPFail64Psi64, "gaussian-64b-pfail64-psi64"@));
    if stands_for("gaussian-64b-pfail64-psi64"@, name) && !(name is CustomPath) {
        spelling_is_unique(name, ParamsName::Gaussian64bPFail64Psi64, "gaussian-64b-pfail64-psi64"@);
    }
    assert(spelled(ParamsName::TUniform64bFast, "tuniform-64b-fast"@));
    if stands_for("tuniform-64b-fast"@, name) && !(name is CustomPath) {
        spelling_is_unique(name, ParamsName::TUniform64bFast, "tuniform-64b-fast"@);
    }
    assert(spelled(ParamsName::TUniform64bPFail64Psi64, "tuniform-64b-pfail64-psi64"@));
    if stands_for("tuniform-64b-pfail64-psi64"@, name) && !(name is CustomPath) {
        spelling_is_unique(name, ParamsName::TUniform64bPFail64Psi64, "tuniform-64b-pfail64-psi64"@);
    }
    assert(spelled(ParamsName::TUniform64bPFail128Psi64, "tuniform-64b-pfail128-psi64"@));
    if stands_for("tuniform-64b-pfail128-psi64"@, name) && !(name is CustomPath) {
        spelling_is_unique(name, ParamsName::TUniform64bPFail128Psi64, "tuniform-64b-pfail128-psi64"@);
    }
}

impl HpuParameters {
    /// Replaces the number of registers and the depth of the scheduler, where they
    /// are given.
    pub fn override_with(&mut self, register: Option<usize>, isc_depth: Option<usize>)
        ensures
            final(self).pbs_params == old(self).pbs_params,
            final(self).ntt_params == old(self).ntt_params,
            final(self).ks_params == old(self).ks_params,
            final(self).pc_params == old(self).pc_params,
            final(self).regf_params.coef_nb == old(self).regf_params.coef_nb,
            final(self).isc_params.min_iop_size == old(self).isc_params.min_iop_size,
            final(self).regf_params.reg_nb == (match register {
                Some(n) => n,
                None => old(self).regf_params.reg_nb,
            }),
            final(self).isc_params.depth == (match isc_depth {
                Some(n) => n,
                None => old(self).isc_params.depth,
            }),
    {
        if let Some(n) = register {
            self.regf_params.reg_nb = n;
        }
        if let Some(n) = isc_depth {
            self.isc_params.depth = n;
        }
    }
}

} // verus!
