use crate::text::{list_items, split_list};
use jsonwebtoken::Algorithm;
use vstd::prelude::*;

verus! {

/// The signature algorithms of the JWT library, with their variants visible.
#[verifier::external_type_specification]
pub struct ExAlgorithm(jsonwebtoken::Algorithm);

/// Opaque error of the JWT library.
#[verifier::external_type_specification]
#[verifier::external_body]
pub struct ExJwtError(jsonwebtoken::errors::Error);

/// The name under which an algorithm is written in a token header and in configuration.
pub open spec fn algorithm_name(a: Algorithm) -> Seq<char> {
    match a {
        Algorithm::HS256 => seq!['H', 'S', '2', '5', '6'],
        Algorithm::HS384 => seq!['H', 'S', '3', '8', '4'],
        Algorithm::HS512 => seq!['H', 'S', '5', '1', '2'],
        Algorithm::ES256 => seq!['E', 'S', '2', '5', '6'],
        Algorithm::ES384 => seq!['E', 'S', '3', '8', '4'],
        Algorithm::RS256 => seq!['R', 'S', '2', '5', '6'],
        Algorithm::RS384 => seq!['R', 'S', '3', '8', '4'],
        Algorithm::RS512 => seq!['R', 'S', '5', '1', '2'],
        Algorithm::PS256 => seq!['P', 'S', '2', '5', '6'],
        Algorithm::PS384 => seq!['P', 'S', '3', '8', '4'],
        Algorithm::PS512 => seq!['P', 'S', '5', '1', '2'],
        Algorithm::EdDSA => seq!['E', 'd', 'D', 'S', 'A'],
    }
}

/// The public-key family: elliptic curve, RSA PKCS#1, RSA-PSS and EdDSA.
/// The shared-secret (HMAC) algorithms are outside it.
pub open spec fn is_public_key_algorithm(a: Algorithm) -> bool {
    !(a is HS256 || a is HS384 || a is HS512)
}

/// Some algorithm carries this name.
pub open spec fn names_algorithm(name: Seq<char>) -> bool {
    exists|a: Algorithm| algorithm_name(a) == name
}

/// The algorithm that carries this name.
pub open spec fn algorithm_named(name: Seq<char>) -> Algorithm {
    choose|a: Algorithm| algorithm_name(a) == name
}

pub open spec fn algorithm_code(a: Algorithm) -> u8 {
    match a {
        Algorithm::HS256 => 0,
        Algorithm::HS384 => 1,
        Algorithm::HS512 => 2,
        Algorithm::ES256 => 3,
        Algorithm::ES384 => 4,
        Algorithm::RS256 => 5,
        Algorithm::RS384 => 6,
        Algorithm::RS512 => 7,
        Algorithm::PS256 => 8,
        Algorithm::PS384 => 9,
        Algorithm::PS512 => 10,
        Algorithm::EdDSA => 11,
    }
}

/// Relies on `FromStr for jsonwebtoken::Algorithm`: it accepts exactly the
/// twelve algorithm names, case-sensitive, and rejects anything else.
#[verifier::external_body]
fn parse_algorithm(name: &str) -> (r: Result<Algorithm, jsonwebtoken::errors::Error>)
    ensures
        r matches Ok(a) ==> algorithm_name(a) == name@,
        r is Err ==> !names_algorithm(name@),
{
    <Algorithm as std::str::FromStr>::from_str(name)
}

fn algorithm_code_of(a: &Algorithm) -> (r: u8)
    ensures
        r == algorithm_code(*a),
{
    match a {
        Algorithm::HS256 => 0,
        Algorithm::HS384 => 1,
        Algorithm::HS512 => 2,
        Algorithm::ES256 => 3,
        Algorithm::ES384 => 4,
        Algorithm::RS256 => 5,
        Algorithm::RS384 => 6,
        Algorithm::RS512 => 7,
        Algorithm::PS256 => 8,
        Algorithm::PS384 => 9,
        Algorithm::PS512 => 10,
        Algorithm::EdDSA => 11,
    }
}

/// Whether two algorithms are the same.
pub fn same_algorithm(a: &Algorithm, b: &Algorithm) -> (r: bool)
    ensures
        r == (*a == *b),
{
    algorithm_code_of(a) == algorithm_code_of(b)
}

/// The name of an algorithm.
pub fn algorithm_name_of(a: &Algorithm) -> (r: &'static str)
    ensures
        r@ == algorithm_name(*a),
{
    match a {
        Algorithm::HS256 => { proof { reveal_strlit("HS256"); } "HS256" },
        Algorithm::HS384 => { proof { reveal_strlit("HS384"); } "HS384" },
        Algorithm::HS512 => { proof { reveal_strlit("HS512"); } "HS512" },
        Algorithm::ES256 => { proof { reveal_strlit("ES256"); } "ES256" },
        Algorithm::ES384 => { proof { reveal_strlit("ES384"); } "ES384" },
        Algorithm::RS256 => { proof { reveal_strlit("RS256"); } "RS256" },
        Algorithm::RS384 => { proof { reveal_strlit("RS384"); } "RS384" },
        Algorithm::RS512 => { proof { reveal_strlit("RS512"); } "RS512" },
        Algorithm::PS256 => { proof { reveal_strlit("PS256"); } "PS256" },
        Algorithm::PS384 => { proof { reveal_strlit("PS384"); } "PS384" },
        Algorithm::PS512 => { proof { reveal_strlit("PS512"); } "PS512" },
        Algorithm::EdDSA => { proof { reveal_strlit("EdDSA"); } "EdDSA" },
    }
}

/// Whether an algorithm belongs to the public-key family.
pub fn is_public_key(a: &Algorithm) -> (r: bool)
    ensures
        r == is_public_key_algorithm(*a),
{
    !matches!(a, Algorithm::HS256 | Algorithm::HS384 | Algorithm::HS512)
}

/// Why an accepted-algorithm list was refused.
#[derive(Debug)]
pub enum AcceptedAlgorithmsError {
    /// The item names no algorithm.
    InvalidAlgorithmName(String),
    /// The item names a shared-secret algorithm.
    UnsupportedAlgorithm(Algorithm),
}

/// The index of the first item that names no algorithm, if any.
pub open spec fn first_unknown(items: Seq<Seq<char>>, k: int) -> bool {
    0 <= k < items.len() && !names_algorithm(items[k]) && forall|j: int|
        0 <= j < k ==> names_algorithm(#[trigger] items[j])
}

/// The index of the first item that names a shared-secret algorithm, if any.
pub open spec fn first_shared_secret(items: Seq<Seq<char>>, k: int) -> bool {
    0 <= k < items.len() && !is_public_key_algorithm(algorithm_named(items[k])) && forall|j: int|
        0 <= j < k ==> is_public_key_algorithm(algorithm_named(#[trigger] items[j]))
}

pub open spec fn all_named(items: Seq<Seq<char>>) -> bool {
    forall|i: int| 0 <= i < items.len() ==> names_algorithm(#[trigger] items[i])
}

pub open spec fn all_public_key(items: Seq<Seq<char>>) -> bool {
    forall|i: int| 0 <= i < items.len() ==> is_public_key_algorithm(algorithm_named(#[trigger] items[i]))
}

/// The algorithm allow-list. Empty means every public-key algorithm.
#[derive(Debug)]
pub struct AcceptedAlgorithms {
    algorithms: Vec<Algorithm>,
}

impl AcceptedAlgorithms {
    /// The configured algorithms.
    pub closed spec fn listed(&self) -> Seq<Algorithm> {
        self.algorithms@
    }

    /// Every configured algorithm is a public-key one.
    pub open spec fn wf(&self) -> bool {
        forall|i: int| 0 <= i < self.listed().len() ==> is_public_key_algorithm(#[trigger] self.listed()[i])
    }

    /// Only public-key algorithms are accepted: all of them when the list is
    /// empty, otherwise the listed ones.
    pub open spec fn accepts(&self, a: Algorithm) -> bool {
        is_public_key_algorithm(a) && (self.listed().len() == 0 || self.listed().contains(a))
    }

    /// Parses a comma-separated list of algorithm names (items trimmed, empty
    /// items skipped). Fails on the first item that names no algorithm, and
    /// otherwise on the first that names a shared-secret algorithm.
    pub fn from_str(algorithms: &str) -> (r: Result<AcceptedAlgorithms, AcceptedAlgorithmsError>)
        ensures
            r is Ok <==> all_named(list_items(algorithms@)) && all_public_key(list_items(algorithms@)),
            r matches Ok(acc) ==> acc.wf() && acc.listed() == list_items(algorithms@).map_values(
                |n: Seq<char>| algorithm_named(n),
            ),
            r matches Err(AcceptedAlgorithmsError::InvalidAlgorithmName(n)) ==> exists|k: int|
                first_unknown(list_items(algorithms@), k) && n@ == list_items(algorithms@)[k],
            r matches Err(AcceptedAlgorithmsError::UnsupportedAlgorithm(a)) ==> all_named(
                list_items(algorithms@),
            ) && exists|k: int|
                first_shared_secret(list_items(algorithms@), k) && a == algorithm_named(
                    list_items(algorithms@)[k],
                ),
    {
        let items = split_list(algorithms);
        let ghost names = list_items(algorithms@);
        assert(items@.len() == names.len());
        let mut parsed: Vec<Algorithm> = Vec::new();
        let mut i: usize = 0;
        while i < items.len()
            invariant
                items@.map_values(|x: String| x@) == names,
                names == list_items(algorithms@),
                i <= items@.len(),
                parsed@.len() == i,
                forall|j: int| 0 <= j < i ==> names_algorithm(#[trigger] names[j]),
                forall|j: int| 0 <= j < i ==> parsed@[j] == algorithm_named(#[trigger] names[j]),
            decreases items@.len() - i,
        {
            assert(items@[i as int]@ == names[i as int]);
            match parse_algorithm(items[i].as_str()) {
                Ok(a) => {
                    parsed.push(a);
                },
                Err(_) => {
                    assert(first_unknown(names, i as int));
                    assert(!names_algorithm(names[i as int]));
                    assert(!all_named(names));
                    let n = items[i].clone();
                    assert(n@ == names[i as int]);
                    return Err(AcceptedAlgorithmsError::InvalidAlgorithmName(n));
                },
            }
            i = i + 1;
        }
        let mut k: usize = 0;
        while k < parsed.len()
            invariant
                items@.map_values(|x: String| x@) == names,
                names == list_items(algorithms@),
                parsed@.len() == names.len(),
                all_named(names),
                k <= parsed@.len(),
                forall|j: int| 0 <= j < parsed@.len() ==> parsed@[j] == algorithm_named(#[trigger] names[j]),
                forall|j: int| 0 <= j < k ==> is_public_key_algorithm(algorithm_named(#[trigger] names[j])),
            decreases parsed@.len() - k,
        {
            if !is_public_key(&parsed[k]) {
                assert(first_shared_secret(names, k as int));
                assert(!is_public_key_algorithm(algorithm_named(names[k as int])));
                assert(!all_public_key(names));
                assert(parsed@[k as int] == algorithm_named(names[k as int]));
                return Err(AcceptedAlgorithmsError::UnsupportedAlgorithm(parsed[k]));
            }
            k = k + 1;
        }
        let acc = AcceptedAlgorithms { algorithms: parsed };
        assert(acc.listed() =~= names.map_values(|n: Seq<char>| algorithm_named(n)));
        Ok(acc)
    }

    /// Whether `algorithm` may sign an accepted token.
    pub fn is_accepted(&self, algorithm: &Algorithm) -> (r: bool)
        ensures
            r == self.accepts(*algorithm),
    {
        if !is_public_key(algorithm) {
            return false;
        }
        if self.algorithms.len() == 0 {
            return true;
        }
        let mut i: usize = 0;
        while i < self.algorithms.len()
            invariant
                i <= self.algorithms@.len(),
                is_public_key_algorithm(*algorithm),
                forall|j: int| 0 <= j < i ==> self.algorithms@[j] != *algorithm,
            decreases self.algorithms@.len() - i,
        {
            if same_algorithm(&self.algorithms[i], algorithm) {
                assert(self.listed()[i as int] == *algorithm);
                return true;
            }
            i = i + 1;
        }
        false
    }

    /// `Ok` when `algorithm` is accepted, else a message that names it.
    pub fn check(&self, algorithm: &Algorithm) -> (r: Result<(), String>)
        ensures
            r is Ok <==> self.accepts(*algorithm),
            r matches Err(m) ==> m@ == "Unsupported algorithm '"@ + algorithm_name(*algorithm) + "'"@,
    {
        if self.is_accepted(algorithm) {
            Ok(())
        } else {
            let mut message = "Unsupported algorithm '".to_string();
            message.append(algorithm_name_of(algorithm));
            message.append("'");
            Err(message)
        }
    }
}

impl Default for AcceptedAlgorithms {
    /// The permissive default: every public-key algorithm.
    fn default() -> (r: AcceptedAlgorithms)
        ensures
            r.listed().len() == 0,
            r.wf(),
    {
        AcceptedAlgorithms { algorithms: Vec::new() }
    }
}

impl AcceptedAlgorithmsError {
    /// The human-readable message of the error.
    pub fn to_string(&self) -> (r: String)
        ensures
            self is InvalidAlgorithmName ==> r@ == "Invalid algorithm name"@,
            self matches AcceptedAlgorithmsError::UnsupportedAlgorithm(a) ==> r@ == "Unsupported algorithm '"@
                + algorithm_name(*a) + "'. Only public-key algorithms are supported"@,
    {
        match self {
            AcceptedAlgorithmsError::InvalidAlgorithmName(_) => "Invalid algorithm name".to_string(),
            AcceptedAlgorithmsError::UnsupportedAlgorithm(a) => {
                let mut message = "Unsupported algorithm '".to_string();
                message.append(algorithm_name_of(a));
                message.append("'. Only public-key algorithms are supported");
                message
            },
        }
    }
}

} // verus!

verus! {

impl std::str::FromStr for AcceptedAlgorithms {
    type Err = AcceptedAlgorithmsError;

    fn from_str(algorithms: &str) -> Result<AcceptedAlgorithms, AcceptedAlgorithmsError> {
        AcceptedAlgorithms::from_str(algorithms)
    }
}

} // verus!
