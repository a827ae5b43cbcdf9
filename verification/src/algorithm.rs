//! The closed set of checksum algorithms, and what each one carries with it:
//! the name by which it is requested, the element name under which its digests
//! stand in a media hash list, and the width of its digests.

use vstd::prelude::*;

verus! {

/// A checksum algorithm that a run can be asked to use.
#[derive(Clone, Copy, Debug, PartialEq, Eq, Structural)]
pub enum Algorithm {
    Md5,
    Sha1,
    Xxh64,
}

/// A request that names no algorithm of the set.
#[derive(Clone, Copy, Debug, PartialEq, Eq, Structural)]
pub enum ConfigurationError {
    /// The requested checksum method is not one of `md5`, `sha1`, `xxhash64`.
    UnknownAlgorithm,
}

impl Algorithm {
    /// The name by which the algorithm is requested.
    pub open spec fn spec_name(self) -> Seq<char> {
        match self {
            Algorithm::Md5 => "md5"@,
            Algorithm::Sha1 => "sha1"@,
            Algorithm::Xxh64 => "xxhash64"@,
        }
    }

    /// The element name of the algorithm's digests in a media hash list. For
    /// XXH64 it differs from the requested name: it says in which byte order
    /// the digest is written.
    pub open spec fn spec_manifest_tag(self) -> Seq<char> {
        match self {
            Algorithm::Md5 => "md5"@,
            Algorithm::Sha1 => "sha1"@,
            Algorithm::Xxh64 => "xxhash64be"@,
        }
    }

    /// Number of hexadecimal characters in a digest of this algorithm.
    pub open spec fn spec_hex_width(self) -> nat {
        match self {
            Algorithm::Md5 => 32,
            Algorithm::Sha1 => 40,
            Algorithm::Xxh64 => 16,
        }
    }

    /// The name by which the algorithm is requested.
    pub fn name(self) -> (name: &'static str)
        ensures
            name@ == self.spec_name(),
    {
        match self {
            Algorithm::Md5 => "md5",
            Algorithm::Sha1 => "sha1",
            Algorithm::Xxh64 => "xxhash64",
        }
    }

    /// The element name of the algorithm's digests in a media hash list.
    pub fn manifest_tag(self) -> (tag: &'static str)
        ensures
            tag@ == self.spec_manifest_tag(),
    {
        match self {
            Algorithm::Md5 => "md5",
            Algorithm::Sha1 => "sha1",
            Algorithm::Xxh64 => "xxhash64be",
        }
    }

    /// Number of hexadecimal characters in a digest of this algorithm.
    pub fn hex_width(self) -> (width: usize)
        ensures
            width == self.spec_hex_width(),
    {
        match self {
            Algorithm::Md5 => 32,
            Algorithm::Sha1 => 40,
            Algorithm::Xxh64 => 16,
        }
    }

    /// The algorithm requested by `name`. Any name but the three is an error.
    pub fn parse(name: &str) -> (outcome: Result<Algorithm, ConfigurationError>)
        ensures
            match outcome {
                Ok(algorithm) => name@ == algorithm.spec_name(),
                Err(e) => e == ConfigurationError::UnknownAlgorithm && forall|a: Algorithm|
                    name@ != #[trigger] a.spec_name(),
            },
    {
        if *name == *"md5" {
            Ok(Algorithm::Md5)
        } else if *name == *"sha1" {
            Ok(Algorithm::Sha1)
        } else if *name == *"xxhash64" {
            Ok(Algorithm::Xxh64)
        } else {
            Err(ConfigurationError::UnknownAlgorithm)
        }
    }

    /// The algorithm whose digests stand under the element name `tag`, if any.
    pub fn from_manifest_tag(tag: &str) -> (found: Option<Algorithm>)
        ensures
            match found {
                Some(algorithm) => tag@ == algorithm.spec_manifest_tag(),
                None => forall|a: Algorithm| tag@ != #[trigger] a.spec_manifest_tag(),
            },
    {
        if *tag == *"md5" {
            Some(Algorithm::Md5)
        } else if *tag == *"sha1" {
            Some(Algorithm::Sha1)
        } else if *tag == *"xxhash64be" {
            Some(Algorithm::Xxh64)
        } else {
            None
        }
    }
}

/// No two algorithms share a requested name or an element name, so both
/// determine the algorithm.
pub proof fn lemma_names_are_distinct(a: Algorithm, b: Algorithm)
    ensures
        a.spec_name() == b.spec_name() ==> a == b,
        a.spec_manifest_tag() == b.spec_manifest_tag() ==> a == b,
{
    reveal_strlit("md5");
    reveal_strlit("sha1");
    reveal_strlit("xxhash64");
    reveal_strlit("xxhash64be");
    assert("md5"@.len() == 3);
    assert("sha1"@.len() == 4);
    assert("xxhash64"@.len() == 8);
    assert("xxhash64be"@.len() == 10);
}

/// Reading back an algorithm's own names gives the algorithm.
pub proof fn lemma_name_round_trip(a: Algorithm, parsed: Result<Algorithm, ConfigurationError>)
    requires
        match parsed {
            Ok(algorithm) => a.spec_name() == algorithm.spec_name(),
            Err(e) => forall|x: Algorithm| a.spec_name() != #[trigger] x.spec_name(),
        },
    ensures
        parsed == Ok::<Algorithm, ConfigurationError>(a),
{
    match parsed {
        Ok(algorithm) => {
            lemma_names_are_distinct(a, algorithm);
        },
        Err(e) => {
            assert(a.spec_name() == a.spec_name());
        },
    }
}

} // verus!
