//! Account identities and the addresses a program derives for itself.

use anchor_lang::prelude::Pubkey;
use std::str::FromStr;
use vstd::prelude::*;

verus! {

/// A 32-byte account identity.
#[derive(Clone, Copy, Debug, Eq)]
pub struct Identity {
    pub bytes: [u8; 32],
}

impl View for Identity {
    type V = Seq<u8>;

    open spec fn view(&self) -> Seq<u8> {
        self.bytes@
    }
}

impl PartialEq for Identity {
    fn eq(&self, other: &Identity) -> (r: bool) {
        let mut i: usize = 0;
        while i < 32
            invariant
                i <= 32,
                forall|j: int| 0 <= j < i ==> self.bytes[j] == other.bytes[j],
            decreases 32 - i,
        {
            if self.bytes[i] != other.bytes[i] {
                return false;
            }
            i += 1;
        }
        assert(self.bytes =~= other.bytes);
        true
    }
}

impl vstd::std_specs::cmp::PartialEqSpecImpl for Identity {
    open spec fn obeys_eq_spec() -> bool {
        true
    }

    open spec fn eq_spec(&self, other: &Identity) -> bool {
        *self == *other
    }
}

/// The key that a base58 text stands for, if it stands for one.
pub uninterp spec fn spec_base58_key(text: Seq<char>) -> Option<Seq<u8>>;

/// The address and bump seed that a program finds for itself under one seed.
pub uninterp spec fn spec_find_address(seed: Seq<char>, program: Seq<u8>) -> Option<(Seq<u8>, u8)>;

/// The address that a seed and a given bump seed derive for a program.
pub uninterp spec fn spec_create_address(seed: Seq<char>, bump: u8, program: Seq<u8>) -> Option<
    Seq<u8>,
>;

/// `Pubkey::from_str`: decodes base58 text into a key. The result is a function
/// of the text alone; `None` stands for either of its two errors.
#[verifier::external_body]
fn decode_key(text: &str) -> (r: Option<Identity>)
    ensures
        r matches Some(id) ==> spec_base58_key(text@) == Some(id@),
        r is None ==> spec_base58_key(text@) is None,
{
    match Pubkey::from_str(text) {
        Ok(key) => Some(Identity { bytes: key.to_bytes() }),
        Err(_) => None,
    }
}

/// `Pubkey::try_find_program_address` with the one seed given: searches the bump
/// seeds downwards from 255 and returns the first address that
/// `Pubkey::create_program_address` accepts for the seed followed by the bump,
/// together with that bump. So a found pair is also what the seed and that bump
/// create.
#[verifier::external_body]
fn find_program_address(seed: &str, program: &Identity) -> (r: Option<(Identity, u8)>)
    ensures
        r matches Some((address, bump)) ==> {
            &&& spec_find_address(seed@, program@) == Some((address@, bump))
            &&& spec_create_address(seed@, bump, program@) == Some(address@)
        },
        r is None ==> spec_find_address(seed@, program@) is None,
{
    let program_id = Pubkey::new_from_array(program.bytes);
    match Pubkey::try_find_program_address(&[seed.as_bytes()], &program_id) {
        Some((key, bump)) => Some((Identity { bytes: key.to_bytes() }, bump)),
        None => None,
    }
}

/// `Pubkey::create_program_address` with the seed followed by the bump seed.
/// The result is a function of the three arguments; `None` stands for either of
/// its errors.
#[verifier::external_body]
fn create_program_address(seed: &str, bump: u8, program: &Identity) -> (r: Option<Identity>)
    ensures
        r matches Some(address) ==> spec_create_address(seed@, bump, program@) == Some(address@),
        r is None ==> spec_create_address(seed@, bump, program@) is None,
{
    let program_id = Pubkey::new_from_array(program.bytes);
    match Pubkey::create_program_address(&[seed.as_bytes(), &[bump]], &program_id) {
        Ok(key) => Some(Identity { bytes: key.to_bytes() }),
        Err(_) => None,
    }
}

impl Identity {
    /// The null identity: all bytes zero.
    pub fn null() -> (r: Identity)
        ensures
            r == Identity::spec_null(),
    {
        let r = Identity { bytes: [0u8; 32] };
        proof {
            assert(r@ =~= Seq::new(32, |i: int| 0u8));
            assert(r.bytes =~= Identity::spec_null().bytes);
        }
        r
    }

    /// The identity of 32 zero bytes.
    pub open spec fn spec_null() -> Identity {
        identity_of(Seq::new(32, |i: int| 0u8))
    }

    /// Reads an identity from its base58 text.
    pub fn from_base58(text: &str) -> (r: Option<Identity>)
        ensures
            r matches Some(id) ==> spec_base58_key(text@) == Some(id@),
            r is None ==> spec_base58_key(text@) is None,
    {
        decode_key(text)
    }

    /// The address that `program` owns under `seed`, with the bump seed that
    /// proves it.
    pub fn find_derived(seed: &str, program: &Identity) -> (r: Option<(Identity, u8)>)
        ensures
            r == Identity::spec_found(seed@, *program),
            Identity::found_is_derived(seed@, *program),
    {
        let found = find_program_address(seed, program);
        proof {
            if let Some((address, bump)) = found {
                lemma_identity_of_bytes(address);
            }
        }
        found
    }

    /// The address that `seed` and `bump` derive for `program`, if they derive
    /// one.
    pub fn derived(seed: &str, bump: u8, program: &Identity) -> (r: Option<Identity>)
        ensures
            r == Identity::spec_derived(seed@, bump, *program),
    {
        let r = create_program_address(seed, bump, program);
        proof {
            if let Some(address) = r {
                lemma_identity_of_bytes(address);
            }
        }
        r
    }

    /// What `find_derived` returns: the identity whose bytes the search gives,
    /// with its bump seed.
    pub open spec fn spec_found(seed: Seq<char>, program: Identity) -> Option<(Identity, u8)> {
        match spec_find_address(seed, program@) {
            Some((bytes, bump)) => Some((identity_of(bytes), bump)),
            None => None,
        }
    }

    /// What `program` finds under `seed`, if anything, is what `seed` and the
    /// bump found derive for it.
    pub open spec fn found_is_derived(seed: Seq<char>, program: Identity) -> bool {
        Identity::spec_found(seed, program) matches Some((address, bump))
            ==> Identity::spec_derived(seed, bump, program) == Some(address)
    }

    /// What `derived` returns: the identity whose bytes the derivation gives.
    pub open spec fn spec_derived(seed: Seq<char>, bump: u8, program: Identity) -> Option<
        Identity,
    > {
        match spec_create_address(seed, bump, program@) {
            Some(bytes) => Some(identity_of(bytes)),
            None => None,
        }
    }
}

/// The identity with the given bytes.
pub open spec fn identity_of(bytes: Seq<u8>) -> Identity {
    choose|id: Identity| id@ == bytes
}

/// An identity is the identity of its own bytes.
pub proof fn lemma_identity_of_bytes(id: Identity)
    ensures
        id@.len() == 32,
        identity_of(id@) == id,
{
    assert(identity_of(id@).bytes =~= id.bytes);
}

} // verus!
