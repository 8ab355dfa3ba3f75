//! Addresses, and the derivation that locates a record from its owners' keys.

use anchor_lang::prelude::Pubkey;
use vstd::prelude::*;
use vstd::slice::slice_subrange;
use vstd::std_specs::cmp::PartialEqSpecImpl;
use vstd::utf8::encode_utf8;

verus! {

/// A 32-byte key: a wallet, an authority, a program, or the place of a record.
#[derive(Clone, Copy, Debug)]
pub struct Address {
    /// The bytes of the key.
    pub bytes: [u8; 32],
}

impl View for Address {
    type V = Seq<u8>;

    open spec fn view(&self) -> Seq<u8> {
        self.bytes@
    }
}

impl Address {
    /// The address with the given bytes.
    pub fn new(bytes: [u8; 32]) -> (address: Address)
        ensures
            address.bytes == bytes,
            address@ == bytes@,
    {
        Address { bytes }
    }

    /// The bytes of the address.
    pub fn to_bytes(&self) -> (bytes: [u8; 32])
        ensures
            bytes == self.bytes,
    {
        self.bytes
    }

    /// Two addresses are the same address exactly when their bytes agree.
    pub proof fn lemma_view_injective(self, other: Address)
        ensures
            (self@ == other@) <==> (self == other),
    {
        if self@ == other@ {
            assert forall|i: int| 0 <= i < 32 implies self.bytes[i] == other.bytes[i] by {
                assert(self@[i] == other@[i]);
            }
            assert(self.bytes =~= other.bytes);
        }
    }
}

impl PartialEq for Address {
    fn eq(&self, other: &Address) -> (equal: bool) {
        let mut i: usize = 0;
        while i < 32
            invariant
                i <= 32,
                forall|j: int| 0 <= j < i ==> self.bytes[j] == other.bytes[j],
            decreases 32 - i,
        {
            if self.bytes[i] != other.bytes[i] {
                return false;
            }
            i += 1;
        }
        assert(self.bytes =~= other.bytes);
        true
    }
}

impl Eq for Address {

}

impl PartialEqSpecImpl for Address {
    open spec fn obeys_eq_spec() -> bool {
        true
    }

    open spec fn eq_spec(&self, other: &Address) -> bool {
        *self == *other
    }
}

/// The longest seed, in bytes, for which an address can be derived.
pub const MAX_SEED_LEN: usize = 32;

/// The bytes of a key as seeds: the whole where it is no longer than a seed,
/// else its first `MAX_SEED_LEN` bytes followed by the seeds of the rest.
pub open spec fn chunks(bytes: Seq<u8>) -> Seq<Seq<u8>>
    decreases bytes.len(),
{
    if bytes.len() <= MAX_SEED_LEN {
        seq![bytes]
    } else {
        seq![bytes.take(MAX_SEED_LEN as int)] + chunks(bytes.skip(MAX_SEED_LEN as int))
    }
}

/// The seed at place `index` among the seeds of a key; empty after the last.
pub open spec fn chunk_at(bytes: Seq<u8>, index: nat) -> Seq<u8>
    decreases index,
{
    if index == 0 {
        if bytes.len() <= MAX_SEED_LEN {
            bytes
        } else {
            bytes.take(MAX_SEED_LEN as int)
        }
    } else if bytes.len() <= MAX_SEED_LEN {
        Seq::empty()
    } else {
        chunk_at(bytes.skip(MAX_SEED_LEN as int), (index - 1) as nat)
    }
}

/// The seeds of a key are its seeds at the places 0, 1, 2 and so on.
pub proof fn lemma_chunks_at(bytes: Seq<u8>, index: nat)
    ensures
        index < chunks(bytes).len() ==> chunks(bytes)[index as int] == chunk_at(bytes, index),
        index >= chunks(bytes).len() ==> chunk_at(bytes, index) == Seq::<u8>::empty(),
    decreases index,
{
    if index > 0 && bytes.len() > MAX_SEED_LEN {
        lemma_chunks_at(bytes.skip(MAX_SEED_LEN as int), (index - 1) as nat);
    }
}

/// The seed at a place is the part of the key that begins `MAX_SEED_LEN`
/// bytes after the seed before it.
proof fn lemma_chunk_at_range(bytes: Seq<u8>, index: nat)
    ensures
        ({
            let start = if MAX_SEED_LEN * index <= bytes.len() {
                MAX_SEED_LEN * index
            } else {
                bytes.len() as int
            };
            let end = if start + MAX_SEED_LEN <= bytes.len() {
                start + MAX_SEED_LEN
            } else {
                bytes.len() as int
            };
            chunk_at(bytes, index) == bytes.subrange(start, end)
        }),
    decreases index,
{
    let start = if MAX_SEED_LEN * index <= bytes.len() {
        MAX_SEED_LEN * index
    } else {
        bytes.len() as int
    };
    let end = if start + MAX_SEED_LEN <= bytes.len() {
        start + MAX_SEED_LEN
    } else {
        bytes.len() as int
    };
    if index == 0 {
        assert(chunk_at(bytes, index) =~= bytes.subrange(start, end));
    } else if bytes.len() <= MAX_SEED_LEN {
        assert(chunk_at(bytes, index) =~= bytes.subrange(start, end));
    } else {
        let rest = bytes.skip(MAX_SEED_LEN as int);
        lemma_chunk_at_range(rest, (index - 1) as nat);
        assert(rest.subrange(start - MAX_SEED_LEN, end - MAX_SEED_LEN) =~= bytes.subrange(
            start,
            end,
        ));
    }
}

/// The seeds of a derivation: the tag, the parent, and the child as seeds.
pub open spec fn seeds_of(tag: Seq<u8>, parent: Seq<u8>, child: Seq<u8>) -> Seq<Seq<u8>> {
    seq![tag, parent] + chunks(child)
}

/// A list of seeds, by their plain values.
pub open spec fn seed_views(seeds: Seq<&[u8]>) -> Seq<Seq<u8>> {
    Seq::new(seeds.len(), |i: int| seeds[i]@)
}

/// The program address that belongs to a list of seeds under a program, with
/// the bump seed that was found for it; `None` where there is none.
pub uninterp spec fn program_address(seeds: Seq<Seq<u8>>, program_id: Seq<u8>) -> Option<
    (Seq<u8>, u8),
>;

/// A derived address and its bump seed, by their plain values.
pub open spec fn derived_view(derived: Option<(Address, u8)>) -> Option<(Seq<u8>, u8)> {
    match derived {
        Some((address, bump)) => Some((address@, bump)),
        None => None,
    }
}

/// The address with the given bytes.
pub open spec fn address_of(bytes: Seq<u8>) -> Address {
    choose|address: Address| address@ == bytes
}

/// What `derive` returns: the program address of the seeds `tag`, `parent`
/// and those of `child`, in this order, with its bump seed.  Where the child
/// is no longer than a seed, these are the three seeds `tag`, `parent`,
/// `child`.
pub open spec fn derive_spec(
    tag: Seq<u8>,
    parent: Seq<u8>,
    child: Seq<u8>,
    program_id: Seq<u8>,
) -> Option<(Address, u8)> {
    match program_address(seeds_of(tag, parent, child), program_id) {
        Some((bytes, bump)) => Some((address_of(bytes), bump)),
        None => None,
    }
}

/// Derivation is a function of its inputs: the same tag, parent, child and
/// program give the same address and the same bump seed.
pub proof fn lemma_derive_deterministic(
    tag: Seq<u8>,
    parent: Address,
    child: Seq<u8>,
    program_id: Address,
    other_tag: Seq<u8>,
    other_parent: Address,
    other_child: Seq<u8>,
    other_program_id: Address,
)
    requires
        tag == other_tag,
        parent@ == other_parent@,
        child == other_child,
        program_id@ == other_program_id@,
    ensures
        derive_spec(tag, parent@, child, program_id@) == derive_spec(
            other_tag,
            other_parent@,
            other_child,
            other_program_id@,
        ),
{
}

/// An address is the address of its bytes.
pub proof fn lemma_address_of_view(address: Address)
    ensures
        address_of(address@) == address,
{
    address_of(address@).lemma_view_injective(address);
}

/// Calls `Pubkey::try_find_program_address` on a list of seeds.
///
/// Trusted: the result is the program address of these seeds under
/// `program_id`, a function of the seeds and the program alone, and there is
/// none where a seed is longer than `MAX_SEED_LEN` bytes.
#[verifier::external_body]
fn try_find_program_address(seeds: &[&[u8]], program_id: &Address) -> (found: Option<
    (Address, u8),
>)
    ensures
        derived_view(found) == program_address(seed_views(seeds@), program_id@),
        (exists|i: int| 0 <= i < seeds@.len() && (#[trigger] seeds@[i])@.len() > MAX_SEED_LEN)
            ==> found is None,
{
    match Pubkey::try_find_program_address(seeds, &Pubkey::new_from_array(program_id.bytes)) {
        Some((key, bump)) => Some((Address { bytes: key.to_bytes() }, bump)),
        None => None,
    }
}

/// Derives the address of a record from a domain tag, the key of its parent
/// and the key of the record itself, together with the bump seed that makes
/// the address valid.  A child that is longer than a seed is handed on as
/// consecutive seeds of `MAX_SEED_LEN` bytes, the last one shorter where the
/// length asks for it.  There is no address where the tag is longer than a
/// seed.
pub fn derive(tag: &[u8], parent: &Address, child: &[u8], program_id: &Address) -> (derived: Option<
    (Address, u8),
>)
    ensures
        derived == derive_spec(tag@, parent@, child@, program_id@),
        tag@.len() > MAX_SEED_LEN ==> derived is None,
{
    let mut seeds: Vec<&[u8]> = Vec::new();
    seeds.push(tag);
    seeds.push(parent.bytes.as_slice());
    let mut start: usize = 0;
    proof {
        assert(child@.skip(0) =~= child@);
        assert(seed_views(seeds@) =~= seq![tag@, parent@]);
    }
    while child.len() - start > MAX_SEED_LEN
        invariant
            start <= child@.len(),
            seeds@.len() >= 2,
            seeds@[0]@ == tag@,
            seed_views(seeds@) + chunks(child@.skip(start as int)) == seeds_of(
                tag@,
                parent@,
                child@,
            ),
        decreases child@.len() - start,
    {
        let ghost before = seed_views(seeds@);
        let ghost rest = child@.skip(start as int);
        seeds.push(slice_subrange(child, start, start + MAX_SEED_LEN));
        proof {
            assert(rest.take(MAX_SEED_LEN as int) =~= child@.subrange(
                start as int,
                start + MAX_SEED_LEN,
            ));
            assert(rest.skip(MAX_SEED_LEN as int) =~= child@.skip(start + MAX_SEED_LEN));
            assert(seed_views(seeds@) =~= before + seq![rest.take(MAX_SEED_LEN as int)]);
            assert(before + chunks(rest) =~= seed_views(seeds@) + chunks(
                rest.skip(MAX_SEED_LEN as int),
            ));
        }
        start = start + MAX_SEED_LEN;
    }
    let ghost before = seed_views(seeds@);
    seeds.push(slice_subrange(child, start, child.len()));
    proof {
        assert(child@.skip(start as int) =~= child@.subrange(start as int, child@.len() as int));
        assert(seed_views(seeds@) =~= before + chunks(child@.skip(start as int)));
        assert(seeds@[0]@ == tag@);
    }
    let derived = try_find_program_address(seeds.as_slice(), program_id);
    proof {
        if let Some((address, _)) = derived {
            lemma_address_of_view(address);
        }
    }
    derived
}

/// The seed at place `index` among the seeds that a key is handed on as;
/// empty after the last.
pub fn seed_at(bytes: &[u8], index: usize) -> (seed: &[u8])
    ensures
        seed@ == chunk_at(bytes@, index as nat),
{
    let len = bytes.len();
    proof {
        lemma_chunk_at_range(bytes@, index as nat);
    }
    if index > len / MAX_SEED_LEN {
        slice_subrange(bytes, len, len)
    } else {
        let start = index * MAX_SEED_LEN;
        let end = if len - start > MAX_SEED_LEN {
            start + MAX_SEED_LEN
        } else {
            len
        };
        slice_subrange(bytes, start, end)
    }
}

/// The domain tag of organization addresses.
pub open spec fn org_tag() -> Seq<u8> {
    encode_utf8("org"@)
}

/// The domain tag of worker record addresses.
pub open spec fn worker_tag() -> Seq<u8> {
    encode_utf8("worker"@)
}

/// What `org_address` returns, by plain values.
pub open spec fn org_address_spec(
    authority: Address,
    name: Seq<char>,
    program_id: Address,
) -> Option<(Address, u8)> {
    derive_spec(org_tag(), authority@, encode_utf8(name), program_id@)
}

/// What `worker_address` returns, by plain values.
pub open spec fn worker_address_spec(
    org_address: Address,
    worker_pubkey: Address,
    program_id: Address,
) -> Option<(Address, u8)> {
    derive_spec(worker_tag(), org_address@, worker_pubkey@, program_id@)
}

/// The address of the organization that `authority` has under `name`:
/// derived from the tag `org`, the authority and the bytes of the name.  A
/// name of up to `MAX_SEED_LEN` bytes is one seed; a longer one is handed on
/// as consecutive seeds.
pub fn org_address(authority: &Address, name: &str, program_id: &Address) -> (derived: Option<
    (Address, u8),
>)
    ensures
        derived == org_address_spec(*authority, name@, *program_id),
{
    derive("org".as_bytes(), authority, name.as_bytes(), program_id)
}

/// The address of the record of the worker with the wallet `worker_pubkey`
/// in an organization: derived from the tag `worker`, the organization's
/// address and the wallet.
pub fn worker_address(
    org_address: &Address,
    worker_pubkey: &Address,
    program_id: &Address,
) -> (derived: Option<(Address, u8)>)
    ensures
        derived == worker_address_spec(*org_address, *worker_pubkey, *program_id),
{
    derive("worker".as_bytes(), org_address, worker_pubkey.bytes.as_slice(), program_id)
}

} // verus!
