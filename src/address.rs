//! Derived addresses: an account's address is computed from a tag and the
//! keys that own it, so the address itself is the index of the record.
use vstd::prelude::*;
use crate::state::Pubkey;

verus! {

/// The program derived address for a list of seeds under a program id, with
/// its bump seed; `None` where no bump seed yields an address off the curve.
pub uninterp spec fn program_address_of(seeds: Seq<Seq<u8>>, program_id: Seq<u8>) -> Option<(Seq<u8>, u8)>;

/// A derivation result over key bytes.
pub open spec fn derived_view(d: Option<(Pubkey, u8)>) -> Option<(Seq<u8>, u8)> {
    match d {
        Some((address, bump)) => Some((address@, bump)),
        None => None,
    }
}

/// The tag that leads the seeds of a confession's address: ASCII `confession`.
pub open spec fn confession_tag() -> Seq<u8> {
    seq![99u8, 111u8, 110u8, 102u8, 101u8, 115u8, 115u8, 105u8, 111u8, 110u8]
}

/// The tag that leads the seeds of a comment's address: ASCII `comment`.
pub open spec fn comment_tag() -> Seq<u8> {
    seq![99u8, 111u8, 109u8, 109u8, 101u8, 110u8, 116u8]
}

/// Seeds of the confession owned by `author`.
pub open spec fn confession_seeds(author: Seq<u8>) -> Seq<Seq<u8>> {
    seq![confession_tag(), author]
}

/// Seeds of the comment by `commenter` on the confession at `confession`.
pub open spec fn comment_seeds(confession: Seq<u8>, commenter: Seq<u8>) -> Seq<Seq<u8>> {
    seq![comment_tag(), confession, commenter]
}

/// Relies on `Pubkey::try_find_program_address` (anchor_lang's re-export of
/// solana-program): the derived address and bump seed for `seeds` under
/// `program_id`, or `None`; the result depends on the arguments alone.
#[verifier::external_body]
fn find_program_address(seeds: &Vec<Vec<u8>>, program_id: &Pubkey) -> (r: Option<(Pubkey, u8)>)
    ensures
        derived_view(r) == program_address_of(seeds.deep_view(), program_id@),
{
    let program = anchor_lang::prelude::Pubkey::new_from_array(program_id.bytes);
    let slices: Vec<&[u8]> = seeds.iter().map(|s| s.as_slice()).collect();
    match anchor_lang::prelude::Pubkey::try_find_program_address(&slices, &program) {
        Some((address, bump)) => Some((Pubkey { bytes: address.to_bytes() }, bump)),
        None => None,
    }
}

/// The address of the confession owned by `author`, with its bump seed.
pub fn confession_address(program_id: &Pubkey, author: &Pubkey) -> (r: Option<(Pubkey, u8)>)
    ensures
        derived_view(r) == program_address_of(confession_seeds(author@), program_id@),
{
    let tag: Vec<u8> = vec![99u8, 111u8, 110u8, 102u8, 101u8, 115u8, 115u8, 105u8, 111u8, 110u8];
    let mut seeds: Vec<Vec<u8>> = Vec::new();
    seeds.push(tag);
    seeds.push(author.to_vec());
    assert(seeds.deep_view()[0] =~= confession_tag());
    assert(seeds.deep_view()[1] =~= author@);
    assert(seeds.deep_view() =~= confession_seeds(author@));
    find_program_address(&seeds, program_id)
}

/// The address of the comment by `commenter` on the confession at
/// `confession`, with its bump seed.
pub fn comment_address(program_id: &Pubkey, confession: &Pubkey, commenter: &Pubkey) -> (r: Option<(Pubkey, u8)>)
    ensures
        derived_view(r) == program_address_of(comment_seeds(confession@, commenter@), program_id@),
{
    let tag: Vec<u8> = vec![99u8, 111u8, 109u8, 109u8, 101u8, 110u8, 116u8];
    let mut seeds: Vec<Vec<u8>> = Vec::new();
    seeds.push(tag);
    seeds.push(confession.to_vec());
    seeds.push(commenter.to_vec());
    assert(seeds.deep_view()[0] =~= comment_tag());
    assert(seeds.deep_view()[1] =~= confession@);
    assert(seeds.deep_view()[2] =~= commenter@);
    assert(seeds.deep_view() =~= comment_seeds(confession@, commenter@));
    find_program_address(&seeds, program_id)
}

} // verus!
