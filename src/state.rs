//! Keys, account records, instruction account lists and errors.
use vstd::prelude::*;

verus! {

/// A 32-byte public key or account address.
#[derive(Clone, Copy, Debug)]
pub struct Pubkey {
    pub bytes: [u8; 32],
}

impl View for Pubkey {
    type V = Seq<u8>;

    open spec fn view(&self) -> Seq<u8> {
        self.bytes@
    }
}

impl Pubkey {
    pub fn new_from_array(bytes: [u8; 32]) -> (r: Pubkey)
        ensures
            r.bytes == bytes,
    {
        Pubkey { bytes }
    }

    pub fn to_bytes(&self) -> (r: [u8; 32])
        ensures
            r == self.bytes,
    {
        self.bytes
    }

    /// Whether two keys hold the same bytes.
    pub fn same_as(&self, other: &Pubkey) -> (r: bool)
        ensures
            r == (self@ == other@),
    {
        let mut i: usize = 0;
        while i < 32
            invariant
                i <= 32,
                self@.len() == 32,
                other@.len() == 32,
                forall|j: int| 0 <= j < i ==> self@[j] == other@[j],
            decreases 32 - i,
        {
            if self.bytes[i] != other.bytes[i] {
                return false;
            }
            i = i + 1;
        }
        assert(self@ =~= other@);
        true
    }

    /// The key's bytes, as a seed for address derivation.
    pub fn to_vec(&self) -> (r: Vec<u8>)
        ensures
            r@ == self@,
    {
        let mut v: Vec<u8> = Vec::new();
        let mut i: usize = 0;
        while i < 32
            invariant
                i <= 32,
                self@.len() == 32,
                v@ == self@.subrange(0, i as int),
            decreases 32 - i,
        {
            v.push(self.bytes[i]);
            i = i + 1;
            assert(v@ =~= self@.subrange(0, i as int));
        }
        assert(self@.subrange(0, 32) =~= self@);
        v
    }
}

/// A published confession: one per author, at the address derived from the
/// author's key.
pub struct ConfessionAccount {
    pub author: Pubkey,
    pub content_uri: String,
    pub like_count: u64,
    pub comment_count: u64,
    pub timestamp: i64,
    pub bump: u8,
}

impl ConfessionAccount {
    /// Longest content URI, in bytes.
    pub const MAX_URI_LENGTH: usize = 200;
    /// Bytes allocated for the record: tag, author, URI, counters, time, bump.
    pub const SPACE: usize = 8 + 32 + 4 + 200 + 8 + 8 + 8 + 1;
}

/// A comment: one per (confession, commenter) pair.
pub struct CommentAccount {
    pub confession: Pubkey,
    pub commenter: Pubkey,
    pub content_uri: String,
    pub timestamp: i64,
    pub bump: u8,
}

impl CommentAccount {
    /// Longest content URI, in bytes.
    pub const MAX_URI_LENGTH: usize = 200;
    /// Bytes allocated for the record: tag, two keys, URI, time, bump.
    pub const SPACE: usize = 8 + 32 + 32 + 4 + 200 + 8 + 1;
}

/// Accounts of the create-confession instruction: the new confession's
/// address and the signing author, whose signature the runtime has checked.
#[derive(Clone, Copy, Debug)]
pub struct CreateConfession {
    pub confession: Pubkey,
    pub author: Pubkey,
}

/// Accounts of the like instruction: the confession and the signing user.
#[derive(Clone, Copy, Debug)]
pub struct LikeConfession {
    pub confession: Pubkey,
    pub user: Pubkey,
}

/// Accounts of the comment instruction: the confession, the new comment's
/// address and the signing commenter.
#[derive(Clone, Copy, Debug)]
pub struct CommentConfession {
    pub confession: Pubkey,
    pub comment: Pubkey,
    pub commenter: Pubkey,
}

/// Errors raised by the instruction handlers themselves.
#[derive(Clone, Copy, Debug, PartialEq, Eq, Structural)]
pub enum WhisperError {
    ContentUriTooLong,
    EmptyContentUri,
    LikeCountOverflow,
    CommentCountOverflow,
}

impl WhisperError {
    /// The message that accompanies the error.
    pub fn message(&self) -> (r: &'static str)
        ensures
            r@.len() > 0,
    {
        proof {
            reveal_strlit("Content URI exceeds maximum allowed length");
            reveal_strlit("Content URI cannot be empty");
            reveal_strlit("Like count overflow");
            reveal_strlit("Comment count overflow");
        }
        match self {
            WhisperError::ContentUriTooLong => "Content URI exceeds maximum allowed length",
            WhisperError::EmptyContentUri => "Content URI cannot be empty",
            WhisperError::LikeCountOverflow => "Like count overflow",
            WhisperError::CommentCountOverflow => "Comment count overflow",
        }
    }
}

/// Why an instruction was rejected: an error of the handler, or a failure of
/// the accounts it names.
#[derive(Clone, Copy, Debug, PartialEq, Eq, Structural)]
pub enum InstructionError {
    Whisper(WhisperError),
    /// No bump seed gives an address for the record's seeds.
    AddressDerivationFailed,
    /// The named address is not the one derived from the record's seeds.
    AddressMismatch,
    /// A record already exists at the address of the record to create.
    AddressAlreadyOccupied,
    /// No confession exists at the named address.
    AddressNotFound,
}

} // verus!
