//! The account space: every record keyed by its address.
use vstd::prelude::*;
use vstd::utf8::encode_utf8;
use crate::state::{Pubkey, ConfessionAccount, CommentAccount};

verus! {

/// Length in bytes of a URI's UTF-8 encoding.
pub open spec fn uri_len(uri: Seq<char>) -> nat {
    encode_utf8(uri).len()
}

/// A content URI that a record may hold: 1 to 200 bytes.
pub open spec fn valid_uri(uri: Seq<char>) -> bool {
    1 <= uri_len(uri) <= 200
}

/// The records of a ledger, as sequences of (address, record) entries.
pub struct LedgerView {
    pub program_id: Seq<u8>,
    pub confessions: Seq<(Pubkey, ConfessionAccount)>,
    pub comments: Seq<(Pubkey, CommentAccount)>,
}

impl LedgerView {
    pub open spec fn has_confession(self, address: Seq<u8>) -> bool {
        exists|i: int| 0 <= i < self.confessions.len() && (#[trigger] self.confessions[i]).0@ == address
    }

    pub open spec fn has_comment(self, address: Seq<u8>) -> bool {
        exists|i: int| 0 <= i < self.comments.len() && (#[trigger] self.comments[i]).0@ == address
    }

    /// Whether some record lives at `address`.
    pub open spec fn occupied(self, address: Seq<u8>) -> bool {
        self.has_confession(address) || self.has_comment(address)
    }

    /// Position of the confession at `address`.
    pub open spec fn confession_index(self, address: Seq<u8>) -> int
        recommends
            self.has_confession(address),
    {
        choose|i: int| 0 <= i < self.confessions.len() && (#[trigger] self.confessions[i]).0@ == address
    }

    /// The confession at `address`.
    pub open spec fn confession_at(self, address: Seq<u8>) -> ConfessionAccount
        recommends
            self.has_confession(address),
    {
        self.confessions[self.confession_index(address)].1
    }

    /// Position of the comment at `address`.
    pub open spec fn comment_index(self, address: Seq<u8>) -> int
        recommends
            self.has_comment(address),
    {
        choose|i: int| 0 <= i < self.comments.len() && (#[trigger] self.comments[i]).0@ == address
    }

    /// The comment at `address`.
    pub open spec fn comment_at(self, address: Seq<u8>) -> CommentAccount
        recommends
            self.has_comment(address),
    {
        self.comments[self.comment_index(address)].1
    }

    /// Addresses are unique over all records, every URI is valid, and every
    /// comment points at an existing confession.
    pub open spec fn wf(self) -> bool {
        &&& forall|i: int, j: int|
            0 <= i < self.confessions.len() && 0 <= j < self.confessions.len() && i != j
                ==> (#[trigger] self.confessions[i]).0@ != (#[trigger] self.confessions[j]).0@
        &&& forall|i: int, j: int|
            0 <= i < self.comments.len() && 0 <= j < self.comments.len() && i != j
                ==> (#[trigger] self.comments[i]).0@ != (#[trigger] self.comments[j]).0@
        &&& forall|i: int, j: int|
            0 <= i < self.confessions.len() && 0 <= j < self.comments.len()
                ==> (#[trigger] self.confessions[i]).0@ != (#[trigger] self.comments[j]).0@
        &&& forall|i: int|
            0 <= i < self.confessions.len() ==> valid_uri((#[trigger] self.confessions[i]).1.content_uri@)
        &&& forall|j: int|
            0 <= j < self.comments.len() ==> {
                &&& valid_uri((#[trigger] self.comments[j]).1.content_uri@)
                &&& self.has_confession(self.comments[j].1.confession@)
            }
    }
}

/// The account space of one program.
pub struct Ledger {
    pub program_id: Pubkey,
    pub confessions: Vec<(Pubkey, ConfessionAccount)>,
    pub comments: Vec<(Pubkey, CommentAccount)>,
}

impl View for Ledger {
    type V = LedgerView;

    open spec fn view(&self) -> LedgerView {
        LedgerView {
            program_id: self.program_id@,
            confessions: self.confessions@,
            comments: self.comments@,
        }
    }
}

impl Ledger {
    pub open spec fn wf(&self) -> bool {
        self@.wf()
    }

    /// An empty account space for the program `program_id`.
    pub fn new(program_id: Pubkey) -> (r: Ledger)
        ensures
            r.wf(),
            r@.program_id == program_id@,
            r@.confessions.len() == 0,
            r@.comments.len() == 0,
    {
        Ledger { program_id, confessions: Vec::new(), comments: Vec::new() }
    }

    /// Position of the confession at `address`, if there is one.
    pub fn find_confession(&self, address: &Pubkey) -> (r: Option<usize>)
        requires
            self.wf(),
        ensures
            r is None <==> !self@.has_confession(address@),
            r matches Some(i) ==> i == self@.confession_index(address@)
                && i < self.confessions@.len(),
    {
        let mut i: usize = 0;
        while i < self.confessions.len()
            invariant
                self.wf(),
                i <= self.confessions@.len(),
                forall|k: int| 0 <= k < i ==> (#[trigger] self.confessions@[k]).0@ != address@,
            decreases self.confessions@.len() - i,
        {
            if self.confessions[i].0.same_as(address) {
                assert(self@.confessions[i as int].0@ == address@);
                assert(self@.has_confession(address@));
                let ghost c = self@.confession_index(address@);
                assert(0 <= c < self@.confessions.len() && self@.confessions[c].0@ == address@);
                assert(c == i);
                return Some(i);
            }
            i = i + 1;
        }
        None
    }

    /// Position of the comment at `address`, if there is one.
    pub fn find_comment(&self, address: &Pubkey) -> (r: Option<usize>)
        requires
            self.wf(),
        ensures
            r is None <==> !self@.has_comment(address@),
            r matches Some(i) ==> i == self@.comment_index(address@)
                && i < self.comments@.len(),
    {
        let mut i: usize = 0;
        while i < self.comments.len()
            invariant
                self.wf(),
                i <= self.comments@.len(),
                forall|k: int| 0 <= k < i ==> (#[trigger] self.comments@[k]).0@ != address@,
            decreases self.comments@.len() - i,
        {
            if self.comments[i].0.same_as(address) {
                assert(self@.comments[i as int].0@ == address@);
                assert(self@.has_comment(address@));
                let ghost c = self@.comment_index(address@);
                assert(0 <= c < self@.comments.len() && self@.comments[c].0@ == address@);
                assert(c == i);
                return Some(i);
            }
            i = i + 1;
        }
        None
    }

    /// Whether some record lives at `address`.
    pub fn is_occupied(&self, address: &Pubkey) -> (r: bool)
        requires
            self.wf(),
        ensures
            r == self@.occupied(address@),
    {
        self.find_confession(address).is_some() || self.find_comment(address).is_some()
    }

    /// The confession at `address`, if there is one.
    pub fn confession(&self, address: &Pubkey) -> (r: Option<&ConfessionAccount>)
        requires
            self.wf(),
        ensures
            r is None <==> !self@.has_confession(address@),
            r matches Some(c) ==> *c == self@.confession_at(address@),
    {
        match self.find_confession(address) {
            Some(i) => Some(&self.confessions[i].1),
            None => None,
        }
    }

    /// The comment at `address`, if there is one.
    pub fn comment(&self, address: &Pubkey) -> (r: Option<&CommentAccount>)
        requires
            self.wf(),
        ensures
            r is None <==> !self@.has_comment(address@),
            r matches Some(c) ==> *c == self@.comment_at(address@),
    {
        match self.find_comment(address) {
            Some(i) => Some(&self.comments[i].1),
            None => None,
        }
    }
}

} // verus!
