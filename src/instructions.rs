//! The three instructions: create a confession, like it, comment on it.
//!
//! Each is stated as a transition of the ledger's view that either yields the
//! new records or an error; on error the ledger is left as it was.
use vstd::prelude::*;
use crate::state::{
    Pubkey, ConfessionAccount, CommentAccount, CreateConfession, LikeConfession,
    CommentConfession, WhisperError, InstructionError,
};
use crate::address::{derived_view, program_address_of, confession_seeds, comment_seeds,
    confession_address, comment_address};
use crate::ledger::{uri_len, Ledger, LedgerView};

verus! {

/// The error that a content URI draws, if any: too long first, then empty.
pub open spec fn uri_error(uri: Seq<char>) -> Option<WhisperError> {
    if uri_len(uri) > 200 {
        Some(WhisperError::ContentUriTooLong)
    } else if uri_len(uri) == 0 {
        Some(WhisperError::EmptyContentUri)
    } else {
        None
    }
}

/// `after` and `r` are what an instruction with `outcome` leaves behind: the
/// outcome's records on success, the ledger untouched on failure.
pub open spec fn applied(
    before: Ledger,
    after: Ledger,
    r: Result<(), InstructionError>,
    outcome: Result<LedgerView, InstructionError>,
) -> bool {
    match outcome {
        Ok(v) => r == Ok::<(), InstructionError>(()) && after@ == v,
        Err(e) => r == Err::<(), InstructionError>(e) && after == before,
    }
}

/// The confession `c` with one more like.
pub open spec fn liked(c: ConfessionAccount) -> ConfessionAccount {
    ConfessionAccount { like_count: (c.like_count + 1) as u64, ..c }
}

/// The confession `c` with one more comment.
pub open spec fn commented(c: ConfessionAccount) -> ConfessionAccount {
    ConfessionAccount { comment_count: (c.comment_count + 1) as u64, ..c }
}

/// Creating a confession, where `derived` is the derivation result for the
/// author's seeds: the named address must be the derived one and free, the
/// URI valid; the new record starts with no likes and no comments.
pub open spec fn create_confession_result(
    l: LedgerView,
    ctx: CreateConfession,
    content_uri: String,
    now: i64,
    derived: Option<(Seq<u8>, u8)>,
) -> Result<LedgerView, InstructionError> {
    match derived {
        None => Err(InstructionError::AddressDerivationFailed),
        Some((address, bump)) => if address != ctx.confession@ {
            Err(InstructionError::AddressMismatch)
        } else if l.occupied(address) {
            Err(InstructionError::AddressAlreadyOccupied)
        } else {
            match uri_error(content_uri@) {
                Some(e) => Err(InstructionError::Whisper(e)),
                None => Ok(
                    LedgerView {
                        confessions: l.confessions.push(
                            (
                                ctx.confession,
                                ConfessionAccount {
                                    author: ctx.author,
                                    content_uri,
                                    like_count: 0,
                                    comment_count: 0,
                                    timestamp: now,
                                    bump,
                                },
                            ),
                        ),
                        ..l
                    },
                ),
            }
        },
    }
}

/// Liking a confession: it must exist and its like count must not be at the
/// maximum; the count goes up by one and nothing else changes.
pub open spec fn like_confession_result(l: LedgerView, ctx: LikeConfession) -> Result<
    LedgerView,
    InstructionError,
> {
    if !l.has_confession(ctx.confession@) {
        Err(InstructionError::AddressNotFound)
    } else {
        let i = l.confession_index(ctx.confession@);
        let entry = l.confessions[i];
        if entry.1.like_count == u64::MAX {
            Err(InstructionError::Whisper(WhisperError::LikeCountOverflow))
        } else {
            Ok(LedgerView { confessions: l.confessions.update(i, (entry.0, liked(entry.1))), ..l })
        }
    }
}

/// Commenting on a confession, where `derived` is the derivation result for
/// the comment's seeds: the confession must exist, the named comment address
/// must be the derived one and free, the URI valid and the comment count
/// below the maximum; the comment is added and the count goes up by one.
pub open spec fn comment_confession_result(
    l: LedgerView,
    ctx: CommentConfession,
    content_uri: String,
    now: i64,
    derived: Option<(Seq<u8>, u8)>,
) -> Result<LedgerView, InstructionError> {
    if !l.has_confession(ctx.confession@) {
        Err(InstructionError::AddressNotFound)
    } else {
        match derived {
            None => Err(InstructionError::AddressDerivationFailed),
            Some((address, bump)) => if address != ctx.comment@ {
                Err(InstructionError::AddressMismatch)
            } else if l.occupied(address) {
                Err(InstructionError::AddressAlreadyOccupied)
            } else {
                match uri_error(content_uri@) {
                    Some(e) => Err(InstructionError::Whisper(e)),
                    None => {
                        let i = l.confession_index(ctx.confession@);
                        let entry = l.confessions[i];
                        if entry.1.comment_count == u64::MAX {
                            Err(InstructionError::Whisper(WhisperError::CommentCountOverflow))
                        } else {
                            Ok(
                                LedgerView {
                                    confessions: l.confessions.update(
                                        i,
                                        (entry.0, commented(entry.1)),
                                    ),
                                    comments: l.comments.push(
                                        (
                                            ctx.comment,
                                            CommentAccount {
                                                confession: ctx.confession,
                                                commenter: ctx.commenter,
                                                content_uri,
                                                timestamp: now,
                                                bump,
                                            },
                                        ),
                                    ),
                                    ..l
                                },
                            )
                        }
                    },
                }
            },
        }
    }
}

/// The error that `content_uri` draws, if any.
pub fn check_content_uri(content_uri: &String) -> (r: Option<WhisperError>)
    ensures
        r == uri_error(content_uri@),
{
    let len = content_uri.as_str().as_bytes().len();
    if len > ConfessionAccount::MAX_URI_LENGTH {
        Some(WhisperError::ContentUriTooLong)
    } else if len == 0 {
        Some(WhisperError::EmptyContentUri)
    } else {
        None
    }
}

/// Creates the confession of `ctx.author` at `ctx.confession`, given the
/// derivation result for the author's seeds, at time `now`.
pub fn create_confession_with(
    ledger: &mut Ledger,
    ctx: &CreateConfession,
    content_uri: String,
    now: i64,
    derived: Option<(Pubkey, u8)>,
) -> (r: Result<(), InstructionError>)
    requires
        old(ledger).wf(),
    ensures
        final(ledger).wf(),
        applied(
            *old(ledger),
            *final(ledger),
            r,
            create_confession_result(old(ledger)@, *ctx, content_uri, now, derived_view(derived)),
        ),
{
    let (address, bump) = match derived {
        Some(d) => d,
        None => {
            return Err(InstructionError::AddressDerivationFailed);
        },
    };
    if !address.same_as(&ctx.confession) {
        return Err(InstructionError::AddressMismatch);
    }
    if ledger.is_occupied(&address) {
        return Err(InstructionError::AddressAlreadyOccupied);
    }
    match check_content_uri(&content_uri) {
        Some(e) => {
            return Err(InstructionError::Whisper(e));
        },
        None => {},
    }
    let ghost before = ledger@;
    let record = ConfessionAccount {
        author: ctx.author,
        content_uri,
        like_count: 0,
        comment_count: 0,
        timestamp: now,
        bump,
    };
    ledger.confessions.push((ctx.confession, record));
    proof {
        let after = ledger@;
        let n = before.confessions.len() as int;
        assert forall|i: int| 0 <= i < n implies after.confessions[i] == before.confessions[i] by {}
        assert forall|j: int| 0 <= j < after.comments.len() implies after.has_confession(
            #[trigger] after.comments[j].1.confession@,
        ) by {
            let k = choose|k: int|
                0 <= k < before.confessions.len() && (#[trigger] before.confessions[k]).0@
                    == before.comments[j].1.confession@;
            assert(after.confessions[k] == before.confessions[k]);
        }
    }
    Ok(())
}

/// Creates the confession of `ctx.author` at `ctx.confession` at time `now`.
pub fn create_confession(
    ledger: &mut Ledger,
    ctx: &CreateConfession,
    content_uri: String,
    now: i64,
) -> (r: Result<(), InstructionError>)
    requires
        old(ledger).wf(),
    ensures
        final(ledger).wf(),
        applied(
            *old(ledger),
            *final(ledger),
            r,
            create_confession_result(
                old(ledger)@,
                *ctx,
                content_uri,
                now,
                program_address_of(confession_seeds(ctx.author@), old(ledger)@.program_id),
            ),
        ),
{
    let derived = confession_address(&ledger.program_id, &ctx.author);
    create_confession_with(ledger, ctx, content_uri, now, derived)
}

/// Adds one like to the confession at `ctx.confession`.
pub fn like_confession(ledger: &mut Ledger, ctx: &LikeConfession) -> (r: Result<(), InstructionError>)
    requires
        old(ledger).wf(),
    ensures
        final(ledger).wf(),
        applied(*old(ledger), *final(ledger), r, like_confession_result(old(ledger)@, *ctx)),
{
    let i = match ledger.find_confession(&ctx.confession) {
        Some(i) => i,
        None => {
            return Err(InstructionError::AddressNotFound);
        },
    };
    if ledger.confessions[i].1.like_count == u64::MAX {
        return Err(InstructionError::Whisper(WhisperError::LikeCountOverflow));
    }
    let ghost before = ledger@;
    let (address, record) = ledger.confessions.remove(i);
    let like_count = record.like_count + 1;
    let updated = ConfessionAccount { like_count, ..record };
    ledger.confessions.insert(i, (address, updated));
    proof {
        let after = ledger@;
        assert(after.confessions =~= before.confessions.update(i as int, (address, liked(before.confessions[i as int].1))));
        assert forall|k: int| 0 <= k < before.confessions.len() implies (#[trigger] after.confessions[k]).0
            == before.confessions[k].0 && after.confessions[k].1.content_uri == before.confessions[k].1.content_uri by {}
        assert forall|j: int| 0 <= j < after.comments.len() implies after.has_confession(
            #[trigger] after.comments[j].1.confession@,
        ) by {
            let k = choose|k: int|
                0 <= k < before.confessions.len() && (#[trigger] before.confessions[k]).0@
                    == before.comments[j].1.confession@;
            assert(after.confessions[k].0 == before.confessions[k].0);
        }
    }
    Ok(())
}

/// Adds the comment of `ctx.commenter` at `ctx.comment` to the confession at
/// `ctx.confession`, given the derivation result for the comment's seeds, at
/// time `now`.
pub fn comment_confession_with(
    ledger: &mut Ledger,
    ctx: &CommentConfession,
    content_uri: String,
    now: i64,
    derived: Option<(Pubkey, u8)>,
) -> (r: Result<(), InstructionError>)
    requires
        old(ledger).wf(),
    ensures
        final(ledger).wf(),
        applied(
            *old(ledger),
            *final(ledger),
            r,
            comment_confession_result(old(ledger)@, *ctx, content_uri, now, derived_view(derived)),
        ),
{
    let i = match ledger.find_confession(&ctx.confession) {
        Some(i) => i,
        None => {
            return Err(InstructionError::AddressNotFound);
        },
    };
    let (address, bump) = match derived {
        Some(d) => d,
        None => {
            return Err(InstructionError::AddressDerivationFailed);
        },
    };
    if !address.same_as(&ctx.comment) {
        return Err(InstructionError::AddressMismatch);
    }
    if ledger.is_occupied(&address) {
        return Err(InstructionError::AddressAlreadyOccupied);
    }
    match check_content_uri(&content_uri) {
        Some(e) => {
            return Err(InstructionError::Whisper(e));
        },
        None => {},
    }
    if ledger.confessions[i].1.comment_count == u64::MAX {
        return Err(InstructionError::Whisper(WhisperError::CommentCountOverflow));
    }
    let ghost before = ledger@;
    let comment = CommentAccount {
        confession: ctx.confession,
        commenter: ctx.commenter,
        content_uri,
        timestamp: now,
        bump,
    };
    ledger.comments.push((ctx.comment, comment));
    let (parent, record) = ledger.confessions.remove(i);
    let comment_count = record.comment_count + 1;
    let updated = ConfessionAccount { comment_count, ..record };
    ledger.confessions.insert(i, (parent, updated));
    proof {
        let after = ledger@;
        assert(after.confessions =~= before.confessions.update(
            i as int,
            (parent, commented(before.confessions[i as int].1)),
        ));
        assert forall|k: int| 0 <= k < before.confessions.len() implies (#[trigger] after.confessions[k]).0
            == before.confessions[k].0 && after.confessions[k].1.content_uri == before.confessions[k].1.content_uri by {}
        assert forall|j: int| 0 <= j < before.comments.len() implies #[trigger] after.comments[j] == before.comments[j] by {}
        assert(after.confessions[i as int].0@ == ctx.confession@);
        assert forall|j: int| 0 <= j < after.comments.len() implies after.has_confession(
            #[trigger] after.comments[j].1.confession@,
        ) by {
            if j < before.comments.len() {
                let k = choose|k: int|
                    0 <= k < before.confessions.len() && (#[trigger] before.confessions[k]).0@
                        == before.comments[j].1.confession@;
                assert(after.confessions[k].0 == before.confessions[k].0);
            } else {
                assert(after.confessions[i as int].0@ == after.comments[j].1.confession@);
            }
        }
    }
    Ok(())
}

/// Adds the comment of `ctx.commenter` at `ctx.comment` to the confession at
/// `ctx.confession` at time `now`.
pub fn comment_confession(
    ledger: &mut Ledger,
    ctx: &CommentConfession,
    content_uri: String,
    now: i64,
) -> (r: Result<(), InstructionError>)
    requires
        old(ledger).wf(),
    ensures
        final(ledger).wf(),
        applied(
            *old(ledger),
            *final(ledger),
            r,
            comment_confession_result(
                old(ledger)@,
                *ctx,
                content_uri,
                now,
                program_address_of(
                    comment_seeds(ctx.confession@, ctx.commenter@),
                    old(ledger)@.program_id,
                ),
            ),
        ),
{
    let derived = comment_address(&ledger.program_id, &ctx.confession, &ctx.commenter);
    comment_confession_with(ledger, ctx, content_uri, now, derived)
}

} // verus!
