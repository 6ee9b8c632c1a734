//! Properties that hold across calls of the instructions.
use vstd::prelude::*;
use crate::state::{CreateConfession, LikeConfession, CommentConfession, WhisperError, InstructionError};
use crate::address::{program_address_of, confession_seeds, comment_seeds};
use crate::ledger::{valid_uri, LedgerView};
use crate::instructions::{
    create_confession_result, like_confession_result, comment_confession_result, liked,
};

verus! {

/// The seeds of two authors' confessions differ when the authors differ, and
/// no confession's seeds are ever a comment's seeds.
pub proof fn lemma_seeds_distinct(a: Seq<u8>, b: Seq<u8>, f: Seq<u8>, c: Seq<u8>, g: Seq<u8>, d: Seq<u8>)
    ensures
        a != b ==> confession_seeds(a) != confession_seeds(b),
        (f, c) != (g, d) ==> comment_seeds(f, c) != comment_seeds(g, d),
        confession_seeds(a) != comment_seeds(f, c),
{
    if a != b {
        assert(confession_seeds(a)[1] != confession_seeds(b)[1]);
    }
    if f != g {
        assert(comment_seeds(f, c)[1] != comment_seeds(g, d)[1]);
    }
    if c != d {
        assert(comment_seeds(f, c)[2] != comment_seeds(g, d)[2]);
    }
    assert(confession_seeds(a).len() != comment_seeds(f, c).len());
}

/// A creation succeeds when the named address is the one derived from the
/// author's key, nothing lives there yet, and the URI is valid.
pub proof fn lemma_create_confession_succeeds(l: LedgerView, ctx: CreateConfession, content_uri: String, now: i64, bump: u8)
    requires
        l.wf(),
        program_address_of(confession_seeds(ctx.author@), l.program_id) == Some((ctx.confession@, bump)),
        !l.occupied(ctx.confession@),
        valid_uri(content_uri@),
    ensures
        create_confession_result(
            l,
            ctx,
            content_uri,
            now,
            program_address_of(confession_seeds(ctx.author@), l.program_id),
        ) is Ok,
{
}

/// An author has at most one confession: once a creation has succeeded, every
/// later creation for the same author fails, with `AddressAlreadyOccupied`
/// where it names the same address.
pub proof fn lemma_one_confession_per_author(
    l: LedgerView,
    ctx: CreateConfession,
    content_uri: String,
    now: i64,
    ctx2: CreateConfession,
    content_uri2: String,
    now2: i64,
)
    requires
        l.wf(),
        ctx2.author@ == ctx.author@,
        create_confession_result(
            l,
            ctx,
            content_uri,
            now,
            program_address_of(confession_seeds(ctx.author@), l.program_id),
        ) is Ok,
    ensures
        ({
            let l2 = create_confession_result(
                l,
                ctx,
                content_uri,
                now,
                program_address_of(confession_seeds(ctx.author@), l.program_id),
            )->Ok_0;
            let r2 = create_confession_result(
                l2,
                ctx2,
                content_uri2,
                now2,
                program_address_of(confession_seeds(ctx2.author@), l2.program_id),
            );
            &&& r2 is Err
            &&& ctx2.confession@ == ctx.confession@ ==> r2 == Err::<LedgerView, InstructionError>(
                InstructionError::AddressAlreadyOccupied,
            )
        }),
{
    let l2 = create_confession_result(
        l,
        ctx,
        content_uri,
        now,
        program_address_of(confession_seeds(ctx.author@), l.program_id),
    )->Ok_0;
    let last = l2.confessions.len() - 1;
    assert(l2.confessions[last].0@ == ctx.confession@);
    assert(l2.has_confession(ctx.confession@));
}

/// A like leaves the ledger well formed, keeps the confession at its address
/// and raises its like count by one.
proof fn lemma_like_step(l: LedgerView, ctx: LikeConfession)
    requires
        l.wf(),
        l.has_confession(ctx.confession@),
        l.confession_at(ctx.confession@).like_count < u64::MAX,
    ensures
        like_confession_result(l, ctx) is Ok,
        ({
            let l2 = like_confession_result(l, ctx)->Ok_0;
            &&& l2.wf()
            &&& l2.has_confession(ctx.confession@)
            &&& l2.confession_at(ctx.confession@) == liked(l.confession_at(ctx.confession@))
            &&& l2.program_id == l.program_id
            &&& l2.comments == l.comments
        }),
{
    let a = ctx.confession@;
    let i = l.confession_index(a);
    let l2 = like_confession_result(l, ctx)->Ok_0;
    assert forall|k: int| 0 <= k < l.confessions.len() implies (#[trigger] l2.confessions[k]).0
        == l.confessions[k].0 && l2.confessions[k].1.content_uri == l.confessions[k].1.content_uri by {}
    assert(l2.confessions[i].0@ == a);
    assert(l2.has_confession(a));
    let i2 = l2.confession_index(a);
    assert(i2 == i);
    assert forall|j: int| 0 <= j < l2.comments.len() implies l2.has_confession(
        #[trigger] l2.comments[j].1.confession@,
    ) by {
        let k = choose|k: int|
            0 <= k < l.confessions.len() && (#[trigger] l.confessions[k]).0@ == l.comments[j].1.confession@;
        assert(l2.confessions[k].0 == l.confessions[k].0);
    }
}

/// The ledger after `n` likes of the confession that `ctx` names, or the
/// first error.
pub open spec fn likes_applied(l: LedgerView, ctx: LikeConfession, n: nat) -> Result<LedgerView, InstructionError>
    decreases n,
{
    if n == 0 {
        Ok(l)
    } else {
        match likes_applied(l, ctx, (n - 1) as nat) {
            Ok(m) => like_confession_result(m, ctx),
            Err(e) => Err(e),
        }
    }
}

/// Liking a confession that has no likes `n` times, for `n` up to the largest
/// `u64`, succeeds every time and leaves its like count at `n`.
pub proof fn lemma_likes_count(l: LedgerView, ctx: LikeConfession, n: nat)
    requires
        l.wf(),
        l.has_confession(ctx.confession@),
        l.confession_at(ctx.confession@).like_count == 0,
        n <= u64::MAX,
    ensures
        likes_applied(l, ctx, n) is Ok,
        likes_applied(l, ctx, n)->Ok_0.wf(),
        likes_applied(l, ctx, n)->Ok_0.has_confession(ctx.confession@),
        likes_applied(l, ctx, n)->Ok_0.confession_at(ctx.confession@).like_count == n,
    decreases n,
{
    if n > 0 {
        lemma_likes_count(l, ctx, (n - 1) as nat);
        let m = likes_applied(l, ctx, (n - 1) as nat)->Ok_0;
        lemma_like_step(m, ctx);
    }
}

/// A like of a confession whose like count is at the largest `u64` fails with
/// `LikeCountOverflow`.
pub proof fn lemma_like_at_max(l: LedgerView, ctx: LikeConfession)
    requires
        l.has_confession(ctx.confession@),
        l.confession_at(ctx.confession@).like_count == u64::MAX,
    ensures
        like_confession_result(l, ctx) == Err::<LedgerView, InstructionError>(
            InstructionError::Whisper(WhisperError::LikeCountOverflow),
        ),
{
}

/// A commenter comments on a confession at most once: a successful comment
/// raises the confession's comment count by exactly one, and every later
/// comment by the same commenter on the same confession fails, with
/// `AddressAlreadyOccupied` where it names the same address.
pub proof fn lemma_one_comment_per_commenter(
    l: LedgerView,
    ctx: CommentConfession,
    content_uri: String,
    now: i64,
    ctx2: CommentConfession,
    content_uri2: String,
    now2: i64,
)
    requires
        l.wf(),
        ctx2.confession@ == ctx.confession@,
        ctx2.commenter@ == ctx.commenter@,
        comment_confession_result(
            l,
            ctx,
            content_uri,
            now,
            program_address_of(comment_seeds(ctx.confession@, ctx.commenter@), l.program_id),
        ) is Ok,
    ensures
        ({
            let l2 = comment_confession_result(
                l,
                ctx,
                content_uri,
                now,
                program_address_of(comment_seeds(ctx.confession@, ctx.commenter@), l.program_id),
            )->Ok_0;
            let r2 = comment_confession_result(
                l2,
                ctx2,
                content_uri2,
                now2,
                program_address_of(comment_seeds(ctx2.confession@, ctx2.commenter@), l2.program_id),
            );
            &&& l2.has_confession(ctx.confession@)
            &&& l2.confession_at(ctx.confession@).comment_count == l.confession_at(
                ctx.confession@,
            ).comment_count + 1
            &&& l2.has_comment(ctx.comment@)
            &&& r2 is Err
            &&& ctx2.comment@ == ctx.comment@ ==> r2 == Err::<LedgerView, InstructionError>(
                InstructionError::AddressAlreadyOccupied,
            )
        }),
{
    let a = ctx.confession@;
    let l2 = comment_confession_result(
        l,
        ctx,
        content_uri,
        now,
        program_address_of(comment_seeds(ctx.confession@, ctx.commenter@), l.program_id),
    )->Ok_0;
    let i = l.confession_index(a);
    assert forall|k: int| 0 <= k < l.confessions.len() implies (#[trigger] l2.confessions[k]).0
        == l.confessions[k].0 by {}
    assert(l2.confessions[i].0@ == a);
    assert(l2.has_confession(a));
    let i2 = l2.confession_index(a);
    assert(l2.confessions[i2].0@ == a);
    assert(i2 == i);
    let last = l2.comments.len() - 1;
    assert(l2.comments[last].0@ == ctx.comment@);
    assert(l2.has_comment(ctx.comment@));
}

} // verus!
