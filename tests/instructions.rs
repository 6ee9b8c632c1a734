use std::str::FromStr;

use whisper::address::{comment_address, confession_address};
use whisper::instructions::{
    check_content_uri, comment_confession, comment_confession_with, create_confession,
    create_confession_with, like_confession,
};
use whisper::ledger::Ledger;
use whisper::state::{
    CommentAccount, CommentConfession, ConfessionAccount, CreateConfession, InstructionError,
    LikeConfession, Pubkey, WhisperError,
};

const PROGRAM: &str = "DHTV8Z1MNm7C5vNX5mUrR1QdNzipbytaHFimTZbycH9R";

fn program_id() -> Pubkey {
    let key = anchor_lang::prelude::Pubkey::from_str(PROGRAM).unwrap();
    Pubkey::new_from_array(key.to_bytes())
}

fn user(n: u8) -> Pubkey {
    Pubkey::new_from_array([n; 32])
}

fn confession_of(author: &Pubkey) -> Pubkey {
    confession_address(&program_id(), author).unwrap().0
}

fn create(ledger: &mut Ledger, author: &Pubkey, uri: &str, now: i64) -> Result<(), InstructionError> {
    let ctx = CreateConfession { confession: confession_of(author), author: *author };
    create_confession(ledger, &ctx, uri.to_string(), now)
}

fn comment(
    ledger: &mut Ledger,
    confession: &Pubkey,
    commenter: &Pubkey,
    uri: &str,
    now: i64,
) -> Result<(), InstructionError> {
    let address = comment_address(&program_id(), confession, commenter).unwrap().0;
    let ctx = CommentConfession { confession: *confession, comment: address, commenter: *commenter };
    comment_confession(ledger, &ctx, uri.to_string(), now)
}

fn like(ledger: &mut Ledger, confession: &Pubkey, liker: &Pubkey) -> Result<(), InstructionError> {
    let ctx = LikeConfession { confession: *confession, user: *liker };
    like_confession(ledger, &ctx)
}

#[test]
fn end_to_end_create_like_comment() {
    let mut ledger = Ledger::new(program_id());
    let (a, b, c) = (user(1), user(2), user(3));
    let f = confession_of(&a);
    assert_eq!(create(&mut ledger, &a, "ipfs://abc", 1_700_000_000), Ok(()));
    {
        let rec = ledger.confession(&f).unwrap();
        assert_eq!(rec.author.bytes, a.bytes);
        assert_eq!(rec.content_uri, "ipfs://abc");
        assert_eq!(rec.like_count, 0);
        assert_eq!(rec.comment_count, 0);
        assert_eq!(rec.timestamp, 1_700_000_000);
        assert_eq!(rec.bump, confession_address(&program_id(), &a).unwrap().1);
    }
    assert_eq!(like(&mut ledger, &f, &b), Ok(()));
    assert_eq!(ledger.confession(&f).unwrap().like_count, 1);
    assert_eq!(comment(&mut ledger, &f, &c, "hi", 1_700_000_100), Ok(()));
    assert_eq!(ledger.confession(&f).unwrap().comment_count, 1);
    let address = comment_address(&program_id(), &f, &c).unwrap().0;
    {
        let rec: &CommentAccount = ledger.comment(&address).unwrap();
        assert_eq!(rec.commenter.bytes, c.bytes);
        assert_eq!(rec.confession.bytes, f.bytes);
        assert_eq!(rec.content_uri, "hi");
        assert_eq!(rec.timestamp, 1_700_000_100);
    }
    assert_eq!(
        comment(&mut ledger, &f, &c, "hi again", 1_700_000_200),
        Err(InstructionError::AddressAlreadyOccupied)
    );
    assert_eq!(ledger.confession(&f).unwrap().comment_count, 1);
    assert_eq!(ledger.comments.len(), 1);
}

#[test]
fn create_rejects_empty_uri() {
    let mut ledger = Ledger::new(program_id());
    assert_eq!(
        create(&mut ledger, &user(1), "", 0),
        Err(InstructionError::Whisper(WhisperError::EmptyContentUri))
    );
    assert_eq!(ledger.confessions.len(), 0);
}

#[test]
fn create_rejects_uri_of_201_bytes() {
    let mut ledger = Ledger::new(program_id());
    let uri = "x".repeat(201);
    assert_eq!(
        create(&mut ledger, &user(1), &uri, 0),
        Err(InstructionError::Whisper(WhisperError::ContentUriTooLong))
    );
    assert_eq!(ledger.confessions.len(), 0);
}

#[test]
fn create_accepts_uri_of_200_bytes() {
    let mut ledger = Ledger::new(program_id());
    let uri = "x".repeat(200);
    assert_eq!(create(&mut ledger, &user(1), &uri, 0), Ok(()));
    assert_eq!(ledger.confession(&confession_of(&user(1))).unwrap().content_uri.len(), 200);
}

#[test]
fn uri_length_counts_bytes_not_chars() {
    assert_eq!(check_content_uri(&"é".repeat(100)), None);
    assert_eq!(check_content_uri(&"é".repeat(101)), Some(WhisperError::ContentUriTooLong));
    assert_eq!(check_content_uri(&String::new()), Some(WhisperError::EmptyContentUri));
    assert_eq!(check_content_uri(&"a".to_string()), None);
}

#[test]
fn second_confession_of_same_author_is_rejected() {
    let mut ledger = Ledger::new(program_id());
    let a = user(7);
    assert_eq!(create(&mut ledger, &a, "ipfs://one", 1), Ok(()));
    assert_eq!(
        create(&mut ledger, &a, "ipfs://two", 2),
        Err(InstructionError::AddressAlreadyOccupied)
    );
    assert_eq!(ledger.confessions.len(), 1);
    assert_eq!(ledger.confession(&confession_of(&a)).unwrap().content_uri, "ipfs://one");
    assert_eq!(create(&mut ledger, &user(8), "ipfs://two", 2), Ok(()));
    assert_eq!(ledger.confessions.len(), 2);
}

#[test]
fn create_at_a_foreign_address_is_rejected() {
    let mut ledger = Ledger::new(program_id());
    let ctx = CreateConfession { confession: confession_of(&user(2)), author: user(1) };
    assert_eq!(
        create_confession(&mut ledger, &ctx, "ipfs://abc".to_string(), 0),
        Err(InstructionError::AddressMismatch)
    );
    assert_eq!(ledger.confessions.len(), 0);
}

#[test]
fn create_without_a_derived_address_fails() {
    let mut ledger = Ledger::new(program_id());
    let ctx = CreateConfession { confession: user(9), author: user(1) };
    assert_eq!(
        create_confession_with(&mut ledger, &ctx, "ipfs://abc".to_string(), 0, None),
        Err(InstructionError::AddressDerivationFailed)
    );
    assert_eq!(
        create_confession_with(&mut ledger, &ctx, "ipfs://abc".to_string(), 4, Some((user(9), 251))),
        Ok(())
    );
    let rec = ledger.confession(&user(9)).unwrap();
    assert_eq!(rec.bump, 251);
    assert_eq!(rec.timestamp, 4);
}

#[test]
fn likes_count_up_one_by_one() {
    let mut ledger = Ledger::new(program_id());
    let f = confession_of(&user(1));
    assert_eq!(create(&mut ledger, &user(1), "ipfs://abc", 0), Ok(()));
    for n in 1..=25u64 {
        assert_eq!(like(&mut ledger, &f, &user(2)), Ok(()));
        assert_eq!(ledger.confession(&f).unwrap().like_count, n);
    }
    assert_eq!(ledger.confession(&f).unwrap().comment_count, 0);
}

#[test]
fn same_user_may_like_many_times() {
    let mut ledger = Ledger::new(program_id());
    let f = confession_of(&user(1));
    assert_eq!(create(&mut ledger, &user(1), "ipfs://abc", 0), Ok(()));
    assert_eq!(like(&mut ledger, &f, &user(1)), Ok(()));
    assert_eq!(like(&mut ledger, &f, &user(1)), Ok(()));
    assert_eq!(ledger.confession(&f).unwrap().like_count, 2);
}

#[test]
fn like_at_maximum_overflows_and_changes_nothing() {
    let mut ledger = Ledger::new(program_id());
    let f = user(5);
    ledger.confessions.push((
        f,
        ConfessionAccount {
            author: user(1),
            content_uri: "ipfs://abc".to_string(),
            like_count: u64::MAX,
            comment_count: 3,
            timestamp: 10,
            bump: 254,
        },
    ));
    assert_eq!(
        like(&mut ledger, &f, &user(2)),
        Err(InstructionError::Whisper(WhisperError::LikeCountOverflow))
    );
    let rec = ledger.confession(&f).unwrap();
    assert_eq!(rec.like_count, u64::MAX);
    assert_eq!(rec.comment_count, 3);
}

#[test]
fn like_of_missing_confession_fails() {
    let mut ledger = Ledger::new(program_id());
    assert_eq!(like(&mut ledger, &user(4), &user(2)), Err(InstructionError::AddressNotFound));
}

#[test]
fn comment_count_grows_once_per_commenter() {
    let mut ledger = Ledger::new(program_id());
    let f = confession_of(&user(1));
    assert_eq!(create(&mut ledger, &user(1), "ipfs://abc", 0), Ok(()));
    for n in 2..=6u8 {
        assert_eq!(comment(&mut ledger, &f, &user(n), "ipfs://c", 1), Ok(()));
        assert_eq!(ledger.confession(&f).unwrap().comment_count, (n - 1) as u64);
    }
    assert_eq!(
        comment(&mut ledger, &f, &user(3), "ipfs://d", 2),
        Err(InstructionError::AddressAlreadyOccupied)
    );
    assert_eq!(ledger.confession(&f).unwrap().comment_count, 5);
    assert_eq!(ledger.comments.len(), 5);
}

#[test]
fn comment_rejects_bad_uris() {
    let mut ledger = Ledger::new(program_id());
    let f = confession_of(&user(1));
    assert_eq!(create(&mut ledger, &user(1), "ipfs://abc", 0), Ok(()));
    assert_eq!(
        comment(&mut ledger, &f, &user(2), "", 1),
        Err(InstructionError::Whisper(WhisperError::EmptyContentUri))
    );
    assert_eq!(
        comment(&mut ledger, &f, &user(2), &"y".repeat(201), 1),
        Err(InstructionError::Whisper(WhisperError::ContentUriTooLong))
    );
    assert_eq!(ledger.confession(&f).unwrap().comment_count, 0);
    assert_eq!(ledger.comments.len(), 0);
    assert_eq!(comment(&mut ledger, &f, &user(2), &"y".repeat(200), 1), Ok(()));
}

#[test]
fn comment_on_missing_confession_fails() {
    let mut ledger = Ledger::new(program_id());
    let f = confession_of(&user(1));
    assert_eq!(comment(&mut ledger, &f, &user(2), "hi", 1), Err(InstructionError::AddressNotFound));
}

#[test]
fn comment_at_a_foreign_address_is_rejected() {
    let mut ledger = Ledger::new(program_id());
    let f = confession_of(&user(1));
    assert_eq!(create(&mut ledger, &user(1), "ipfs://abc", 0), Ok(()));
    let other = comment_address(&program_id(), &f, &user(3)).unwrap().0;
    let ctx = CommentConfession { confession: f, comment: other, commenter: user(2) };
    assert_eq!(
        comment_confession(&mut ledger, &ctx, "hi".to_string(), 1),
        Err(InstructionError::AddressMismatch)
    );
}

#[test]
fn comment_at_maximum_count_overflows_and_changes_nothing() {
    let mut ledger = Ledger::new(program_id());
    let f = user(5);
    ledger.confessions.push((
        f,
        ConfessionAccount {
            author: user(1),
            content_uri: "ipfs://abc".to_string(),
            like_count: 0,
            comment_count: u64::MAX,
            timestamp: 10,
            bump: 254,
        },
    ));
    let ctx = CommentConfession { confession: f, comment: user(6), commenter: user(2) };
    assert_eq!(
        comment_confession_with(&mut ledger, &ctx, "hi".to_string(), 1, Some((user(6), 200))),
        Err(InstructionError::Whisper(WhisperError::CommentCountOverflow))
    );
    assert_eq!(ledger.comments.len(), 0);
    assert_eq!(ledger.confession(&f).unwrap().comment_count, u64::MAX);
}

#[test]
fn addresses_of_distinct_authors_differ() {
    let a = confession_of(&user(1));
    let b = confession_of(&user(2));
    assert!(!a.same_as(&b));
    let c = comment_address(&program_id(), &a, &user(2)).unwrap().0;
    assert!(!c.same_as(&a) && !c.same_as(&b));
}

#[test]
fn derived_address_is_the_program_address() {
    let program = anchor_lang::prelude::Pubkey::from_str(PROGRAM).unwrap();
    let author = user(1);
    let (expected, bump) = anchor_lang::prelude::Pubkey::find_program_address(
        &[b"confession", author.bytes.as_ref()],
        &program,
    );
    let (address, got) = confession_address(&program_id(), &author).unwrap();
    assert_eq!(address.bytes, expected.to_bytes());
    assert_eq!(got, bump);
    assert!(!address.same_as(&author));
    let (expected, bump) = anchor_lang::prelude::Pubkey::find_program_address(
        &[b"comment", address.bytes.as_ref(), author.bytes.as_ref()],
        &program,
    );
    let (comment, got) = comment_address(&program_id(), &address, &author).unwrap();
    assert_eq!(comment.bytes, expected.to_bytes());
    assert_eq!(got, bump);
}

#[test]
fn account_sizes() {
    assert_eq!(ConfessionAccount::SPACE, 269);
    assert_eq!(CommentAccount::SPACE, 285);
    assert_eq!(ConfessionAccount::MAX_URI_LENGTH, 200);
    assert_eq!(CommentAccount::MAX_URI_LENGTH, 200);
}

#[test]
fn error_messages() {
    assert_eq!(WhisperError::ContentUriTooLong.message(), "Content URI exceeds maximum allowed length");
    assert_eq!(WhisperError::EmptyContentUri.message(), "Content URI cannot be empty");
    assert_eq!(WhisperError::LikeCountOverflow.message(), "Like count overflow");
    assert_eq!(WhisperError::CommentCountOverflow.message(), "Comment count overflow");
}
