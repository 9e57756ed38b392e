use jormungandr::block::{Block, BlockDate, ChainLength, Header, HeaderHash};
use jormungandr::blockchain::{
    Blockchain, Branch, Error, ErrorKind, LoadFromBlock0, LoadFromStorage, PostCheck, PreCheck,
    PreCheckedHeader, Ref, Reply, Request, Step, Verification,
};
use std::sync::Arc;
use std::time::Duration;

type Chain = Blockchain<u32, &'static str>;
type Answer = Reply<&'static str, u32, &'static str>;

fn id(low: u128) -> HeaderHash {
    HeaderHash { high: 0, low }
}

fn header(own: u128, parent: u128, epoch: u32, slot_id: u32, length: u32) -> Header {
    Header {
        hash: id(own),
        parent_hash: id(parent),
        block_date: BlockDate { epoch, slot_id },
        chain_length: ChainLength(length),
    }
}

fn block(header: Header, body: &'static str) -> Block<&'static str> {
    Block {
        header,
        body: Arc::new(body),
    }
}

fn genesis() -> Block<&'static str> {
    block(header(100, 0, 0, 0, 0), "genesis")
}

fn new_chain() -> Chain {
    Blockchain::new(Duration::from_secs(60))
}

fn step0(
    chain: &mut Chain,
    task: LoadFromBlock0<&'static str, u32>,
    reply: Answer,
) -> Step<LoadFromBlock0<&'static str, u32>, Branch> {
    assert!(task.accepts(&reply));
    chain.resume_load_from_block0(task, reply)
}

fn run0(chain: &mut Chain, replies: Vec<Answer>) -> Step<LoadFromBlock0<&'static str, u32>, Branch> {
    let mut step = Step::Pending(chain.load_from_block0(genesis()));
    for reply in replies {
        step = match step {
            Step::Pending(task) => step0(chain, task, reply),
            Step::Done(_) => panic!("a reply after the end"),
        };
    }
    step
}

fn good_start() -> Vec<Answer> {
    vec![
        Reply::Exists(Ok(false)),
        Reply::Ledger(Ok(10)),
        Reply::Leadership("epoch 0"),
        Reply::Stored(Ok(())),
        Reply::Stored(Ok(())),
    ]
}

fn loaded_chain() -> Chain {
    let mut chain = new_chain();
    match run0(&mut chain, good_start()) {
        Step::Done(Ok(_)) => chain,
        other => panic!("{:?}", other),
    }
}

fn run_storage(
    chain: &mut Chain,
    replies: Vec<Answer>,
) -> Step<LoadFromStorage<&'static str, u32, &'static str>, Branch> {
    let mut step = Step::Pending(chain.load_from_storage(genesis()));
    for reply in replies {
        step = match step {
            Step::Pending(task) => {
                assert!(chain.accepts_load_from_storage(&task, &reply));
                chain.resume_load_from_storage(task, reply)
            }
            Step::Done(_) => panic!("a reply after the end"),
        };
    }
    step
}

fn to_stream() -> Vec<Answer> {
    vec![
        Reply::Exists(Ok(true)),
        Reply::Tag(Ok(Some(id(102)))),
        Reply::Ledger(Ok(10)),
        Reply::Leadership("epoch 0"),
        Reply::Stream(Ok(true)),
    ]
}

fn failure<T: std::fmt::Debug, R: std::fmt::Debug>(step: Step<T, R>) -> Error {
    match step {
        Step::Done(Err(error)) => error,
        other => panic!("{:?}", other),
    }
}

fn cached(chain: &Chain, hash: HeaderHash) -> Ref<u32, &'static str> {
    match chain.get_ref(hash) {
        Step::Done(Ok(Some(reference))) => reference,
        other => panic!("{:?}", other),
    }
}

fn pre_check(chain: &Chain, header: Header) -> Step<PreCheck, PreCheckedHeader<u32, &'static str>> {
    let mut step = chain.pre_check_header(header);
    loop {
        step = match step {
            Step::Pending(task) => chain.resume_pre_check(task, Ok(false)),
            done => return done,
        };
    }
}

#[test]
fn a_new_chain_knows_no_block() {
    let chain = new_chain();
    assert_eq!(*chain.ref_cache_ttl(), Duration::from_secs(60));
    assert!(!chain.has_states(&id(100)));
    assert!(!chain.has_ref(&id(100)));
    assert!(!chain.has_branch(Branch { index: 0 }));
    assert!(chain.branch_ref(Branch { index: 0 }).is_none());
    match chain.get_ref(id(100)) {
        Step::Pending(task) => {
            assert_eq!(task.header_hash, id(100));
            let found: Result<Option<Ref<u32, &'static str>>, Error> = task.resume(Ok(false));
            assert!(matches!(found, Ok(None)));
            let lost: Result<Option<Ref<u32, &'static str>>, Error> =
                task.resume(Err("disk".to_string()));
            let error = lost.unwrap_err();
            assert_eq!(error.kind.message(), "cannot check if the block is in the storage");
            assert_eq!(error.cause, Some("disk".to_string()));
        }
        other => panic!("{:?}", other),
    }
}

#[test]
fn a_first_block_is_applied_then_stored_then_tagged() {
    let mut chain = new_chain();
    let task = chain.load_from_block0(genesis());
    assert!(matches!(task.request::<&'static str>(), Request::BlockExists(h) if h == id(100)));
    let task = match step0(&mut chain, task, Reply::Exists(Ok(false))) {
        Step::Pending(task) => task,
        other => panic!("{:?}", other),
    };
    assert!(matches!(
        task.request::<&'static str>(),
        Request::NewLedger { block_id, body } if block_id == id(100) && *body == "genesis"
    ));
    let task = match step0(&mut chain, task, Reply::Ledger(Ok(10))) {
        Step::Pending(task) => task,
        other => panic!("{:?}", other),
    };
    assert!(matches!(
        task.request::<&'static str>(),
        Request::NewLeadership { epoch: 0, ledger } if *ledger == 10
    ));
    assert!(!chain.has_ref(&id(100)));
    let task = match step0(&mut chain, task, Reply::Leadership("epoch 0")) {
        Step::Pending(task) => task,
        other => panic!("{:?}", other),
    };
    assert!(chain.has_ref(&id(100)));
    assert!(matches!(
        task.request::<&'static str>(),
        Request::PutBlock(b) if b.header == genesis().header && *b.body == "genesis"
    ));
    let task = match step0(&mut chain, task, Reply::Stored(Ok(()))) {
        Step::Pending(task) => task,
        other => panic!("{:?}", other),
    };
    assert!(matches!(
        task.request::<&'static str>(),
        Request::PutTag("HEAD", h) if h == id(100)
    ));
    match step0(&mut chain, task, Reply::Stored(Ok(()))) {
        Step::Done(Ok(branch)) => {
            let tip = chain.branch_ref(branch).unwrap();
            assert_eq!(tip.header, genesis().header);
            assert_eq!(*tip.ledger, 10);
            assert_eq!(*tip.leadership, "epoch 0");
        }
        other => panic!("{:?}", other),
    }
    let reference = cached(&chain, id(100));
    assert_eq!(reference.hash(), id(100));
    assert_eq!(reference.block_date(), BlockDate { epoch: 0, slot_id: 0 });
    assert_eq!(reference.chain_length(), ChainLength(0));
}

#[test]
fn a_first_block_fails_to_load_in_five_ways() {
    let mut chain = new_chain();
    let error = failure(run0(&mut chain, vec![Reply::Exists(Ok(true))]));
    assert!(matches!(error.kind, ErrorKind::Block0AlreadyInStorage));
    assert_eq!(error.cause, None);

    let error = failure(run0(&mut chain, vec![Reply::Exists(Err("io".to_string()))]));
    assert_eq!(error.kind.message(), "Cannot check if block0 is in storage");
    assert_eq!(error.cause, Some("io".to_string()));

    let error = failure(run0(
        &mut chain,
        vec![Reply::Exists(Ok(false)), Reply::Ledger(Err("empty".to_string()))],
    ));
    assert!(matches!(error.kind, ErrorKind::Block0InitialLedgerError));
    assert_eq!(error.cause, Some("empty".to_string()));
    assert!(!chain.has_states(&id(100)));

    let mut replies = good_start();
    replies.truncate(3);
    replies.push(Reply::Stored(Err("full".to_string())));
    let error = failure(run0(&mut chain, replies));
    assert_eq!(error.kind.message(), "Cannot put block0 in storage");

    let mut replies = good_start();
    replies.truncate(4);
    replies.push(Reply::Stored(Err("full".to_string())));
    let error = failure(run0(&mut chain, replies));
    assert_eq!(error.kind.message(), "Cannot put block0's hash in the HEAD tag");
}

#[test]
fn a_reply_to_something_else_is_not_accepted() {
    let chain = new_chain();
    let task = chain.load_from_block0(genesis());
    let reply: Answer = Reply::Ledger(Ok(1));
    assert!(!task.accepts(&reply));
    let task = chain.load_from_storage(genesis());
    assert!(!chain.accepts_load_from_storage(&task, &reply));
    let task = LoadFromStorage::Next { branch: Branch { index: 0 } };
    let reply: Answer = Reply::Block(Ok(None));
    assert!(!chain.accepts_load_from_storage(&task, &reply));
}

#[test]
fn exactly_one_way_to_bring_up_goes_on() {
    for stored in [false, true] {
        let mut chain = new_chain();
        let first = run0(&mut chain, vec![Reply::Exists(Ok(stored))]);
        let again = run_storage(&mut chain, vec![Reply::Exists(Ok(stored))]);
        assert_eq!(matches!(first, Step::Pending(_)), !stored);
        assert_eq!(matches!(again, Step::Pending(_)), stored);
    }
}

#[test]
fn a_chain_is_loaded_from_the_storage_up_to_its_head() {
    let mut chain = new_chain();
    let one = header(101, 100, 0, 7, 1);
    let two = header(102, 101, 1, 0, 2);
    let mut replies = to_stream();
    replies.push(Reply::Block(Ok(Some(block(one, "one")))));
    replies.push(Reply::Exists(Ok(true)));
    replies.push(Reply::Verified(Verification::Success));
    replies.push(Reply::Ledger(Ok(11)));
    replies.push(Reply::Block(Ok(Some(block(two, "two")))));
    replies.push(Reply::Exists(Ok(true)));
    replies.push(Reply::Leadership("epoch 1"));
    replies.push(Reply::Verified(Verification::Success));
    replies.push(Reply::Ledger(Ok(12)));
    replies.push(Reply::Block(Ok(None)));
    let branch = match run_storage(&mut chain, replies) {
        Step::Done(Ok(branch)) => branch,
        other => panic!("{:?}", other),
    };
    let tip = chain.branch_ref(branch).unwrap();
    assert_eq!(tip.header, two);
    assert_eq!(*tip.ledger, 12);
    assert_eq!(*tip.leadership, "epoch 1");
    let middle = cached(&chain, id(101));
    assert_eq!(middle.header, one);
    assert_eq!(*middle.ledger, 11);
    assert_eq!(*middle.leadership, "epoch 0");
    assert_eq!(cached(&chain, id(100)).header, genesis().header);
}

#[test]
fn a_storage_that_denies_a_block_it_gave_does_not_stop_the_loading() {
    let mut chain = new_chain();
    let one = header(101, 100, 0, 7, 1);
    let mut replies = to_stream();
    replies.push(Reply::Block(Ok(Some(block(one, "one")))));
    replies.push(Reply::Exists(Ok(false)));
    replies.push(Reply::Verified(Verification::Success));
    replies.push(Reply::Ledger(Ok(11)));
    replies.push(Reply::Block(Ok(None)));
    match run_storage(&mut chain, replies) {
        Step::Done(Ok(branch)) => {
            assert_eq!(branch, Branch { index: 0 });
            assert_eq!(chain.branch_ref(branch).unwrap().header, one);
        }
        other => panic!("{:?}", other),
    }
}

#[test]
fn a_longer_chain_is_loaded_beside_another_fork() {
    let mut chain = loaded_chain();
    let first = block(header(500, 0, 0, 0, 0), "first");
    let mut step = Step::Pending(chain.load_from_storage(first));
    let mut replies = to_stream();
    for i in 1..=20u32 {
        let next = header(500 + i as u128, 499 + i as u128, i / 7, i, i);
        replies.push(Reply::Block(Ok(Some(block(next, "body")))));
        replies.push(Reply::Exists(Ok(true)));
        if i % 7 == 0 {
            replies.push(Reply::Leadership("new epoch"));
        }
        replies.push(Reply::Verified(Verification::Success));
        replies.push(Reply::Ledger(Ok(10 + i)));
    }
    replies.push(Reply::Block(Ok(None)));
    for reply in replies {
        step = match step {
            Step::Pending(task) => {
                assert!(chain.accepts_load_from_storage(&task, &reply));
                chain.resume_load_from_storage(task, reply)
            }
            Step::Done(_) => panic!("a reply after the end"),
        };
    }
    match step {
        Step::Done(Ok(branch)) => {
            assert_eq!(branch, Branch { index: 1 });
            let tip = chain.branch_ref(branch).unwrap();
            assert_eq!(tip.hash(), id(520));
            assert_eq!(*tip.ledger, 30);
            assert_eq!(*tip.leadership, "new epoch");
        }
        other => panic!("{:?}", other),
    }
    assert_eq!(*cached(&chain, id(506)).leadership, "epoch 0");
    assert_eq!(*cached(&chain, id(507)).leadership, "new epoch");
    assert_eq!(chain.branch_ref(Branch { index: 0 }).unwrap().hash(), id(100));
}

#[test]
fn what_is_asked_for_while_loading_from_the_storage() {
    let mut chain = new_chain();
    let mut step = Step::Pending(chain.load_from_storage(genesis()));
    let one = header(101, 100, 1, 0, 1);
    let mut replies = to_stream();
    replies.push(Reply::Block(Ok(Some(block(one, "one")))));
    replies.push(Reply::Exists(Ok(true)));
    replies.push(Reply::Leadership("epoch 1"));
    replies.push(Reply::Verified(Verification::Success));
    replies.push(Reply::Ledger(Ok(11)));
    replies.push(Reply::Block(Ok(None)));
    let mut asked = Vec::new();
    for reply in replies {
        step = match step {
            Step::Pending(task) => {
                asked.push(task.request());
                chain.resume_load_from_storage(task, reply)
            }
            Step::Done(_) => panic!("a reply after the end"),
        };
    }
    assert!(matches!(step, Step::Done(Ok(_))));
    assert_eq!(asked.len(), 11);
    assert!(matches!(asked[0], Request::BlockExists(h) if h == id(100)));
    assert!(matches!(asked[1], Request::GetTag("HEAD")));
    assert!(matches!(&asked[2], Request::NewLedger { block_id, body }
        if *block_id == id(100) && **body == "genesis"));
    assert!(matches!(&asked[3], Request::NewLeadership { epoch: 0, ledger } if **ledger == 10));
    assert!(matches!(asked[4], Request::StreamFromTo { from, to }
        if from == id(100) && to == id(102)));
    assert!(matches!(asked[5], Request::NextBlock));
    assert!(matches!(asked[6], Request::BlockExists(h) if h == id(101)));
    assert!(matches!(&asked[7], Request::NewLeadership { epoch: 1, ledger } if **ledger == 10));
    assert!(matches!(&asked[8], Request::VerifyHeader { header, body, leadership }
        if *header == one && **body == "one" && **leadership == "epoch 1"));
    assert!(matches!(&asked[9], Request::ApplyLedger { ledger, leadership, header, body }
        if **ledger == 10 && **leadership == "epoch 1" && *header == one && **body == "one"));
    assert!(matches!(asked[10], Request::NextBlock));
}

#[test]
fn loading_again_gives_what_loading_the_first_block_gave() {
    let first = loaded_chain();
    let mut again = new_chain();
    let mut replies = to_stream();
    replies.push(Reply::Block(Ok(None)));
    match run_storage(&mut again, replies) {
        Step::Done(Ok(branch)) => {
            let tip = again.branch_ref(branch).unwrap();
            let earlier = first.branch_ref(branch).unwrap();
            assert_eq!(tip.header, earlier.header);
            assert_eq!(tip.ledger, earlier.ledger);
            assert_eq!(tip.leadership, earlier.leadership);
        }
        other => panic!("{:?}", other),
    }
}

#[test]
fn a_chain_fails_to_load_from_the_storage() {
    let mut chain = new_chain();
    let error = failure(run_storage(&mut chain, vec![Reply::Exists(Ok(false))]));
    assert!(matches!(error.kind, ErrorKind::Block0NotAlreadyInStorage));

    let error = failure(run_storage(&mut chain, vec![Reply::Exists(Err("io".to_string()))]));
    assert_eq!(error.kind.message(), "Cannot check if block0 is in storage");

    let error = failure(run_storage(
        &mut chain,
        vec![Reply::Exists(Ok(true)), Reply::Tag(Ok(None))],
    ));
    assert!(matches!(error.kind, ErrorKind::NoTag("HEAD")));
    assert_eq!(error.kind.message(), "Tag 'HEAD' not found in the storage");

    let error = failure(run_storage(
        &mut chain,
        vec![Reply::Exists(Ok(true)), Reply::Tag(Err("io".to_string()))],
    ));
    assert_eq!(error.kind.message(), "Cannot get hash of the HEAD tag");

    let error = failure(run_storage(
        &mut chain,
        vec![
            Reply::Exists(Ok(true)),
            Reply::Tag(Ok(Some(id(100)))),
            Reply::Ledger(Err("empty".to_string())),
        ],
    ));
    assert!(matches!(error.kind, ErrorKind::Block0InitialLedgerError));

    let mut replies = to_stream();
    replies.truncate(4);
    replies.push(Reply::Stream(Ok(false)));
    let error = failure(run_storage(&mut new_chain(), replies));
    assert_eq!(error.kind.message(), "Cannot iterate between block0 and HEAD");

    let mut replies = to_stream();
    replies.truncate(4);
    replies.push(Reply::Stream(Err("io".to_string())));
    let error = failure(run_storage(&mut new_chain(), replies));
    assert_eq!(error.kind.message(), "Cannot iterate blocks from block0 to HEAD");

    let mut replies = to_stream();
    replies.push(Reply::Block(Err("io".to_string())));
    let error = failure(run_storage(&mut new_chain(), replies));
    assert_eq!(error.kind.message(), "Error while iterating between bloc0 and HEAD");
}

#[test]
fn a_block_on_the_way_is_rejected() {
    let mut replies = to_stream();
    replies.push(Reply::Block(Ok(Some(block(header(101, 100, 0, 0, 1), "one")))));
    replies.push(Reply::Exists(Ok(true)));
    let error = failure(run_storage(&mut new_chain(), replies));
    assert_eq!(error.kind.message(), "block is not valid, date is set before parent's");

    let mut replies = to_stream();
    replies.push(Reply::Block(Ok(Some(block(header(101, 100, 0, 1, 1), "one")))));
    replies.push(Reply::Exists(Err("io".to_string())));
    let error = failure(run_storage(&mut new_chain(), replies));
    assert_eq!(error.kind.message(), "cannot check if the block is in the storage");

    let mut replies = to_stream();
    replies.push(Reply::Block(Ok(Some(block(header(101, 55, 0, 1, 1), "one")))));
    replies.push(Reply::Exists(Ok(true)));
    replies.push(Reply::Exists(Err("io".to_string())));
    let error = failure(run_storage(&mut new_chain(), replies));
    assert_eq!(error.kind.message(), "cannot check if the block is in the storage");

    let mut replies = to_stream();
    replies.push(Reply::Block(Ok(Some(block(header(101, 100, 0, 1, 1), "one")))));
    replies.push(Reply::Exists(Ok(true)));
    replies.push(Reply::Verified(Verification::Failure("not a leader".to_string())));
    let error = failure(run_storage(&mut new_chain(), replies));
    assert_eq!(error.kind.description(), "Block header verification failed");
    assert_eq!(
        error.kind.message(),
        "The block header verification failed: not a leader"
    );

    let mut replies = to_stream();
    replies.push(Reply::Block(Ok(Some(block(header(101, 100, 0, 1, 1), "one")))));
    replies.push(Reply::Exists(Ok(true)));
    replies.push(Reply::Verified(Verification::Success));
    replies.push(Reply::Ledger(Err("double spend".to_string())));
    let mut chain = new_chain();
    let error = failure(run_storage(&mut chain, replies));
    assert!(matches!(error.kind, ErrorKind::CannotApplyBlock));
    assert_eq!(error.cause, Some("double spend".to_string()));
    assert!(!chain.has_states(&id(101)));
    assert_eq!(
        chain.branch_ref(Branch { index: 0 }).unwrap().header,
        genesis().header
    );
}

#[test]
fn a_loading_that_fails_leaves_what_it_had_taken() {
    let mut chain = loaded_chain();
    let first = block(header(500, 0, 0, 0, 0), "first");
    let one = header(501, 500, 0, 1, 1);
    let two = header(502, 501, 0, 1, 2);
    let mut step = Step::Pending(chain.load_from_storage(first));
    let mut replies = to_stream();
    replies.push(Reply::Block(Ok(Some(block(one, "one")))));
    replies.push(Reply::Exists(Ok(true)));
    replies.push(Reply::Verified(Verification::Success));
    replies.push(Reply::Ledger(Ok(21)));
    replies.push(Reply::Block(Ok(Some(block(two, "two")))));
    replies.push(Reply::Exists(Ok(true)));
    let mut recorded = Vec::new();
    for reply in replies {
        step = match step {
            Step::Pending(task) => {
                assert!(chain.accepts_load_from_storage(&task, &reply));
                recorded.extend(task.records());
                chain.resume_load_from_storage(task, reply)
            }
            Step::Done(_) => panic!("a reply after the end"),
        };
    }
    let error = failure(step);
    assert_eq!(error.kind.message(), "block is not valid, date is set before parent's");
    assert_eq!(recorded, vec![id(500), id(501)]);
    assert_eq!(chain.branch_ref(Branch { index: 1 }).unwrap().header, one);
    assert!(!chain.has_branch(Branch { index: 2 }));
    assert_eq!(*cached(&chain, id(501)).ledger, 21);
    assert_eq!(*cached(&chain, id(501)).leadership, "epoch 0");
    assert!(!chain.has_ref(&id(502)));
    assert!(!chain.has_states(&id(502)));
    assert_eq!(*cached(&chain, id(100)).ledger, 10);
    assert_eq!(chain.branch_ref(Branch { index: 0 }).unwrap().hash(), id(100));
}

#[test]
fn a_first_block_that_cannot_be_stored_stays_in_the_chain() {
    let mut chain = new_chain();
    let mut step = Step::Pending(chain.load_from_block0(genesis()));
    let mut replies = good_start();
    replies.truncate(3);
    replies.push(Reply::Stored(Err("full".to_string())));
    let mut recorded = Vec::new();
    for reply in replies {
        step = match step {
            Step::Pending(task) => {
                recorded.extend(task.records());
                step0(&mut chain, task, reply)
            }
            Step::Done(_) => panic!("a reply after the end"),
        };
    }
    assert_eq!(failure(step).cause, Some("full".to_string()));
    assert_eq!(recorded, vec![id(100)]);
    assert_eq!(chain.branch_ref(Branch { index: 0 }).unwrap().hash(), id(100));
    assert_eq!(*cached(&chain, id(100)).ledger, 10);

    let mut chain = new_chain();
    let replies = vec![Reply::Exists(Ok(false)), Reply::Ledger(Err("empty".to_string()))];
    failure(run0(&mut chain, replies));
    assert!(!chain.has_ref(&id(100)));
    assert!(!chain.has_branch(Branch { index: 0 }));
}

#[test]
fn loading_does_not_go_on_with_a_block_that_is_known_or_has_no_parent() {
    let chain = loaded_chain();
    let branch = Branch { index: 0 };
    let known = block(genesis().header, "again");
    let next = LoadFromStorage::Next { branch };
    assert!(!chain.accepts_load_from_storage(&next, &Reply::Block(Ok(Some(known)))));

    let fresh = header(101, 100, 0, 1, 1);
    let own = LoadFromStorage::PreCheck {
        branch,
        block: block(fresh, "one"),
        task: PreCheck::Own(fresh),
    };
    assert!(chain.accepts_load_from_storage(&own, &Reply::Exists(Ok(true))));
    assert!(chain.accepts_load_from_storage(&own, &Reply::Exists(Ok(false))));

    let parent = LoadFromStorage::PreCheck {
        branch,
        block: block(fresh, "one"),
        task: PreCheck::Parent(fresh),
    };
    assert!(!chain.accepts_load_from_storage(&parent, &Reply::Exists(Ok(false))));
    assert!(!chain.accepts_load_from_storage(&parent, &Reply::Exists(Ok(true))));
    assert!(chain.accepts_load_from_storage(&parent, &Reply::Exists(Err("io".to_string()))));

    let other = LoadFromStorage::PreCheck {
        branch,
        block: block(fresh, "one"),
        task: PreCheck::Own(header(102, 100, 0, 1, 1)),
    };
    assert!(!chain.accepts_load_from_storage(&other, &Reply::Exists(Ok(false))));
}

#[test]
fn the_first_check_tells_present_missing_and_new_apart() {
    let chain = loaded_chain();
    match chain.pre_check_header(genesis().header) {
        Step::Done(Ok(PreCheckedHeader::AlreadyPresent {
            header,
            cached_reference: Some(reference),
        })) => {
            assert_eq!(header, genesis().header);
            assert_eq!(reference.hash(), id(100));
        }
        other => panic!("{:?}", other),
    }

    let stray = header(7, 6, 3, 3, 3);
    match chain.pre_check_header(stray) {
        Step::Pending(task) => {
            assert_eq!(task.block_id(), id(7));
            match chain.resume_pre_check(task, Ok(false)) {
                Step::Pending(task) => {
                    assert_eq!(task.block_id(), id(6));
                    assert!(matches!(
                        chain.resume_pre_check(task, Ok(false)),
                        Step::Done(Ok(PreCheckedHeader::MissingParent { header })) if header == stray
                    ));
                    let error = failure(chain.resume_pre_check(task, Err("io".to_string())));
                    assert_eq!(error.cause, Some("io".to_string()));
                }
                other => panic!("{:?}", other),
            }
        }
        other => panic!("{:?}", other),
    }

    let child = header(101, 100, 0, 1, 1);
    match pre_check(&chain, child) {
        Step::Done(Ok(PreCheckedHeader::HeaderWithCache { header, parent_ref })) => {
            assert_eq!(header, child);
            assert_eq!(parent_ref.hash(), id(100));
            assert!(chain.has_states(&parent_ref.hash()));
        }
        other => panic!("{:?}", other),
    }
}

#[test]
fn a_block_that_only_the_storage_has_is_present_without_a_reference() {
    let mut chain = loaded_chain();
    chain.expire_ref(&id(100));
    let first = genesis().header;
    for begun in [chain.pre_check_header(first), chain.load_header_parent(first)] {
        let task = match begun {
            Step::Pending(task) => task,
            other => panic!("{:?}", other),
        };
        assert_eq!(task.block_id(), id(100));
        for outcome in [
            chain.resume_pre_check(task, Ok(true)),
            chain.resume_load_header_parent(task, Ok(true)),
        ] {
            match outcome {
                Step::Done(Ok(PreCheckedHeader::AlreadyPresent {
                    header,
                    cached_reference: None,
                })) => assert_eq!(header, first),
                other => panic!("{:?}", other),
            }
        }
    }
}

#[test]
fn the_search_for_the_parent_does_not_judge_the_header() {
    let chain = loaded_chain();
    assert!(matches!(
        chain.load_header_parent(genesis().header),
        Step::Done(Ok(PreCheckedHeader::AlreadyPresent { header, cached_reference: Some(r) }))
            if header == genesis().header && r.hash() == id(100)
    ));

    let early = header(101, 100, 0, 0, 9);
    match chain.load_header_parent(early) {
        Step::Pending(task) => {
            match chain.resume_load_header_parent(task, Ok(false)) {
                Step::Done(Ok(PreCheckedHeader::HeaderWithCache { header, parent_ref })) => {
                    assert_eq!(header, early);
                    assert_eq!(parent_ref.hash(), id(100));
                }
                other => panic!("{:?}", other),
            }
            let error = failure(chain.resume_load_header_parent(task, Err("io".to_string())));
            assert_eq!(error.kind.message(), "cannot check if the block is in the storage");
            assert_eq!(error.cause, Some("io".to_string()));
        }
        other => panic!("{:?}", other),
    }
    let error = failure(pre_check(&chain, early));
    assert_eq!(error.kind.message(), "block is not valid, date is set before parent's");

    let stray = header(7, 6, 3, 3, 3);
    assert!(matches!(
        chain.resume_load_header_parent(PreCheck::Own(stray), Ok(false)),
        Step::Pending(PreCheck::Parent(header)) if header == stray
    ));
    assert!(matches!(
        chain.resume_load_header_parent(PreCheck::Parent(stray), Ok(false)),
        Step::Done(Ok(PreCheckedHeader::MissingParent { header })) if header == stray
    ));
    let error = failure(chain.resume_load_header_parent(
        PreCheck::Parent(stray),
        Err("io".to_string()),
    ));
    assert_eq!(error.cause, Some("io".to_string()));
}

#[test]
fn a_header_has_to_be_later_and_one_further_than_its_parent() {
    let mut chain = new_chain();
    let start = block(header(100, 0, 5, 5, 9), "genesis");
    let mut step = Step::Pending(chain.load_from_block0(start));
    for reply in good_start() {
        step = match step {
            Step::Pending(task) => step0(&mut chain, task, reply),
            Step::Done(_) => panic!("a reply after the end"),
        };
    }
    let date = "block is not valid, date is set before parent's";
    let length = "block is not valid, chain length is not monotonically increasing";
    let cases = [
        (5, 5, 10, Some(date)),
        (5, 4, 10, Some(date)),
        (4, 9, 10, Some(date)),
        (4, 9, 8, Some(date)),
        (5, 6, 9, Some(length)),
        (5, 6, 8, Some(length)),
        (5, 6, 11, Some(length)),
        (6, 0, 0, Some(length)),
        (5, 6, 10, None),
        (6, 0, 10, None),
    ];
    for (epoch, slot_id, chain_length, expected) in cases {
        let outcome = pre_check(&chain, header(101, 100, epoch, slot_id, chain_length));
        match expected {
            Some(text) => assert_eq!(failure(outcome).kind.message(), text),
            None => assert!(matches!(
                outcome,
                Step::Done(Ok(PreCheckedHeader::HeaderWithCache { .. }))
            )),
        }
    }
}

#[test]
fn nothing_follows_the_greatest_chain_length() {
    assert!(ChainLength(1).follows(&ChainLength(0)));
    assert!(ChainLength(u32::MAX).follows(&ChainLength(u32::MAX - 1)));
    assert!(!ChainLength(0).follows(&ChainLength(u32::MAX)));
    assert!(!ChainLength(u32::MAX).follows(&ChainLength(u32::MAX)));
    assert!(!ChainLength(0).follows(&ChainLength(1)));
}

#[test]
fn a_schedule_lasts_an_epoch() {
    let chain = loaded_chain();
    let parent = cached(&chain, id(100));
    let same = header(101, 100, 0, 1, 1);
    match chain.post_check_header(same, parent.clone()) {
        PostCheck::Verify(task) => {
            assert_eq!(task.candidate.header, same);
            assert_eq!(*task.candidate.leadership_schedule, "epoch 0");
            assert_eq!(*task.candidate.parent_ledger_state, 10);
        }
        other => panic!("{:?}", other),
    }
    let next = header(102, 100, 3, 0, 1);
    match chain.post_check_header(next, parent) {
        PostCheck::Schedule(task) => {
            assert_eq!(task.header, next);
            assert_eq!(task.epoch, 3);
            assert_eq!(*task.parent_ledger_state, 10);
            let task = task.resume("epoch 3");
            assert_eq!(*task.candidate.leadership_schedule, "epoch 3");
            let error = task.resume(Verification::Failure("no".to_string())).unwrap_err();
            assert_eq!(error.kind.message(), "The block header verification failed: no");
        }
        other => panic!("{:?}", other),
    }
}

#[test]
fn an_applied_block_is_found_and_can_be_built_on() {
    let mut chain = loaded_chain();
    let parent = cached(&chain, id(100));
    let one = header(101, 100, 0, 1, 1);
    let checked = match chain.post_check_header(one, parent.clone()) {
        PostCheck::Verify(task) => task.resume(Verification::Success).unwrap(),
        other => panic!("{:?}", other),
    };
    let task = chain.apply_block(checked, block(one, "one"));
    assert_eq!(*task.body, "one");
    let reference = chain.resume_apply_block(task, Ok(11)).unwrap();
    assert_eq!(*reference.ledger, 11);
    assert_eq!(*reference.leadership, "epoch 0");
    assert_eq!(cached(&chain, id(101)).header, one);
    assert_eq!(*cached(&chain, id(100)).ledger, 10);

    let previous = chain.update_branch(Branch { index: 0 }, reference);
    assert_eq!(previous.hash(), id(100));
    assert_eq!(chain.branch_ref(Branch { index: 0 }).unwrap().hash(), id(101));

    assert!(matches!(
        pre_check(&chain, header(102, 101, 0, 2, 2)),
        Step::Done(Ok(PreCheckedHeader::HeaderWithCache { parent_ref, .. }))
            if *parent_ref.ledger == 11
    ));

    let two = header(102, 100, 0, 1, 1);
    let checked = match chain.post_check_header(two, parent) {
        PostCheck::Verify(task) => task.resume(Verification::Success).unwrap(),
        other => panic!("{:?}", other),
    };
    let task = chain.apply_block(checked, block(two, "two"));
    let error = chain.resume_apply_block(task, Err("bad".to_string())).unwrap_err();
    assert_eq!(
        error.kind.description(),
        "Block cannot be applied on top of the previous block's ledger state"
    );
    assert!(!chain.has_ref(&id(102)));
}

#[test]
fn a_reference_that_is_let_go_of_leaves_its_states() {
    let mut chain = loaded_chain();
    chain.expire_ref(&id(100));
    assert!(!chain.has_ref(&id(100)));
    assert!(chain.has_states(&id(100)));
    assert!(matches!(chain.get_ref(id(100)), Step::Pending(task) if task.header_hash == id(100)));
    chain.expire_ref(&id(3));
    assert!(chain.has_states(&id(100)));
}

#[test]
fn many_blocks_are_found_under_their_own_identifiers() {
    let mut chain = new_chain();
    let mut hashes = Vec::new();
    for i in 0..200u128 {
        let hash = HeaderHash {
            high: (i * 37) % 11,
            low: (i * 101) % 199,
        };
        hashes.push(hash);
        let first = Block {
            header: Header {
                hash,
                parent_hash: id(0),
                block_date: BlockDate { epoch: 0, slot_id: 0 },
                chain_length: ChainLength(0),
            },
            body: Arc::new("genesis"),
        };
        let mut step = Step::Pending(chain.load_from_block0(first));
        let replies: Vec<Answer> = vec![
            Reply::Exists(Ok(false)),
            Reply::Ledger(Ok(i as u32)),
            Reply::Leadership("epoch 0"),
        ];
        for reply in replies {
            step = match step {
                Step::Pending(task) => step0(&mut chain, task, reply),
                Step::Done(_) => panic!("a reply after the end"),
            };
        }
    }
    for (i, hash) in hashes.iter().enumerate() {
        let reference = cached(&chain, *hash);
        assert_eq!(reference.hash(), *hash);
        assert_eq!(*reference.ledger, i as u32);
        assert_eq!(chain.branch_ref(Branch { index: i }).unwrap().hash(), *hash);
    }
    for hash in hashes.iter().step_by(3) {
        chain.expire_ref(hash);
    }
    for (i, hash) in hashes.iter().enumerate() {
        assert_eq!(chain.has_ref(hash), i % 3 != 0);
        assert!(chain.has_states(hash));
    }
    assert!(!chain.has_ref(&HeaderHash { high: 99, low: 0 }));
}

#[test]
fn every_kind_of_failure_has_its_text() {
    let kinds = [
        (
            ErrorKind::Block0InitialLedgerError,
            "Error while creating the initial ledger out of the block0",
        ),
        (
            ErrorKind::Block0AlreadyInStorage,
            "Block0 already exists in the storage",
        ),
        (
            ErrorKind::Block0NotAlreadyInStorage,
            "Block0 already is not yet in the storage",
        ),
        (
            ErrorKind::CannotApplyBlock,
            "Block cannot be applied on top of the previous block's ledger state",
        ),
        (ErrorKind::Msg("text"), "text"),
    ];
    for (kind, text) in kinds {
        assert_eq!(kind.description(), text);
        assert_eq!(kind.message(), text);
    }
    assert_eq!(ErrorKind::NoTag("x").description(), "Missing tag from the storage");
    assert_eq!(ErrorKind::NoTag("x").message(), "Tag 'x' not found in the storage");
}
