use filecoin_rs::account::AccountState;
use filecoin_rs::dao::{DaoState, DealTicket};
use filecoin_rs::store::MyIntent;
use filecoin_rs::system::DataDao;
use filecoin_rs::CoreError;

const ADMIN: u64 = 1;
const MEMBER: u64 = 2;
const STRANGER: u64 = 9;
const PROVIDER: u64 = 1001;

fn ticket(deal_id: u64) -> Option<DealTicket> {
    Some(DealTicket { deal_id, provider: PROVIDER })
}

#[test]
fn end_to_end_scenario() {
    let mut core = DataDao::new(ADMIN, 1024);
    assert_eq!(core.admin(), ADMIN);

    assert_eq!(core.add_member(ADMIN, MEMBER), Ok(()));
    assert_eq!(core.members().as_slice(), &[MEMBER]);

    let id = core.store(b"hello".to_vec()).unwrap();

    let deal = core.submit_data(MEMBER, &id, 100, ticket(7)).unwrap();
    assert_eq!(deal, 7);
    assert_eq!(core.total_rewards(), 100);

    let record = core.get_record(7).unwrap();
    assert_eq!(record.cid().digest(), id.digest());
    assert_eq!(record.deal_id(), 7);
    assert_eq!(record.provider(), PROVIDER);
    assert_eq!(record.reward_amount(), 100);
    assert!(!record.is_settled());

    let order = core.prepare_reward(ADMIN, 7).unwrap();
    assert_eq!(order.provider, PROVIDER);
    assert_eq!(order.amount, 100);

    assert_eq!(core.reward_provider(ADMIN, 7, true), Ok(()));
    assert_eq!(core.total_settled(), 100);
    assert!(core.get_record(7).unwrap().is_settled());

    // Settling the same deal a second time fails, whatever the transfer said.
    assert_eq!(core.reward_provider(ADMIN, 7, true), Err(CoreError::AlreadySettled));
    assert_eq!(core.reward_provider(ADMIN, 7, false), Err(CoreError::AlreadySettled));
    assert_eq!(core.total_settled(), 100);
}

#[test]
fn non_admin_cannot_add_members_and_state_is_unchanged() {
    let mut core = DataDao::new(ADMIN, 64);
    assert_eq!(core.add_member(STRANGER, STRANGER), Err(CoreError::Unauthorized));
    assert!(core.members().is_empty());
    assert_eq!(core.total_rewards(), 0);
    assert_eq!(core.record_count(), 0);
}

#[test]
fn non_admin_cannot_settle_and_state_is_unchanged() {
    let mut core = DataDao::new(ADMIN, 64);
    let id = core.store(b"x".to_vec()).unwrap();
    core.submit_data(ADMIN, &id, 10, ticket(1)).unwrap();

    assert_eq!(core.reward_provider(STRANGER, 1, true), Err(CoreError::Unauthorized));
    assert_eq!(core.total_settled(), 0);
    assert!(!core.get_record(1).unwrap().is_settled());
}

#[test]
fn non_member_cannot_submit() {
    let mut core = DataDao::new(ADMIN, 64);
    let id = core.store(b"x".to_vec()).unwrap();
    assert_eq!(core.submit_data(STRANGER, &id, 10, ticket(1)), Err(CoreError::Unauthorized));
    assert_eq!(core.record_count(), 0);
    assert_eq!(core.total_rewards(), 0);
}

#[test]
fn rejected_deal_leaves_records_and_totals_unchanged() {
    let mut core = DataDao::new(ADMIN, 64);
    let id = core.store(b"x".to_vec()).unwrap();
    core.submit_data(ADMIN, &id, 10, ticket(1)).unwrap();

    // The gateway rejected the second deal: nothing may change.
    assert_eq!(core.submit_data(ADMIN, &id, 25, None), Err(CoreError::DealRejected));
    assert_eq!(core.record_count(), 1);
    assert_eq!(core.total_rewards(), 10);
}

#[test]
fn submitting_an_unstored_identifier_is_not_found() {
    let mut core = DataDao::new(ADMIN, 64);
    let id = filecoin_rs::ids::ContentId::for_bytes(b"never stored");
    assert_eq!(core.submit_data(ADMIN, &id, 10, ticket(1)), Err(CoreError::NotFound));
    assert_eq!(core.record_count(), 0);
}

#[test]
fn failed_transfer_leaves_the_record_unsettled() {
    let mut core = DataDao::new(ADMIN, 64);
    let id = core.store(b"x".to_vec()).unwrap();
    core.submit_data(ADMIN, &id, 10, ticket(1)).unwrap();

    assert_eq!(core.reward_provider(ADMIN, 1, false), Err(CoreError::TransferFailed));
    assert!(!core.get_record(1).unwrap().is_settled());
    assert_eq!(core.total_settled(), 0);

    // The settlement can be retried and still pays exactly once.
    assert_eq!(core.reward_provider(ADMIN, 1, true), Ok(()));
    assert_eq!(core.total_settled(), 10);
}

#[test]
fn rewarding_an_unknown_deal_is_not_found() {
    let mut core = DataDao::new(ADMIN, 64);
    assert_eq!(core.reward_provider(ADMIN, 42, true), Err(CoreError::NotFound));
    assert!(core.get_record(42).is_none());
}

#[test]
fn adding_a_present_member_is_a_no_op() {
    let mut core = DataDao::new(ADMIN, 64);
    core.add_member(ADMIN, MEMBER).unwrap();
    core.add_member(ADMIN, MEMBER).unwrap();
    assert_eq!(core.members().len(), 1);
}

#[test]
fn admin_may_submit_without_being_a_member() {
    let core = DataDao::new(ADMIN, 64);
    assert!(core.can_submit(ADMIN));
    assert!(!core.can_submit(STRANGER));
}

#[test]
fn double_construction_is_rejected() {
    let mut dao = DaoState::new();
    assert!(!dao.is_initialized());
    assert_eq!(dao.init(ADMIN), Ok(()));
    assert!(dao.is_initialized());
    assert_eq!(dao.init(STRANGER), Err(CoreError::AlreadyInitialized));
    assert_eq!(dao.admin(), ADMIN);
}

#[test]
fn totals_accumulate_over_submissions_and_settlements() {
    let mut core = DataDao::new(ADMIN, 64);
    let a = core.store(b"a".to_vec()).unwrap();
    let b = core.store(b"b".to_vec()).unwrap();
    core.submit_data(ADMIN, &a, 30, ticket(1)).unwrap();
    core.submit_data(ADMIN, &b, 70, ticket(2)).unwrap();
    assert_eq!(core.total_rewards(), 100);
    assert_eq!(core.total_settled(), 0);

    core.reward_provider(ADMIN, 2, true).unwrap();
    assert_eq!(core.total_settled(), 70);
    core.reward_provider(ADMIN, 1, true).unwrap();
    assert_eq!(core.total_settled(), 100);
    assert_eq!(core.total_rewards(), 100);
}

#[test]
fn machine_processes_intents_without_touching_the_dao() {
    let mut core = DataDao::new(ADMIN, 64);
    core.add_member(ADMIN, MEMBER).unwrap();

    let text = core.process_intent(MyIntent::Upload(b"payload".to_vec())).unwrap();
    let id = filecoin_rs::ids::ContentId::for_bytes(b"payload");
    assert_eq!(text, id.to_text());
    assert_eq!(core.members().len(), 1);
    assert_eq!(core.record_count(), 0);
}

#[test]
fn account_state_posts_to_named_sub_accounts() {
    let mut account = AccountState::new();
    assert_eq!(account.balance(), 0);

    account.credit(500);
    assert_eq!(account.balance(), 500);

    account.credit_sub("provider", 100);
    account.credit_sub("provider", 50);
    account.credit_sub("escrow", 25);
    assert_eq!(account.sub_balance("provider"), Some(150));
    assert_eq!(account.sub_balance("escrow"), Some(25));
    assert_eq!(account.sub_balance("other"), None);
    assert_eq!(account.balance(), 500);
}
