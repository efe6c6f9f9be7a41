use teambot::provision::{advance_provision, begin_provision, ChannelKind, CreatedChannel, ProvisionStep};
use teambot::render::teardown_reply;
use teambot::store::OwnershipStore;
use teambot::teardown::{begin_teardown, finish_teardown, parse_user_id, TeardownError};

fn words(ws: &[&str]) -> Vec<String> {
    ws.iter().map(|w| w.to_string()).collect()
}

fn provisioned(owner: u64, name: &str, category: u64) -> OwnershipStore {
    let mut store = OwnershipStore::new();
    let mut step = begin_provision(&store, owner, &words(&[name]));
    let kinds = [ChannelKind::Category, ChannelKind::Text, ChannelKind::Voice];
    let mut n = 0;
    while let ProvisionStep::Create(p, _) = step {
        step = advance_provision(
            &mut store,
            p,
            Ok(CreatedChannel { kind: kinds[n], id: category + n as u64 }),
        );
        n += 1;
    }
    assert!(store.owns(owner));
    store
}

#[test]
fn non_numeric_id_is_invalid() {
    let store = OwnershipStore::new();
    let r = begin_teardown(&store, &words(&["abc"]));
    assert!(matches!(r, Err(TeardownError::InvalidUserId)));
    let r: Result<(), TeardownError> = Err(TeardownError::InvalidUserId);
    assert_eq!(teardown_reply(&r, ""), "That user id is invalid.");
}

#[test]
fn missing_id_is_reported() {
    let store = provisioned(5, "Game", 50);
    let r = begin_teardown(&store, &words(&[]));
    assert!(matches!(r, Err(TeardownError::MissingUserId)));
    let r: Result<(), TeardownError> = Err(TeardownError::MissingUserId);
    assert_eq!(teardown_reply(&r, ""), "You forgot to provide a user id.");
    let r = begin_teardown(&store, &words(&["5", "0"]));
    assert!(matches!(r, Err(TeardownError::InvalidUserId)));
}

#[test]
fn malformed_ids_are_invalid() {
    assert_eq!(parse_user_id(&words(&[])), None);
    assert_eq!(parse_user_id(&words(&["12", "34"])), None);
    assert_eq!(parse_user_id(&words(&["-5"])), None);
    assert_eq!(parse_user_id(&words(&["+5"])), None);
    assert_eq!(parse_user_id(&words(&[""])), None);
    assert_eq!(parse_user_id(&words(&["18446744073709551616"])), None);
    assert_eq!(parse_user_id(&words(&["99999999999999999999x"])), None);
}

#[test]
fn numeric_ids_parse() {
    assert_eq!(parse_user_id(&words(&["0"])), Some(0));
    assert_eq!(parse_user_id(&words(&["0042"])), Some(42));
    assert_eq!(parse_user_id(&words(&["18446744073709551615"])), Some(u64::MAX));
    assert_eq!(parse_user_id(&words(&["123456789012345678"])), Some(123456789012345678));
}

#[test]
fn unknown_user_is_not_found() {
    let store = provisioned(5, "Game", 50);
    let r = begin_teardown(&store, &words(&["6"]));
    assert!(matches!(r, Err(TeardownError::NotFound)));
    let r: Result<(), TeardownError> = Err(TeardownError::NotFound);
    assert_eq!(teardown_reply(&r, ""), "That user does not have any team channels.");
}

#[test]
fn failed_deletion_keeps_record_and_retry_removes_it() {
    let mut store = provisioned(5, "Game", 50);
    let target = begin_teardown(&store, &words(&["5"])).unwrap();
    assert_eq!(target.owner, 5);
    assert_eq!(target.category_id, 50);
    assert_eq!(target.display_name, "Game");
    let r = finish_teardown(&mut store, target.owner, Err("remote down".to_string()));
    match &r {
        Err(TeardownError::RemoteDeletionFailed(c)) => assert_eq!(c, "remote down"),
        other => panic!("unexpected {:?}", other),
    }
    assert_eq!(teardown_reply(&r, "Game"), "Removing the channels failed.");
    assert!(store.owns(5));
    assert_eq!(store.get(5).unwrap().category_id, 50);

    let target = begin_teardown(&store, &words(&["5"])).unwrap();
    let r = finish_teardown(&mut store, target.owner, Ok(()));
    assert!(r.is_ok());
    assert!(!store.owns(5));
    assert_eq!(store.len(), 0);
    assert_eq!(teardown_reply(&r, &target.display_name), "Removed the channels for team Game.");
}

#[test]
fn teardown_leaves_other_users() {
    let mut store = provisioned(5, "Game", 50);
    let mut step = begin_provision(&store, 6, &words(&["Other"]));
    let kinds = [ChannelKind::Category, ChannelKind::Text, ChannelKind::Voice];
    let mut n = 0;
    while let ProvisionStep::Create(p, _) = step {
        step = advance_provision(&mut store, p, Ok(CreatedChannel { kind: kinds[n], id: 70 + n as u64 }));
        n += 1;
    }
    assert_eq!(store.len(), 2);
    assert!(finish_teardown(&mut store, 5, Ok(())).is_ok());
    assert!(!store.owns(5));
    assert!(store.owns(6));
    let records = store.records();
    assert_eq!(records.len(), 1);
    assert_eq!(records[0].owner, 6);
    assert_eq!(records[0].category_id, 70);
}
