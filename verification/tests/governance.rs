use veritas_curation::content_pool::state::{Address, ContentPool, Q64};
use veritas_curation::errors::ErrorCode;
use veritas_curation::governance::{
    check_upgrade_authority, upgrade_authority_of, GovernanceRefusal, UpgradeAuthority,
};
use veritas_curation::pool_factory::errors::FactoryError;
use veritas_curation::pool_factory::instructions::create_pool::{create_pool, PoolCreation};
use veritas_curation::pool_factory::instructions::initialize_factory::initialize_factory;
use veritas_curation::pool_factory::instructions::update_defaults::{
    update_defaults, DefaultsUpdate,
};
use veritas_curation::pool_factory::instructions::update_factory_authority::update_factory_authority;
use veritas_curation::pool_factory::instructions::update_fee_config::update_fee_config;
use veritas_curation::pool_factory::instructions::update_pool_authority::update_pool_authority;
use veritas_curation::pool_factory::instructions::update_protocol_authority::update_protocol_authority;
use veritas_curation::pool_factory::state::PoolFactory;
use veritas_curation::protocol_treasury::instructions::initialize_treasury::initialize_treasury;
use veritas_curation::protocol_treasury::instructions::update_authority::update_treasury_authority;
use veritas_curation::veritas_custodian::instructions::deposit::deposit;
use veritas_curation::veritas_custodian::instructions::initialize_custodian::initialize_custodian;
use veritas_curation::veritas_custodian::instructions::toggle_emergency_pause::toggle_emergency_pause;
use veritas_curation::veritas_custodian::instructions::update_protocol_authority::update_protocol_authority
    as update_custodian_protocol_authority;
use veritas_curation::veritas_custodian::instructions::withdraw::withdraw;

fn key(tag: u8) -> Address {
    let mut bytes = [0u8; 32];
    bytes[0] = tag;
    bytes[17] = tag.wrapping_mul(3);
    Address { bytes }
}

fn same(a: &Address, b: &Address) -> bool {
    a.bytes == b.bytes
}

/// A program-data record that names `authority`.
fn program_data(authority: &Address) -> Vec<u8> {
    let mut data = vec![3u8, 0, 0, 0, 9, 9, 9, 9, 9, 9, 9, 9, 1];
    data.extend_from_slice(&authority.bytes);
    data.extend_from_slice(&[7u8; 20]);
    data
}

const NOW: i64 = 1_700_000_000;

fn made_factory() -> PoolFactory {
    initialize_factory(&program_data(&key(1)), key(1), key(2), key(3), key(4), 100, 5000, key(5), 254, NOW)
        .unwrap()
        .0
}

#[test]
fn upgrade_authority_is_read_from_the_record() {
    let data = program_data(&key(1));
    match upgrade_authority_of(&data) {
        UpgradeAuthority::Held(a) => assert!(same(&a, &key(1))),
        _ => panic!("the record names an authority"),
    }
    assert!(matches!(upgrade_authority_of(&data[..44]), UpgradeAuthority::Unreadable));
    assert!(matches!(upgrade_authority_of(&data[..45]), UpgradeAuthority::Held(_)));
    let mut none = data.clone();
    none[12] = 0;
    assert!(matches!(upgrade_authority_of(&none), UpgradeAuthority::Absent));
    assert_eq!(check_upgrade_authority(&data, &key(1)), Ok(()));
    assert_eq!(
        check_upgrade_authority(&data, &key(2)),
        Err(GovernanceRefusal::InvalidUpgradeAuthority)
    );
    assert_eq!(
        check_upgrade_authority(&none, &key(1)),
        Err(GovernanceRefusal::InvalidUpgradeAuthority)
    );
    assert_eq!(
        check_upgrade_authority(&data[..10], &key(1)),
        Err(GovernanceRefusal::InvalidProgramData)
    );
}

#[test]
fn factory_is_made_with_the_built_in_defaults() {
    let (factory, event) = initialize_factory(
        &program_data(&key(1)), key(1), key(2), key(3), key(4), 100, 5000, key(5), 254, NOW,
    )
    .unwrap();
    assert!(same(&factory.protocol_authority, &key(3)));
    assert!(same(&factory.custodian, &key(4)));
    assert!(same(&factory.protocol_treasury, &key(5)));
    assert!(factory.factory_authority.is_default());
    assert!(factory.pool_authority.is_default());
    assert_eq!(factory.total_pools, 0);
    assert_eq!(factory.total_fee_bps, 100);
    assert_eq!(factory.creator_split_bps, 5000);
    assert_eq!((factory.default_f, factory.default_beta_num, factory.default_beta_den), (1, 1, 2));
    assert_eq!(factory.default_p0, 1_000_000);
    assert_eq!(factory.min_initial_deposit, 50_000_000);
    assert_eq!(factory.min_settle_interval, 7200);
    assert_eq!(factory.bump, 254);
    assert!(same(&event.factory, &key(2)));
    assert_eq!(event.timestamp, NOW);
    assert_eq!(event.total_fee_bps, 100);
}

#[test]
fn factory_initialization_refuses_what_it_must() {
    let data = program_data(&key(1));
    let make = |data: &[u8], signer: Address, pa: Address, cu: Address, split: u16, tr: Address| {
        initialize_factory(data, signer, key(2), pa, cu, 100, split, tr, 254, NOW).map(|_| ())
    };
    assert_eq!(
        make(&data[..44], key(1), key(3), key(4), 5000, key(5)),
        Err(FactoryError::InvalidProgramData)
    );
    assert_eq!(
        make(&data, key(9), key(3), key(4), 5000, key(5)),
        Err(FactoryError::InvalidUpgradeAuthority)
    );
    assert_eq!(
        make(&data, key(1), Address::unset(), key(4), 5000, key(5)),
        Err(FactoryError::InvalidAuthority)
    );
    assert_eq!(
        make(&data, key(1), key(3), Address::unset(), 5000, key(5)),
        Err(FactoryError::InvalidAuthority)
    );
    assert_eq!(
        make(&data, key(1), key(3), key(4), 5000, Address::unset()),
        Err(FactoryError::InvalidAuthority)
    );
    assert_eq!(
        make(&data, key(1), key(3), key(4), 10_001, key(5)),
        Err(FactoryError::InvalidCreatorSplit)
    );
    assert_eq!(make(&data, key(1), key(3), key(4), 10_000, key(5)), Ok(()));
}

fn creation() -> PoolCreation {
    PoolCreation {
        content_id: key(10),
        pool_key: key(11),
        registry_key: key(12),
        factory_key: key(2),
        creator: key(13),
        post_creator: key(14),
        stake_vault: key(15),
        pool_bump: 250,
        registry_bump: 249,
        now: NOW,
    }
}

#[test]
fn a_created_pool_is_empty_and_carries_the_defaults() {
    let mut factory = made_factory();
    let made = create_pool(&mut factory, creation()).unwrap();
    let pool: ContentPool = made.pool;
    assert_eq!(factory.total_pools, 1);
    assert!(same(&pool.content_id, &key(10)));
    assert!(same(&pool.creator, &key(13)));
    assert!(same(&pool.post_creator, &key(14)));
    assert!(same(&pool.stake_vault, &key(15)));
    assert!(same(&pool.factory, &key(2)));
    assert!(pool.market_deployer.is_default());
    assert!(pool.long_mint.is_default());
    assert!(pool.vault.is_default());
    assert_eq!((pool.f, pool.beta_num, pool.beta_den), (1, 1, 2));
    assert_eq!((pool.s_long, pool.s_short, pool.r_long, pool.r_short, pool.vault_balance), (0, 0, 0, 0, 0));
    assert_eq!(pool.s_scale_long_q64, Q64);
    assert_eq!(pool.s_scale_short_q64, Q64);
    assert_eq!(pool.min_settle_interval, 7200);
    assert_eq!(pool.current_epoch, 0);
    assert_eq!(pool.last_decay_update, NOW);
    assert_eq!(pool.bump, 250);
    assert!(same(&made.registry.content_id, &key(10)));
    assert!(same(&made.registry.pool_address, &key(11)));
    assert_eq!(made.registry.created_at, NOW);
    assert_eq!(made.registry.bump, 249);
    assert!(same(&made.initialized.pool, &key(11)));
    assert!(same(&made.created.registry, &key(12)));
    assert!(same(&made.created.post_creator, &key(14)));
    assert_eq!(made.created.beta_den, 2);
    // the count cannot wrap
    factory.total_pools = u64::MAX;
    assert_eq!(create_pool(&mut factory, creation()).map(|_| ()), Err(FactoryError::InvalidParameters));
    assert_eq!(factory.total_pools, u64::MAX);
}

#[test]
fn pool_seeds_are_the_tag_and_the_content_id() {
    let mut factory = made_factory();
    let pool = create_pool(&mut factory, creation()).unwrap().pool;
    let seeds = pool.seeds();
    assert_eq!(seeds.len(), 2);
    assert_eq!(seeds[0], b"content_pool".to_vec());
    assert_eq!(seeds[1], key(10).bytes.to_vec());
}

#[test]
fn addresses_compare_by_their_bytes() {
    assert!(Address::unset().is_default());
    assert!(!key(1).is_default());
    let mut last = [0u8; 32];
    last[31] = 1;
    assert!(!Address { bytes: last }.is_default());
    assert!(key(1).equals(&key(1)));
    assert!(!key(1).equals(&key(2)));
    assert!(Address::unset().equals(&Address { bytes: [0u8; 32] }));
}

fn no_update() -> DefaultsUpdate {
    DefaultsUpdate {
        default_f: None,
        default_beta_num: None,
        default_beta_den: None,
        default_p0: None,
        min_initial_deposit: None,
        min_settle_interval: None,
    }
}

#[test]
fn defaults_are_updated_one_by_one() {
    let data = program_data(&key(1));
    let mut factory = made_factory();
    let event = update_defaults(
        &mut factory, key(2), &data, key(1),
        DefaultsUpdate {
            default_f: Some(3),
            default_beta_num: Some(3),
            default_beta_den: Some(10),
            default_p0: Some(100_000),
            min_initial_deposit: Some(100_000_000),
            min_settle_interval: Some(60),
        },
        NOW,
    )
    .unwrap();
    assert_eq!((factory.default_f, factory.default_beta_num, factory.default_beta_den), (3, 3, 10));
    assert_eq!(factory.default_p0, 100_000);
    assert_eq!(factory.min_initial_deposit, 100_000_000);
    assert_eq!(factory.min_settle_interval, 60);
    assert_eq!(event.default_f, 3);
    assert_eq!(event.min_settle_interval, 60);
    // nothing asked, nothing changed
    let before = factory;
    update_defaults(&mut factory, key(2), &data, key(1), no_update(), NOW).unwrap();
    assert_eq!(factory.default_p0, before.default_p0);
    assert_eq!(factory.default_beta_den, before.default_beta_den);
}

#[test]
fn defaults_update_refuses_what_it_must() {
    let data = program_data(&key(1));
    let mut factory = made_factory();
    let before = factory;
    let mut refusal = |u: DefaultsUpdate| {
        update_defaults(&mut factory, key(2), &data, key(1), u, NOW).map(|_| ()).unwrap_err()
    };
    assert_eq!(refusal(DefaultsUpdate { default_f: Some(0), ..no_update() }), FactoryError::InvalidF);
    assert_eq!(refusal(DefaultsUpdate { default_f: Some(11), ..no_update() }), FactoryError::InvalidF);
    assert_eq!(
        refusal(DefaultsUpdate { default_beta_num: Some(0), ..no_update() }),
        FactoryError::InvalidBeta
    );
    assert_eq!(
        refusal(DefaultsUpdate { default_beta_den: Some(0), ..no_update() }),
        FactoryError::InvalidBeta
    );
    // 1/11 is below 0.1, 10/11 is above 0.9
    assert_eq!(
        refusal(DefaultsUpdate { default_beta_den: Some(11), ..no_update() }),
        FactoryError::InvalidBeta
    );
    assert_eq!(
        refusal(DefaultsUpdate { default_beta_num: Some(10), default_beta_den: Some(11), ..no_update() }),
        FactoryError::InvalidBeta
    );
    assert_eq!(
        refusal(DefaultsUpdate { default_p0: Some(0), ..no_update() }),
        FactoryError::InvalidParameters
    );
    assert_eq!(
        refusal(DefaultsUpdate { min_initial_deposit: Some(0), ..no_update() }),
        FactoryError::InvalidMinDeposit
    );
    assert_eq!(
        refusal(DefaultsUpdate { min_settle_interval: Some(0), ..no_update() }),
        FactoryError::InvalidSettleInterval
    );
    assert_eq!(
        refusal(DefaultsUpdate { min_settle_interval: Some(-5), ..no_update() }),
        FactoryError::InvalidSettleInterval
    );
    // a good value with a bad one: nothing is written
    assert_eq!(
        refusal(DefaultsUpdate { default_f: Some(2), default_p0: Some(0), ..no_update() }),
        FactoryError::InvalidParameters
    );
    assert_eq!(factory.default_f, before.default_f);
    // the edges of the range of beta: 1/10 and 9/10
    let mut factory = made_factory();
    assert!(update_defaults(
        &mut factory, key(2), &data, key(1),
        DefaultsUpdate { default_beta_num: Some(1), default_beta_den: Some(10), ..no_update() }, NOW
    ).is_ok());
    assert!(update_defaults(
        &mut factory, key(2), &data, key(1),
        DefaultsUpdate { default_beta_num: Some(9), default_beta_den: Some(10), ..no_update() }, NOW
    ).is_ok());
    assert_eq!(
        update_defaults(&mut factory, key(2), &data, key(9), no_update(), NOW).map(|_| ()),
        Err(FactoryError::InvalidUpgradeAuthority)
    );
    assert_eq!(
        update_defaults(&mut factory, key(2), &data[..5], key(1), no_update(), NOW).map(|_| ()),
        Err(FactoryError::InvalidProgramData)
    );
}

#[test]
fn fee_config_and_authorities_are_updated() {
    let data = program_data(&key(1));
    let mut factory = made_factory();
    let event =
        update_fee_config(&mut factory, key(2), &data, key(1), Some(30), None, Some(key(20)), NOW)
            .unwrap();
    assert_eq!(factory.total_fee_bps, 30);
    assert_eq!(factory.creator_split_bps, 5000);
    assert!(same(&factory.protocol_treasury, &key(20)));
    assert_eq!(event.total_fee_bps, 30);
    assert!(same(&event.updated_by, &key(1)));
    assert_eq!(
        update_fee_config(&mut factory, key(2), &data, key(1), Some(40), Some(10_001), None, NOW)
            .map(|_| ()),
        Err(FactoryError::InvalidCreatorSplit)
    );
    assert_eq!(factory.total_fee_bps, 30);
    assert_eq!(
        update_fee_config(&mut factory, key(2), &data, key(7), None, None, None, NOW).map(|_| ()),
        Err(FactoryError::InvalidUpgradeAuthority)
    );

    let event = update_protocol_authority(&mut factory, key(2), &data, key(1), key(21), NOW).unwrap();
    assert!(same(&event.old_authority, &key(3)));
    assert!(same(&factory.protocol_authority, &key(21)));
    assert_eq!(
        update_protocol_authority(&mut factory, key(2), &data, key(1), Address::unset(), NOW)
            .map(|_| ()),
        Err(FactoryError::InvalidAuthority)
    );
    assert_eq!(
        update_protocol_authority(&mut factory, key(2), &data, key(8), key(22), NOW).map(|_| ()),
        Err(FactoryError::InvalidUpgradeAuthority)
    );
    assert!(same(&factory.protocol_authority, &key(21)));

    factory.factory_authority = key(30);
    assert_eq!(
        update_pool_authority(&mut factory, key(2), key(31), key(32), NOW).map(|_| ()),
        Err(FactoryError::Unauthorized)
    );
    assert_eq!(
        update_pool_authority(&mut factory, key(2), key(30), Address::unset(), NOW).map(|_| ()),
        Err(FactoryError::InvalidAuthority)
    );
    let event = update_pool_authority(&mut factory, key(2), key(30), key(32), NOW).unwrap();
    assert!(same(&factory.pool_authority, &key(32)));
    assert!(event.old_authority.is_default());
    assert_eq!(
        update_factory_authority(&mut factory, key(2), key(31), key(33), NOW).map(|_| ()),
        Err(FactoryError::Unauthorized)
    );
    assert_eq!(
        update_factory_authority(&mut factory, key(2), key(30), Address::unset(), NOW).map(|_| ()),
        Err(FactoryError::InvalidAuthority)
    );
    let event = update_factory_authority(&mut factory, key(2), key(30), key(33), NOW).unwrap();
    assert!(same(&event.old_authority, &key(30)));
    assert!(same(&factory.factory_authority, &key(33)));
}

#[test]
fn factory_errors_keep_their_numbers() {
    assert_eq!(FactoryError::AlreadyInitialized.code(), 7000);
    assert_eq!(FactoryError::InvalidAuthority.code(), 7001);
    assert_eq!(FactoryError::PoolAlreadyExists.code(), 7010);
    assert_eq!(FactoryError::InvalidParameters.code(), 7012);
    assert_eq!(FactoryError::Unauthorized.code(), 7020);
    assert_eq!(FactoryError::InvalidF.code(), 7030);
    assert_eq!(FactoryError::InvalidSettleInterval.code(), 7033);
    assert_eq!(FactoryError::InvalidUpgradeAuthority.code(), 7040);
    assert_eq!(FactoryError::FeeCalculationOverflow.code(), 7044);
}

#[test]
fn custodian_counts_what_goes_in_and_out() {
    let mut custodian = initialize_custodian(key(40), key(41), 3).unwrap();
    assert_eq!(custodian.total_deposits, 0);
    assert!(!custodian.emergency_pause);
    assert_eq!(
        initialize_custodian(Address::unset(), key(41), 3).map(|_| ()),
        Err(ErrorCode::InvalidAuthority)
    );
    let event = deposit(&mut custodian, key(42), 1_000_000, NOW).unwrap();
    assert_eq!(event.amount, 1_000_000);
    assert_eq!(custodian.total_deposits, 1_000_000);
    assert_eq!(deposit(&mut custodian, key(42), 0, NOW).map(|_| ()), Err(ErrorCode::InvalidAmount));
    assert_eq!(deposit(&mut custodian, key(42), 999_999, NOW).map(|_| ()), Err(ErrorCode::BelowMinimum));
    custodian.total_deposits = u128::MAX - 5;
    assert_eq!(
        deposit(&mut custodian, key(42), 1_000_000, NOW).map(|_| ()),
        Err(ErrorCode::NumericalOverflow)
    );
    assert_eq!(custodian.total_deposits, u128::MAX - 5);

    let event = withdraw(&mut custodian, key(40), 500, 500, key(43), NOW).unwrap();
    assert_eq!(event.amount, 500);
    assert!(same(&event.recipient, &key(43)));
    assert_eq!(custodian.total_withdrawals, 500);
    assert_eq!(
        withdraw(&mut custodian, key(44), 500, 5, key(43), NOW).map(|_| ()),
        Err(ErrorCode::Unauthorized)
    );
    assert_eq!(
        withdraw(&mut custodian, key(40), 500, 0, key(43), NOW).map(|_| ()),
        Err(ErrorCode::InvalidAmount)
    );
    assert_eq!(
        withdraw(&mut custodian, key(40), 500, 501, key(43), NOW).map(|_| ()),
        Err(ErrorCode::InsufficientVaultBalance)
    );
    custodian.total_withdrawals = u128::MAX;
    assert_eq!(
        withdraw(&mut custodian, key(40), 500, 1, key(43), NOW).map(|_| ()),
        Err(ErrorCode::NumericalOverflow)
    );
    custodian.total_withdrawals = 500;

    let data = program_data(&key(1));
    assert_eq!(toggle_emergency_pause(&mut custodian, &data, key(1), true), Ok(false));
    assert!(custodian.emergency_pause);
    // paused: even the authority is refused, and before anything else
    assert_eq!(
        withdraw(&mut custodian, key(44), 500, 0, key(43), NOW).map(|_| ()),
        Err(ErrorCode::SystemPaused)
    );
    assert_eq!(
        toggle_emergency_pause(&mut custodian, &data, key(2), false),
        Err(ErrorCode::InvalidUpgradeAuthority)
    );
    assert_eq!(
        toggle_emergency_pause(&mut custodian, &data[..1], key(1), false),
        Err(ErrorCode::InvalidProgramData)
    );
    assert!(custodian.emergency_pause);
    assert_eq!(toggle_emergency_pause(&mut custodian, &data, key(1), false), Ok(true));

    let old = update_custodian_protocol_authority(&mut custodian, &data, key(1), key(45)).unwrap();
    assert!(same(&old, &key(40)));
    assert!(same(&custodian.protocol_authority, &key(45)));
    assert_eq!(
        update_custodian_protocol_authority(&mut custodian, &data, key(1), Address::unset())
            .map(|_| ()),
        Err(ErrorCode::InvalidAuthority)
    );
    assert_eq!(
        update_custodian_protocol_authority(&mut custodian, &data, key(3), key(46)).map(|_| ()),
        Err(ErrorCode::InvalidUpgradeAuthority)
    );
}

#[test]
fn treasury_is_handed_over_by_its_authority() {
    let mut treasury = initialize_treasury(key(50), key(51), 9).unwrap();
    assert!(same(&treasury.usdc_vault, &key(51)));
    assert_eq!(treasury.bump, 9);
    assert_eq!(
        initialize_treasury(Address::unset(), key(51), 9).map(|_| ()),
        Err(ErrorCode::InvalidAuthority)
    );
    assert_eq!(
        update_treasury_authority(&mut treasury, key(52), key(53)).map(|_| ()),
        Err(ErrorCode::Unauthorized)
    );
    assert_eq!(
        update_treasury_authority(&mut treasury, key(50), Address::unset()).map(|_| ()),
        Err(ErrorCode::InvalidAuthority)
    );
    let old = update_treasury_authority(&mut treasury, key(50), key(53)).unwrap();
    assert!(same(&old, &key(50)));
    assert!(same(&treasury.authority, &key(53)));
}
