use onsenswap::factory::OnsenswapFactory;

#[test]
fn factory_records_caller_and_starts_empty() {
    let factory = OnsenswapFactory::new(42, 11, 22, 7);
    assert_eq!(factory.factory, 7);
    assert_eq!(factory.token0, 11);
    assert_eq!(factory.token1, 22);
    assert_eq!(factory.get_reserves(), (0, 0, 0));
    assert_eq!(factory.k_last, 0);
}

#[test]
fn factory_reserves_read_is_stable() {
    let factory = OnsenswapFactory::new(42, 11, 22, 7);
    assert_eq!(factory.get_reserves(), factory.get_reserves());
}
