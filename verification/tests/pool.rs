use pmc::errors::Error;
use pmc::fixed::SCALE;
use pmc::network::Mode;
use pmc::pool::ModelPool;

#[test]
fn handles_are_created_and_destroyed_explicitly() {
    let mut pool = ModelPool::new();
    assert_eq!(0, pool.handle_count());

    let h = pool.create(&vec![2usize, 3, 1], 7).unwrap();
    assert_eq!(0, h);
    assert_eq!(1, pool.handle_count());

    let input = vec![SCALE, 2 * SCALE];
    let out = pool.compute(h, &input, Mode::Classification).unwrap();
    assert_eq!(1, out.len());

    pool.train(h, &input, &vec![SCALE], Mode::Classification)
        .unwrap();

    pool.destroy(h).unwrap();
    assert_eq!(1, pool.handle_count());
}

#[test]
fn use_after_destroy_is_a_defined_error() {
    let mut pool = ModelPool::new();
    let h = pool.create(&vec![1usize, 1], 9).unwrap();
    pool.destroy(h).unwrap();

    let input = vec![SCALE];
    assert_eq!(
        Err(Error::UseAfterDestroy),
        pool.compute(h, &input, Mode::Regression)
    );
    assert_eq!(
        Err(Error::UseAfterDestroy),
        pool.train(h, &input, &input, Mode::Regression)
    );
    assert_eq!(Err(Error::UseAfterDestroy), pool.destroy(h));
}

#[test]
fn unknown_handles_are_refused() {
    let mut pool = ModelPool::new();
    let input = vec![SCALE];
    assert_eq!(
        Err(Error::UseAfterDestroy),
        pool.compute(3, &input, Mode::Regression)
    );
    assert_eq!(Err(Error::UseAfterDestroy), pool.destroy(3));
}

#[test]
fn pool_create_rejects_invalid_topologies() {
    let mut pool = ModelPool::new();
    assert_eq!(
        Err(Error::InvalidTopology),
        pool.create(&vec![3usize], 1).map(|_| ())
    );
    assert_eq!(0, pool.handle_count());
}
