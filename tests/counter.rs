use colony_rpc::counter::State;

#[test]
fn increment() {
    let mut contract = State { count: 0 };
    contract.increment();
    println!("Value after increment: {}", contract.get_num());
    assert_eq!(1, contract.get_num());
}

#[test]
fn decrement() {
    let mut contract = State { count: 1 };
    contract.decrement();
    println!("Value after decrement: {}", contract.get_num());
    assert_eq!(0, contract.get_num());
}

#[test]
fn reset() {
    let mut contract = State { count: 100 };
    contract.reset();
    println!("Value after decrement: {}", contract.get_num());
    assert_eq!(0, contract.get_num());
}

#[test]
fn new_keeps_count() {
    let s = State::new(42);
    assert_eq!(s.get_num(), 42);
}
