use lambars::reader::Reader;

#[test]
fn reader_pure_ignores_environment() {
    let reader: Reader<i32, i32, _> = Reader::pure(42);
    assert_eq!(reader.run(10), 42);
    assert_eq!(Reader::<i32, i32, _>::pure(42).to_string(), "<Reader::Pure>");
}

#[test]
fn reader_new_and_display() {
    let reader = Reader::new(|environment: i32| environment * 2);
    assert_eq!(reader.to_string(), "<Reader::Deferred>");
    assert_eq!(reader.run_cloned(21), 42);
    assert_eq!(reader.run(5), 10);
}

#[test]
fn reader_fmap_pure_and_deferred() {
    let pure = Reader::<i32, i32, _>::pure(20).fmap(|x| x + 1);
    assert!(matches!(pure, Reader::Pure { value: 21 }));
    let deferred = Reader::new(|environment: i32| environment).fmap(|x| x * 3);
    assert_eq!(deferred.run(7), 21);
}

#[test]
fn reader_flat_map_mixed_chain() {
    let chain = Reader::<i32, i32, _>::pure(10)
        .flat_map(|x| Reader::new(move |r: i32| x + r))
        .fmap(|x| x * 2);
    assert_eq!(chain.run(5), 30);
    let chained = Reader::new(|environment: i32| environment)
        .and_then(|value| Reader::new(move |environment: i32| value + environment));
    assert_eq!(chained.run(10), 20);
}

#[test]
fn reader_then_keeps_second_result() {
    let first = Reader::new(|environment: i32| environment + 100);
    let second = Reader::new(|environment: i32| environment * 2);
    assert_eq!(first.then(second).run(4), 8);
    let pure_second = Reader::new(|environment: i32| environment).then(Reader::<i32, &str, _>::pure("done"));
    assert_eq!(pure_second.run(1), "done");
}

#[test]
fn reader_map2_map3_product_apply() {
    let a = Reader::new(|environment: i32| environment);
    let b = Reader::new(|environment: i32| environment * 2);
    assert_eq!(a.map2(b, |x, y| x + y).run(10), 30);
    let r1 = Reader::new(|environment: i32| environment);
    let r2 = Reader::new(|environment: i32| environment * 2);
    let r3 = Reader::new(|environment: i32| environment * 3);
    assert_eq!(r1.map3(r2, r3, |a, b, c| a + b + c).run(10), 60);
    let p1 = Reader::new(|environment: i32| environment);
    let p2 = Reader::<i32, &str, _>::pure("hello");
    assert_eq!(p1.product(p2).run(42), (42, "hello"));
    let f = Reader::<i32, fn(i32) -> i32, _>::pure(|x| x + 1);
    let v = Reader::new(|environment: i32| environment);
    assert_eq!(f.apply(v).run(41), 42);
    let pure_pair = Reader::<i32, i32, _>::pure(1).map2(Reader::<i32, i32, _>::pure(2), |x, y| x * 10 + y);
    assert!(matches!(pure_pair, Reader::Pure { value: 12 }));
}

#[test]
fn reader_ask_asks_local() {
    let asked: Reader<i32, i32, _> = Reader::ask();
    assert_eq!(asked.run(-100), -100);
    let projected = Reader::asks(|pair: (i32, i32)| pair.1);
    assert_eq!(projected.run((1, 2)), 2);
    let m = Reader::new(|r: i32| r * 2);
    let f = |r: i32| r + 1;
    let g = |r: i32| r * 3;
    let lhs = Reader::local(f, Reader::local(g, m.clone()));
    let rhs = Reader::local(move |r| g(f(r)), m);
    assert_eq!(lhs.run_cloned(10), rhs.run_cloned(10));
    assert_eq!(lhs.run(10), 66);
}

#[test]
fn reader_monad_laws_on_values() {
    let f = |x: i32| Reader::new(move |r: i32| x + r);
    let left = Reader::<i32, i32, _>::pure(5).flat_map(f);
    assert_eq!(left.run(3), f(5).run(3));
    let m = Reader::new(|r: i32| r * 4);
    let right = m.clone().flat_map(|x| Reader::<i32, i32, _>::pure(x));
    assert_eq!(right.run(6), m.run(6));
    let identity = Reader::new(|r: i32| r - 1).fmap(|x| x);
    assert_eq!(identity.run(9), 8);
    let local_identity = Reader::local(|r| r, Reader::new(|r: i32| r * 2));
    assert_eq!(local_identity.run(10), 20);
}

#[test]
fn reader_flat_map_of_pure_is_the_continuation_reader() {
    let deferred = Reader::<i32, i32, _>::pure(3).flat_map(|v| Reader::new(move |e: i32| v + e));
    assert!(matches!(deferred, Reader::Deferred { .. }));
    assert_eq!(deferred.run(10), 13);
    let held = Reader::<i32, i32, _>::pure(3).flat_map(|v| Reader::<i32, i32, _>::pure(v * 2));
    assert!(matches!(held, Reader::Pure { value: 6 }));
}

#[test]
fn reader_local_runs_on_the_changed_environment() {
    let local = Reader::local(|e: i32| e + 10, Reader::new(|e: i32| e * 2));
    assert_eq!(local.run(5), 30);
}
