use lambars::io::IO;

#[test]
fn io_pure_and_new() {
    assert_eq!(IO::pure(42).run_unsafe(), 42);
    assert_eq!(IO::new(|| 1 + 2).run_unsafe(), 3);
    assert_eq!(IO::pure(0).to_string(), "<IO>");
}

#[test]
fn io_combinators() {
    assert_eq!(IO::pure(20).fmap(|x| x + 1).run_unsafe(), 21);
    assert_eq!(IO::pure(5).flat_map(|x| IO::pure(x * 2)).run_unsafe(), 10);
    assert_eq!(IO::pure(5).and_then(|x| IO::new(move || x + 1)).run_unsafe(), 6);
    assert_eq!(IO::pure(1).then(IO::pure("next")).run_unsafe(), "next");
    assert_eq!(IO::pure(1).map2(IO::pure(2), |a, b| a + b).run_unsafe(), 3);
    assert_eq!(IO::pure(1).map3(IO::pure(2), IO::pure(3), |a, b, c| a * b * c).run_unsafe(), 6);
    assert_eq!(IO::pure(1).product(IO::pure("b")).run_unsafe(), (1, "b"));
    assert_eq!(IO::pure(|x: i32| x * 7).apply(IO::pure(6)).run_unsafe(), 42);
}

#[test]
fn io_monad_laws_on_values() {
    let f = |x: i32| IO::pure(x + 1);
    assert_eq!(IO::pure(3).flat_map(f).run_unsafe(), f(3).run_unsafe());
    assert_eq!(IO::pure(3).flat_map(IO::pure).run_unsafe(), 3);
    let g = |x: i32| IO::pure(x * 2);
    let lhs = IO::pure(4).flat_map(f).flat_map(g).run_unsafe();
    let rhs = IO::pure(4).flat_map(move |x| f(x).flat_map(g)).run_unsafe();
    assert_eq!(lhs, rhs);
    assert_eq!(IO::pure(8).fmap(|x| x).run_unsafe(), 8);
}
