use lambars::typeclass::Monad;

#[test]
fn basic_option_bind() {
    let result = Some(5).flat_map(move |x| Some(10).flat_map(move |y| Some(x + y)));
    assert_eq!(result, Some(15));
}

#[test]
fn option_with_let() {
    let result = Some(5).flat_map(move |x| {
        let doubled = x * 2;
        Some(doubled)
    });
    assert_eq!(result, Some(10));
}

#[test]
fn option_short_circuit() {
    let result: Option<i32> = Some(5).flat_map(move |x| None::<i32>.flat_map(move |y| Some(x + y)));
    assert_eq!(result, None);
}

#[test]
fn result_bind() {
    let result: Result<i32, &str> = Ok(5).flat_map(move |x| Ok(10).flat_map(move |y| Ok(x + y)));
    assert_eq!(result, Ok(15));
}

#[test]
fn single_expression() {
    let result = Some(42);
    assert_eq!(result, Some(42));
}

#[test]
fn wildcard_pattern() {
    let result = Some(5).flat_map(move |_| Some(42));
    assert_eq!(result, Some(42));
}

#[test]
fn tuple_pattern() {
    let result = Some((1, 2)).flat_map(move |(a, b)| Some(a + b));
    assert_eq!(result, Some(3));
}

#[test]
fn result_short_circuit_keeps_error() {
    let result: Result<i32, &str> = Err("stop").flat_map(move |x: i32| Ok(x + 1));
    assert_eq!(result, Err("stop"));
}
