use lambars::monad_error::{MonadError, MonadErrorExt};

#[test]
fn result_throw_error_creates_err() {
    let result: Result<i32, String> = <Result<i32, String>>::throw_error("test error".to_string());
    assert_eq!(result, Err("test error".to_string()));
}

#[test]
fn result_catch_error_recovers() {
    let failing: Result<i32, String> = Err("error".to_string());
    let recovered = <Result<i32, String>>::catch_error(failing, |e| Ok(e.len() as i32));
    assert_eq!(recovered, Ok(5));
    let success: Result<i32, String> = Ok(42);
    assert_eq!(<Result<i32, String>>::catch_error(success, |_| Ok(0)), Ok(42));
}

#[test]
fn result_other_operations() {
    type R = Result<i32, String>;
    assert_eq!(R::from_result(Ok(1)), Ok(1));
    assert_eq!(R::recover_with(Err("e".to_string()), Ok(9)), Ok(9));
    assert_eq!(R::recover_with(Ok(1), Ok(9)), Ok(1));
    assert_eq!(R::adapt_error::<i32, _>(Err("e".to_string()), |e| e + "!"), Err("e!".to_string()));
    assert_eq!(R::handle_error(Err("abc".to_string()), |e| e.len() as i32), Ok(3));
    assert_eq!(R::recover(Err("x".to_string()), |e: &String| if e == "x" { Some(7) } else { None }), Ok(7));
    assert_eq!(R::recover(Err("y".to_string()), |e: &String| if e == "x" { Some(7) } else { None }), Err("y".to_string()));
    assert_eq!(R::recover_with_partial(Err("y".to_string()), |_: &String| Some(Ok(1))), Ok(1));
    assert_eq!(R::recover_with_partial(Err("y".to_string()), |_: &String| None::<Result<i32, String>>), Err("y".to_string()));
    assert_eq!(R::ensure(Ok(5), || "small".to_string(), |v: &i32| *v > 3), Ok(5));
    assert_eq!(R::ensure(Ok(2), || "small".to_string(), |v: &i32| *v > 3), Err("small".to_string()));
    assert_eq!(R::ensure_or(Ok(2), |v: &i32| format!("{v} too small"), |v: &i32| *v > 3), Err("2 too small".to_string()));
    assert_eq!(R::redeem(Err("ab".to_string()), |e| e.len(), |v: i32| v as usize), Ok(2));
    assert_eq!(R::redeem(Ok(9), |e: String| e.len(), |v: i32| v as usize), Ok(9));
    assert_eq!(R::redeem_with(Ok(3), |_e: String| Ok(0), |v: i32| if v > 1 { Ok(v * 2) } else { Err("low".to_string()) }), Ok(6));
    assert_eq!(R::redeem_with(Err("q".to_string()), |e: String| Err::<i32, String>(e + "q"), |v: i32| Ok(v)), Err("qq".to_string()));
}

#[test]
fn result_map_error() {
    let failing: Result<i32, i32> = Err(4);
    assert_eq!(failing.map_error(|e| e * 2), Err(8));
    let success: Result<i32, i32> = Ok(1);
    assert_eq!(success.map_error(|e| e * 2), Ok(1));
}
