use lambars::except_transformer::ExceptT;
use lambars::io::IO;

#[test]
fn except_transformer_new_and_run() {
    let except: ExceptT<String, Option<Result<i32, String>>> = ExceptT::new(Some(Ok(42)));
    assert_eq!(except.run(), Some(Ok(42)));
}

#[test]
fn except_transformer_clone() {
    let except: ExceptT<String, Option<Result<i32, String>>> = ExceptT::new(Some(Ok(42)));
    let cloned = except.clone();
    assert_eq!(except.run(), Some(Ok(42)));
    assert_eq!(cloned.run(), Some(Ok(42)));
}

#[test]
fn except_transformer_pure_option() {
    let except: ExceptT<String, Option<Result<i32, String>>> = ExceptT::pure_option(42);
    assert_eq!(except.run(), Some(Ok(42)));
}

#[test]
fn except_transformer_throw_option() {
    let except: ExceptT<String, Option<Result<i32, String>>> =
        ExceptT::<String, Option<Result<i32, String>>>::throw_option("error".to_string());
    assert_eq!(except.run(), Some(Err("error".to_string())));
}

#[test]
fn except_transformer_flat_map_option() {
    let except: ExceptT<String, Option<Result<i32, String>>> = ExceptT::new(Some(Ok(10)));
    let chained = except.flat_map_option(|v| ExceptT::new(Some(Ok(v * 2))));
    assert_eq!(chained.run(), Some(Ok(20)));
}

#[test]
fn except_transformer_option_paths() {
    let lifted: ExceptT<String, Option<Result<i32, String>>> = ExceptT::lift_option(Some(3));
    assert_eq!(lifted.run(), Some(Ok(3)));
    let absent: ExceptT<String, Option<Result<i32, String>>> = ExceptT::lift_option(None);
    assert_eq!(absent.clone().fmap_option(|v| v + 1).run(), None);
    let failed: ExceptT<String, Option<Result<i32, String>>> = ExceptT::throw_option("e".to_string());
    assert_eq!(failed.fmap_option(|v| v + 1).run(), Some(Err("e".to_string())));
    let failed: ExceptT<String, Option<Result<i32, String>>> = ExceptT::throw_option("e".to_string());
    let caught = ExceptT::catch_option(failed, |e| ExceptT::pure_option(e.len() as i32));
    assert_eq!(caught.run(), Some(Ok(1)));
    let ok: ExceptT<String, Option<Result<i32, String>>> = ExceptT::pure_option(9);
    let kept = ExceptT::catch_option(ok, |_| ExceptT::pure_option(0));
    assert_eq!(kept.run(), Some(Ok(9)));
    let failed: ExceptT<String, Option<Result<i32, String>>> = ExceptT::throw_option("x".to_string());
    let skipped = failed.flat_map_option(|v| ExceptT::new(Some(Ok(v * 2))));
    assert_eq!(skipped.run(), Some(Err("x".to_string())));
}

#[test]
fn except_transformer_result_paths() {
    let pure: ExceptT<String, Result<Result<i32, String>, u8>> = ExceptT::pure_result(4);
    assert_eq!(pure.fmap_result(|v| v * 3).run(), Ok(Ok(12)));
    let thrown: ExceptT<String, Result<Result<i32, String>, u8>> = ExceptT::throw_result("bad".to_string());
    assert_eq!(thrown.run(), Ok(Err("bad".to_string())));
    let outer: ExceptT<String, Result<Result<i32, String>, u8>> = ExceptT::lift_result(Err(7));
    assert_eq!(outer.flat_map_result(|v| ExceptT::pure_result(v + 1)).run(), Err(7));
    let lifted: ExceptT<String, Result<Result<i32, String>, u8>> = ExceptT::lift_result(Ok(1));
    assert_eq!(lifted.flat_map_result(|v| ExceptT::pure_result(v + 1)).run(), Ok(Ok(2)));
    let thrown: ExceptT<String, Result<Result<i32, String>, u8>> = ExceptT::throw_result("bad".to_string());
    let caught = ExceptT::catch_result(thrown, |e| ExceptT::pure_result(e.len() as i32));
    assert_eq!(caught.run(), Ok(Ok(3)));
}

#[test]
fn except_transformer_io_paths() {
    let pure = ExceptT::<String, IO<Result<i32, String>, lambars::io::Ready<Result<i32, String>>>>::pure_io(5);
    assert_eq!(pure.run().run_unsafe(), Ok(5));
    let thrown = ExceptT::<String, IO<Result<i32, String>, lambars::io::Ready<Result<i32, String>>>>::throw_io("no".to_string());
    assert_eq!(thrown.run().run_unsafe(), Err("no".to_string()));
    let lifted = ExceptT::<String, _>::lift_io(IO::pure(2));
    let mapped = lifted.fmap_io(|v| v * 10);
    assert_eq!(mapped.run().run_unsafe(), Ok::<i32, String>(20));
    let pure = ExceptT::<String, IO<Result<i32, String>, lambars::io::Ready<Result<i32, String>>>>::pure_io(5);
    let chained = pure.flat_map_io(|v| ExceptT::<String, IO<Result<i32, String>, lambars::io::Ready<Result<i32, String>>>>::pure_io(v + 1));
    assert_eq!(chained.run().run_unsafe(), Ok(6));
    let thrown = ExceptT::<String, IO<Result<i32, String>, lambars::io::Ready<Result<i32, String>>>>::throw_io("no".to_string());
    let caught = ExceptT::catch_io(thrown, |e| ExceptT::<String, IO<Result<i32, String>, lambars::io::Ready<Result<i32, String>>>>::pure_io(e.len() as i32));
    assert_eq!(caught.run().run_unsafe(), Ok(2));
}
