use lambars::reader_transformer::ReaderT;
use lambars::io::IO;

#[test]
fn reader_transformer_new_and_run() {
    let reader = ReaderT::new(|environment: i32| Some(environment * 2));
    assert_eq!(reader.run(21), Some(42));
}

#[test]
fn reader_transformer_clone() {
    let reader = ReaderT::new(|environment: i32| Some(environment * 2));
    let cloned = reader.clone();
    assert_eq!(reader.run(21), Some(42));
    assert_eq!(cloned.run(21), Some(42));
}

#[test]
fn reader_transformer_pure_option() {
    let reader = ReaderT::<i32, Option<i32>>::pure_option(42);
    assert_eq!(reader.run(999), Some(42));
}

#[test]
fn reader_transformer_lift_option() {
    let reader = ReaderT::<i32, Option<i32>>::lift_option(Some(42));
    assert_eq!(reader.run(999), Some(42));
}

#[test]
fn reader_transformer_fmap_option() {
    let reader = ReaderT::new(Some::<i32>);
    let mapped = reader.fmap_option(|value| value * 2);
    assert_eq!(mapped.run(21), Some(42));
}

#[test]
fn reader_transformer_flat_map_option() {
    let reader = ReaderT::new(Some::<i32>);
    let chained = reader
        .flat_map_option(|value| ReaderT::new(move |environment: i32| Some(value + environment)));
    assert_eq!(chained.run(10), Some(20));
}

#[test]
fn reader_transformer_lift_option_none_stays_none() {
    let reader = ReaderT::<i32, Option<i32>>::lift_option(None);
    assert_eq!(reader.run(1), None);
}

#[test]
fn reader_transformer_fmap_option_keeps_none() {
    let reader = ReaderT::new(|_: i32| None::<i32>);
    let mapped = reader.fmap_option(|value| value * 2);
    assert_eq!(mapped.run(21), None);
}

#[test]
fn reader_transformer_flat_map_option_stops_on_none() {
    let reader = ReaderT::new(|environment: i32| if environment > 0 { Some(environment) } else { None });
    let chained = reader.flat_map_option(|value| ReaderT::new(move |environment: i32| Some(value * environment)));
    assert_eq!(chained.run(3), Some(9));
    assert_eq!(chained.run(-3), None);
}

#[test]
fn reader_transformer_ask_option() {
    let reader = ReaderT::<i32, Option<i64>>::ask_option();
    assert_eq!(reader.run(7), Some(7i64));
}

#[test]
fn reader_transformer_local_option() {
    let reader = ReaderT::new(|environment: i32| Some(environment * 10));
    let local = ReaderT::local_option(|environment: i32| environment + 1, reader);
    assert_eq!(local.run(4), Some(50));
}

#[test]
fn reader_transformer_result_chain() {
    let reader = ReaderT::new(|environment: i32| if environment >= 0 { Ok(environment) } else { Err("negative") });
    let chained = reader
        .fmap_result(|value| value + 1)
        .flat_map_result(|value| ReaderT::new(move |environment: i32| Ok::<i32, &str>(value * environment)));
    assert_eq!(chained.run(3), Ok(12));
    assert_eq!(chained.run(-1), Err("negative"));
}

#[test]
fn reader_transformer_pure_lift_ask_result() {
    let pure = ReaderT::<i32, Result<i32, String>>::pure_result(5);
    assert_eq!(pure.run(0), Ok(5));
    let lifted = ReaderT::<i32, Result<i32, String>>::lift_result(Err("bad".to_string()));
    assert_eq!(lifted.run(0), Err("bad".to_string()));
    let asked = ReaderT::<i32, Result<i64, String>>::ask_result();
    assert_eq!(asked.run(8), Ok(8i64));
    let local = ReaderT::local_result(|environment: i32| environment * 2, ReaderT::new(|environment: i32| Ok::<i32, String>(environment)));
    assert_eq!(local.run(21), Ok(42));
}

#[test]
fn reader_transformer_io_variants() {
    let pure = ReaderT::<i32, IO<i32, lambars::io::Ready<i32>>>::pure_io(3);
    assert_eq!(pure.run(0).run_unsafe(), 3);
    let asked = ReaderT::<i32, IO<i64, lambars::io::Ready<i64>>>::ask_io();
    assert_eq!(asked.run(9).run_unsafe(), 9i64);
    let reader = ReaderT::new(|environment: i32| IO::pure(environment * 2));
    let mapped = reader.fmap_io(|value| value + 1);
    assert_eq!(mapped.run(20).run_unsafe(), 41);
    let chained = ReaderT::new(|environment: i32| IO::pure(environment))
        .flat_map_io(|value| ReaderT::new(move |environment: i32| IO::pure(value * 100 + environment)));
    assert_eq!(chained.run(7).run_unsafe(), 707);
    let local = ReaderT::local_io(|environment: i32| environment - 1, ReaderT::new(|environment: i32| IO::pure(environment)));
    assert_eq!(local.run(1).run_unsafe(), 0);
}
