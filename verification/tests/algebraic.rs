use lambars::algebraic::eff::{Done, Eff, OperationTag};
use lambars::algebraic::effect::{Effect, NoEffect};
use lambars::algebraic::error::{attempt, catch, ErrorEffect, ErrorHandler};
use lambars::algebraic::handler::{ComposedHandler, Handler, PureHandler};
use lambars::algebraic::interop::{ask, get, modify, put, tell, throw_error, IntoEff};
use lambars::algebraic::reader::{run_local, ReaderEffect, ReaderHandler};
use lambars::algebraic::row::{inject, project, EffCons, EffNil, Here, There};
use lambars::algebraic::state::{StateEffect, StateHandler};
use lambars::algebraic::writer::{listen, WriterEffect, WriterHandler};
use lambars::reader::Reader;

#[test]
fn effect_names() {
    assert_eq!(NoEffect::name(), "NoEffect");
    assert_eq!(StateEffect::<i32>::name(), "State");
    assert_eq!(ReaderEffect::<i32>::name(), "Reader");
    assert_eq!(WriterEffect::<String>::name(), "Writer");
    assert_eq!(ErrorEffect::<String>::name(), "Error");
    assert_eq!(EffNil::name(), "EffNil");
    assert_eq!(EffCons::<StateEffect<i32>, EffNil>::name(), "EffCons");
    assert_eq!(OperationTag::new(7), OperationTag(7));
}

#[test]
fn eff_pure_and_combinators() {
    let eff = Eff::<NoEffect, i32, Done<i32>>::pure(42);
    assert!(eff.is_pure());
    let mapped = Eff::<NoEffect, i32, Done<i32>>::pure(21).fmap(|x| x * 2);
    assert!(mapped.is_pure());
    assert_eq!(PureHandler.run(mapped), 42);
    let chained = Eff::<NoEffect, i32, Done<i32>>::pure(10).flat_map(|x| Eff::pure(x + 5));
    assert!(chained.is_pure());
    assert_eq!(PureHandler::new().run(chained), 15);
    let alias = Eff::<NoEffect, i32, Done<i32>>::pure(10).and_then(|x| Eff::pure(x + 5));
    assert_eq!(PureHandler.run(alias), 15);
    let combined = Eff::<NoEffect, i32, Done<i32>>::pure(10).map2(Eff::pure(20), |a, b| a + b);
    assert!(combined.is_pure());
    assert_eq!(PureHandler.run(combined), 30);
    let paired = Eff::<NoEffect, i32, Done<i32>>::pure(42).product(Eff::pure("hello"));
    assert_eq!(PureHandler.run(paired), (42, "hello"));
    let text = Eff::<NoEffect, i32, Done<i32>>::pure(42).map2(Eff::pure("hello"), |n, t| format!("{n}: {t}"));
    assert_eq!(PureHandler.run(text), "42: hello");
}

#[test]
fn eff_monad_laws_on_values() {
    let f = |x: i32| Eff::<NoEffect, i32, Done<i32>>::pure(x * 2);
    let left = Eff::<NoEffect, i32, Done<i32>>::pure(42).flat_map(f);
    assert_eq!(PureHandler.run(left), PureHandler.run(f(42)));
    let right = Eff::<NoEffect, i32, Done<i32>>::pure(5).flat_map(Eff::pure);
    assert_eq!(PureHandler.run(right), 5);
    let g = |x: i32| Eff::<NoEffect, i32, Done<i32>>::pure(x + 1);
    let lhs = Eff::<NoEffect, i32, Done<i32>>::pure(3).flat_map(f).flat_map(g);
    let rhs = Eff::<NoEffect, i32, Done<i32>>::pure(3).flat_map(move |x| f(x).flat_map(g));
    assert_eq!(PureHandler.run(lhs), PureHandler.run(rhs));
}

#[test]
fn state_operations() {
    assert_eq!(StateHandler::new(42).run(StateEffect::<i32>::get()), (42, 42));
    assert_eq!(StateHandler::new(0).run(StateEffect::put(7)), ((), 7));
    assert_eq!(StateHandler::new(5).run(StateEffect::modify(|s: i32| s * 3)), ((), 15));
    let projected = StateEffect::<Vec<i32>>::gets(|v: &Vec<i32>| v.len());
    assert_eq!(StateHandler::new(vec![1, 2, 3]).run(projected).0, 3);
    let put_then_get = StateEffect::put(9).flat_map(|_| StateEffect::<i32>::get());
    assert_eq!(StateHandler::new(1).run(put_then_get), (9, 9));
    let counter = StateEffect::<i32>::get().flat_map(|s| StateEffect::put(s + 1)).flat_map(|_| StateEffect::<i32>::get());
    let handler = StateHandler::new(10);
    assert_eq!(*handler.initial_state(), 10);
    assert_eq!(handler.run(counter), (11, 11));
    let functor_identity = StateEffect::<i32>::get().fmap(|x| x);
    assert_eq!(StateHandler::new(4).run(functor_identity), (4, 4));
}

#[test]
fn reader_operations() {
    let handler = ReaderHandler::new(21);
    assert_eq!(*handler.environment(), 21);
    assert_eq!(handler.run(ReaderEffect::<i32>::ask().fmap(|x| x * 2)), 42);
    assert_eq!(ReaderHandler::new("hello".to_string()).run(ReaderEffect::asks(|s: String| s.len())), 5);
    let local = ReaderHandler::new(10).run_with_local(|e| e + 5, ReaderEffect::<i32>::ask());
    assert_eq!(local, 15);
    let combined = run_local(|e: i32| e * 10, ReaderEffect::<i32>::ask(), |inner| ReaderEffect::<i32>::ask().fmap(move |outer| inner + outer));
    assert_eq!(ReaderHandler::new(2).run(combined), 22);
    let from_reader = Reader::new(|environment: i32| environment * 2).into_eff();
    assert_eq!(ReaderHandler::new(21).run(from_reader), 42);
}

#[test]
fn writer_operations() {
    let logged = WriterEffect::tell("hello ".to_string()).flat_map(|_| WriterEffect::tell("world".to_string()));
    assert_eq!(WriterHandler::new().run(logged), ((), "hello world".to_string()));
    let listened = listen(WriterEffect::tell(vec![1, 2]).fmap(|_| 7));
    assert_eq!(WriterHandler::new().run(listened), ((7, vec![1, 2]), vec![1, 2]));
}

#[test]
fn error_operations() {
    let thrown = ErrorEffect::<String>::throw::<i32>("error".to_string());
    assert_eq!(ErrorHandler::new().run(thrown), Err("error".to_string()));
    let short = ErrorEffect::<String>::throw::<i32>("early".to_string()).flat_map(|x| Eff::pure(x + 1));
    assert_eq!(ErrorHandler::new().run(short), Err("early".to_string()));
    let ok = Eff::<ErrorEffect<String>, i32, Done<i32>>::pure(3);
    assert_eq!(ErrorHandler::new().run(ok), Ok(3));
    let recovered = catch(ErrorEffect::<String>::throw::<i32>("bad".to_string()), |e| Eff::pure(e.len() as i32));
    assert_eq!(ErrorHandler::new().run(recovered), Ok(3));
    let kept = catch(Eff::<ErrorEffect<String>, i32, Done<i32>>::pure(8), |_| Eff::pure(0));
    assert_eq!(ErrorHandler::new().run(kept), Ok(8));
    let attempted = attempt(ErrorEffect::<i32>::throw::<String>(42));
    assert_eq!(ErrorHandler::new().run(attempted), Ok(Err(42)));
}

#[test]
fn rows_and_interop() {
    type Row = EffCons<StateEffect<i32>, EffNil>;
    let modified = modify::<i32, Row, Here, _>(|x| x * 2);
    let projected = project(modified).unwrap();
    assert_eq!(StateHandler::new(21).run(projected), ((), 42));
    let got = project(get::<i32, Row, Here>()).unwrap();
    assert_eq!(StateHandler::new(5).run(got), (5, 5));
    let put_in_row = project(put::<i32, Row, Here>(3)).unwrap();
    assert_eq!(StateHandler::new(5).run(put_in_row), ((), 3));
    type Two = EffCons<ReaderEffect<i32>, EffCons<WriterEffect<String>, EffNil>>;
    let told = project::<WriterEffect<String>, There<Here>, Two, (), _>(tell::<String, Two, There<Here>>("hi".to_string())).unwrap();
    assert_eq!(WriterHandler::new().run(told), ((), "hi".to_string()));
    let asked = project::<ReaderEffect<i32>, Here, Two, i32, _>(ask::<i32, Two, Here>()).unwrap();
    assert_eq!(ReaderHandler::new(9).run(asked), 9);
    type Errors = EffCons<ErrorEffect<String>, EffNil>;
    let thrown = project(throw_error::<String, i32, Errors, Here>("e".to_string())).unwrap();
    assert_eq!(ErrorHandler::new().run(thrown), Err("e".to_string()));
    let _there: There<Here> = There::new();
    let _row: EffCons<StateEffect<i32>, EffNil> = EffCons::new();
}

#[test]
fn composed_handler_parts() {
    let composed = ComposedHandler::new(StateHandler::new(1), ReaderHandler::new(2));
    assert_eq!(*composed.first().initial_state(), 1);
    assert_eq!(*composed.second().environment(), 2);
    let (state, reader) = composed.into_parts();
    assert_eq!(state.run(StateEffect::<i32>::get()), (1, 1));
    assert_eq!(reader.run(ReaderEffect::<i32>::ask()), 2);
}

#[test]
fn get_then_put_keeps_the_state() {
    let computation = StateEffect::<i32>::get().flat_map(StateEffect::put);
    assert_eq!(StateHandler::new(17).run(computation), ((), 17));
}

#[test]
fn modify_then_modify_composes() {
    let twice = StateEffect::modify(|s: i32| s + 1).then(StateEffect::modify(|s: i32| s * 2));
    let once = StateEffect::modify(|s: i32| (s + 1) * 2);
    assert_eq!(StateHandler::new(3).run(twice), ((), 8));
    assert_eq!(StateHandler::new(3).run(once), ((), 8));
}

#[test]
fn tell_then_tell_appends_both() {
    let twice = WriterEffect::tell(vec![1, 2]).then(WriterEffect::tell(vec![3]));
    let once = WriterEffect::tell(vec![1, 2, 3]);
    assert_eq!(WriterHandler::new().run(twice), ((), vec![1, 2, 3]));
    assert_eq!(WriterHandler::new().run(once), ((), vec![1, 2, 3]));
}

#[test]
fn listen_to_tell_gives_the_log() {
    let listened = listen(WriterEffect::tell("ab".to_string()));
    assert_eq!(WriterHandler::new().run(listened), (((), "ab".to_string()), "ab".to_string()));
}

#[test]
fn injecting_a_pure_computation_keeps_it_pure() {
    let injected = inject::<StateEffect<i32>, Here, EffCons<StateEffect<i32>, EffNil>, i32, Done<i32>>(Eff::pure(3));
    assert!(injected.is_pure());
}

#[test]
fn flat_map_on_a_pure_computation_is_the_continuation() {
    let chained = Eff::<NoEffect, i32, Done<i32>>::pure(42).flat_map(|x| Eff::pure(x * 2));
    assert!(chained.is_pure());
    assert_eq!(PureHandler.run(chained), 84);
}

#[test]
fn flat_map_nesting_gives_the_same_result() {
    let nested_left = Eff::<NoEffect, i32, Done<i32>>::pure(5).flat_map(|x| Eff::pure(x + 1)).flat_map(|x| Eff::pure(x * 2));
    let nested_right = Eff::<NoEffect, i32, Done<i32>>::pure(5).flat_map(|x| Eff::pure(x + 1).flat_map(|y| Eff::pure(y * 2)));
    assert_eq!(PureHandler.run(nested_left), 12);
    assert_eq!(PureHandler.run(nested_right), 12);
}

#[test]
fn state_flat_map_nesting_gives_the_same_result() {
    let nested_left = StateEffect::<i32>::get().flat_map(|s| StateEffect::put(s + 1)).flat_map(|_| StateEffect::<i32>::get());
    let nested_right = StateEffect::<i32>::get().flat_map(|s| StateEffect::put(s + 1).flat_map(|_| StateEffect::<i32>::get()));
    assert_eq!(StateHandler::new(4).run(nested_left), (5, 5));
    assert_eq!(StateHandler::new(4).run(nested_right), (5, 5));
}
