use karabiner::thunk::{Expr, Thunk, Yield};
use std::sync::{Arc, Mutex};

type Boxed<T> = Box<dyn FnOnce() -> T + Send + Sync>;

#[test]
fn evaluate_just_once() {
    let c1 = Arc::new(Mutex::new(0));
    let c2 = c1.clone();

    let value = Thunk::lazy(move || {
        let mut data = c1.lock().unwrap();
        *data += 1;
    });

    assert_eq!(*c2.lock().unwrap(), 0);
    assert_eq!(value.get(), Some(()));
    assert_eq!(*c2.lock().unwrap(), 1);
    assert_eq!(value.get(), Some(()));
    assert_eq!(*c2.lock().unwrap(), 1);
}

#[test]
fn print_once() {
    let expr = Thunk::lazy(move || {
        println!("evaluated!");
        7
    });

    assert_eq!(expr.get(), Some(7)); // "evaluated!" printed here.
    assert_eq!(expr.get(), Some(7)); // Nothing printed.
    assert_eq!(expr.get(), Some(7));
}

#[test]
fn thunks_in_vec() {
    let arc0 = Arc::new(Mutex::new(Vec::new()));
    let arc1 = arc0.clone();
    let arc2 = arc0.clone();
    let arc3 = arc0.clone();
    let first: Boxed<i32> = Box::new(move || {
        arc1.lock().unwrap().push(0);
        0
    });
    let second: Boxed<i32> = Box::new(move || {
        arc2.lock().unwrap().push(1);
        1
    });
    let third: Boxed<i32> = Box::new(move || {
        arc3.lock().unwrap().push(2);
        2
    });
    let mut vec = vec![
        Thunk::lazy(first),
        Thunk::lazy(second),
        Thunk::lazy(third),
        Thunk::eval(3),
    ];

    assert_eq!(vec.len(), 4);
    let removed = vec.remove(2);
    assert_eq!(vec.len(), 3);

    for thunk in vec.iter() {
        Thunk::force(thunk);
    }

    {
        let locked = arc0.lock().unwrap();
        assert!(*locked == vec![0, 1], "{:?}", *locked);
    }
    assert!(removed.get() == Some(2)); // removed thunk evaluate here.
    {
        let locked = arc0.lock().unwrap();
        assert!(*locked == vec![0, 1, 2], "{:?}", *locked);
    }
}

#[test]
fn evaluate_at_deref() {
    let value = Thunk::lazy(move || 1000);
    assert_eq!(value.get(), Some(1000));
}

#[test]
fn thunk_in_thunk() {
    let t1 = Thunk::lazy(move || {
        println!("t1");
        1 + 2
    });
    let t2 = Thunk::lazy(move || {
        println!("t2");
        3 + 4
    });

    let t3 = Thunk::lazy(move || {
        println!("evaluate thunk in thunk");
        let r1 = t1.get().unwrap();
        let r2 = t2.get().unwrap();
        (r1 + r2) * r1
    });

    assert!(t3.get() == Some(30));
}

fn assert_send<T: Send>() {}

fn assert_sync<T: Sync>() {}

#[test]
fn tests_assert_send_sync() {
    assert_send::<Thunk<Vec<u8>, Boxed<Vec<u8>>>>();
    assert_sync::<Thunk<Vec<u8>, Boxed<Vec<u8>>>>();
}

#[test]
fn eval_shows_its_value_and_runs_nothing() {
    let thunk = Thunk::<i32, fn() -> i32>::eval(3);
    assert_eq!(thunk.get(), Some(3));
    assert_eq!(thunk.read(|value| *value + 1), Some(4));
    assert_eq!(thunk.get(), Some(3));
}

#[test]
fn force_runs_the_computation_once() {
    let runs = Arc::new(Mutex::new(0));
    let seen = runs.clone();
    let thunk = Thunk::lazy(move || {
        *runs.lock().unwrap() += 1;
        String::from("done")
    });

    assert_eq!(*seen.lock().unwrap(), 0);
    Thunk::force(&thunk);
    assert_eq!(*seen.lock().unwrap(), 1);
    Thunk::force(&thunk);
    Thunk::force(&thunk);
    assert_eq!(*seen.lock().unwrap(), 1);
    assert_eq!(thunk.read(|value| value.clone()), Some(String::from("done")));
    assert_eq!(*seen.lock().unwrap(), 1);
}

#[test]
fn every_dereference_shows_the_same_value() {
    let runs = Arc::new(Mutex::new(0u32));
    let seen = runs.clone();
    let thunk = Thunk::lazy(move || {
        let mut runs = runs.lock().unwrap();
        *runs += 1;
        *runs * 10
    });

    let mut shown = Vec::new();
    for _ in 0..12 {
        shown.push(thunk.read(|value| *value));
    }
    assert_eq!(shown, vec![Some(10); 12]);
    assert_eq!(*seen.lock().unwrap(), 1);
}

#[test]
fn update_changes_the_result_in_place() {
    let runs = Arc::new(Mutex::new(0));
    let seen = runs.clone();
    let mut thunk = Thunk::lazy(move || {
        *runs.lock().unwrap() += 1;
        5
    });

    assert!(thunk.update(|value| value + 1));
    assert_eq!(*seen.lock().unwrap(), 1);
    assert_eq!(thunk.read(|value| *value), Some(6));
    assert!(thunk.update(|value| value * 2));
    assert_eq!(thunk.read(|value| *value), Some(12));
    assert_eq!(*seen.lock().unwrap(), 1);
}

#[test]
fn update_of_a_ready_value() {
    let mut thunk = Thunk::<Vec<u8>, fn() -> Vec<u8>>::eval(vec![1]);
    assert!(thunk.update(|mut bytes| {
        bytes.push(2);
        bytes
    }));
    assert_eq!(thunk.read(|bytes| bytes.clone()), Some(vec![1, 2]));
}

#[test]
fn yield_invokes_its_computation() {
    let pending = Yield::new(|| 6 * 7);
    assert_eq!(pending.invoke(), 42);
}

#[test]
fn evaluate_runs_a_deferred_expression() {
    let expr = Expr::Deferred(Yield::new(|| 9));
    assert!(expr.value().is_none());
    let done = expr.evaluate();
    assert_eq!(done.value(), Some(&9));
    assert!(matches!(done, Expr::Evaluated(9)));
}

#[test]
fn evaluate_leaves_other_expressions_alone() {
    let running = Expr::<i32, fn() -> i32>::InProgress;
    assert!(running.value().is_none());
    assert!(matches!(running.evaluate(), Expr::InProgress));

    let done = Expr::<i32, fn() -> i32>::Evaluated(4);
    assert_eq!(done.value(), Some(&4));
    assert!(matches!(done.evaluate(), Expr::Evaluated(4)));
}

struct DropTest(Arc<Mutex<u64>>);

impl DropTest {
    fn value(&self) -> u64 {
        let DropTest(ref c) = *self;
        *c.lock().unwrap()
    }
}

impl Drop for DropTest {
    fn drop(&mut self) {
        let DropTest(ref c) = *self;
        *c.lock().unwrap() += 1;
        println!("drop {:?} ", c);
    }
}

#[test]
fn drop_just_once() {
    let c1 = Arc::new(Mutex::new(0));
    let c2 = c1.clone();

    {
        let drop = DropTest(c2);
        let lazy = Thunk::lazy(move || {
            let drop_ref = &drop;
            assert!(drop_ref.value() == 0, "drop_ref:{:?}", drop_ref.value());
        });
        Thunk::force(&lazy);
    }

    assert_eq!(*c1.lock().unwrap(), 1);
}

#[test]
fn only_a_waiting_computation_is_deferred() {
    assert!(Expr::Deferred(Yield::new(|| 1)).is_deferred());
    assert!(!Expr::<i32, fn() -> i32>::InProgress.is_deferred());
    assert!(!Expr::<i32, fn() -> i32>::Evaluated(1).is_deferred());
}

#[test]
fn show_visits_a_result_and_nothing_else() {
    let done = Expr::<i32, fn() -> i32>::Evaluated(20);
    assert_eq!(done.show(|value| *value + 1), Some(21));

    let mut visits = 0;
    let running = Expr::<i32, fn() -> i32>::InProgress;
    assert_eq!(running.show(|value| { visits += 1; *value }), None);
    let waiting = Expr::Deferred(Yield::new(|| 3));
    assert_eq!(waiting.show(|value| { visits += 1; *value }), None);
    assert_eq!(visits, 0);
}

#[test]
fn a_settled_thunk_always_shows_and_always_changes() {
    let mut thunk = Thunk::<u64, fn() -> u64>::eval(3);
    assert_eq!(thunk.get(), Some(3));
    assert!(thunk.update(|value| 2 * value));
    assert_eq!(thunk.get(), Some(6));
    assert!(thunk.update(|value| value + 1));
    assert_eq!(thunk.read(|value| *value), Some(7));
}

#[test]
fn force_of_a_ready_value_changes_nothing() {
    let thunk = Thunk::<&str, fn() -> &'static str>::eval("kept");
    Thunk::force(&thunk);
    Thunk::force(&thunk);
    assert_eq!(thunk.get(), Some("kept"));
}

#[test]
fn amend_changes_a_result() {
    let done = Expr::<i32, fn() -> i32>::Evaluated(1);
    assert!(matches!(done.amend(|value| value + 1), Ok(2)));
}

#[test]
fn amend_hands_back_an_expression_in_progress() {
    let mut calls = 0;
    let running = Expr::<i32, fn() -> i32>::InProgress;
    let out = running.amend(|value| {
        calls += 1;
        value + 1
    });
    assert!(matches!(out, Err(Expr::InProgress)));
    assert_eq!(calls, 0);
}

#[test]
fn amend_hands_back_a_deferred_expression() {
    let mut calls = 0;
    let waiting = Expr::Deferred(Yield::new(|| 7));
    let out = waiting.amend(|value| {
        calls += 1;
        value + 1
    });
    assert_eq!(calls, 0);
    match out {
        Err(Expr::Deferred(pending)) => assert_eq!(pending.invoke(), 7),
        _ => panic!("the computation did not come back"),
    }
}

#[test]
fn a_lazy_one_incremented_in_place_reads_two() {
    let runs = Arc::new(Mutex::new(0));
    let seen = runs.clone();
    let mut thunk = Thunk::lazy(move || {
        *runs.lock().unwrap() += 1;
        1
    });
    assert_eq!(*seen.lock().unwrap(), 0);
    assert!(thunk.update(|value| value + 1));
    assert_eq!(*seen.lock().unwrap(), 1);
    assert_eq!(thunk.get(), Some(2));
    assert_eq!(thunk.get(), Some(2));
    assert_eq!(*seen.lock().unwrap(), 1);
}

#[test]
fn try_force_finds_nothing_amiss() {
    let runs = Arc::new(Mutex::new(0));
    let seen = runs.clone();
    let thunk = Thunk::lazy(move || {
        *runs.lock().unwrap() += 1;
        4
    });
    assert!(Thunk::try_force(&thunk));
    assert_eq!(*seen.lock().unwrap(), 1);
    assert!(Thunk::try_force(&thunk));
    assert_eq!(*seen.lock().unwrap(), 1);
    assert_eq!(thunk.get(), Some(4));

    let ready = Thunk::<i32, fn() -> i32>::eval(3);
    assert!(Thunk::try_force(&ready));
    assert_eq!(ready.get(), Some(3));
}
