use std::cell::{Cell, RefCell};
use std::rc::Rc;

use std::marker::PhantomData;

use reactive_rs::{Broadcast, ContextFn, SimpleBroadcast, Stream, Then};

#[test]
fn subscribe_filters_odd_values_fed_in_order() {
    let out = RefCell::new(Vec::new());
    let stream = SimpleBroadcast::<i64>::new();
    stream.clone().filter(|x| x % 2 != 0).subscribe(|x| out.borrow_mut().push(*x));
    stream.feed(0..=5);
    assert_eq!(&*out.borrow(), &[1, 3, 5]);
}

#[test]
fn subscribe_ctx_receives_context_and_mapped_value() {
    let result = Cell::new((0, 0.));
    let stream = Broadcast::<i32, f64>::new();
    stream
        .clone()
        .map_ctx(|c, x| (*c as f64) + *x)
        .subscribe_ctx(|c, x| result.set((*c, *x)));
    stream.send_ctx(&3, &7.5);
    assert_eq!(result.get(), (3, 10.5));
}

#[test]
fn broadcast_hands_each_value_to_observers_in_subscription_order() {
    let out = RefCell::new(Vec::new());
    let stream = SimpleBroadcast::<i32>::new();
    stream.clone().subscribe(|x| out.borrow_mut().push(*x + 1));
    stream.clone().subscribe(|x| out.borrow_mut().push(*x + 7));
    stream.feed(1..=3);
    assert_eq!(&*out.borrow(), &[2, 8, 3, 9, 4, 10]);
}

#[test]
fn nothing_is_observed_before_a_value_is_sent() {
    let seen = Cell::new(0);
    let s = SimpleBroadcast::<i32>::new();
    s.clone().map(|x| x + 1).subscribe(|_| seen.set(seen.get() + 1));
    assert_eq!(seen.get(), 0);
    s.send(&1);
    assert_eq!(seen.get(), 1);
}

#[test]
fn every_clone_reaches_the_same_observers() {
    let total = Cell::new(0);
    let a = SimpleBroadcast::<i32>::new();
    let b = a.clone();
    a.clone().subscribe(|x| total.set(total.get() + *x));
    b.clone().subscribe(|x| total.set(total.get() + 10 * *x));
    b.send(&1);
    assert_eq!(total.get(), 11);
    a.send(&2);
    assert_eq!(total.get(), 33);
}

#[test]
fn observers_subscribed_later_miss_earlier_values() {
    let first = RefCell::new(Vec::new());
    let second = RefCell::new(Vec::new());
    let s = SimpleBroadcast::<i32>::new();
    s.clone().subscribe(|x| first.borrow_mut().push(*x));
    s.send(&1);
    s.clone().subscribe(|x| second.borrow_mut().push(*x));
    s.send(&2);
    assert_eq!(&*first.borrow(), &[1, 2]);
    assert_eq!(&*second.borrow(), &[2]);
}

#[test]
fn broadcast_without_observers_accepts_values() {
    let s = Broadcast::<u8, u8>::default();
    s.send_ctx(&1, &2);
    s.send(&3);
    s.feed_ctx(&4, vec![5u8, 6].into_iter());
}

#[test]
fn from_stream_forks_a_stream() {
    let a = Cell::new(0);
    let b = Cell::new(0);
    let s = SimpleBroadcast::<i32>::new();
    let doubled = Broadcast::from_stream(s.clone().map(|x| x * 2));
    doubled.clone().subscribe(|x| a.set(*x));
    doubled.clone().map(|x| x + 1).subscribe(|x| b.set(*x));
    s.send(&21);
    assert_eq!((a.get(), b.get()), (42, 43));
}

#[test]
fn feed_ctx_sends_every_value_with_the_same_context() {
    let out = RefCell::new(Vec::new());
    let s = Broadcast::<char, u32>::new();
    s.clone().subscribe_ctx(|c, x| out.borrow_mut().push((*c, *x)));
    s.feed_ctx(&'k', vec![3u32, 1, 2].into_iter());
    assert_eq!(&*out.borrow(), &[('k', 3), ('k', 1), ('k', 2)]);
}

#[test]
fn send_uses_the_default_context() {
    let out = RefCell::new(Vec::new());
    let s = Broadcast::<String, i32>::new();
    s.clone().subscribe_ctx(|c, x| out.borrow_mut().push((c.clone(), *x)));
    s.send(&5);
    s.send_ctx(&"ctx".to_string(), &6);
    assert_eq!(&*out.borrow(), &[(String::new(), 5), ("ctx".to_string(), 6)]);
}

#[test]
fn with_ctx_replaces_every_context() {
    let out = RefCell::new(Vec::new());
    let s = Broadcast::<i32, i32>::new();
    s.clone().with_ctx("fixed").subscribe_ctx(|c, x| out.borrow_mut().push((*c, *x)));
    s.send_ctx(&1, &10);
    s.send_ctx(&2, &20);
    assert_eq!(&*out.borrow(), &[("fixed", 10), ("fixed", 20)]);
}

#[test]
fn with_ctx_map_computes_the_context_and_keeps_the_value() {
    let out = RefCell::new(Vec::new());
    let s = Broadcast::<i32, i32>::new();
    s.clone()
        .with_ctx_map(|c, x| c * 100 + x)
        .subscribe_ctx(|c, x| out.borrow_mut().push((*c, *x)));
    s.send_ctx(&1, &2);
    s.send_ctx(&3, &4);
    assert_eq!(&*out.borrow(), &[(102, 2), (304, 4)]);
}

#[test]
fn ctx_emits_the_context_twice() {
    let out = RefCell::new(Vec::new());
    let s = Broadcast::<i32, &str>::new();
    s.clone().ctx().subscribe_ctx(|c, x| out.borrow_mut().push((*c, *x)));
    s.send_ctx(&7, &"seven");
    assert_eq!(&*out.borrow(), &[(7, 7)]);
}

#[test]
fn map_both_replaces_context_and_value() {
    let out = RefCell::new(Vec::new());
    let s = Broadcast::<i32, i32>::new();
    s.clone().map_both_ctx(|c, x| (*x, *c)).subscribe_ctx(|c, x| out.borrow_mut().push((*c, *x)));
    s.send_ctx(&1, &2);
    assert_eq!(&*out.borrow(), &[(2, 1)]);
}

#[test]
fn filter_map_keeps_contexts_of_the_some_results() {
    let out = RefCell::new(Vec::new());
    let s = Broadcast::<u8, i32>::new();
    s.clone()
        .filter_map(|x| if *x > 0 { Some(x * 3) } else { None })
        .subscribe_ctx(|c, x| out.borrow_mut().push((*c, *x)));
    s.send_ctx(&1, &5);
    s.send_ctx(&2, &-5);
    s.send_ctx(&3, &1);
    assert_eq!(&*out.borrow(), &[(1, 15), (3, 3)]);
}

#[test]
fn fold_emits_running_accumulators_starting_from_init() {
    let out = RefCell::new(Vec::new());
    let s = SimpleBroadcast::<i32>::new();
    s.clone().fold(100, |acc, x| acc - x).subscribe(|x| out.borrow_mut().push(*x));
    s.feed(vec![1, 2, 3].into_iter());
    assert_eq!(&*out.borrow(), &[99, 97, 94]);
}

#[test]
fn fold_ctx_sees_the_context() {
    let out = RefCell::new(Vec::new());
    let s = Broadcast::<i32, i32>::new();
    s.clone().fold_ctx(0, |c, acc, x| acc + c * x).subscribe(|x| out.borrow_mut().push(*x));
    s.send_ctx(&2, &3);
    s.send_ctx(&10, &1);
    assert_eq!(&*out.borrow(), &[6, 16]);
}

#[test]
fn inspect_runs_before_the_downstream_observer() {
    let log = RefCell::new(Vec::new());
    let s = SimpleBroadcast::<i32>::new();
    s.clone()
        .inspect(|x| log.borrow_mut().push(format!("inspect {}", x)))
        .subscribe(|x| log.borrow_mut().push(format!("observe {}", x)));
    s.send(&1);
    assert_eq!(&*log.borrow(), &["inspect 1".to_string(), "observe 1".to_string()]);
}

#[test]
fn last_n_windows_fill_up_then_slide() {
    let out = RefCell::new(Vec::new());
    let s = SimpleBroadcast::<i32>::new();
    s.clone().last_n(3).subscribe(|w| out.borrow_mut().push(w.clone()));
    s.feed(1..=5);
    assert_eq!(
        &*out.borrow(),
        &[vec![1], vec![1, 2], vec![1, 2, 3], vec![2, 3, 4], vec![3, 4, 5]]
    );
}

#[test]
fn last_n_of_zero_yields_empty_windows() {
    let out = RefCell::new(Vec::new());
    let s = SimpleBroadcast::<i32>::new();
    s.clone().last_n(0).subscribe(|w| out.borrow_mut().push(w.len()));
    s.feed(1..=4);
    assert_eq!(&*out.borrow(), &[0, 0, 0, 0]);
}

#[test]
fn last_n_of_one_keeps_the_latest_element() {
    let out = RefCell::new(Vec::new());
    let s = Broadcast::<u8, String>::new();
    s.clone().last_n(1).subscribe_ctx(|c, w| out.borrow_mut().push((*c, w.clone())));
    s.send_ctx(&1, &"a".to_string());
    s.send_ctx(&2, &"b".to_string());
    assert_eq!(&*out.borrow(), &[(1, vec!["a".to_string()]), (2, vec!["b".to_string()])]);
}

#[test]
fn mid_price_relative_to_recent_extremes() {
    let min_rel = Cell::new(0.);
    let max_rel = Cell::new(0.);
    let quotes = SimpleBroadcast::<(f64, f64)>::new();
    let last = quotes
        .clone()
        .with_ctx_map(|_, &(buy, sell)| (buy + sell) / 2.)
        .last_n(3)
        .filter(|quotes| quotes.len() > 2)
        .broadcast();
    let min = last.clone().map(|p| p.iter().map(|q| q.0).fold(1. / 0., f64::min));
    let max = last.clone().map(|p| p.iter().map(|q| q.1).fold(-1. / 0., f64::max));
    min.subscribe_ctx(|p, min| min_rel.set(min / p));
    max.subscribe_ctx(|p, max| max_rel.set(max / p));
    quotes.send(&(100., 102.));
    quotes.send(&(101., 103.));
    assert_eq!((min_rel.get(), max_rel.get()), (0., 0.));
    quotes.send(&(99., 101.));
    assert_eq!((min_rel.get(), max_rel.get()), (0.99, 1.03));
    quotes.send(&(97., 103.));
    assert_eq!((min_rel.get(), max_rel.get()), (0.97, 1.03));
}

#[test]
fn observer_subscribed_during_delivery_is_kept_for_later_values() {
    let late = Rc::new(RefCell::new(Vec::new()));
    let s = SimpleBroadcast::<i32>::new();
    let handle = s.clone();
    let late_in = late.clone();
    let done = Cell::new(false);
    s.clone().subscribe(move |x| {
        if !done.get() {
            done.set(true);
            let sink = late_in.clone();
            let first = *x;
            handle.clone().subscribe(move |y| sink.borrow_mut().push(*y + 100 * first));
        }
    });
    s.send(&1);
    assert!(late.borrow().is_empty());
    s.send(&2);
    s.send(&3);
    assert_eq!(&*late.borrow(), &[102, 103]);
}

#[test]
fn value_sent_back_into_a_delivering_broadcast_does_not_loop() {
    let seen = RefCell::new(Vec::new());
    let s = SimpleBroadcast::<i32>::new();
    let handle = s.clone();
    s.clone().subscribe(|x| seen.borrow_mut().push(*x));
    s.clone().subscribe(move |x| handle.send(&(*x + 1)));
    s.send(&1);
    assert_eq!(&*seen.borrow(), &[1]);
}

#[test]
fn map_then_filter_then_subscribe() {
    let out = RefCell::new(Vec::new());
    let s = SimpleBroadcast::<u32>::new();
    s.clone().map(|x| (*x as u64) + 1).filter(|x| *x > 2).subscribe(|x| out.borrow_mut().push(*x));
    s.feed(vec![1u32, 2, 3].into_iter());
    assert_eq!(&*out.borrow(), &[3u64, 4]);
}

#[test]
fn two_maps_emit_what_one_map_of_the_composition_emits() {
    let chained = RefCell::new(Vec::new());
    let composed = RefCell::new(Vec::new());
    let s = Broadcast::<i32, i32>::new();
    s.clone()
        .map_ctx(|c, x| c * 10 + x)
        .map_ctx(|c, y| y - c)
        .subscribe_ctx(|c, z| chained.borrow_mut().push((*c, *z)));
    s.clone()
        .map_ctx(|c, x| (c * 10 + x) - c)
        .subscribe_ctx(|c, z| composed.borrow_mut().push((*c, *z)));
    s.send_ctx(&1, &5);
    s.send_ctx(&2, &7);
    assert_eq!(&*chained.borrow(), &[(1, 14), (2, 25)]);
    assert_eq!(&*chained.borrow(), &*composed.borrow());
}

#[test]
fn then_applies_the_second_callable_to_the_result_of_the_first() {
    let f = |c: &i32, x: &i32| c + x;
    let g = |c: &i32, y: &i32| y * c;
    let h = Then(f, g, PhantomData::<i32>);
    assert_eq!(h.call(&3, &4), 21);
}

#[test]
fn every_observer_gets_a_value_before_any_gets_the_next() {
    let log = RefCell::new(Vec::new());
    let s = Broadcast::<u8, i32>::new();
    s.clone().subscribe_ctx(|c, x| log.borrow_mut().push((0, *c, *x)));
    s.clone().subscribe_ctx(|c, x| log.borrow_mut().push((1, *c, *x)));
    s.feed_ctx(&9, vec![4, 5].into_iter());
    assert_eq!(&*log.borrow(), &[(0, 9, 4), (1, 9, 4), (0, 9, 5), (1, 9, 5)]);
}

#[test]
fn feeding_a_chain_is_feeding_its_parts_in_turn() {
    let whole = RefCell::new(Vec::new());
    let parts = RefCell::new(Vec::new());
    let a = Broadcast::<u8, i32>::new();
    a.clone().subscribe_ctx(|c, x| whole.borrow_mut().push((0, *c, *x)));
    a.clone().subscribe_ctx(|c, x| whole.borrow_mut().push((1, *c, *x)));
    a.feed_ctx(&3, vec![1, 2].into_iter().chain(vec![5]));
    let b = Broadcast::<u8, i32>::new();
    b.clone().subscribe_ctx(|c, x| parts.borrow_mut().push((0, *c, *x)));
    b.clone().subscribe_ctx(|c, x| parts.borrow_mut().push((1, *c, *x)));
    b.feed_ctx(&3, vec![1, 2].into_iter());
    b.send_ctx(&3, &5);
    assert_eq!(&*whole.borrow(), &*parts.borrow());
    assert_eq!(whole.borrow().len(), 6);
}
