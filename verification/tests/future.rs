use moonshine_util::future::{Expired, Future, FutureValue, Promise, Ready, Wait};

struct Server(Promise<()>);

struct Client(Future<()>);

#[test]
fn future_value() {
    let p = Promise::new();
    let f = Future::new(&p);
    let server = Server(p);
    let client = Client(f);

    assert_eq!(client.0.poll(), Wait);
    assert_eq!(client.0.poll(), Wait);

    server.0.set(());
    drop(server);

    assert_eq!(client.0.poll(), Ready(()));
    assert_eq!(client.0.poll(), Expired);
}

#[test]
fn promise_start_pair() {
    let (promise, future) = Promise::<u32>::start();
    assert_eq!(future.poll(), Wait);
    promise.set(42);
    assert_eq!(future.poll(), Ready(42));
    assert_eq!(future.poll(), Expired);
}

#[test]
fn expired_future_stays_expired() {
    let future = Future::<u32>::expired();
    assert_eq!(future.poll(), Expired);
    assert_eq!(future.poll(), Expired);
}

#[test]
fn future_value_queries() {
    let ready: FutureValue<u32> = Ready(7);
    assert!(ready.is_ready());
    assert!(!ready.is_expired());
    assert_eq!(ready.unwrap(), 7);

    let wait: FutureValue<u32> = Wait;
    assert!(!wait.is_ready());
    assert!(!wait.is_expired());

    let expired: FutureValue<u32> = Expired;
    assert!(!expired.is_ready());
    assert!(expired.is_expired());
}

#[test]
fn poll_step_transitions() {
    let (result, slot) = FutureValue::<u32>::Wait.poll_step();
    assert_eq!(result, Wait);
    assert_eq!(slot, Wait);

    let (result, slot) = Ready(3u32).poll_step();
    assert_eq!(result, Ready(3));
    assert_eq!(slot, Expired);

    let (result, slot) = FutureValue::<u32>::Expired.poll_step();
    assert_eq!(result, Expired);
    assert_eq!(slot, Expired);
}

#[test]
fn forget_discards_without_reading() {
    let (promise, future) = Promise::<u32>::start();
    promise.set(1);
    future.forget();
}

#[test]
fn default_promise_waits_and_default_future_expires() {
    let promise: Promise<u32> = Promise::default();
    let future = Future::new(&promise);
    assert_eq!(future.poll(), Wait);

    let future: Future<u32> = Future::default();
    assert_eq!(future.poll(), Expired);
}
