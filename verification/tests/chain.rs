use std::cell::RefCell;
use std::rc::Rc;

use event_horizon::intercept::{link_from, Link};
use event_horizon::rc_linker::RcLinker;
use event_horizon::receive::pass_receiver::PassReceiver;
use event_horizon::receive::{Receive, ReceiverResult};
use event_horizon::router::{Route, Router};

/// Appends its mark to every event.
struct Mark(char);

impl Receive<String> for Mark {
    type Output = String;

    fn send(&mut self, mut event: String) -> ReceiverResult<String, String> {
        event.push(self.0);
        ReceiverResult::Continue(event)
    }
}

/// Stops events that hold the letter it was made with.
struct Guard(char);

impl Receive<String> for Guard {
    type Output = String;

    fn send(&mut self, event: String) -> ReceiverResult<String, String> {
        if event.contains(self.0) {
            ReceiverResult::Stop
        } else {
            ReceiverResult::Continue(event)
        }
    }
}

/// Keeps every event it is sent.
struct Log {
    seen: Rc<RefCell<Vec<String>>>,
}

impl Receive<String> for Log {
    type Output = usize;

    fn send(&mut self, event: String) -> ReceiverResult<String, usize> {
        self.seen.borrow_mut().push(event);
        ReceiverResult::Continue(self.seen.borrow().len())
    }
}

fn log() -> (Log, Rc<RefCell<Vec<String>>>) {
    let seen = Rc::new(RefCell::new(Vec::new()));
    (Log { seen: seen.clone() }, seen)
}

fn length<E, R: Receive<E>>(router: &Router<E, R>) -> usize {
    let mut count = 0;
    let mut next = router.get_intercept();
    while let Some(link) = next {
        count += 1;
        next = link.intercept.as_deref();
    }
    count
}

#[test]
fn empty_chain_hands_the_event_to_the_receiver() {
    let (receiver, seen) = log();
    let mut router = Router::new(receiver);
    assert!(router.get_intercept().is_none());
    assert_eq!(router.send("e".to_string()), ReceiverResult::Continue(1));
    assert_eq!(*seen.borrow(), vec!["e".to_string()]);
}

#[test]
fn links_stand_in_the_order_of_attachment_and_the_far_end_sees_the_event_first() {
    let (receiver, seen) = log();
    let mut router = Router::new(receiver);
    router.intercept_from_receiver(Mark('a'));
    router.intercept_from_receiver(Mark('b'));
    assert_eq!(length(&router), 2);
    assert_eq!(router.send(String::new()), ReceiverResult::Continue(1));
    assert_eq!(*seen.borrow(), vec!["ba".to_string()]);
}

#[test]
fn link_at_the_root_stands_first_and_sees_the_event_last() {
    let (receiver, seen) = log();
    let mut router = Router::new(receiver);
    router.intercept_from_receiver(Mark('a'));
    router.intercept_from_receiver(Mark('b'));
    router.intercept_at_root_from_receiver(Mark('x'));
    assert_eq!(length(&router), 3);
    router.send(String::new());
    assert_eq!(*seen.borrow(), vec!["bax".to_string()]);

    let head = router.delete_top_intercept().unwrap();
    assert!(head.intercept.is_none());
    router.send(String::new());
    assert_eq!(seen.borrow()[1], "ba");
}

#[test]
fn link_at_the_root_of_an_empty_chain_is_the_chain() {
    let (receiver, seen) = log();
    let mut router = Router::new(receiver);
    router.intercept_at_root_from_receiver(Mark('x'));
    assert_eq!(length(&router), 1);
    router.send("1".to_string());
    assert_eq!(*seen.borrow(), vec!["1x".to_string()]);
}

#[test]
fn stop_ends_the_delivery() {
    let (receiver, seen) = log();
    let mut router = Router::new(receiver);
    router.intercept_from_receiver(Mark('a'));
    router.intercept_from_receiver(Guard('!'));
    assert_eq!(router.send("no!".to_string()), ReceiverResult::Stop);
    assert!(seen.borrow().is_empty());
    assert_eq!(router.send("yes".to_string()), ReceiverResult::Continue(1));
    assert_eq!(*seen.borrow(), vec!["yesa".to_string()]);
    assert_eq!(length(&router), 2);
}

#[test]
fn stop_keeps_the_links_before_it_from_the_event() {
    let (receiver, seen) = log();
    let (watch, watched) = log();
    let mut router = Router::new(receiver);
    router.intercept_from_receiver(Router::with_intercept_from_receiver(
        Guard('!'),
        Spy { log: watch },
    ));
    assert_eq!(router.send("!".to_string()), ReceiverResult::Stop);
    assert!(watched.borrow().is_empty());
    assert!(seen.borrow().is_empty());
    assert_eq!(router.send("ok".to_string()), ReceiverResult::Continue(1));
    assert_eq!(*watched.borrow(), vec!["ok".to_string()]);
}

/// Keeps a copy of every event and hands the event on.
struct Spy {
    log: Log,
}

impl Receive<String> for Spy {
    type Output = String;

    fn send(&mut self, event: String) -> ReceiverResult<String, String> {
        self.log.send(event.clone());
        ReceiverResult::Continue(event)
    }
}

#[test]
fn link_that_is_gone_is_cut_and_the_event_goes_on() {
    let (receiver, seen) = log();
    let first = RcLinker::new(Mark('a'));
    let second = RcLinker::new(Mark('b'));
    let third = RcLinker::new(Mark('c'));
    let mut router = Router::new(receiver);
    router.intercept_from_receiver(first.linked());
    router.intercept_from_receiver(second.linked());
    router.intercept_from_receiver(third.linked());

    router.send(String::new());
    assert_eq!(seen.borrow()[0], "cba");

    drop(second);
    assert_eq!(length(&router), 3);
    assert_eq!(router.send(String::new()), ReceiverResult::Continue(2));
    assert_eq!(seen.borrow()[1], "ca");
    assert_eq!(length(&router), 2);

    drop(first);
    drop(third);
    assert_eq!(router.send("-".to_string()), ReceiverResult::Continue(3));
    assert_eq!(seen.borrow()[2], "-");
    assert_eq!(length(&router), 0);
    assert_eq!(router.send("+".to_string()), ReceiverResult::Continue(4));
    assert_eq!(seen.borrow()[3], "+");
}

#[test]
fn receiver_that_is_gone_hands_the_event_back() {
    let linker = RcLinker::new(Mark('r'));
    let mut router = Router::new(linker.linked());
    assert_eq!(
        router.send("1".to_string()),
        ReceiverResult::Continue("1r".to_string())
    );
    drop(linker);
    assert_eq!(
        router.send("2".to_string()),
        ReceiverResult::Delete("2".to_string())
    );
    assert_eq!(router.send("3".to_string()).unwrap_delete(), "3");
}

#[test]
fn take_intercept_takes_the_whole_chain() {
    let (receiver, seen) = log();
    let mut router = Router::new(receiver);
    assert!(router.take_intercept().is_none());
    router.intercept_from_receiver(Mark('a'));
    router.intercept_from_receiver(Mark('b'));
    let taken = router.take_intercept().unwrap();
    assert!(taken.intercept.is_some());
    assert_eq!(length(&router), 0);
    router.send(String::new());
    assert_eq!(seen.borrow()[0], "");

    router.intercept(taken);
    assert_eq!(length(&router), 2);
    router.send(String::new());
    assert_eq!(seen.borrow()[1], "ba");
}

#[test]
fn delete_top_intercept_cuts_one_link() {
    let (receiver, seen) = log();
    let mut router = Router::new(receiver);
    assert!(router.delete_top_intercept().is_none());
    router.intercept_from_receiver(Mark('a'));
    router.intercept_from_receiver(Mark('b'));
    router.intercept_from_receiver(Mark('c'));
    let mut head = router.delete_top_intercept().unwrap();
    assert!(head.intercept.is_none());
    assert_eq!(head.send("?".to_string()), ReceiverResult::Continue("?a".to_string()));
    assert_eq!(length(&router), 2);
    router.send(String::new());
    assert_eq!(*seen.borrow(), vec!["cb".to_string()]);
}

#[test]
fn routers_are_built_with_their_chain() {
    let (receiver, seen) = log();
    let mut chain = link_from(Mark('a'));
    chain.intercept(link_from(Mark('b')));
    chain.intercept_at_root(link_from(Mark('c')));
    let mut router = Router::with_intercept(chain, receiver);
    assert_eq!(length(&router), 3);
    router.send(String::new());
    assert_eq!(*seen.borrow(), vec!["bca".to_string()]);

    let (receiver, seen) = log();
    let mut router = Router::with_intercept_from_receiver(Mark('z'), receiver);
    assert_eq!(length(&router), 1);
    router.send("a".to_string());
    assert_eq!(*seen.borrow(), vec!["az".to_string()]);
    assert_eq!(router.get_receiver().seen.borrow().len(), 1);
    router.get_receiver_mut().seen = Rc::new(RefCell::new(Vec::new()));
    router.send("b".to_string());
    assert_eq!(seen.borrow().len(), 1);
}

#[test]
fn link_alone_is_a_receiver() {
    let mut link = Link::new(Mark('m'));
    assert!(link.intercept.is_none());
    assert_eq!(
        link.send("l".to_string()),
        ReceiverResult::Continue("lm".to_string())
    );
    let mut chain = Some(Box::new(Link::new(Guard('x'))));
    assert_eq!(
        event_horizon::intercept::pass(&mut chain, "x".to_string()),
        None
    );
    assert_eq!(
        event_horizon::intercept::pass(&mut chain, "y".to_string()),
        Some("y".to_string())
    );
}

#[test]
fn default_router_stands_around_the_default_receiver() {
    let mut router: Router<u8, PassReceiver> = Router::default();
    assert!(router.get_intercept().is_none());
    assert_eq!(router.send(5), ReceiverResult::Continue(5));
}

#[test]
fn router_becomes_a_link_with_its_chain_behind_it() {
    let (receiver, seen) = log();
    let owner = RcLinker::new(Mark('i'));
    let mut inner = Router::new(owner.linked());
    inner.intercept_from_receiver(Mark('c'));

    let mut router = Router::new(receiver);
    router.intercept(inner.into_intercept());
    assert_eq!(length(&router), 2);
    router.send(String::new());
    assert_eq!(seen.borrow()[0], "ci");

    drop(owner);
    router.send(String::new());
    assert_eq!(seen.borrow()[1], "c");
    assert_eq!(length(&router), 1);
}
