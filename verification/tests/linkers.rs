use event_horizon::arc_linker::ArcLinker;
use event_horizon::rc_linker::RcLinker;
use event_horizon::receive::{Receive, ReceiverResult};
use event_horizon::view::{DeleteView, View};

#[derive(Default)]
struct Sum {
    total: i64,
}

impl Receive<i64> for Sum {
    type Output = i64;

    fn send(&mut self, event: i64) -> ReceiverResult<i64, i64> {
        self.total += event;
        ReceiverResult::Continue(self.total)
    }
}

impl View<i64> for Sum {
    fn view(&mut self, event: &i64) -> Option<DeleteView> {
        self.total += *event;
        None
    }
}

struct Moody;

impl Receive<String> for Moody {
    type Output = ();

    fn send(&mut self, event: String) -> ReceiverResult<String, ()> {
        if event.is_empty() {
            ReceiverResult::Stop
        } else {
            ReceiverResult::Continue(())
        }
    }
}

#[test]
fn rc_handle_forwards_while_the_linker_lives() {
    let linker = RcLinker::new(Sum { total: 1 });
    let mut handle = linker.linked();
    assert_eq!(handle.send(2), ReceiverResult::Continue(3));
    assert_eq!(handle.send(3), ReceiverResult::Continue(6));
    assert_eq!(linker.borrow().as_ref().unwrap().total, 6);
}

#[test]
fn rc_handle_passes_every_answer_through() {
    let linker = RcLinker::new(Moody);
    let mut handle = linker.linked();
    assert!(handle.send("x".to_string()).is_continue());
    assert!(handle.send(String::new()).is_stop());
}

#[test]
fn rc_handle_hands_the_event_back_once_the_linker_is_dropped() {
    let linker = RcLinker::new(Moody);
    let mut handle = linker.linked();
    drop(linker);
    assert_eq!(
        handle.send("unchanged".to_string()),
        ReceiverResult::Delete("unchanged".to_string())
    );
    assert_eq!(
        handle.send(String::new()),
        ReceiverResult::Delete(String::new())
    );
}

#[test]
fn rc_handles_share_one_slot() {
    let linker = RcLinker::new(Sum { total: 0 });
    let mut first = linker.linked();
    let mut second = linker.linked();
    let mut third = first.clone();
    assert_eq!(first.send(1), ReceiverResult::Continue(1));
    assert_eq!(second.send(1), ReceiverResult::Continue(2));
    assert_eq!(third.send(1), ReceiverResult::Continue(3));
    drop(linker);
    assert!(first.send(1).is_delete());
    assert!(second.send(1).is_delete());
    assert!(third.send(1).is_delete());
    assert!(first.get_receiver().borrow().is_none());
}

#[test]
fn rc_viewing_handle_asks_out_once_the_linker_is_dropped() {
    let linker = RcLinker::new(Sum { total: 0 });
    let mut handle = linker.linked();
    assert_eq!(handle.view(&5), None);
    assert_eq!(linker.borrow().as_ref().unwrap().total, 5);
    drop(linker);
    assert_eq!(handle.view(&5), Some(DeleteView));
}

#[test]
fn rc_linker_gives_access_to_the_slot() {
    let linker = RcLinker::new(Sum { total: 7 });
    linker.borrow_mut().as_mut().unwrap().total = 8;
    assert_eq!(linker.get_receiver().borrow().as_ref().unwrap().total, 8);
    let mut handle = linker.linked();
    handle.get_receiver().borrow_mut().as_mut().unwrap().total = 9;
    assert_eq!(handle.send(1), ReceiverResult::Continue(10));
    assert_eq!(linker.try_borrow().unwrap().as_ref().unwrap().total, 10);
}

#[test]
fn rc_linker_clone_is_a_second_owner() {
    let linker = RcLinker::new(Sum { total: 0 });
    let mut handle = linker.linked();
    let second = linker.clone();
    drop(second);
    assert!(handle.send(1).is_delete());
    assert!(linker.borrow().is_none());
}

#[test]
fn rc_linker_default_holds_the_default_value() {
    let linker: RcLinker<Sum> = RcLinker::default();
    let mut handle = linker.linked();
    assert_eq!(handle.send(4), ReceiverResult::Continue(4));
}

#[test]
fn arc_handle_forwards_while_the_linker_lives() {
    let linker = ArcLinker::new(Sum { total: 1 });
    let mut handle = linker.linked();
    assert_eq!(handle.send(2), ReceiverResult::Continue(3));
    assert_eq!(linker.lock().as_ref().unwrap().total, 3);
}

#[test]
fn arc_handle_hands_the_event_back_once_the_linker_is_dropped() {
    let linker = ArcLinker::new(Sum { total: 1 });
    let mut handle = linker.linked();
    let mut other = handle.clone();
    drop(linker);
    assert_eq!(handle.send(2), ReceiverResult::Delete(2));
    assert_eq!(other.send(-9), ReceiverResult::Delete(-9));
    assert!(handle.get_receiver().lock().unwrap().is_none());
}

#[test]
fn arc_viewing_handle_asks_out_once_the_linker_is_dropped() {
    let linker = ArcLinker::new(Sum { total: 0 });
    let mut handle = linker.linked();
    assert_eq!(handle.view(&5), None);
    assert_eq!(linker.get_receiver().lock().unwrap().as_ref().unwrap().total, 5);
    drop(linker);
    assert_eq!(handle.view(&5), Some(DeleteView));
}

#[test]
fn arc_linker_gives_access_to_the_slot() {
    let linker = ArcLinker::new(Sum { total: 7 });
    linker.lock().as_mut().unwrap().total = 8;
    let mut handle = linker.linked();
    assert_eq!(handle.send(1), ReceiverResult::Continue(9));
    assert!(linker.try_lock().is_ok());
}

#[test]
fn arc_linker_clone_is_a_second_owner() {
    let linker = ArcLinker::new(Sum { total: 0 });
    let mut handle = linker.linked();
    drop(linker.clone());
    assert!(handle.send(1).is_delete());
    let fresh: ArcLinker<Sum> = ArcLinker::default();
    assert_eq!(fresh.linked().send(3), ReceiverResult::Continue(3));
}

#[test]
fn dropping_a_linker_while_its_slot_is_borrowed_leaves_the_slot() {
    let linker = RcLinker::new(Sum { total: 0 });
    let handle = linker.linked();
    let mut other = linker.linked();
    {
        let guard = handle.get_receiver().borrow_mut();
        drop(linker);
        assert!(guard.is_some());
    }
    assert_eq!(other.send(1), ReceiverResult::Continue(1));
}

#[test]
fn full_slot_forwards_and_keeps_its_value() {
    let mut slot = Some(Sum { total: 1 });
    assert_eq!(
        event_horizon::slot::deliver(&mut slot, 2),
        ReceiverResult::Continue(3)
    );
    assert_eq!(event_horizon::slot::show(&mut slot, &4), None);
    assert_eq!(slot.as_ref().unwrap().total, 7);
}

#[test]
fn empty_slot_hands_back_and_stays_empty() {
    let mut slot: Option<Sum> = None;
    assert_eq!(
        event_horizon::slot::deliver(&mut slot, 2),
        ReceiverResult::Delete(2)
    );
    assert_eq!(event_horizon::slot::show(&mut slot, &4), Some(DeleteView));
    assert!(slot.is_none());
}

#[test]
fn cleared_slot_is_empty() {
    let mut slot = Some(Sum { total: 1 });
    event_horizon::slot::clear(&mut slot);
    assert!(slot.is_none());
    event_horizon::slot::clear(&mut slot);
    assert!(slot.is_none());
}

#[test]
fn slot_is_made_holding_its_value() {
    let mut slot = event_horizon::slot::fill(Sum { total: 5 });
    assert_eq!(slot.as_ref().unwrap().total, 5);
    assert_eq!(
        event_horizon::slot::deliver(&mut slot, 1),
        ReceiverResult::Continue(6)
    );
    let linker = RcLinker::new(Sum { total: 5 });
    assert_eq!(linker.borrow().as_ref().unwrap().total, 5);
    let linker = ArcLinker::new(Sum { total: 6 });
    assert_eq!(linker.lock().as_ref().unwrap().total, 6);
}
