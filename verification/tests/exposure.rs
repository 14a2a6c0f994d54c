use std::cell::RefCell;
use std::rc::Rc;

use event_horizon::exposed::Exposed;
use event_horizon::rc_linker::RcLinker;
use event_horizon::receive::{Receive, ReceiverResult};
use event_horizon::router::Router;
use event_horizon::view::{DeleteView, View};
use event_horizon::counted_map::HashMapFull;
use event_horizon::viewers::{enter, Viewers, ViewersFull};

type Notes = Rc<RefCell<Vec<(char, i32)>>>;

/// Notes every event under its name, and asks out after `patience` events.
struct Witness {
    name: char,
    notes: Notes,
    patience: usize,
}

impl View<i32> for Witness {
    fn view(&mut self, event: &i32) -> Option<DeleteView> {
        self.notes.borrow_mut().push((self.name, *event));
        if self.patience <= 1 {
            Some(DeleteView)
        } else {
            self.patience -= 1;
            None
        }
    }
}

/// Notes every event under the name 'r' and answers with its double.
struct Doubler {
    notes: Notes,
}

impl Receive<i32> for Doubler {
    type Output = i32;

    fn send(&mut self, event: i32) -> ReceiverResult<i32, i32> {
        self.notes.borrow_mut().push(('r', event));
        if event < 0 {
            ReceiverResult::Stop
        } else {
            ReceiverResult::Continue(event * 2)
        }
    }
}

fn witness(name: char, notes: &Notes, patience: usize) -> Witness {
    Witness { name, notes: notes.clone(), patience }
}

#[test]
fn viewers_see_the_event_before_the_receiver_does() {
    let notes: Notes = Rc::new(RefCell::new(Vec::new()));
    let mut exposed = Exposed::new(Doubler { notes: notes.clone() });
    exposed.box_and_add_viewer(witness('a', &notes, 9)).unwrap();
    exposed.box_and_add_viewer(witness('b', &notes, 9)).unwrap();
    exposed.box_and_add_viewer(witness('c', &notes, 9)).unwrap();
    assert_eq!(exposed.send(21), ReceiverResult::Continue(42));
    assert_eq!(*notes.borrow(), vec![('a', 21), ('b', 21), ('c', 21), ('r', 21)]);
}

#[test]
fn the_answer_does_not_depend_on_the_viewers() {
    let notes: Notes = Rc::new(RefCell::new(Vec::new()));
    let mut bare = Exposed::new(Doubler { notes: notes.clone() });
    let mut watched = Exposed::new(Doubler { notes: notes.clone() });
    for name in ['a', 'b', 'c', 'd'] {
        watched.box_and_add_viewer(witness(name, &notes, 1)).unwrap();
    }
    assert_eq!(bare.send(4), watched.send(4));
    assert_eq!(bare.send(-4), ReceiverResult::Stop);
    assert_eq!(watched.send(-4), ReceiverResult::Stop);
}

#[test]
fn viewer_that_asks_out_is_removed_after_the_pass() {
    let notes: Notes = Rc::new(RefCell::new(Vec::new()));
    let mut exposed = Exposed::new(Doubler { notes: notes.clone() });
    let a = exposed.box_and_add_viewer(witness('a', &notes, 9)).unwrap();
    let b = exposed.box_and_add_viewer(witness('b', &notes, 1)).unwrap();
    let c = exposed.box_and_add_viewer(witness('c', &notes, 2)).unwrap();

    exposed.send(1);
    assert_eq!(*notes.borrow(), vec![('a', 1), ('b', 1), ('c', 1), ('r', 1)]);
    assert_eq!(exposed.get_viewers().len(), 2);
    assert!(exposed.get_viewers().get(a).is_some());
    assert!(exposed.get_viewers().get(b).is_none());
    assert!(exposed.get_viewers().get(c).is_some());

    notes.borrow_mut().clear();
    exposed.send(2);
    assert_eq!(*notes.borrow(), vec![('a', 2), ('c', 2), ('r', 2)]);
    assert_eq!(exposed.get_viewers().len(), 1);
    assert_eq!(exposed.get_viewers().id_at(0), a);

    notes.borrow_mut().clear();
    exposed.send(3);
    assert_eq!(*notes.borrow(), vec![('a', 3), ('r', 3)]);
}

#[test]
fn all_viewers_may_ask_out_in_one_pass() {
    let notes: Notes = Rc::new(RefCell::new(Vec::new()));
    let mut exposed = Exposed::new(Doubler { notes: notes.clone() });
    for name in ['a', 'b', 'c'] {
        exposed.box_and_add_viewer(witness(name, &notes, 1)).unwrap();
    }
    assert_eq!(exposed.send(5), ReceiverResult::Continue(10));
    assert_eq!(exposed.get_viewers().len(), 0);
    notes.borrow_mut().clear();
    assert_eq!(exposed.send(6), ReceiverResult::Continue(12));
    assert_eq!(*notes.borrow(), vec![('r', 6)]);
}

#[test]
fn viewer_whose_linker_is_dropped_is_removed() {
    let notes: Notes = Rc::new(RefCell::new(Vec::new()));
    let mut exposed = Exposed::new(Doubler { notes: notes.clone() });
    let kept = RcLinker::new(witness('k', &notes, 9));
    let lost = RcLinker::new(witness('l', &notes, 9));
    exposed.box_and_add_viewer(lost.linked()).unwrap();
    exposed.box_and_add_viewer(kept.linked()).unwrap();
    exposed.send(1);
    drop(lost);
    exposed.send(2);
    assert_eq!(exposed.get_viewers().len(), 1);
    exposed.send(3);
    assert_eq!(
        *notes.borrow(),
        vec![('l', 1), ('k', 1), ('r', 1), ('k', 2), ('r', 2), ('k', 3), ('r', 3)]
    );
}

#[test]
fn ids_count_up_and_are_given_again() {
    let notes: Notes = Rc::new(RefCell::new(Vec::new()));
    let mut exposed = Exposed::new(Doubler { notes: notes.clone() });
    assert_eq!(exposed.box_and_add_viewer(witness('a', &notes, 9)), Ok(0));
    assert_eq!(exposed.add_viewer(Box::new(witness('b', &notes, 9))), Ok(1));
    assert_eq!(exposed.box_and_add_viewer(witness('c', &notes, 9)), Ok(2));

    assert!(exposed.remove_viewer(1).is_some());
    assert!(exposed.remove_viewer(1).is_none());
    assert!(exposed.remove_viewer(7).is_none());
    assert_eq!(exposed.get_viewers().len(), 2);

    assert_eq!(exposed.box_and_add_viewer(witness('d', &notes, 9)), Ok(1));
    assert_eq!(exposed.box_and_add_viewer(witness('e', &notes, 9)), Ok(3));

    exposed.send(0);
    assert_eq!(
        *notes.borrow(),
        vec![('a', 0), ('c', 0), ('d', 0), ('e', 0), ('r', 0)]
    );
}

#[test]
fn removed_viewer_comes_back_as_it_was() {
    let notes: Notes = Rc::new(RefCell::new(Vec::new()));
    let mut exposed = Exposed::new(Doubler { notes: notes.clone() });
    let id = exposed.box_and_add_viewer(witness('a', &notes, 9)).unwrap();
    exposed.send(1);
    let mut viewer = exposed.remove_viewer(id).unwrap();
    exposed.send(2);
    assert_eq!(viewer.watch(&3), None);
    assert_eq!(*notes.borrow(), vec![('a', 1), ('r', 1), ('r', 2), ('a', 3)]);
}

#[test]
fn collection_keeps_values_under_their_ids() {
    let mut viewers: Viewers<&str> = Viewers::new();
    assert_eq!(viewers.len(), 0);
    assert_eq!(viewers.push("zero"), Ok(0));
    assert_eq!(viewers.push("one"), Ok(1));
    assert_eq!(viewers.push("two"), Ok(2));
    assert_eq!(viewers.get(1), Some(&"one"));
    assert_eq!(viewers.get(3), None);
    assert_eq!(viewers.remove(0), Some("zero"));
    assert_eq!(viewers.remove(0), None);
    assert_eq!(viewers.len(), 2);
    assert_eq!(viewers.id_at(0), 1);
    assert_eq!(viewers.id_at(1), 2);
    assert_eq!(viewers.remove(2), Some("two"));
    assert_eq!(viewers.push("again"), Ok(2));
    assert_eq!(viewers.push("more"), Ok(0));
    assert_eq!(viewers.push("fresh"), Ok(3));
    assert_eq!(viewers.get(2), Some(&"again"));
    assert_ne!(Err::<usize, ViewersFull>(ViewersFull), viewers.push("last"));
}

#[test]
fn exposure_is_built_around_its_receiver_and_viewers() {
    let notes: Notes = Rc::new(RefCell::new(Vec::new()));
    let mut viewers = Viewers::new();
    viewers.push(Box::new(witness('v', &notes, 9)) as event_horizon::exposed::Viewer<i32>).unwrap();
    let mut exposed = Exposed::with_viewers(viewers, Doubler { notes: notes.clone() });
    assert_eq!(exposed.get_viewers().len(), 1);
    exposed.get_receiver_mut().notes = Rc::new(RefCell::new(Vec::new()));
    assert_eq!(exposed.send(8), ReceiverResult::Continue(16));
    assert_eq!(*notes.borrow(), vec![('v', 8)]);
    assert_eq!(*exposed.get_receiver().notes.borrow(), vec![('r', 8)]);
}

#[test]
fn routers_are_built_around_an_exposure() {
    let notes: Notes = Rc::new(RefCell::new(Vec::new()));

    let mut router = Router::new_exposed(Doubler { notes: notes.clone() });
    router.get_receiver_mut().box_and_add_viewer(witness('a', &notes, 9)).unwrap();
    assert_eq!(router.send(1), ReceiverResult::Continue(2));

    let mut viewers = Viewers::new();
    viewers.push(Box::new(witness('b', &notes, 9)) as event_horizon::exposed::Viewer<i32>).unwrap();
    let mut router = Router::new_exposed_with_viewers(Doubler { notes: notes.clone() }, viewers);
    assert_eq!(router.send(2), ReceiverResult::Continue(4));

    let mut router = Router::new_exposed_with_intercept_from_receiver(
        Negate,
        Doubler { notes: notes.clone() },
    );
    router.get_receiver_mut().box_and_add_viewer(witness('c', &notes, 9)).unwrap();
    assert_eq!(router.send(-3), ReceiverResult::Continue(6));

    let mut router = Router::new_exposed_with_intercept(
        event_horizon::intercept::link_from(Negate),
        Doubler { notes: notes.clone() },
    );
    assert_eq!(router.send(4), ReceiverResult::Stop);

    assert_eq!(
        *notes.borrow(),
        vec![('a', 1), ('r', 1), ('b', 2), ('r', 2), ('c', 3), ('r', 3), ('r', -4)]
    );
}

/// Turns every number into its opposite.
struct Negate;

impl Receive<i32> for Negate {
    type Output = i32;

    fn send(&mut self, event: i32) -> ReceiverResult<i32, i32> {
        ReceiverResult::Continue(-event)
    }
}

#[test]
fn refusal_of_the_map_becomes_the_collections_own() {
    let mut entries = vec![(0usize, 'a')];
    assert_eq!(enter(&mut entries, Err(HashMapFull), 'b'), Err(ViewersFull));
    assert_eq!(entries, vec![(0, 'a')]);
    assert_eq!(enter(&mut entries, Ok(4), 'c'), Ok(4));
    assert_eq!(entries, vec![(0, 'a'), (4, 'c')]);
}

#[test]
fn id_that_was_taken_out_is_the_next_to_be_given() {
    let mut viewers: Viewers<char> = Viewers::new();
    assert_eq!(viewers.push('a'), Ok(0));
    assert_eq!(viewers.push('b'), Ok(1));
    assert_eq!(viewers.push('c'), Ok(2));
    assert_eq!(viewers.remove(1), Some('b'));
    assert_eq!(viewers.remove(0), Some('a'));
    assert_eq!(viewers.remove(9), None);
    assert_eq!(viewers.push('d'), Ok(0));
    assert_eq!(viewers.push('e'), Ok(1));
    assert_eq!(viewers.push('f'), Ok(3));
}
