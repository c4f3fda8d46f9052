use kswim::connection::periods_valid;
use kswim::group::{handler_step, HandlerAction, HandlerMsg};
use kswim::peer::{Peer, PeerError};
use kswim::ping::PingResult;
use kswim::registry::Registry;
use rand::Rng;
use std::time::Duration;

#[derive(Debug, Clone)]
pub struct Member {
    id: usize,
    name: String,
    pong_rate: usize,
}

impl Member {
    pub fn new(id: usize, name: &str, pong_rate: usize) -> Member {
        Member { id, name: name.to_owned(), pong_rate }
    }
}

impl Peer for Member {
    fn ping(&mut self, _timeout: Duration) -> PingResult {
        let mut rng = rand::thread_rng();
        let sr: usize = rng.gen_range(0..100);
        if sr >= self.pong_rate {
            PingResult::Pang
        } else {
            PingResult::Pong
        }
    }

    fn ping_request(&mut self, target: &mut Self, timeout: Duration) -> PingResult {
        target.ping(timeout)
    }

    fn announce_failure(&mut self, target: &Self) -> Result<(), PeerError> {
        println!("we reported {} as faulty to {}", target.name(), self.name());
        Ok(())
    }

    fn name(&self) -> String {
        self.name.clone()
    }
}

fn seven_members() -> Vec<(usize, Member)> {
    vec![
        (1, Member::new(1, "one", 90)),
        (2, Member::new(2, "two", 100)),
        (3, Member::new(3, "three", 100)),
        (4, Member::new(4, "four", 30)),
        (5, Member::new(5, "five", 0)),
        (6, Member::new(6, "six", 0)),
        (7, Member::new(7, "seven", 0)),
    ]
}

fn run_simple_group() {
    let protocol_period = Duration::from_secs(1);
    let ping_timeout = Duration::from_millis(300);
    assert!(periods_valid(protocol_period.as_nanos(), ping_timeout.as_nanos()));
    let mut registry: Registry<Member> = Registry::new(ping_timeout, 3);
    for (id, member) in seven_members() {
        assert_eq!(member.id, id);
        let action = handler_step(&mut registry, Some(HandlerMsg::Add { id, member }));
        assert!(matches!(action, HandlerAction::Acknowledge));
    }
    assert_eq!(registry.pick_k_random().len(), 3);

    assert_eq!(2 + 2, 4);
}

#[test]
fn test_simple_group() {
    run_simple_group();
}

#[test]
fn simple_group_simple_group() {
    run_simple_group();
}

#[test]
fn always_answering_members_survive_rounds() {
    let mut registry: Registry<Member> = Registry::new(Duration::from_millis(300), 3);
    for (id, member) in seven_members() {
        handler_step(&mut registry, Some(HandlerMsg::Add { id, member }));
    }
    // Members 2 and 3 always answer: whatever happens to the others, they stay.
    for _ in 0..20 {
        let action = handler_step(&mut registry, Some(HandlerMsg::PeriodicCheck));
        match action {
            HandlerAction::Checked(Some(outcome)) => {
                if outcome.id == 2 || outcome.id == 3 {
                    assert_eq!(outcome.result, PingResult::Pong);
                }
                assert!(!outcome.helpers.contains(&outcome.id));
            }
            HandlerAction::Checked(None) => panic!("the group is never empty here"),
            _ => panic!("a periodic check reports its outcome"),
        }
    }
    assert!(registry.remove(&2).is_some());
    assert!(registry.remove(&3).is_some());
}
