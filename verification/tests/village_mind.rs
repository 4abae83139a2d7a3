use village_economy::village::worker::Worker;
use village_economy::village::Village;
use village_economy::village_mind::VillageMind;

type CheckForWorkerDeath = fn(&Worker) -> bool;
type CollectResource = fn(u32) -> f64;

fn default_village() -> Village<CheckForWorkerDeath, CollectResource> {
    Village::new(|_w: &Worker| false)
}

#[test]
fn trade_test() {
    let mut v1 = default_village();
    let mut mind1 = VillageMind::new();

    assert_eq!(0, mind1.trade(&mut v1).len());
}

#[test]
fn the_mind_leaves_the_village_alone() {
    let mut v1 = default_village();
    let w1 = v1.create_worker(2);
    let mut mind1 = VillageMind::new();

    mind1.manage_village(&mut v1);
    mind1.trade(&mut v1);

    assert_eq!(1, v1.idle_worker_count());
    assert_eq!(2, v1.worker(w1).unwrap().power);
}
