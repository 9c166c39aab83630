use agent_client::errand::{fisher_gear, resume_cast};
use agent_client::worker::{Step, ROD};

type P = (i32, i32);

#[test]
fn the_rod_goes_in_hand_before_anything_else() {
    assert_eq!(fisher_gear::<P>(false, true, false), Some(vec![Step::Use(ROD.to_string())]));
    assert_eq!(fisher_gear::<P>(false, false, false), Some(vec![Step::Idle]), "no rod: wait");
    assert_eq!(fisher_gear::<P>(true, true, true), Some(vec![Step::Idle]), "a cast is out");
    assert_eq!(fisher_gear::<P>(true, false, false), None);
}

#[test]
fn a_remembered_cast_is_repeated_walked_back_to_or_forgotten() {
    let mut cast: Option<(P, P)> = Some(((1, 1), (9, 9)));
    assert_eq!(resume_cast(&mut cast, true, true), Some(Step::Fish((9, 9))));
    assert_eq!(resume_cast(&mut cast, false, true), Some(Step::Walk((1, 1))));
    assert!(cast.is_some());
    assert_eq!(resume_cast(&mut cast, false, false), None);
    assert_eq!(cast, None, "on the shore and still out of reach: scan again");
    assert_eq!(resume_cast(&mut cast, true, true), None);
}
