use gauntlet::hresult::{S_FALSE, S_OK};
use gauntlet::metrics::Delta;
use gauntlet::report::Report;
use gauntlet::rng::Rng;
use gauntlet::suites::lifecycle::{
    further_seed, goes_on, joins_mta, judge_handle_growth, judge_handover, judge_mixed,
    judge_reference_count, judge_sta, opening_line, random_op, sequence_case, sequence_failure,
    sequence_seed, thread_failure, thread_panicked, thread_seed, Action, Answer, Handover, Op, Session,
};

/// A library that keeps every rule, and the objects held of it.
#[derive(Default)]
struct Model {
    factories: usize,
    providers: Vec<bool>,
    locks: i32,
    /// Answers every poll with success.
    always_unloadable: bool,
    /// Accepts a second initialisation.
    forgetful: bool,
}

impl Model {
    fn perform(&mut self, action: &Action) -> Answer {
        match *action {
            Action::Idle | Action::Sleep(_) => Answer::Done,
            Action::MakeFactory => {
                self.factories += 1;
                Answer::Done
            }
            Action::Instantiate | Action::MakeProvider => {
                self.providers.push(false);
                Answer::Done
            }
            Action::Initialize(i) => {
                if self.providers[i] && !self.forgetful {
                    Answer::Initialized(Err(0x8000_4005))
                } else {
                    self.providers[i] = true;
                    Answer::Initialized(Ok(()))
                }
            }
            Action::Cast(_) => Answer::Has(true),
            Action::Thumbnail(i, _) => Answer::Rendered(self.providers[i]),
            Action::Query => Answer::Has(false),
            Action::DropFactory(i) => {
                assert!(i < self.factories);
                self.factories -= 1;
                Answer::Done
            }
            Action::DropProvider(i) => {
                self.providers.remove(i);
                Answer::Done
            }
            Action::Lock(on) => {
                assert!(self.factories > 0);
                self.locks += if on { 1 } else { -1 };
                assert!(self.locks >= 0, "an unlock without a lock");
                Answer::Done
            }
            Action::Poll => {
                let held = self.factories > 0 || !self.providers.is_empty() || self.locks > 0;
                if held && !self.always_unloadable {
                    Answer::Status(S_FALSE)
                } else {
                    Answer::Status(S_OK)
                }
            }
        }
    }
}

fn play(model: &mut Model, seed: u64, length: usize) -> (Session, usize) {
    let mut session = Session::new(seed, length);
    let mut actions = 0;
    let mut pending = session.next();
    while let Some(action) = pending {
        let answer = model.perform(&action);
        actions += 1;
        assert!(actions <= 2 * length);
        pending = match session.answer(answer) {
            Some(more) => Some(more),
            None => session.next(),
        };
    }
    (session, actions)
}

#[test]
fn a_correct_library_never_fails() {
    for seed in 0..300 {
        let mut model = Model::default();
        let (mut session, _) = play(&mut model, seed, 60);
        assert!(session.failure().is_none(), "{seed}");
        let plan = session.wind_down();
        assert_eq!(plan.unlocks, model.locks);
        assert_eq!(plan.needs_factory, model.locks > 0 && model.factories == 0);
        session.released(true);
        let again = session.wind_down();
        assert_eq!(again.unlocks, 0);
        assert!(!again.needs_factory);
    }
}

#[test]
fn unloading_under_live_objects_is_found() {
    let mut found = 0;
    for seed in 0..100 {
        let mut model = Model { always_unloadable: true, ..Model::default() };
        let (session, _) = play(&mut model, seed, 60);
        if let Some(why) = session.failure() {
            found += 1;
            assert!(why.starts_with("DllCanUnloadNow returned S_OK while "), "{why}");
            assert!(why.ends_with(
                "locks were outstanding - COM would unmap the DLL under live objects"
            ));
            assert!(session.transcript_text().ends_with("PollCanUnload]"));
        }
    }
    assert!(found > 50);
}

#[test]
fn a_second_initialisation_is_found() {
    let mut found = 0;
    for seed in 0..100 {
        let mut model = Model { forgetful: true, ..Model::default() };
        let (session, _) = play(&mut model, seed, 60);
        if let Some(why) = session.failure() {
            found += 1;
            assert_eq!(why, "Initialize succeeded twice on the same provider");
        }
    }
    assert!(found > 20);
}

/// Answers everything correctly until an action is met that `spoil` answers.
fn spoiled(spoil: impl Fn(&Action, &Model) -> Option<Answer>) -> String {
    for seed in 0..500 {
        let mut model = Model::default();
        let mut session = Session::new(seed, 60);
        let mut pending = session.next();
        while let Some(action) = pending {
            let answer = match spoil(&action, &model) {
                Some(a) => a,
                None => model.perform(&action),
            };
            pending = match session.answer(answer) {
                Some(more) => Some(more),
                None => session.next(),
            };
        }
        if let Some(why) = session.failure() {
            return why.clone();
        }
    }
    panic!("nothing was found");
}

#[test]
fn every_violation_has_its_words() {
    assert_eq!(
        spoiled(|a, _| if matches!(a, Action::MakeFactory) {
            Some(Answer::Refused("x".to_string()))
        } else {
            None
        }),
        "class_factory failed: x"
    );
    assert_eq!(
        spoiled(|a, m| match a {
            Action::Initialize(i) if !m.providers[*i] => Some(Answer::Initialized(Err(0x8000_4005))),
            _ => None,
        }),
        "Initialize failed on a fresh provider: 0x80004005"
    );
    assert_eq!(
        spoiled(|a, m| match a {
            Action::Thumbnail(i, _) if !m.providers[*i] => Some(Answer::Rendered(true)),
            _ => None,
        }),
        "GetThumbnail succeeded on a provider that was never initialised"
    );
    assert_eq!(
        spoiled(|a, _| if matches!(a, Action::Query) { Some(Answer::Has(true)) } else { None }),
        "QI succeeded for an interface the provider does not implement"
    );
    assert_eq!(
        spoiled(|a, _| if matches!(a, Action::Lock(true)) {
            Some(Answer::Refused("y".to_string()))
        } else {
            None
        }),
        "LockServer(true) failed: y"
    );
}

#[test]
fn a_missing_interface_is_no_violation() {
    for seed in 0..50 {
        let mut model = Model::default();
        let mut session = Session::new(seed, 60);
        let mut pending = session.next();
        while let Some(action) = pending {
            let answer = match action {
                Action::Cast(_) => Answer::Has(false),
                _ => model.perform(&action),
            };
            pending = match session.answer(answer) {
                Some(more) => Some(more),
                None => session.next(),
            };
        }
        assert!(session.failure().is_none());
    }
}

#[test]
fn a_sequence_is_replayed_by_its_seed() {
    let text = |seed| play(&mut Model::default(), seed, 40).0.transcript_text();
    assert_eq!(text(11), text(11));
    assert_ne!(text(11), text(12));
}

#[test]
fn operations_come_with_their_odds() {
    let mut a = Rng::new(9);
    let mut b = Rng::new(9);
    for i in 0..2000 {
        let locks = i % 3;
        let expected = match b.below(100) {
            0..=9 => "CreateFactory".to_string(),
            10..=29 => "CreateProvider".to_string(),
            30..=47 => "InitializeProvider".to_string(),
            48..=67 => "RenderProvider".to_string(),
            68..=71 => "QueryUnsupported".to_string(),
            72..=78 => "ReleaseFactory".to_string(),
            79..=87 => "ReleaseProvider".to_string(),
            88..=91 => "LockServer(true)".to_string(),
            92..=94 => {
                if locks > 0 {
                    "LockServer(false)".to_string()
                } else {
                    "PollCanUnload".to_string()
                }
            }
            95..=98 => "PollCanUnload".to_string(),
            _ => "Sleep(1)".to_string(),
        };
        assert_eq!(random_op(&mut a, locks).text(), expected);
    }
    assert_eq!(Op::Sleep(1).text(), "Sleep(1)");
}

#[test]
fn seeds_are_spread() {
    let seed: u64 = 0xFFFF_FFFF_FFFF_FFF0;
    for i in 0..40u64 {
        assert_eq!(
            sequence_seed(seed, i),
            seed.wrapping_add(i).wrapping_mul(0x9E37_79B9_7F4A_7C15)
        );
        assert_eq!(
            thread_seed(seed, i),
            seed.wrapping_add(0x1000).wrapping_add(i.wrapping_mul(0x9E37_79B9))
        );
        assert_eq!(further_seed(seed, i), seed.wrapping_add(0x5000 + i));
        assert_eq!(joins_mta(i), i % 2 == 1);
    }
}

#[test]
fn what_is_said_of_sequences() {
    assert_eq!(
        opening_line(7),
        "  lifecycle seed = 7 (replay with: gauntlet exec lifecycle --seed 7)"
    );
    assert_eq!(sequence_case(3), "sta_sequence_3");
    assert_eq!(
        sequence_failure(3, 99, "why", "[Poll]"),
        "sequence 3 (seed 99): why\n      ops: [Poll]"
    );
    assert_eq!(thread_failure(true, "why", "[]"), "MTA thread: why\n      ops: []");
    assert_eq!(thread_failure(false, "why", "[]"), "STA thread: why\n      ops: []");
    assert_eq!(thread_panicked(), "a lifecycle thread panicked");
}

#[test]
fn verdicts_on_sequences() {
    let two = vec!["one".to_string(), "two".to_string()];
    let mut r = Report::new("lc");
    judge_sta(&mut r, 20, &vec![]);
    judge_sta(&mut r, 20, &two);
    judge_mixed(&mut r, &vec![]);
    judge_mixed(&mut r, &two);
    judge_handover(&mut r, &Handover::Used(true));
    judge_handover(&mut r, &Handover::Used(false));
    judge_handover(&mut r, &Handover::NotCreated("e".to_string()));
    judge_handover(&mut r, &Handover::Panicked);
    judge_reference_count(&mut r, S_OK, S_OK);
    judge_reference_count(&mut r, S_FALSE, S_FALSE);
    let handover = "provider created and initialised on thread A, rendered and released on thread B";
    assert_eq!(
        r.take_lines(),
        [
            "  [PASS] lc/sta_random_sequences: 20 random STA lifecycle sequences held every COM invariant".to_string(),
            "  [FAIL] lc/sta_random_sequences: 2 sequence(s) violated a COM invariant:\n      one\n      two".to_string(),
            "  [PASS] lc/mixed_apartment_sequences: 6 concurrent STA/MTA lifecycle threads held every COM invariant".to_string(),
            "  [FAIL] lc/mixed_apartment_sequences: one\n      two".to_string(),
            format!("  [PASS] lc/object_released_on_a_different_thread: {handover} (render_ok=true)"),
            format!("  [FAIL] lc/object_released_on_a_different_thread: {handover} (render_ok=false)"),
            "  [FAIL] lc/object_released_on_a_different_thread: creation failed: e".to_string(),
            "  [FAIL] lc/object_released_on_a_different_thread: creating thread panicked".to_string(),
            "  [PASS] lc/reference_count_returns_to_zero: DllCanUnloadNow=0x00000000 after all lifecycle sequences completed (expected S_OK)".to_string(),
            "  [FAIL] lc/reference_count_returns_to_zero: DllCanUnloadNow=0x00000001 after all lifecycle sequences completed (expected S_OK)".to_string(),
        ]
    );
}

#[test]
fn handle_growth_has_limits() {
    for (handles, gdi, ok) in [(64, 16, true), (65, 0, false), (0, 17, false)] {
        let d = Delta {
            private_bytes: 1,
            working_set: 2,
            handles,
            gdi_objects: gdi,
            user_objects: 0,
            threads: 0,
            modules: 0,
        };
        let mut r = Report::new("lc");
        judge_handle_growth(&mut r, &d);
        assert_eq!(
            r.take_lines(),
            [format!(
                "  [{}] lc/no_handle_growth_across_sequences: after 40 further lifecycle sequences: {}",
                if ok { "PASS" } else { "FAIL" },
                d.describe()
            )]
        );
    }
}

#[test]
fn three_failures_end_the_sequences() {
    assert!(goes_on(0, 1, 0));
    assert!(goes_on(9, 10, 2));
    assert!(!goes_on(9, 10, 3));
    assert!(!goes_on(10, 10, 0));
    assert!(!goes_on(0, 0, 0));
}
