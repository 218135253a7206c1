use journaldeliver::config::History;
use journaldeliver::seek::{
    has_short_exponents, plan_for_count, plan_for_instant, plan_for_span, resolve_history, start_plan, Anchor,
    SeekError, SeekPlan, SeekWalk, Step,
};

/// A log source held in memory: records in time order, and a position that
/// may lie before the oldest (`-1`) or after the newest (`len`).
struct Source {
    records: Vec<(String, i64)>,
    pos: i64,
}

impl Source {
    fn new(n: usize) -> Source {
        let records = (0..n).map(|i| (format!("c{}", i + 1), (i as i64 + 1) * 1_000_000)).collect();
        Source { records, pos: -1 }
    }

    fn seek(&mut self, anchor: &Anchor) {
        self.pos = match anchor {
            Anchor::Head => -1,
            Anchor::Tail => self.records.len() as i64,
            Anchor::Realtime(t) => {
                let first = self.records.iter().position(|r| r.1 >= *t as i64);
                first.unwrap_or(self.records.len()) as i64 - 1
            },
            Anchor::Cursor(c) => {
                self.records.iter().position(|r| &r.0 == c).map(|i| i as i64 - 1).unwrap_or(-1)
            },
        };
    }

    fn step(&mut self, s: Step) -> bool {
        let next = match s {
            Step::Forward => self.pos + 1,
            Step::Backward => self.pos - 1,
        };
        if next >= 0 && next < self.records.len() as i64 {
            self.pos = next;
            true
        } else {
            false
        }
    }

    fn cursor(&self) -> Option<String> {
        if self.pos >= 0 && self.pos < self.records.len() as i64 {
            Some(self.records[self.pos as usize].0.clone())
        } else {
            None
        }
    }

    fn resolve(&mut self, plan: &SeekPlan) -> Option<String> {
        self.seek(&plan.anchor);
        let mut walk = SeekWalk::new(plan);
        while let Some(s) = walk.next_step() {
            let moved = self.step(s);
            walk.observe(moved);
        }
        self.cursor()
    }
}

#[test]
fn count_three_on_five_records_is_third_oldest() {
    let plan = resolve_history(&History::Count(3), 0).unwrap();
    assert_eq!(plan, SeekPlan { anchor: Anchor::Head, moves: 3, direction: Step::Forward });
    assert_eq!(Source::new(5).resolve(&plan), Some("c3".to_string()));
}

#[test]
fn count_minus_two_is_two_before_newest() {
    let plan = resolve_history(&History::Count(-2), 0).unwrap();
    assert_eq!(plan, SeekPlan { anchor: Anchor::Tail, moves: 3, direction: Step::Backward });
    assert_eq!(Source::new(5).resolve(&plan), Some("c3".to_string()));
}

#[test]
fn count_stops_early_on_short_source() {
    let forward = plan_for_count(10);
    assert_eq!(Source::new(5).resolve(&forward), Some("c5".to_string()));
    let backward = plan_for_count(-10);
    assert_eq!(Source::new(5).resolve(&backward), Some("c1".to_string()));
}

#[test]
fn count_zero_is_tail() {
    let plan = plan_for_count(0);
    assert_eq!(plan, SeekPlan { anchor: Anchor::Tail, moves: 1, direction: Step::Backward });
    assert_eq!(Source::new(5).resolve(&plan), Some("c5".to_string()));
}

#[test]
fn count_of_smallest_integer_does_not_overflow() {
    let plan = plan_for_count(i64::MIN);
    assert_eq!(plan.moves, (i64::MAX as u64) + 2);
}

#[test]
fn zero_duration_yields_tail_cursor() {
    let plan = resolve_history(&History::Duration("0s".to_string()), 9_000_000).unwrap();
    assert_eq!(plan, plan_for_count(0));
    assert_eq!(Source::new(5).resolve(&plan), Some("c5".to_string()));
}

#[test]
fn duration_seeks_back_from_now() {
    let plan = resolve_history(&History::Duration("2s".to_string()), 5_500_000).unwrap();
    assert_eq!(
        plan,
        SeekPlan { anchor: Anchor::Realtime(3_500_000), moves: 1, direction: Step::Forward }
    );
    assert_eq!(Source::new(5).resolve(&plan), Some("c4".to_string()));
}

#[test]
fn span_with_nanoseconds_counts_microseconds() {
    assert_eq!(
        plan_for_span(1, 500_000_000, 10_000_000),
        Ok(SeekPlan { anchor: Anchor::Realtime(8_500_000), moves: 1, direction: Step::Forward })
    );
}

#[test]
fn span_before_epoch_lands_on_oldest_record() {
    let head = SeekPlan { anchor: Anchor::Head, moves: 1, direction: Step::Forward };
    assert_eq!(plan_for_span(20, 0, 10_000_000), Ok(head.clone()));
    assert_eq!(plan_for_span(3_000_000_000, 0, 1_000_000), Ok(head.clone()));
    assert_eq!(plan_for_span(u64::MAX, 999_999_999, i64::MAX), Ok(head.clone()));
    assert_eq!(Source::new(5).resolve(&head), Some("c1".to_string()));
}

#[test]
fn duration_with_long_exponent_is_invalid() {
    assert_eq!(
        resolve_history(&History::Duration("1e1000000000000ns".to_string()), 0),
        Err(SeekError::InvalidSeekTarget)
    );
    assert_eq!(
        resolve_history(&History::Duration("1e-1234s".to_string()), 0),
        Err(SeekError::InvalidSeekTarget)
    );
    assert!(resolve_history(&History::Duration("1e3ns".to_string()), 5_000_000).is_ok());
    assert!(!has_short_exponents("2E+0005s"));
    assert!(has_short_exponents("1 hour 15 minutes"));
}

#[test]
fn unreadable_duration_is_invalid() {
    assert_eq!(
        resolve_history(&History::Duration("soon".to_string()), 0),
        Err(SeekError::InvalidSeekTarget)
    );
}

#[test]
fn absolute_yields_first_record_at_or_after_instant() {
    let plan =
        resolve_history(&History::Absolute("2024-01-01T00:00:00Z".to_string()), 0).unwrap();
    let t: u64 = 1_704_067_200_000_000;
    assert_eq!(plan, SeekPlan { anchor: Anchor::Realtime(t), moves: 1, direction: Step::Forward });
    let mut src = Source {
        records: vec![
            ("a".to_string(), t as i64 - 1),
            ("b".to_string(), t as i64),
            ("c".to_string(), t as i64 + 1),
        ],
        pos: -1,
    };
    assert_eq!(src.resolve(&plan), Some("b".to_string()));
}

#[test]
fn absolute_must_be_rfc3339() {
    assert_eq!(
        resolve_history(&History::Absolute("yesterday".to_string()), 0),
        Err(SeekError::InvalidSeekTarget)
    );
}

#[test]
fn absolute_before_epoch_lands_on_oldest_record() {
    let head = SeekPlan { anchor: Anchor::Head, moves: 1, direction: Step::Forward };
    assert_eq!(
        resolve_history(&History::Absolute("1969-12-31T23:59:59Z".to_string()), 0),
        Ok(head.clone())
    );
    assert_eq!(plan_for_instant(-1), Ok(head));
}

#[test]
fn checkpoint_wins_over_history() {
    let plan = start_plan("C1", &History::Absolute("not a time".to_string()), 0).unwrap();
    assert_eq!(
        plan,
        SeekPlan { anchor: Anchor::Cursor("C1".to_string()), moves: 0, direction: Step::Forward }
    );
}

#[test]
fn no_checkpoint_runs_history() {
    assert_eq!(start_plan("", &History::Count(2), 0), Ok(plan_for_count(2)));
    assert_eq!(
        start_plan("", &History::Absolute("bad".to_string()), 0),
        Err(SeekError::InvalidSeekTarget)
    );
}

#[test]
fn walk_stops_at_first_failed_step() {
    let plan = plan_for_count(3);
    let mut walk = SeekWalk::new(&plan);
    assert_eq!(walk.next_step(), Some(Step::Forward));
    walk.observe(true);
    assert_eq!(walk.remaining, 2);
    walk.observe(false);
    assert!(walk.stopped);
    assert_eq!(walk.next_step(), None);
}
