use wall_sync::post::{Attachment, Photo, Size, WallPost};
use wall_sync::sync::{new_messages, PairRun};

fn post(date: i32, text: &str) -> WallPost {
    let photo = Attachment {
        typ: String::from("photo"),
        photo: Some(Photo { sizes: vec![Size { url: format!("u{}", date) }] }),
    };
    WallPost { date, is_pinned: None, text: Some(text.to_string()), attachments: Some(vec![photo]) }
}

fn feed() -> Vec<WallPost> {
    vec![post(108, "c"), post(102, "b"), post(95, "a")]
}

fn dates_of(run: &mut PairRun, outcomes: &[bool]) -> Vec<i32> {
    let mut sent = Vec::new();
    let mut k = 0;
    while let Some(m) = run.next_message() {
        sent.push(m.date);
        if outcomes[k] {
            run.record_delivered();
        } else {
            run.record_failed();
        }
        k += 1;
    }
    sent
}

#[test]
fn only_newer_posts_are_queued_oldest_first() {
    let q = new_messages(&feed(), 100);
    let dates: Vec<i32> = q.iter().map(|m| m.date).collect();
    assert_eq!(dates, vec![102, 108]);
}

#[test]
fn all_delivered_moves_cursor_to_newest() {
    let mut run = PairRun::new(&feed(), 100);
    assert_eq!(dates_of(&mut run, &[true, true]), vec![102, 108]);
    assert_eq!(run.cursor, 108);
}

#[test]
fn last_failure_leaves_cursor_at_previous() {
    let mut run = PairRun::new(&feed(), 100);
    assert_eq!(dates_of(&mut run, &[true, false]), vec![102, 108]);
    assert_eq!(run.cursor, 102);
}

#[test]
fn first_failure_stops_the_pair() {
    let mut run = PairRun::new(&feed(), 100);
    assert_eq!(dates_of(&mut run, &[false]), vec![102]);
    assert_eq!(run.cursor, 100);
    assert!(run.halted);
    assert!(run.next_message().is_none());
}

#[test]
fn second_run_delivers_nothing() {
    let mut run = PairRun::new(&feed(), 100);
    dates_of(&mut run, &[true, true]);
    let mut again = PairRun::new(&feed(), run.cursor);
    assert!(again.next_message().is_none());
    again.record_delivered();
    assert_eq!(again.cursor, 108);
}

#[test]
fn ineligible_posts_are_skipped() {
    let posts = vec![post(3, "see http://x"), post(2, "ok"), post(1, "ok")];
    let q = new_messages(&posts, 0);
    let dates: Vec<i32> = q.iter().map(|m| m.date).collect();
    assert_eq!(dates, vec![1, 2]);
}

#[test]
fn cursor_zero_delivers_everything_fetched() {
    let q = new_messages(&feed(), 0);
    assert_eq!(q.len(), 3);
    assert!(new_messages(&Vec::new(), 0).is_empty());
}
