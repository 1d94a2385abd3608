use vstd::prelude::*;
use crate::message::{TgMessage, MessageModel};
use crate::post::{WallPost, PostModel, eligible, message_of};

verus! {

/// A post is queued in a run whose cursor is `cursor`: it is newer than the
/// cursor and eligible.
pub open spec fn kept(p: PostModel, cursor: int) -> bool {
    p.date > cursor && eligible(p)
}

/// The messages of a run, oldest first, from a feed listed newest first.
pub open spec fn queue_spec(posts: Seq<PostModel>, cursor: int) -> Seq<MessageModel>
    decreases posts.len(),
{
    if posts.len() == 0 {
        seq![]
    } else {
        let rest = queue_spec(posts.drop_first(), cursor);
        if kept(posts[0], cursor) {
            rest.push(message_of(posts[0]).unwrap())
        } else {
            rest
        }
    }
}

pub open spec fn post_views(posts: Seq<WallPost>) -> Seq<PostModel> {
    posts.map_values(|p: WallPost| p@)
}

pub open spec fn message_views(msgs: Seq<TgMessage>) -> Seq<MessageModel> {
    msgs.map_values(|m: TgMessage| m@)
}

/// The feed lists its posts newest first.
pub open spec fn newest_first(posts: Seq<PostModel>) -> bool {
    forall|i: int, j: int| 0 <= i < j < posts.len() ==> posts[i].date >= posts[j].date
}

/// The cursor after a run in which every queued message was delivered.
pub open spec fn cursor_after_all(q: Seq<MessageModel>, cursor: int) -> int {
    if q.len() == 0 {
        cursor
    } else {
        q.last().date
    }
}

/// The messages to deliver for a feed listed newest first: the posts newer
/// than `cursor` that are eligible, converted, oldest first.
pub fn new_messages(posts: &Vec<WallPost>, cursor: i32) -> (r: Vec<TgMessage>)
    ensures
        message_views(r@) == queue_spec(post_views(posts@), cursor as int),
{
    let ghost pv = post_views(posts@);
    let mut out: Vec<TgMessage> = Vec::new();
    let mut i: usize = posts.len();
    while i > 0
        invariant
            i <= posts@.len(),
            pv == post_views(posts@),
            message_views(out@) == queue_spec(pv.subrange(i as int, pv.len() as int), cursor as int),
        decreases i,
    {
        let ghost tail = pv.subrange(i - 1, pv.len() as int);
        assert(tail.drop_first() =~= pv.subrange(i as int, pv.len() as int));
        assert(tail[0] == posts@[i - 1]@);
        let post = &posts[i - 1];
        if post.date > cursor && post.is_ok_post() {
            match post.to_message() {
                Some(m) => {
                    out.push(m);
                    assert(message_views(out@) =~= queue_spec(tail, cursor as int));
                },
                None => {},
            }
        } else {
            assert(message_views(out@) =~= queue_spec(tail, cursor as int));
        }
        i -= 1;
    }
    assert(pv.subrange(0, pv.len() as int) =~= pv);
    out
}

/// The state of one pair during a run: the cursor, the queued messages, the
/// next one to deliver, and whether a failed delivery has stopped the pair.
pub struct PairRun {
    pub cursor: i32,
    pub queue: Vec<TgMessage>,
    pub next: usize,
    pub halted: bool,
}

impl PairRun {
    /// Starts a pair with the stored cursor and the feed fetched for it,
    /// newest first.
    pub fn new(posts: &Vec<WallPost>, cursor: i32) -> (r: PairRun)
        ensures
            r.cursor == cursor,
            message_views(r.queue@) == queue_spec(post_views(posts@), cursor as int),
            r.next == 0,
            !r.halted,
            r.wf(),
    {
        PairRun { cursor, queue: new_messages(posts, cursor), next: 0, halted: false }
    }

    /// The next message is within the queue, or just past its end.
    pub open spec fn wf(&self) -> bool {
        self.next <= self.queue@.len()
    }

    /// A message remains to be delivered.
    pub open spec fn pending(&self) -> bool {
        !self.halted && self.next < self.queue@.len()
    }

    /// The message to deliver next; none once the pair is done or halted.
    pub fn next_message(&self) -> (r: Option<&TgMessage>)
        ensures
            self.pending() ==> r == Some(&self.queue@[self.next as int]),
            !self.pending() ==> r is None,
    {
        if !self.halted && self.next < self.queue.len() {
            Some(&self.queue[self.next])
        } else {
            None
        }
    }

    /// Records that the next message was delivered: the cursor moves to its
    /// timestamp. Nothing changes where no message is pending.
    pub fn record_delivered(&mut self)
        ensures
            final(self).queue == old(self).queue,
            final(self).halted == old(self).halted,
            old(self).wf() ==> final(self).wf(),
            old(self).pending() ==> final(self).cursor == old(self).queue@[old(self).next as int].date
                && final(self).next == old(self).next + 1,
            !old(self).pending() ==> final(self).cursor == old(self).cursor
                && final(self).next == old(self).next,
    {
        if !self.halted && self.next < self.queue.len() {
            self.cursor = self.queue[self.next].date;
            self.next = self.next + 1;
        }
    }

    /// Records that the next message could not be delivered: the pair stops
    /// and the cursor stays where it is.
    pub fn record_failed(&mut self)
        ensures
            final(self).queue == old(self).queue,
            final(self).cursor == old(self).cursor,
            final(self).next == old(self).next,
            final(self).halted,
            !final(self).pending(),
            old(self).wf() ==> final(self).wf(),
    {
        self.halted = true;
    }
}

proof fn lemma_queue_empty(posts: Seq<PostModel>, cursor: int)
    requires
        forall|k: int| 0 <= k < posts.len() ==> !kept(#[trigger] posts[k], cursor),
    ensures
        queue_spec(posts, cursor).len() == 0,
    decreases posts.len(),
{
    if posts.len() > 0 {
        assert(!kept(posts[0], cursor));
        assert forall|k: int| 0 <= k < posts.drop_first().len() implies !kept(
            #[trigger] posts.drop_first()[k],
            cursor,
        ) by {
            assert(posts.drop_first()[k] == posts[k + 1]);
        }
        lemma_queue_empty(posts.drop_first(), cursor);
    }
}

proof fn lemma_queue_last(posts: Seq<PostModel>, cursor: int) -> (j: int)
    requires
        queue_spec(posts, cursor).len() > 0,
    ensures
        0 <= j < posts.len(),
        kept(posts[j], cursor),
        queue_spec(posts, cursor).last().date == posts[j].date,
        forall|k: int| 0 <= k < j ==> !kept(#[trigger] posts[k], cursor),
    decreases posts.len(),
{
    if kept(posts[0], cursor) {
        0
    } else {
        let j1 = lemma_queue_last(posts.drop_first(), cursor);
        assert forall|k: int| 0 <= k < j1 + 1 implies !kept(#[trigger] posts[k], cursor) by {
            if k > 0 {
                assert(posts[k] == posts.drop_first()[k - 1]);
            }
        }
        j1 + 1
    }
}

/// From a feed listed newest first, a run queues its messages oldest first,
/// all newer than the cursor: each delivery moves the cursor forward.
pub proof fn lemma_queue_ordered(posts: Seq<PostModel>, cursor: int)
    requires
        newest_first(posts),
    ensures
        forall|i: int, j: int|
            0 <= i < j < queue_spec(posts, cursor).len() ==> queue_spec(posts, cursor)[i].date
                <= queue_spec(posts, cursor)[j].date,
        forall|i: int|
            0 <= i < queue_spec(posts, cursor).len() ==> queue_spec(posts, cursor)[i].date > cursor,
        posts.len() > 0 ==> forall|i: int|
            0 <= i < queue_spec(posts, cursor).len() ==> queue_spec(posts, cursor)[i].date
                <= posts[0].date,
    decreases posts.len(),
{
    if posts.len() > 0 {
        let rest = posts.drop_first();
        assert(newest_first(rest)) by {
            assert forall|i: int, j: int| 0 <= i < j < rest.len() implies rest[i].date
                >= rest[j].date by {
                assert(rest[i] == posts[i + 1] && rest[j] == posts[j + 1]);
            }
        }
        lemma_queue_ordered(rest, cursor);
        if rest.len() > 0 {
            assert(posts[0].date >= posts[1].date);
        }
    }
}

/// A second run on an unchanged feed, listed newest first, after a run that
/// delivered every queued message, queues nothing: it delivers nothing and
/// leaves the cursor alone.
pub proof fn lemma_second_run_idle(posts: Seq<PostModel>, cursor: int)
    requires
        newest_first(posts),
    ensures
        queue_spec(posts, cursor_after_all(queue_spec(posts, cursor), cursor)).len() == 0,
{
    let q = queue_spec(posts, cursor);
    let c2 = cursor_after_all(q, cursor);
    if q.len() > 0 {
        let j = lemma_queue_last(posts, cursor);
        assert forall|k: int| 0 <= k < posts.len() implies !kept(#[trigger] posts[k], c2) by {
            if kept(posts[k], c2) {
                assert(kept(posts[k], cursor));
                assert(k >= j);
            }
        }
        lemma_queue_empty(posts, c2);
    }
}

} // verus!
