use vstd::prelude::*;
use crate::message::{TgMessage, TgMediaGroup, MessageModel, opt_chars, is_group_of, item_ok};

verus! {

/// The longest caption, in characters, that the destination accepts.
pub const MAX_TG_SIZE: usize = 1096;

/// One size variant of a photo.
pub struct Size {
    pub url: String,
}

/// A photo, with its size variants listed from smallest to largest.
pub struct Photo {
    pub sizes: Vec<Size>,
}

/// An attachment of a post; photo attachments carry their photo.
pub struct Attachment {
    pub typ: String,
    pub photo: Option<Photo>,
}

/// A post of the source wall.
pub struct WallPost {
    pub date: i32,
    pub is_pinned: Option<u8>,
    pub text: Option<String>,
    pub attachments: Option<Vec<Attachment>>,
}

/// The abstract content of a post: its timestamp, its text and the URLs its
/// photos resolve to.
pub struct PostModel {
    pub date: int,
    pub text: Option<Seq<char>>,
    pub media: Seq<Seq<char>>,
}

/// The URL an attachment resolves to: the last listed size of its photo.
pub open spec fn resolved_url(a: Attachment) -> Option<Seq<char>> {
    match a.photo {
        Some(p) => if p.sizes@.len() > 0 {
            Some(p.sizes@.last().url@)
        } else {
            None
        },
        None => None,
    }
}

/// The URLs that a list of attachments resolves to, in order.
pub open spec fn resolve(atts: Seq<Attachment>) -> Seq<Seq<char>>
    decreases atts.len(),
{
    if atts.len() == 0 {
        seq![]
    } else {
        let rest = resolve(atts.drop_last());
        match resolved_url(atts.last()) {
            Some(u) => rest.push(u),
            None => rest,
        }
    }
}

impl View for WallPost {
    type V = PostModel;

    open spec fn view(&self) -> PostModel {
        PostModel {
            date: self.date as int,
            text: opt_chars(self.text),
            media: match self.attachments {
                Some(a) => resolve(a@),
                None => seq![],
            },
        }
    }
}

/// `p` occurs in `s` at position `i`.
pub open spec fn occurs_at(s: Seq<char>, p: Seq<char>, i: int) -> bool {
    0 <= i && i + p.len() <= s.len() && s.subrange(i, i + p.len()) == p
}

/// `p` occurs somewhere in `s`.
pub open spec fn occurs(s: Seq<char>, p: Seq<char>) -> bool {
    exists|i: int| occurs_at(s, p, i)
}

pub open spec fn http_marker() -> Seq<char> {
    seq!['h', 't', 't', 'p']
}

pub open spec fn short_link_marker() -> Seq<char> {
    seq!['v', 'k', '.', 'm', 'e']
}

/// The text holds something that looks like a link.
pub open spec fn has_link(t: Seq<char>) -> bool {
    occurs(t, http_marker()) || occurs(t, short_link_marker())
}

pub open spec fn text_len(text: Option<Seq<char>>) -> nat {
    match text {
        Some(t) => t.len(),
        None => 0,
    }
}

pub open spec fn no_links(text: Option<Seq<char>>) -> bool {
    match text {
        Some(t) => !has_link(t),
        None => true,
    }
}

/// A post may be forwarded: no link in its text, a text that fits a caption,
/// and at least one photo.
pub open spec fn eligible(p: PostModel) -> bool {
    &&& no_links(p.text)
    &&& text_len(p.text) <= MAX_TG_SIZE
    &&& p.media.len() > 0
}

/// The caption of a message: the post's text, none where it is empty.
pub open spec fn caption_of(text: Option<Seq<char>>) -> Option<Seq<char>> {
    match text {
        Some(t) => if t.len() == 0 {
            None
        } else {
            Some(t)
        },
        None => None,
    }
}

/// The message a post converts to; none for a post without photos.
pub open spec fn message_of(p: PostModel) -> Option<MessageModel> {
    if p.media.len() == 0 {
        None
    } else {
        Some(MessageModel { date: p.date, caption: caption_of(p.text), media: p.media })
    }
}

pub open spec fn opt_message(m: Option<TgMessage>) -> Option<MessageModel> {
    match m {
        Some(x) => Some(x@),
        None => None,
    }
}

/// The batch built from an eligible post with several photos carries the
/// post's caption on its first photo and no caption on any later one.
pub proof fn lemma_caption_first_only(p: PostModel, g: TgMediaGroup, chat: Seq<char>)
    requires
        eligible(p),
        p.media.len() > 1,
        is_group_of(g, message_of(p).unwrap(), chat),
    ensures
        g.media@.len() == p.media.len(),
        opt_chars(g.media@[0].caption) == caption_of(p.text),
        forall|i: int| 1 <= i < g.media@.len() ==> (#[trigger] g.media@[i]).caption is None,
{
    assert(item_ok(message_of(p).unwrap(), g.media@[0], 0));
    assert forall|i: int| 1 <= i < g.media@.len() implies (#[trigger] g.media@[i]).caption is None by {
        assert(item_ok(message_of(p).unwrap(), g.media@[i], i));
    }
}

/// Whether `p` occurs in `s`, by characters.
fn occurs_in(s: &str, p: &str) -> (r: bool)
    ensures
        r == occurs(s@, p@),
{
    let n = s.unicode_len();
    let m = p.unicode_len();
    if m > n {
        return false;
    }
    let mut i: usize = 0;
    while i <= n - m
        invariant
            n == s@.len(),
            m == p@.len(),
            m <= n,
            i <= n - m + 1,
            forall|k: int| 0 <= k < i ==> !occurs_at(s@, p@, k),
        decreases n - m + 1 - i,
    {
        let mut j: usize = 0;
        let mut same = true;
        while j < m
            invariant
                n == s@.len(),
                m == p@.len(),
                i + m <= n,
                j <= m,
                same == (forall|t: int| 0 <= t < j ==> s@[i + t] == p@[t]),
            decreases m - j,
        {
            if s.get_char(i + j) != p.get_char(j) {
                same = false;
            }
            j += 1;
        }
        if same {
            assert(s@.subrange(i as int, i + m) =~= p@);
            assert(occurs_at(s@, p@, i as int));
            return true;
        }
        proof {
            if occurs_at(s@, p@, i as int) {
                assert forall|t: int| 0 <= t < m implies s@[i + t] == p@[t] by {
                    assert(s@.subrange(i as int, i + m)[t] == s@[i + t]);
                }
            }
        }
        i += 1;
    }
    false
}

fn http_str() -> (r: &'static str)
    ensures
        r@ == http_marker(),
{
    proof {
        reveal_strlit("http");
    }
    "http"
}

fn short_link_str() -> (r: &'static str)
    ensures
        r@ == short_link_marker(),
{
    proof {
        reveal_strlit("vk.me");
    }
    "vk.me"
}

impl WallPost {
    fn is_text_size_ok(&self) -> (r: bool)
        ensures
            r == (text_len(self@.text) <= MAX_TG_SIZE),
    {
        match &self.text {
            Some(t) => t.as_str().unicode_len() <= MAX_TG_SIZE,
            None => true,
        }
    }

    /// The URLs of the post's photos, each the last listed size of its photo.
    pub fn media_urls(&self) -> (r: Vec<String>)
        ensures
            r@.map_values(|u: String| u@) == self@.media,
    {
        let mut out: Vec<String> = Vec::new();
        match &self.attachments {
            None => {
                assert(out@.map_values(|u: String| u@) =~= self@.media);
            },
            Some(atts) => {
                let n = atts.len();
                let mut i: usize = 0;
                while i < n
                    invariant
                        n == atts@.len(),
                        i <= n,
                        out@.map_values(|u: String| u@) == resolve(atts@.subrange(0, i as int)),
                    decreases n - i,
                {
                    let a = &atts[i];
                    proof {
                        assert(atts@.subrange(0, i + 1).drop_last() =~= atts@.subrange(0, i as int));
                    }
                    match &a.photo {
                        Some(p) => {
                            if p.sizes.len() > 0 {
                                let url = p.sizes[p.sizes.len() - 1].url.clone();
                                out.push(url);
                                assert(out@.map_values(|u: String| u@) =~= resolve(
                                    atts@.subrange(0, i as int),
                                ).push(url@));
                            }
                        },
                        None => {},
                    }
                    i += 1;
                }
                assert(atts@.subrange(0, n as int) =~= atts@);
            },
        }
        out
    }

    fn has_attachments(&self) -> (r: bool)
        ensures
            r == (self@.media.len() > 0),
    {
        let urls = self.media_urls();
        urls.len() > 0
    }

    fn has_no_links(&self) -> (r: bool)
        ensures
            r == no_links(self@.text),
    {
        match &self.text {
            Some(t) => !(occurs_in(t.as_str(), http_str()) || occurs_in(t.as_str(), short_link_str())),
            None => true,
        }
    }

    /// Whether the post may be forwarded.
    pub fn is_ok_post(&self) -> (r: bool)
        ensures
            r == eligible(self@),
            self@.text matches Some(t) && has_link(t) ==> !r,
            text_len(self@.text) > MAX_TG_SIZE ==> !r,
            self@.media.len() == 0 ==> !r,
    {
        self.has_no_links() && self.is_text_size_ok() && self.has_attachments()
    }

    /// Converts the post into a message; none where no photo resolves.
    pub fn to_message(&self) -> (r: Option<TgMessage>)
        ensures
            opt_message(r) == message_of(self@),
    {
        let text: Option<String> = match &self.text {
            Some(t) => if t.as_str().unicode_len() == 0 {
                None
            } else {
                Some(t.clone())
            },
            None => None,
        };
        let media = self.media_urls();
        if media.len() == 0 {
            None
        } else {
            let m = TgMessage::new(self.date, text, media);
            assert(m@ == message_of(self@).unwrap());
            Some(m)
        }
    }
}

} // verus!
