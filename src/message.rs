use vstd::prelude::*;

verus! {

/// A post converted for the destination: its timestamp, the caption and the
/// photo URLs, in order.
pub struct TgMessage {
    pub date: i32,
    pub text: Option<String>,
    pub media: Vec<String>,
}

/// One photo of a media batch.
pub struct TgMedia {
    pub typ: String,
    pub caption: Option<String>,
    pub media: String,
}

/// The batch that is sent to a chat.
pub struct TgMediaGroup {
    pub chat_id: String,
    pub media: Vec<TgMedia>,
}

/// The abstract content of a message.
pub struct MessageModel {
    pub date: int,
    pub caption: Option<Seq<char>>,
    pub media: Seq<Seq<char>>,
}

/// The characters of an optional string.
pub open spec fn opt_chars(s: Option<String>) -> Option<Seq<char>> {
    match s {
        Some(t) => Some(t@),
        None => None,
    }
}

pub open spec fn photo_kind() -> Seq<char> {
    seq!['p', 'h', 'o', 't', 'o']
}

impl View for TgMessage {
    type V = MessageModel;

    open spec fn view(&self) -> MessageModel {
        MessageModel {
            date: self.date as int,
            caption: opt_chars(self.text),
            media: self.media@.map_values(|u: String| u@),
        }
    }
}

/// Item `i` of the batch built from `m`: a photo whose caption is the
/// message's caption on the first item and absent on every later one.
pub open spec fn item_ok(m: MessageModel, item: TgMedia, i: int) -> bool {
    &&& item.typ@ == photo_kind()
    &&& item.media@ == m.media[i]
    &&& opt_chars(item.caption) == (if i == 0 { m.caption } else { None })
}

/// `g` is the batch for message `m` sent to chat `chat`.
pub open spec fn is_group_of(g: TgMediaGroup, m: MessageModel, chat: Seq<char>) -> bool {
    &&& g.chat_id@ == chat
    &&& g.media@.len() == m.media.len()
    &&& forall|i: int| 0 <= i < m.media.len() ==> #[trigger] item_ok(m, g.media@[i], i)
}

fn clone_opt(s: &Option<String>) -> (r: Option<String>)
    ensures
        opt_chars(r) == opt_chars(*s),
{
    match s {
        Some(t) => Some(t.clone()),
        None => None,
    }
}

fn photo_string() -> (r: String)
    ensures
        r@ == photo_kind(),
{
    proof {
        reveal_strlit("photo");
    }
    "photo".to_owned()
}

impl TgMessage {
    pub fn new(date: i32, text: Option<String>, media: Vec<String>) -> (r: TgMessage)
        ensures
            r.date == date,
            r.text == text,
            r.media == media,
    {
        TgMessage { date, text, media }
    }

    /// Builds the batch for `chat_id`: one photo per URL, in order, with the
    /// caption on the first photo only.
    pub fn to_media_group(&self, chat_id: &str) -> (r: TgMediaGroup)
        ensures
            is_group_of(r, self@, chat_id@),
    {
        let mut photos: Vec<TgMedia> = Vec::new();
        let n = self.media.len();
        let mut i: usize = 0;
        while i < n
            invariant
                n == self.media@.len(),
                i <= n,
                photos@.len() == i,
                forall|k: int| 0 <= k < i ==> #[trigger] item_ok(self@, photos@[k], k),
            decreases n - i,
        {
            let caption = if i == 0 {
                clone_opt(&self.text)
            } else {
                None
            };
            let item = TgMedia { typ: photo_string(), caption, media: self.media[i].clone() };
            photos.push(item);
            i += 1;
        }
        TgMediaGroup { chat_id: chat_id.to_owned(), media: photos }
    }
}

} // verus!
