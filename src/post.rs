use crate::constant::{MAX_POST_LEN, MAX_TITLE_LEN};
use crate::error::StreamError;
use crate::layout::{
    border, box_rows, box_text, lemma_box_fixed_width, render_box, single_line, wrap_lines, wrapped,
    BOX_WIDTH, FIELD_WIDTH,
};
use std::time::SystemTime;
use vstd::prelude::*;
use vstd::string::*;

verus! {

#[verifier::external_type_specification]
#[verifier::external_body]
pub struct ExSystemTime(SystemTime);

/// Relies on `SystemTime`'s `Clone`: the type is `Copy`, so a clone is the same instant.
pub assume_specification[ <SystemTime as Clone>::clone ](t: &SystemTime) -> (r: SystemTime)
    ensures
        r == *t,
;

/// Relies on std::time::SystemTime::now: reads the wall clock. Nothing is
/// known of the value it returns.
#[verifier::external_body]
fn wall_clock_now() -> (r: SystemTime) {
    SystemTime::now()
}

/// What the title rule decides for a candidate title.
pub open spec fn title_check(title: Seq<char>) -> Result<(), StreamError> {
    if title.len() == 0 {
        Err(StreamError::EmptyTitle)
    } else if title.len() > MAX_TITLE_LEN {
        Err(StreamError::InvalidTitleLength { max_size: MAX_TITLE_LEN, curr_size: title.len() as usize })
    } else {
        Ok(())
    }
}

/// What the message rule decides for a candidate message.
pub open spec fn msg_check(msg: Seq<char>) -> Result<(), StreamError> {
    if msg.len() == 0 {
        Err(StreamError::EmptyPost)
    } else if msg.len() > MAX_POST_LEN {
        Err(StreamError::InvalidPostLength { max_size: MAX_POST_LEN, curr_size: msg.len() as usize })
    } else {
        Ok(())
    }
}

/// A title is valid when it is non-empty and at most `MAX_TITLE_LEN` characters long.
pub open spec fn valid_title(title: Seq<char>) -> bool {
    0 < title.len() <= MAX_TITLE_LEN
}

/// A message is valid when it is non-empty and at most `MAX_POST_LEN` characters long.
pub open spec fn valid_msg(msg: Seq<char>) -> bool {
    0 < msg.len() <= MAX_POST_LEN
}

/// A post: a title, a message body and the time it was created.
#[derive(Debug, Clone)]
pub struct Post {
    pub title: String,
    pub msg: String,
    pub date: SystemTime,
}

impl Post {
    /// Both fields satisfy their rules.
    pub open spec fn wf(&self) -> bool {
        valid_title(self.title@) && valid_msg(self.msg@)
    }

    /// The boxed text of a post with this title and message: the message,
    /// with a newline appended, is wrapped to the field width.
    pub open spec fn rendered(title: Seq<char>, msg: Seq<char>) -> Seq<char> {
        box_text(title, wrapped(msg.push('\n'), FIELD_WIDTH))
    }

    /// Create a new post by providing the `title` and the body
    /// of the message in `msg`. The title is checked first; the post is
    /// stamped with the current time.
    pub fn new(title: String, msg: String) -> (r: Result<Post, StreamError>)
        ensures
            r is Ok <==> valid_title(title@) && valid_msg(msg@),
            title_check(title@) is Err ==> r == Err::<Post, StreamError>(title_check(title@)->Err_0),
            title_check(title@) is Ok && msg_check(msg@) is Err
                ==> r == Err::<Post, StreamError>(msg_check(msg@)->Err_0),
            r is Ok ==> r->Ok_0.title@ == title@ && r->Ok_0.msg@ == msg@ && r->Ok_0.wf(),
    {
        verify_title(&title)?;
        verify_msg(&msg)?;
        Ok(Post { title, msg, date: wall_clock_now() })
    }

    /// Replace the message. On failure the post is left as it was.
    pub fn update_msg(&mut self, new_msg: String) -> (r: Result<(), StreamError>)
        ensures
            r is Ok <==> valid_msg(new_msg@),
            r is Err ==> r->Err_0 == msg_check(new_msg@)->Err_0 && *final(self) == *old(self),
            r is Ok ==> final(self).msg@ == new_msg@,
            final(self).title == old(self).title,
            final(self).date == old(self).date,
            valid_title(old(self).title@) && r is Ok ==> final(self).wf(),
            old(self).wf() ==> final(self).wf(),
    {
        verify_msg(&new_msg)?;
        self.msg = new_msg;
        Ok(())
    }

    /// Replace the title. On failure the post is left as it was.
    pub fn update_title(&mut self, new_title: String) -> (r: Result<(), StreamError>)
        ensures
            r is Ok <==> valid_title(new_title@),
            r is Err ==> r->Err_0 == title_check(new_title@)->Err_0 && *final(self) == *old(self),
            r is Ok ==> final(self).title@ == new_title@,
            final(self).msg == old(self).msg,
            final(self).date == old(self).date,
            valid_msg(old(self).msg@) && r is Ok ==> final(self).wf(),
            old(self).wf() ==> final(self).wf(),
    {
        verify_title(&new_title)?;
        self.title = new_title;
        Ok(())
    }

    /// The post as a box of fixed width: borders of dashes, the centred
    /// title, and the wrapped message between alternating decorators. The
    /// date is not shown.
    pub fn render(&self) -> (r: String)
        ensures
            r@ == Post::rendered(self.title@, self.msg@),
    {
        let mut text = self.msg.clone();
        proof { reveal_strlit("\n"); }
        text.append("\n");
        assert(text@ =~= self.msg@.push('\n'));
        let lines = wrap_lines(text.as_str(), FIELD_WIDTH);
        render_box(self.title.as_str(), &lines)
    }

    /// The title.
    pub fn title(&self) -> (r: &str)
        ensures
            r@ == self.title@,
    {
        self.title.as_str()
    }

    /// The message body.
    pub fn msg(&self) -> (r: &str)
        ensures
            r@ == self.msg@,
    {
        self.msg.as_str()
    }

    /// When the post was created.
    pub fn date(&self) -> (r: SystemTime)
        ensures
            r == self.date,
    {
        self.date.clone()
    }
}

/// Rendering is a function of the title and the message alone: two posts
/// that agree on both render to the same text, whatever their dates, and so
/// rendering one post twice gives the same text.
pub proof fn lemma_render_deterministic(a: Post, b: Post)
    requires
        a.title@ == b.title@,
        a.msg@ == b.msg@,
    ensures
        Post::rendered(a.title@, a.msg@) == Post::rendered(b.title@, b.msg@),
{
}

/// A valid post renders to rows of exactly `BOX_WIDTH` characters when its
/// title and the wrapped lines of its message fit the field and hold no
/// newline.
pub proof fn lemma_render_fixed_width(p: Post)
    requires
        p.wf(),
        single_line(p.title@),
        forall|i: int|
            0 <= i < wrapped(p.msg@.push('\n'), FIELD_WIDTH).len() ==> #[trigger] wrapped(
                p.msg@.push('\n'),
                FIELD_WIDTH,
            )[i].len() <= FIELD_WIDTH && single_line(wrapped(p.msg@.push('\n'), FIELD_WIDTH)[i]),
    ensures
        ({
            let rows = box_rows(p.title@, wrapped(p.msg@.push('\n'), FIELD_WIDTH));
            let text = Post::rendered(p.title@, p.msg@);
            &&& text.len() == (BOX_WIDTH + 1) * rows.len() - 1
            &&& forall|k: int| 0 <= k < rows.len() ==> (#[trigger] rows[k]).len() == BOX_WIDTH
            &&& forall|k: int, j: int|
                0 <= k < rows.len() && 0 <= j < BOX_WIDTH ==> text[(BOX_WIDTH + 1) * k + j] == #[trigger] rows[k][j]
                    && rows[k][j] != '\n'
            &&& forall|k: int| 0 <= k < rows.len() - 1 ==> #[trigger] text[(BOX_WIDTH + 1) * k + BOX_WIDTH] == '\n'
            &&& rows[0] == border()
            &&& rows[rows.len() - 1] == border()
        }),
{
    lemma_box_fixed_width(p.title@, wrapped(p.msg@.push('\n'), FIELD_WIDTH));
}

/// The title rule: non-empty and at most `MAX_TITLE_LEN` characters.
fn verify_title(title: &String) -> (r: Result<(), StreamError>)
    ensures
        r == title_check(title@),
{
    let len = title.as_str().unicode_len();
    if len == 0 {
        return Err(StreamError::EmptyTitle);
    }
    if len > MAX_TITLE_LEN {
        return Err(StreamError::InvalidTitleLength { max_size: MAX_TITLE_LEN, curr_size: len });
    }
    Ok(())
}

/// The message rule: non-empty and at most `MAX_POST_LEN` characters.
fn verify_msg(msg: &String) -> (r: Result<(), StreamError>)
    ensures
        r == msg_check(msg@),
{
    let len = msg.as_str().unicode_len();
    if len == 0 {
        return Err(StreamError::EmptyPost);
    }
    if len > MAX_POST_LEN {
        return Err(StreamError::InvalidPostLength { max_size: MAX_POST_LEN, curr_size: len });
    }
    Ok(())
}

} // verus!
