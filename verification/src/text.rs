//! Text helpers.
use vstd::prelude::*;

verus! {

/// Anything that can be handed over as text: callers pass a literal or an owned
/// string alike.
pub trait IntoText: Sized {
    /// The characters of the text.
    spec fn text(&self) -> Seq<char>;

    /// Gives the text as an owned string.
    fn into_text(self) -> (res: String)
        ensures
            res@ == self.text(),
    ;
}

impl IntoText for String {
    open spec fn text(&self) -> Seq<char> {
        self@
    }

    fn into_text(self) -> (res: String) {
        self
    }
}

impl IntoText for &str {
    open spec fn text(&self) -> Seq<char> {
        self@
    }

    fn into_text(self) -> (res: String) {
        self.to_owned()
    }
}

impl IntoText for &String {
    open spec fn text(&self) -> Seq<char> {
        self@
    }

    fn into_text(self) -> (res: String) {
        self.clone()
    }
}

/// What follows `prefix` in `text`, if `text` begins with it.
pub open spec fn after_prefix(text: Seq<char>, prefix: Seq<char>) -> Option<Seq<char>> {
    if prefix.is_prefix_of(text) {
        Some(text.skip(prefix.len() as int))
    } else {
        None
    }
}

/// Drops `prefix` from the front of `text`; `None` where `text` does not begin
/// with it.
pub fn strip_prefix(text: &str, prefix: &str) -> (res: Option<String>)
    ensures
        match res {
            Some(rest) => after_prefix(text@, prefix@) == Some(rest@),
            None => after_prefix(text@, prefix@) is None,
        },
{
    let length: usize = text.unicode_len();
    let cut: usize = prefix.unicode_len();
    if length < cut {
        return None;
    }
    let head: String = text.substring_char(0, cut).to_owned();
    let wanted: String = prefix.to_owned();
    if head == wanted {
        let rest: String = text.substring_char(cut, length).to_owned();
        assert(rest@ =~= text@.skip(cut as int));
        Some(rest)
    } else {
        assert(text@.subrange(0, cut as int) =~= text@.take(cut as int));
        None
    }
}

/// Puts `prefix` in front of `text`.
pub fn prefixed(prefix: &str, text: &str) -> (res: String)
    ensures
        res@ == prefix@ + text@,
{
    let mut res: String = prefix.to_owned();
    res.append(text);
    res
}

/// What follows a prefix is what was put behind it, and only a text with the prefix in
/// front has it.
pub proof fn law_after_prefix(text: Seq<char>, prefix: Seq<char>, rest: Seq<char>)
    ensures
        after_prefix(prefix + rest, prefix) == Some(rest),
        after_prefix(text, prefix) == Some(rest) <==> text == prefix + rest,
{
    assert((prefix + rest).skip(prefix.len() as int) =~= rest);
    assert(prefix =~= (prefix + rest).subrange(0, prefix.len() as int));
    if after_prefix(text, prefix) == Some(rest) {
        assert(text =~= text.subrange(0, prefix.len() as int) + text.skip(prefix.len() as int));
    }
}

/// A text is handed over as it is.
pub proof fn law_text_is_handed_over(text: String, other: &str)
    ensures
        text.text() == text@,
        (&text).text() == text@,
        other.text() == other@,
{
}

} // verus!
