//! The idempotency ledger: the one line of text that records the last day
//! announced.

use vstd::prelude::*;
use vstd::string::*;

verus! {

/// The value that a ledger file of content `content` records: the content
/// without one newline at its end, if it ends with one.
pub open spec fn stored_value(content: Seq<char>) -> Seq<char> {
    if content.len() > 0 && content.last() == '\n' {
        content.drop_last()
    } else {
        content
    }
}

/// The ledger, known by the name of the file that holds it.
#[derive(Debug)]
pub struct State {
    filename: String,
}

impl View for State {
    type V = Seq<char>;

    /// The name of the ledger's file.
    closed spec fn view(&self) -> Seq<char> {
        self.filename@
    }
}

impl State {
    /// The ledger kept in the file called `filename`.
    pub fn new(filename: &str) -> (r: Self)
        ensures
            r@ == filename@,
    {
        Self { filename: filename.to_owned() }
    }

    /// The name of the ledger's file.
    pub fn filename(&self) -> (r: &str)
        ensures
            r@ == self@,
    {
        self.filename.as_str()
    }

    /// The value recorded by a ledger file that reads `content`: exactly
    /// one newline at the end is dropped. An empty file records the empty
    /// value.
    pub fn get(&self, content: &str) -> (r: String)
        ensures
            r@ == stored_value(content@),
    {
        let n = content.unicode_len();
        if n > 0 && content.get_char(n - 1) == '\n' {
            content.substring_char(0, n - 1).to_owned()
        } else {
            content.to_owned()
        }
    }
}

/// A day written to the ledger file as it is, with nothing after it, is
/// read back as it was, and so is one that gained a newline at its end,
/// provided the day does not itself end with a newline.
pub proof fn lemma_recorded_value_is_read_back(content: Seq<char>)
    requires
        content.len() == 0 || content.last() != '\n',
    ensures
        stored_value(content) == content,
        stored_value(content.push('\n')) == content,
{
    assert(content.push('\n').drop_last() =~= content);
}

} // verus!
