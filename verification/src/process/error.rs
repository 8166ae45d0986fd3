//! Errors with the context that they came up in.

use crate::text::{join, joined, texts};
use vstd::prelude::*;

verus! {

/// An error: what could not be done, and because of what, and so on down to the
/// cause.
#[derive(Debug, PartialEq, Eq)]
pub struct ProcessError {
    pub chain: Vec<String>,
}

impl View for ProcessError {
    type V = Seq<Seq<char>>;

    open spec fn view(&self) -> Seq<Seq<char>> {
        texts(self.chain@)
    }
}

impl Clone for ProcessError {
    fn clone(&self) -> (r: Self)
        ensures
            r@ == self@,
    {
        let mut chain: Vec<String> = Vec::new();
        let mut i: usize = 0;
        assert(texts(chain@) =~= texts(self.chain@).take(0));
        while i < self.chain.len()
            invariant
                i <= self.chain@.len(),
                texts(chain@) == texts(self.chain@).take(i as int),
            decreases self.chain@.len() - i,
        {
            let ghost before = texts(chain@);
            chain.push(self.chain[i].clone());
            assert(texts(chain@) =~= before.push(self.chain@[i as int]@));
            assert(texts(self.chain@).take(i + 1) =~= texts(self.chain@).take(i as int).push(
                texts(self.chain@)[i as int],
            ));
            i = i + 1;
        }
        assert(texts(self.chain@).take(i as int) =~= texts(self.chain@));
        ProcessError { chain }
    }
}

/// The error with all its causes as one text.
pub open spec fn in_one_line(error: Seq<Seq<char>>) -> Seq<char> {
    joined(error, ": "@)
}

impl ProcessError {
    /// An error without a further cause.
    pub fn new(message: String) -> (r: Self)
        ensures
            r@ == seq![message@],
    {
        let mut chain: Vec<String> = Vec::new();
        chain.push(message);
        assert(texts(chain@) =~= seq![message@]);
        ProcessError { chain }
    }

    /// An error with this one as its cause.
    pub fn context(self, message: String) -> (r: Self)
        ensures
            r@ == seq![message@] + self@,
    {
        let ghost before = self@;
        let mut chain = self.chain;
        chain.insert(0, message);
        assert(texts(chain@) =~= seq![message@] + before);
        ProcessError { chain }
    }

    /// What could not be done, with all causes.
    pub fn full_message(&self) -> (r: String)
        ensures
            r@ == in_one_line(self@),
    {
        join(&self.chain, ": ")
    }
}

/// An error of the operating system, in the context that it came up in.
pub fn failed(context: &str, cause: String) -> (r: ProcessError)
    ensures
        r@ == seq![context@, cause@],
{
    let r = ProcessError::new(cause).context(context.to_owned());
    assert(r@ =~= seq![context@, cause@]);
    r
}

/// An error is told with its causes behind it, each after a colon, from what
/// could not be done down to the last cause.
pub proof fn causes_follow_in_order(message: Seq<char>, cause: Seq<Seq<char>>)
    ensures
        in_one_line(seq![message]) == message,
        cause.len() > 0 ==> in_one_line(seq![message] + cause) == message + seq![':', ' ']
            + in_one_line(cause),
{
    reveal_strlit(": ");
    assert(": "@ =~= seq![':', ' ']);
    crate::text::parts_are_joined_in_order(seq![message], cause, message, ": "@);
}

} // verus!
