//! Why something failed: a message, and the messages of what caused it.

use vstd::prelude::*;

verus! {

/// A failure: what failed, and why, from the nearest cause to the deepest.
#[derive(Debug)]
pub struct Failure {
    pub message: String,
    pub causes: Vec<String>,
}

impl View for Failure {
    type V = Seq<Seq<char>>;

    open spec fn view(&self) -> Seq<Seq<char>> {
        seq![self.message@] + self.causes.deep_view()
    }
}

/// The messages of a failure in one text, each behind the one that it caused.
pub open spec fn shown(messages: Seq<Seq<char>>) -> Seq<char>
    decreases messages.len(),
{
    if messages.len() == 0 {
        seq![]
    } else if messages.len() == 1 {
        messages[0]
    } else {
        shown(messages.drop_last()) + ": "@ + messages.last()
    }
}

/// The model of a result that is nothing or a failure.
pub open spec fn outcome(r: Result<(), Failure>) -> Result<(), Seq<Seq<char>>> {
    match r {
        Ok(()) => Ok(()),
        Err(e) => Err(e@),
    }
}

impl Failure {
    /// The failure that has no cause but itself.
    pub fn new(message: String) -> (r: Failure)
        ensures
            r@ == seq![message@],
    {
        let r = Failure { message, causes: Vec::new() };
        assert(r.causes.deep_view() == Seq::<Seq<char>>::empty());
        r
    }

    /// The failure that this one is the cause of.
    pub fn causing(self, message: String) -> (r: Failure)
        ensures
            r@ == seq![message@] + self@,
    {
        let ghost before = self@;
        let mut causes = self.causes;
        causes.insert(0, self.message);
        let r = Failure { message, causes };
        assert(r.causes.deep_view() == before);
        r
    }

    /// The messages in one text, parted by a colon and a space.
    pub fn describe(&self) -> (r: String)
        ensures
            r@ == shown(self@),
    {
        let mut out = String::new();
        out.append(self.message.as_str());
        assert(self@.take(1) == seq![self@[0]]);
        for i in 0..self.causes.len()
            invariant
                out@ == shown(self@.take(i + 1)),
        {
            assert(self@.take(i + 2).drop_last() == self@.take(i + 1));
            assert(self@[i + 1] == self.causes@[i as int]@);
            out.append(": ");
            out.append(self.causes[i].as_str());
        }
        assert(self@.take(self@.len() as int) == self@);
        out
    }
}

/// The model of a failure is its message and those of its causes, in their
/// order.
pub proof fn law_failure_model(f: Failure)
    ensures
        f@.len() == f.causes@.len() + 1,
        f@[0] == f.message@,
        forall|i: int| 0 <= i < f.causes@.len() ==> f@[i + 1] == #[trigger] f.causes@[i]@,
        outcome(Err(f)) == Err::<(), Seq<Seq<char>>>(f@),
        outcome(Ok(())) is Ok,
{
}

/// One message is shown as it is; a further cause is shown behind a colon and a
/// space.
pub proof fn law_shown(messages: Seq<Seq<char>>, cause: Seq<char>)
    ensures
        shown(seq![cause]) == cause,
        messages.len() != 0 ==> shown(messages.push(cause)) == shown(messages) + ": "@ + cause,
{
    assert(messages.push(cause).drop_last() == messages);
}

} // verus!
