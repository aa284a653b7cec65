//! Accumulation of error messages for a single record.
use vstd::prelude::*;

verus! {

/// Error messages collected for one record, joined with `"; "`.
#[derive(Debug, Clone)]
pub struct ErrorAccumulator(Option<String>);

/// The separator placed between accumulated messages.
pub open spec fn separator() -> Seq<char> {
    "; "@
}

/// The accumulated text after adding `msg` to `acc`.
pub open spec fn pushed(acc: Option<Seq<char>>, msg: Seq<char>) -> Option<Seq<char>> {
    match acc {
        Some(e) => Some(e + separator() + msg),
        None => Some(msg),
    }
}

/// The accumulated text after adding each message of `msgs` in turn.
pub open spec fn pushed_all(acc: Option<Seq<char>>, msgs: Seq<Seq<char>>) -> Option<Seq<char>>
    decreases msgs.len(),
{
    if msgs.len() == 0 {
        acc
    } else {
        pushed(pushed_all(acc, msgs.drop_last()), msgs.last())
    }
}

impl View for ErrorAccumulator {
    type V = Option<Seq<char>>;

    closed spec fn view(&self) -> Option<Seq<char>> {
        match &self.0 {
            Some(s) => Some(s@),
            None => None,
        }
    }
}

impl Default for ErrorAccumulator {
    fn default() -> (r: Self)
        ensures
            r@ is None,
    {
        ErrorAccumulator(None)
    }
}

impl ErrorAccumulator {
    /// Adds a message; it is separated from earlier ones by `"; "`.
    pub fn push(&mut self, msg: &str)
        ensures
            final(self)@ == pushed(old(self)@, msg@),
    {
        let cur = self.0.take();
        match cur {
            Some(existing) => {
                let mut e = existing;
                e.append("; ");
                e.append(msg);
                self.0 = Some(e);
            },
            None => {
                self.0 = Some(msg.to_owned());
            },
        }
    }

    /// Hands out the accumulated text and leaves the accumulator empty.
    pub fn take(&mut self) -> (r: Option<String>)
        ensures
            match r {
                Some(s) => old(self)@ == Some(s@),
                None => old(self)@ is None,
            },
            final(self)@ is None,
    {
        self.0.take()
    }

    /// Whether no message has been added since the last `take`.
    pub fn is_empty(&self) -> (r: bool)
        ensures
            r == (self@ is None),
    {
        self.0.is_none()
    }
}

/// Messages pushed one after another onto an empty accumulator are handed out
/// by `take` joined with `"; "`.
pub proof fn law_pushes_join(msgs: Seq<Seq<char>>)
    requires
        msgs.len() > 0,
    ensures
        pushed_all(None, msgs) == Some(crate::text::join(msgs, separator())),
    decreases msgs.len(),
{
    if msgs.len() > 1 {
        law_pushes_join(msgs.drop_last());
        assert(crate::text::join(msgs, separator()) == crate::text::join(msgs.drop_last(), separator())
            + separator() + msgs.last());
    } else {
        assert(msgs.drop_last() =~= Seq::<Seq<char>>::empty());
        assert(pushed_all(None, msgs.drop_last()) == None::<Seq<char>>);
    }
}

/// One use of an accumulator: a push of a message, or a `take`.
pub enum AccumulatorOp {
    Push(Seq<char>),
    Take,
}

/// The accumulated text after the uses `ops`, in order, from `acc`.
pub open spec fn after_ops(acc: Option<Seq<char>>, ops: Seq<AccumulatorOp>) -> Option<Seq<char>>
    decreases ops.len(),
{
    if ops.len() == 0 {
        acc
    } else {
        match ops.last() {
            AccumulatorOp::Push(m) => pushed(after_ops(acc, ops.drop_last()), m),
            AccumulatorOp::Take => None,
        }
    }
}

/// No message was pushed since the start or since the last `take`.
pub open spec fn no_push_since_take(ops: Seq<AccumulatorOp>) -> bool
    decreases ops.len(),
{
    if ops.len() == 0 {
        true
    } else {
        match ops.last() {
            AccumulatorOp::Push(_) => false,
            AccumulatorOp::Take => true,
        }
    }
}

/// Law: an accumulator made by `default` and then used by pushes and takes
/// is empty exactly when nothing was pushed since it was made or since the
/// last `take`.
pub proof fn law_empty_iff_no_push_since_take(ops: Seq<AccumulatorOp>)
    ensures
        (after_ops(None, ops) is None) == no_push_since_take(ops),
{
}

} // verus!
