//! The line-editing interface used when a task is edited in place, and
//! the scripted implementation used in tests. The real implementation,
//! over a terminal line editor, lives with the rest of the I/O code.

use vstd::prelude::*;
use vstd::string::StringExecFns;

verus! {

/// Reads a line from the user, pre-filled with an initial value.
pub trait LineEditor: Sized {
    fn readline_with_initial(&mut self, prompt: &str, initial: (&str, &str)) -> Result<
        String,
        String,
    >;
}

/// A line editor that replays a fixed script of inputs, then fails. Its
/// model is the sequence of inputs not yet handed out.
pub struct MockLineEditor {
    inputs: Vec<String>,
    index: usize,
}

impl View for MockLineEditor {
    type V = Seq<Seq<char>>;

    closed spec fn view(&self) -> Seq<Seq<char>> {
        if self.index <= self.inputs@.len() {
            self.inputs@.subrange(self.index as int, self.inputs@.len() as int).map(
                |_i: int, s: String| s@,
            )
        } else {
            Seq::empty()
        }
    }
}

impl MockLineEditor {
    /// A scripted editor that will hand out the given inputs in order.
    pub fn new(inputs: Vec<String>) -> (r: MockLineEditor)
        ensures
            r@ == inputs@.map(|_i: int, s: String| s@),
    {
        let r = MockLineEditor { inputs, index: 0 };
        proof {
            assert(r.inputs@.subrange(0, r.inputs@.len() as int) =~= r.inputs@);
        }
        r
    }
}

impl LineEditor for MockLineEditor {
    /// Hands out the next scripted input; reports an error when the
    /// script is exhausted.
    fn readline_with_initial(&mut self, prompt: &str, initial: (&str, &str)) -> (r: Result<
        String,
        String,
    >)
        ensures
            old(self)@.len() > 0 ==> r is Ok && r.unwrap()@ == old(self)@[0] && final(self)@
                == old(self)@.drop_first(),
            old(self)@.len() == 0 ==> r is Err && final(self)@ == old(self)@,
    {
        if self.index < self.inputs.len() {
            let input = self.inputs[self.index].clone();
            self.index = self.index + 1;
            proof {
                assert(old(self)@[0] == old(self).inputs@[old(self).index as int]@);
                assert(final(self)@ =~= old(self)@.drop_first());
            }
            Ok(input)
        } else {
            Err(String::from_str("No more inputs available"))
        }
    }
}

} // verus!
