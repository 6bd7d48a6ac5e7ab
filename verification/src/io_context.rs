use std::io::Write;
use vstd::prelude::*;

verus! {

/// The capability for input and output that the embedder supplies.  The
/// interpreter writes lines through `print` and reads lines through
/// `read_line`; the ghost projections model what has been written and what
/// input is known to remain.  An implementation whose input is not scripted
/// models `inputs` as empty, promising nothing about what a read returns.
pub trait IoContext: Sized {
    /// The lines written so far, oldest first.
    spec fn outputs(&self) -> Seq<Seq<char>>;

    /// The scripted input lines that remain to be read, next first.
    spec fn inputs(&self) -> Seq<Seq<char>>;

    /// Writes one line of output.
    fn print(&mut self, line: &str)
        ensures
            final(self).outputs() == old(self).outputs().push(line@),
            final(self).inputs() == old(self).inputs(),
    ;

    /// Reads one line of input.  When scripted input remains, the next
    /// scripted line is returned and consumed.
    fn read_line(&mut self) -> (r: String)
        ensures
            final(self).outputs() == old(self).outputs(),
            old(self).inputs().len() > 0 ==> final(self).inputs() == old(
                self,
            ).inputs().drop_first() && r@ == old(self).inputs()[0],
            old(self).inputs().len() == 0 ==> final(self).inputs() == old(self).inputs(),
    ;

}

/// A context with scripted reads and buffered prints, for tests and for any
/// embedding that drives the interpreter without a console.
pub struct TestContext {
    pub output: Vec<String>,
    pub to_read: Vec<String>,
}

impl TestContext {
    /// A context with no output yet and nothing to read.
    pub fn new() -> (r: TestContext)
        ensures
            r.outputs().len() == 0,
            r.inputs().len() == 0,
    {
        TestContext { output: Vec::new(), to_read: Vec::new() }
    }

    /// A context that will serve the given lines to `read_line`, first
    /// element first.
    pub fn new_with_input(lines: Vec<String>) -> (r: TestContext)
        ensures
            r.outputs().len() == 0,
            r.inputs() == lines@.map_values(|s: String| s@),
    {
        TestContext { output: Vec::new(), to_read: lines }
    }
}

impl IoContext for TestContext {
    open spec fn outputs(&self) -> Seq<Seq<char>> {
        self.output@.map_values(|s: String| s@)
    }

    open spec fn inputs(&self) -> Seq<Seq<char>> {
        self.to_read@.map_values(|s: String| s@)
    }

    fn print(&mut self, line: &str) {
        self.output.push(line.to_owned());
        proof {
            assert(self.outputs() =~= old(self).outputs().push(line@));
        }
    }

    fn read_line(&mut self) -> (r: String) {
        if self.to_read.len() > 0 {
            let r = self.to_read.remove(0);
            proof {
                assert(self.inputs() =~= old(self).inputs().drop_first());
            }
            r
        } else {
            String::new()
        }
    }
}

impl TestContext {
    /// The lines written so far, for inspection by tests.
    pub fn get_output(&self) -> (r: Vec<String>)
        ensures
            r@.len() == self.outputs().len(),
            forall|i: int| 0 <= i < r@.len() ==> (#[trigger] r@[i])@ == self.outputs()[i],
    {
        let mut out: Vec<String> = Vec::new();
        let mut i: usize = 0;
        while i < self.output.len()
            invariant
                i <= self.output@.len(),
                out@.len() == i,
                forall|j: int| 0 <= j < i ==> (#[trigger] out@[j])@ == self.outputs()[j],
            decreases self.output@.len() - i,
        {
            out.push(self.output[i].clone());
            i = i + 1;
        }
        out
    }
}

/// A context over the process console.  Prints go to standard output and
/// reads come from standard input; the written lines are tracked only as a
/// ghost history, and input is not scripted, so nothing is promised about
/// what a read returns.
pub struct ConsoleContext {
    pub history: Ghost<Seq<Seq<char>>>,
}

impl ConsoleContext {
    /// A console context with no output written yet.
    pub fn new() -> (r: ConsoleContext)
        ensures
            r.outputs().len() == 0,
            r.inputs().len() == 0,
    {
        ConsoleContext { history: Ghost(Seq::empty()) }
    }
}

/// Relies on `writeln` to the standard output stream.
#[verifier::external_body]
fn console_write_line(line: &str) {
    let mut out = std::io::stdout();
    let _ = writeln!(out, "{}", line);
}

/// Relies on `std::io::Stdin::read_line`: one line is read from standard
/// input, without its trailing line break.  Nothing is promised about the
/// returned line.
#[verifier::external_body]
fn console_read_line() -> String {
    let mut buffer = String::new();
    match std::io::stdin().read_line(&mut buffer) {
        Ok(_) => {
            while buffer.ends_with('\n') || buffer.ends_with('\r') {
                buffer.pop();
            }
            buffer
        },
        Err(_) => String::new(),
    }
}

impl IoContext for ConsoleContext {
    open spec fn outputs(&self) -> Seq<Seq<char>> {
        self.history@
    }

    open spec fn inputs(&self) -> Seq<Seq<char>> {
        Seq::empty()
    }

    fn print(&mut self, line: &str) {
        console_write_line(line);
        proof {
            self.history@ = self.history@.push(line@);
        }
    }

    fn read_line(&mut self) -> (r: String) {
        console_read_line()
    }
}

} // verus!
