//! The application state and the update dispatcher: the input buffer,
//! the rendered dashboard text, the last error text, the exit flag and
//! the task store, advanced by one low-level message at a time.

use vstd::prelude::*;
use crate::messages::{HighLevelMessage, LowLevelMessage, exec_err, exec_tasks, parse_spec};
use crate::store::{TaskStore, TaskView};
use crate::text::{dec_digits, u8_to_dec};

verus! {

/// The application state as the specification sees it.
pub ghost struct ModelView {
    pub output: Seq<char>,
    pub tasks: Seq<TaskView>,
    pub input: Seq<char>,
    pub error: Seq<char>,
    pub exit: bool,
}

/// The application state: created once with empty defaults, advanced
/// only through [`Model::update`].
#[derive(Debug)]
pub struct Model {
    pub output: String,
    pub tasks: TaskStore,
    pub input: String,
    pub error: String,
    pub exit: bool,
}

impl View for Model {
    type V = ModelView;

    open spec fn view(&self) -> ModelView {
        ModelView {
            output: self.output@,
            tasks: self.tasks@,
            input: self.input@,
            error: self.error@,
            exit: self.exit,
        }
    }
}

/// The state every run starts from: everything empty, exit unset.
pub open spec fn init_view() -> ModelView {
    ModelView {
        output: Seq::empty(),
        tasks: Seq::empty(),
        input: Seq::empty(),
        error: Seq::empty(),
        exit: false,
    }
}

impl Default for Model {
    fn default() -> (r: Model)
        ensures
            r@ == init_view(),
    {
        let r = Model {
            output: String::new(),
            tasks: TaskStore::new(),
            input: String::new(),
            error: String::new(),
            exit: false,
        };
        proof {
            assert(r@.tasks =~= Seq::<TaskView>::empty());
            assert(r@ == init_view());
        }
        r
    }
}

/// One dashboard line: the task's name, its points in decimal, and a
/// happy or sad marker for its completion state.
pub open spec fn render_line(t: TaskView) -> Seq<char> {
    t.name + " for "@ + dec_digits(t.points as nat) + if t.completed {
        " points 😁\n"@
    } else {
        " points 😢\n"@
    }
}

/// The dashboard text: one line per stored task, in store order.
pub open spec fn render_spec(s: Seq<TaskView>) -> Seq<char>
    decreases s.len(),
{
    if s.len() == 0 {
        Seq::empty()
    } else {
        render_spec(s.drop_last()) + render_line(s.last())
    }
}

/// Rebuilds the dashboard text from the task store.
pub fn render_tasks(store: &TaskStore) -> (r: String)
    ensures
        r@ == render_spec(store@),
{
    let mut r: String = String::new();
    let n: usize = store.len();
    let mut i: usize = 0;
    proof {
        assert(store@.take(0) =~= Seq::<TaskView>::empty());
    }
    while i < n
        invariant
            i <= n,
            n == store@.len(),
            r@ == render_spec(store@.take(i as int)),
        decreases n - i,
    {
        let t = store.get(i);
        let d: String = u8_to_dec(t.points);
        let ghost prefix = store@.take(i as int);
        let ghost next = store@.take(i + 1);
        r.append(t.name.as_str());
        r.append(" for ");
        r.append(d.as_str());
        if t.completed {
            r.append(" points 😁\n");
        } else {
            r.append(" points 😢\n");
        }
        proof {
            assert(next.drop_last() =~= prefix);
            assert(next.last() == store@[i as int]);
            assert(r@ =~= render_spec(prefix) + render_line(store@[i as int]));
        }
        i = i + 1;
    }
    proof {
        assert(store@.take(n as int) =~= store@);
    }
    r
}

/// What submitting the current input line does: parse it; on a syntax
/// rejection report "Invalid Command", otherwise execute the command and
/// report its error, if any; always clear the input line and rebuild the
/// dashboard text from the (possibly changed) task store.
pub open spec fn submit_spec(v: ModelView) -> ModelView {
    match parse_spec(v.input) {
        None => ModelView {
            input: Seq::empty(),
            output: render_spec(v.tasks),
            error: "Invalid Command"@,
            ..v
        },
        Some(c) => ModelView {
            input: Seq::empty(),
            tasks: exec_tasks(c, v.tasks),
            output: render_spec(exec_tasks(c, v.tasks)),
            error: match exec_err(c, v.tasks) {
                None => Seq::empty(),
                Some(e) => e,
            },
            ..v
        },
    }
}

/// The update dispatcher, as one step of the Model-Update-View loop.
pub open spec fn step(v: ModelView, m: LowLevelMessage) -> ModelView {
    match m {
        LowLevelMessage::Char(c) => ModelView { input: v.input.push(c), ..v },
        LowLevelMessage::Delete => ModelView {
            input: if v.input.len() == 0 {
                v.input
            } else {
                v.input.drop_last()
            },
            ..v
        },
        LowLevelMessage::Quit => ModelView { exit: true, ..v },
        LowLevelMessage::Push => submit_spec(v),
    }
}

/// The state after a whole sequence of messages, first message first.
pub open spec fn run_steps(v: ModelView, ms: Seq<LowLevelMessage>) -> ModelView
    decreases ms.len(),
{
    if ms.len() == 0 {
        v
    } else {
        run_steps(step(v, ms[0]), ms.drop_first())
    }
}

pub proof fn lemma_run_steps_snoc(v: ModelView, ms: Seq<LowLevelMessage>, m: LowLevelMessage)
    ensures
        run_steps(v, ms.push(m)) == step(run_steps(v, ms), m),
    decreases ms.len(),
{
    if ms.len() == 0 {
        assert(ms.push(m)[0] == m);
        assert(ms.push(m).drop_first() =~= Seq::<LowLevelMessage>::empty());
        assert(run_steps(v, ms.push(m)) == run_steps(
            step(v, m),
            Seq::<LowLevelMessage>::empty(),
        ));
        assert(run_steps(step(v, m), Seq::<LowLevelMessage>::empty()) == step(v, m));
    } else {
        assert(ms.push(m)[0] == ms[0]);
        assert(ms.push(m).drop_first() =~= ms.drop_first().push(m));
        lemma_run_steps_snoc(step(v, ms[0]), ms.drop_first(), m);
        assert(run_steps(v, ms.push(m)) == run_steps(step(v, ms[0]), ms.drop_first().push(m)));
        assert(run_steps(v, ms) == run_steps(step(v, ms[0]), ms.drop_first()));
    }
}

/// After a submit, the input line is empty again, whatever sequence of
/// append-character and delete-last-character edits came before it, and
/// whether or not the submitted command succeeded.
pub proof fn lemma_submit_clears_input(v: ModelView, ms: Seq<LowLevelMessage>)
    requires
        forall|i: int|
            0 <= i < ms.len() ==> (ms[i] is Char || ms[i] is Delete),
    ensures
        run_steps(v, ms.push(LowLevelMessage::Push)).input =~= Seq::<char>::empty(),
{
    lemma_run_steps_snoc(v, ms, LowLevelMessage::Push);
}

impl Model {
    /// Appends one character to the input line.
    pub fn add_char(&mut self, c: char)
        ensures
            final(self)@ == step(old(self)@, LowLevelMessage::Char(c)),
    {
        crate::text::string_push(&mut self.input, c);
    }

    /// Removes the last character of the input line; does nothing when
    /// the line is already empty.
    pub fn pop_char(&mut self)
        ensures
            final(self)@ == step(old(self)@, LowLevelMessage::Delete),
    {
        let _ = crate::text::string_pop(&mut self.input);
    }

    /// Raises the exit flag; the run loop stops at its next turn.
    pub fn exit(&mut self)
        ensures
            final(self)@ == step(old(self)@, LowLevelMessage::Quit),
    {
        self.exit = true;
    }

    /// Submits the input line: parse, execute, rebuild the dashboard
    /// text, clear the input, and record the error text, empty on
    /// success.
    pub fn push_msg(&mut self)
        ensures
            final(self)@ == step(old(self)@, LowLevelMessage::Push),
    {
        let line: String = self.input.clone();
        match HighLevelMessage::parse_command(line.as_str()) {
            Some(cmd) => {
                let res = cmd.run_command(self);
                self.output = render_tasks(&self.tasks);
                self.input = String::new();
                match res {
                    Ok(_) => {
                        self.error = String::new();
                    },
                    Err(e) => {
                        self.error = String::from_str(e);
                    },
                }
            },
            None => {
                self.output = render_tasks(&self.tasks);
                self.input = String::new();
                self.error = String::from_str("Invalid Command");
            },
        }
        proof {
            assert(self@ == submit_spec(old(self)@));
        }
    }

    /// Routes one low-level message to the matching state change.
    pub fn update(&mut self, msg: &LowLevelMessage)
        ensures
            final(self)@ == step(old(self)@, *msg),
    {
        match msg {
            LowLevelMessage::Char(c) => self.add_char(*c),
            LowLevelMessage::Delete => self.pop_char(),
            LowLevelMessage::Quit => self.exit(),
            LowLevelMessage::Push => self.push_msg(),
        }
    }
}

} // verus!
