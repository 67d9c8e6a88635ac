//! The two message tiers: low-level input messages produced from single
//! key presses, and high-level typed commands parsed from a submitted
//! line and executed against the task store.

use vstd::prelude::*;
use crate::Model;
use crate::store::{
    TaskView, complete_spec, first_idx, insert_spec, lemma_first_idx, remove_spec, store_contains,
};
use crate::text::{
    is_valid_points, join_spec, parse_points, points_value, str_eq, to_chars, tokenize,
    tokenize_line,
};

verus! {

/// One key input, already filtered to press events by the event source.
pub enum Key {
    Char(char),
    Backspace,
    Enter,
    Esc,
    Other,
}

/// Simple text input messages.
#[derive(PartialEq)]
pub enum LowLevelMessage {
    Char(char),
    Push,
    Delete,
    Quit,
}

/// Higher level command messages.
pub enum HighLevelMessage {
    Add(Vec<String>),
    Log(Vec<String>),
    Remove(Vec<String>),
    Complete(Vec<String>),
    Graph(GraphSpecifier),
    Analysis(AnalysisSpecifier),
}

/// Specifiers for graphing.
pub enum GraphSpecifier {
    Bar(Vec<String>),
    Line(Vec<String>),
    Scatter(Vec<String>),
}

/// Specifiers for analysis.
pub enum AnalysisSpecifier {
    PCA(Vec<String>),
}

/// Parsing trait.
pub trait Parseable<T>: Sized {
    fn parse(a: T) -> Option<Self>;
}

/// Executable trait.
pub trait Executable {
    fn execute<'a>(&'a self, model: &mut Model) -> Result<(), &'a str>;
}

/// A high-level command as the specification sees it: each argument list
/// as a sequence of token character sequences.
pub ghost enum CmdView {
    Add(Seq<Seq<char>>),
    Log(Seq<Seq<char>>),
    Remove(Seq<Seq<char>>),
    Complete(Seq<Seq<char>>),
    Graph(GraphView),
    Analysis(AnalysisView),
}

pub ghost enum GraphView {
    Bar(Seq<Seq<char>>),
    Line(Seq<Seq<char>>),
    Scatter(Seq<Seq<char>>),
}

pub ghost enum AnalysisView {
    Pca(Seq<Seq<char>>),
}

impl View for GraphSpecifier {
    type V = GraphView;

    open spec fn view(&self) -> GraphView {
        match self {
            GraphSpecifier::Bar(v) => GraphView::Bar(v.deep_view()),
            GraphSpecifier::Line(v) => GraphView::Line(v.deep_view()),
            GraphSpecifier::Scatter(v) => GraphView::Scatter(v.deep_view()),
        }
    }
}

impl View for AnalysisSpecifier {
    type V = AnalysisView;

    open spec fn view(&self) -> AnalysisView {
        match self {
            AnalysisSpecifier::PCA(v) => AnalysisView::Pca(v.deep_view()),
        }
    }
}

impl View for HighLevelMessage {
    type V = CmdView;

    open spec fn view(&self) -> CmdView {
        match self {
            HighLevelMessage::Add(v) => CmdView::Add(v.deep_view()),
            HighLevelMessage::Log(v) => CmdView::Log(v.deep_view()),
            HighLevelMessage::Remove(v) => CmdView::Remove(v.deep_view()),
            HighLevelMessage::Complete(v) => CmdView::Complete(v.deep_view()),
            HighLevelMessage::Graph(g) => CmdView::Graph(g@),
            HighLevelMessage::Analysis(a) => CmdView::Analysis(a@),
        }
    }
}

/// What one filtered key press maps to: printable characters append, the
/// backspace key deletes, the enter key submits, the escape key quits,
/// and any other key is absorbed.
pub open spec fn key_message_spec(k: Key) -> Option<LowLevelMessage> {
    match k {
        Key::Char(c) => Some(LowLevelMessage::Char(c)),
        Key::Backspace => Some(LowLevelMessage::Delete),
        Key::Enter => Some(LowLevelMessage::Push),
        Key::Esc => Some(LowLevelMessage::Quit),
        Key::Other => None,
    }
}

impl LowLevelMessage {
    /// The low-level message mapper: a pure mapping from one key press to
    /// at most one message.
    pub fn from_key(k: Key) -> (r: Option<LowLevelMessage>)
        ensures
            r == key_message_spec(k),
    {
        match k {
            Key::Char(c) => Some(LowLevelMessage::Char(c)),
            Key::Backspace => Some(LowLevelMessage::Delete),
            Key::Enter => Some(LowLevelMessage::Push),
            Key::Esc => Some(LowLevelMessage::Quit),
            Key::Other => None,
        }
    }
}

impl Parseable<Key> for LowLevelMessage {
    fn parse(a: Key) -> Option<Self> {
        LowLevelMessage::from_key(a)
    }
}

/// The command grammar: a line of fewer than two tokens is rejected; the
/// first token picks the command; `graph` and `analysis` require a known
/// subcommand as second token and keep the tokens after it; the other
/// commands keep every token after the first.
pub open spec fn parse_spec(line: Seq<char>) -> Option<CmdView> {
    let toks = tokenize(line);
    if toks.len() < 2 {
        None
    } else if toks[0] == "add"@ {
        Some(CmdView::Add(toks.drop_first()))
    } else if toks[0] == "complete"@ {
        Some(CmdView::Complete(toks.drop_first()))
    } else if toks[0] == "remove"@ {
        Some(CmdView::Remove(toks.drop_first()))
    } else if toks[0] == "graph"@ {
        if toks[1] == "bar"@ {
            Some(CmdView::Graph(GraphView::Bar(toks.skip(2))))
        } else if toks[1] == "line"@ {
            Some(CmdView::Graph(GraphView::Line(toks.skip(2))))
        } else if toks[1] == "scatter"@ {
            Some(CmdView::Graph(GraphView::Scatter(toks.skip(2))))
        } else {
            None
        }
    } else if toks[0] == "analysis"@ {
        if toks[1] == "pca"@ {
            Some(CmdView::Analysis(AnalysisView::Pca(toks.skip(2))))
        } else {
            None
        }
    } else {
        None
    }
}

/// Clones the elements of `v` from index `from` on.
fn clone_tail(v: &Vec<String>, from: usize) -> (r: Vec<String>)
    requires
        from <= v@.len(),
    ensures
        r.deep_view() == v.deep_view().skip(from as int),
{
    let mut r: Vec<String> = Vec::new();
    let mut i: usize = from;
    proof {
        assert(r.deep_view() =~= v.deep_view().subrange(from as int, from as int));
    }
    while i < v.len()
        invariant
            from <= i <= v@.len(),
            v.deep_view().len() == v@.len(),
            forall|k: int| 0 <= k < v@.len() ==> v.deep_view()[k] == v@[k]@,
            r.deep_view() == v.deep_view().subrange(from as int, i as int),
        decreases v@.len() - i,
    {
        let ghost prev = r.deep_view();
        r.push(v[i].clone());
        proof {
            assert(r.deep_view() =~= prev.push(v@[i as int]@));
            assert(r.deep_view() =~= v.deep_view().subrange(from as int, i + 1));
        }
        i = i + 1;
    }
    proof {
        assert(v.deep_view().subrange(from as int, v@.len() as int) =~= v.deep_view().skip(
            from as int,
        ));
    }
    r
}

impl HighLevelMessage {
    /// The high-level command parser: produces the typed command a
    /// submitted line stands for, or nothing when the line does not fit
    /// the grammar.
    pub fn parse_command(line: &str) -> (r: Option<HighLevelMessage>)
        ensures
            r is Some <==> parse_spec(line@) is Some,
            r matches Some(m) ==> parse_spec(line@) == Some(m@),
    {
        let chars: Vec<char> = to_chars(line);
        let toks: Vec<String> = tokenize_line(&chars);
        let ghost tv = tokenize(line@);
        proof {
            assert(toks.deep_view().len() == toks@.len());
        }
        if toks.len() < 2 {
            return None;
        }
        proof {
            assert(tv.drop_first() =~= tv.skip(1));
            assert(toks@[0]@ == tv[0]);
            assert(toks@[1]@ == tv[1]);
        }
        if str_eq(toks[0].as_str(), "add") {
            Some(HighLevelMessage::Add(clone_tail(&toks, 1)))
        } else if str_eq(toks[0].as_str(), "complete") {
            Some(HighLevelMessage::Complete(clone_tail(&toks, 1)))
        } else if str_eq(toks[0].as_str(), "remove") {
            Some(HighLevelMessage::Remove(clone_tail(&toks, 1)))
        } else if str_eq(toks[0].as_str(), "graph") {
            if str_eq(toks[1].as_str(), "bar") {
                Some(HighLevelMessage::Graph(GraphSpecifier::Bar(clone_tail(&toks, 2))))
            } else if str_eq(toks[1].as_str(), "line") {
                Some(HighLevelMessage::Graph(GraphSpecifier::Line(clone_tail(&toks, 2))))
            } else if str_eq(toks[1].as_str(), "scatter") {
                Some(HighLevelMessage::Graph(GraphSpecifier::Scatter(clone_tail(&toks, 2))))
            } else {
                None
            }
        } else if str_eq(toks[0].as_str(), "analysis") {
            if str_eq(toks[1].as_str(), "pca") {
                Some(HighLevelMessage::Analysis(AnalysisSpecifier::PCA(clone_tail(&toks, 2))))
            } else {
                None
            }
        } else {
            None
        }
    }
}

impl Parseable<String> for HighLevelMessage {
    fn parse(a: String) -> Option<Self> {
        HighLevelMessage::parse_command(a.as_str())
    }
}

/// The task name a command's arguments select: every argument token
/// joined by single spaces.
pub open spec fn args_name(args: Seq<Seq<char>>) -> Seq<char> {
    join_spec(args)
}

/// How executing a command changes the task store; commands that fail
/// leave it unchanged.
pub open spec fn exec_tasks(c: CmdView, s: Seq<TaskView>) -> Seq<TaskView> {
    match c {
        CmdView::Add(args) => {
            if args.len() > 0 && is_valid_points(args.last()) {
                insert_spec(s, args_name(args.drop_last()), points_value(args.last()) as u8)
            } else {
                s
            }
        },
        CmdView::Remove(args) => remove_spec(s, args_name(args)),
        CmdView::Complete(args) => {
            let n = args_name(args);
            if store_contains(s, n) && !s[first_idx(s, n)].completed {
                complete_spec(s, n)
            } else {
                s
            }
        },
        _ => s,
    }
}

/// The error executing a command reports, if any: None means success.
pub open spec fn exec_err(c: CmdView, s: Seq<TaskView>) -> Option<Seq<char>> {
    match c {
        CmdView::Add(args) => {
            if args.len() > 0 && is_valid_points(args.last()) {
                None
            } else {
                Some("Invalid use of add command"@)
            }
        },
        CmdView::Remove(args) => {
            if store_contains(s, args_name(args)) {
                None
            } else {
                Some("Key not found"@)
            }
        },
        CmdView::Complete(args) => {
            let n = args_name(args);
            if !store_contains(s, n) {
                Some("Cannot mark nonexistent task as complete"@)
            } else if s[first_idx(s, n)].completed {
                Some("Task already completed"@)
            } else {
                None
            }
        },
        _ => Some("Not implemented yet"@),
    }
}

/// The graph and analysis command families are deliberate stubs:
/// whatever their subcommand and arguments, and whatever the store
/// holds, executing them fails with "Not implemented yet" and leaves the
/// task store unchanged.
pub proof fn lemma_stubs_leave_store_unchanged(c: CmdView, s: Seq<TaskView>)
    requires
        c is Graph || c is Analysis,
    ensures
        exec_tasks(c, s) == s,
        exec_err(c, s) == Some("Not implemented yet"@),
{
}

/// Joins the first `n` elements of `v` with single spaces.
fn join_range(v: &Vec<String>, n: usize) -> (r: String)
    requires
        n <= v@.len(),
    ensures
        r@ == join_spec(v.deep_view().take(n as int)),
{
    let mut r: String = String::new();
    let mut i: usize = 0;
    proof {
        assert(r@ =~= join_spec(v.deep_view().take(0)));
    }
    while i < n
        invariant
            i <= n <= v@.len(),
            v.deep_view().len() == v@.len(),
            forall|k: int| 0 <= k < v@.len() ==> v.deep_view()[k] == v@[k]@,
            r@ == join_spec(v.deep_view().take(i as int)),
        decreases n - i,
    {
        if i > 0 {
            crate::text::string_push(&mut r, ' ');
        }
        let ghost prefix = v.deep_view().take(i as int);
        let ghost next = v.deep_view().take(i + 1);
        r.append(v[i].as_str());
        proof {
            assert(next.drop_last() =~= prefix);
            assert(next.last() == v@[i as int]@);
            if i == 0 {
                assert(r@ =~= join_spec(next));
            } else {
                assert(r@ =~= join_spec(prefix) + seq![' '] + v@[i as int]@);
            }
        }
        i = i + 1;
    }
    r
}

impl HighLevelMessage {
    /// The command executor: applies this command to the model's task
    /// store, reporting success or the error text the command's failure
    /// carries; on failure the store is left unchanged. Nothing besides
    /// the task store is touched.
    pub fn run_command(&self, model: &mut Model) -> (r: Result<(), &'static str>)
        ensures
            final(model)@.tasks == exec_tasks(self@, old(model)@.tasks),
            final(model)@.input == old(model)@.input,
            final(model)@.output == old(model)@.output,
            final(model)@.error == old(model)@.error,
            final(model)@.exit == old(model)@.exit,
            r is Ok <==> exec_err(self@, old(model)@.tasks) is None,
            r matches Err(e) ==> Some(e@) == exec_err(self@, old(model)@.tasks),
    {
        match self {
            HighLevelMessage::Add(vars) => {
                let ghost args = vars.deep_view();
                if vars.len() == 0 {
                    return Err("Invalid use of add command");
                }
                let last_ix: usize = vars.len() - 1;
                proof {
                    assert(vars@[last_ix as int]@ == args.last());
                }
                match parse_points(vars[last_ix].as_str()) {
                    Some(points) => {
                        let name = join_range(vars, last_ix);
                        proof {
                            assert(args.take(last_ix as int) =~= args.drop_last());
                        }
                        model.tasks.insert(name, points);
                        Ok(())
                    },
                    None => Err("Invalid use of add command"),
                }
            },
            HighLevelMessage::Remove(vars) => {
                let ghost args = vars.deep_view();
                let name = join_range(vars, vars.len());
                proof {
                    assert(args.take(args.len() as int) =~= args);
                }
                if model.tasks.remove(name.as_str()) {
                    Ok(())
                } else {
                    Err("Key not found")
                }
            },
            HighLevelMessage::Complete(vars) => {
                let ghost args = vars.deep_view();
                let name = join_range(vars, vars.len());
                proof {
                    assert(args.take(args.len() as int) =~= args);
                    lemma_first_idx(model@.tasks, name@);
                }
                match model.tasks.find_index(name.as_str()) {
                    None => Err("Cannot mark nonexistent task as complete"),
                    Some(i) => {
                        if model.tasks.get(i).completed {
                            Err("Task already completed")
                        } else {
                            model.tasks.set_completed(i);
                            proof {
                                assert(model@.tasks =~= complete_spec(
                                    old(model)@.tasks,
                                    args_name(args),
                                ));
                            }
                            Ok(())
                        }
                    },
                }
            },
            _ => Err("Not implemented yet"),
        }
    }
}

impl Executable for HighLevelMessage {
    fn execute<'a>(&'a self, model: &mut Model) -> Result<(), &'a str> {
        self.run_command(model)
    }
}

/// Copies borrowed argument tokens into owned strings, keeping order and
/// contents.
pub fn collect_args(stringy: &[&str]) -> (r: Vec<String>)
    ensures
        r@.len() == stringy@.len(),
        forall|i: int| 0 <= i < r@.len() ==> (#[trigger] r@[i])@ == stringy@[i]@,
{
    let mut r: Vec<String> = Vec::new();
    let mut i: usize = 0;
    while i < stringy.len()
        invariant
            i <= stringy@.len(),
            r@.len() == i,
            forall|k: int| 0 <= k < i ==> (#[trigger] r@[k])@ == stringy@[k]@,
        decreases stringy@.len() - i,
    {
        r.push(String::from_str(stringy[i]));
        i = i + 1;
    }
    r
}

} // verus!
