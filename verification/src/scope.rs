use vstd::prelude::*;
use crate::application::{Application, ApplicationView};

verus! {

/// One line of the output of a scope, and where it came from.
#[derive(Debug, PartialEq, Eq)]
pub enum Event {
    /// A line that the code running in the scope wrote.
    Marker(String),
    /// The line that a value wrote when it was dropped.
    Dropped(String),
}

/// An [`Event`] as plain text.
pub enum EventView {
    Marker(Seq<char>),
    Dropped(Seq<char>),
}

impl View for Event {
    type V = EventView;

    open spec fn view(&self) -> EventView {
        match self {
            Event::Marker(line) => EventView::Marker(line@),
            Event::Dropped(line) => EventView::Dropped(line@),
        }
    }
}

/// The views of `events`.
pub open spec fn views(events: Seq<Event>) -> Seq<EventView> {
    events.map_values(|e: Event| e@)
}

/// What the code that runs in a scope can do.
pub enum Statement {
    /// Gives the binding a new value.
    Assign(ApplicationView),
    /// Writes a line.
    Mark(Seq<char>),
}

/// The state of a scope: the value that its binding holds, if it holds one
/// yet, and the output so far.
pub struct ScopeView {
    pub held: Option<ApplicationView>,
    pub output: Seq<EventView>,
}

impl ScopeView {
    /// A scope in which nothing has happened: the binding is declared and
    /// holds no value.
    pub open spec fn empty() -> ScopeView {
        ScopeView { held: None, output: Seq::empty() }
    }

    /// The output once the value that the binding holds, if any, has been
    /// dropped.
    pub open spec fn output_after_drop(self) -> Seq<EventView> {
        match self.held {
            Some(value) => self.output.push(EventView::Dropped(value.drop_line())),
            None => self.output,
        }
    }

    /// The scope after `value` was assigned to the binding: the value held
    /// before is dropped, then the binding holds `value`.
    pub open spec fn assign(self, value: ApplicationView) -> ScopeView {
        ScopeView { held: Some(value), output: self.output_after_drop() }
    }

    /// The scope after `line` was written.
    pub open spec fn mark(self, line: Seq<char>) -> ScopeView {
        ScopeView { held: self.held, output: self.output.push(EventView::Marker(line)) }
    }

    /// The output of the scope when it ends in this state.
    pub open spec fn close(self) -> Seq<EventView> {
        self.output_after_drop()
    }

    /// The scope after `statement`.
    pub open spec fn step(self, statement: Statement) -> ScopeView {
        match statement {
            Statement::Assign(value) => self.assign(value),
            Statement::Mark(line) => self.mark(line),
        }
    }

    /// The scope after the statements of `program`, in order.
    pub open spec fn run(self, program: Seq<Statement>) -> ScopeView
        decreases program.len(),
    {
        if program.len() == 0 {
            self
        } else {
            self.step(program.first()).run(program.drop_first())
        }
    }
}

/// The lines of the drops in `output`, in the order in which they were
/// written.
pub open spec fn drops(output: Seq<EventView>) -> Seq<Seq<char>>
    decreases output.len(),
{
    if output.len() == 0 {
        Seq::empty()
    } else {
        match output.last() {
            EventView::Dropped(line) => drops(output.drop_last()).push(line),
            EventView::Marker(_) => drops(output.drop_last()),
        }
    }
}

/// The values that `program` assigns, in order.
pub open spec fn assigned(program: Seq<Statement>) -> Seq<ApplicationView>
    decreases program.len(),
{
    if program.len() == 0 {
        Seq::empty()
    } else {
        match program.first() {
            Statement::Assign(value) => seq![value] + assigned(program.drop_first()),
            Statement::Mark(_) => assigned(program.drop_first()),
        }
    }
}

/// The line that each of `values` writes when it is dropped.
pub open spec fn drop_lines(values: Seq<ApplicationView>) -> Seq<Seq<char>> {
    values.map_values(|value: ApplicationView| value.drop_line())
}

/// Running a program only adds to the output.
pub proof fn lemma_output_grows(scope: ScopeView, program: Seq<Statement>)
    ensures
        scope.output.is_prefix_of(scope.run(program).output),
        scope.output.is_prefix_of(scope.run(program).close()),
    decreases program.len(),
{
    if program.len() > 0 {
        lemma_output_grows(scope.step(program.first()), program.drop_first());
    }
}

/// From any state, the drops in the output of a scope that runs `program`
/// and ends are: the drops so far, the value held, then each value that the
/// program assigns, once each and in the order of assignment.
pub proof fn lemma_drops_of_run(scope: ScopeView, program: Seq<Statement>)
    ensures
        drops(scope.run(program).close()) == drops(scope.close()) + drop_lines(assigned(program)),
    decreases program.len(),
{
    if program.len() > 0 {
        let next = scope.step(program.first());
        lemma_drops_of_run(next, program.drop_first());
        match program.first() {
            Statement::Assign(_) => {
                assert(next.close().drop_last() == scope.close());
            },
            Statement::Mark(line) => {
                lemma_drops_skip_marker(scope, line);
            },
        }
    }
}

/// A line that the code writes adds no drop to the output of the scope.
proof fn lemma_drops_skip_marker(scope: ScopeView, line: Seq<char>)
    ensures
        drops(scope.mark(line).close()) == drops(scope.close()),
{
    let marked = scope.mark(line);
    match scope.held {
        Some(_) => {
            assert(marked.output.drop_last() == scope.output);
            assert(drops(marked.output) == drops(scope.output));
            assert(marked.close().drop_last() == marked.output);
            assert(scope.close().drop_last() == scope.output);
        },
        None => {
            assert(marked.close().drop_last() == scope.close());
        },
    }
}

/// Every value that is assigned in a scope is dropped exactly once by the
/// time the scope has ended: the drops in the output are the lines of the
/// assigned values, one for one and in the order of assignment.
pub proof fn lemma_dropped_exactly_once(program: Seq<Statement>)
    ensures
        drops(ScopeView::empty().run(program).close()) == drop_lines(assigned(program)),
        drops(ScopeView::empty().run(program).close()).len() == assigned(program).len(),
        forall|i: int|
            0 <= i < assigned(program).len() ==> drops(ScopeView::empty().run(program).close())[i]
                == (#[trigger] assigned(program)[i]).drop_line(),
{
    lemma_drops_of_run(ScopeView::empty(), program);
}

/// Assigning to a binding that holds `old_value` drops it at once: when the
/// assignment is done its line ends the output, the binding holds
/// `new_value`, and whatever the statements after the assignment write, and
/// the drop of `new_value`, comes behind that line.
pub proof fn lemma_dropped_before_continuing(
    scope: ScopeView,
    old_value: ApplicationView,
    new_value: ApplicationView,
    rest: Seq<Statement>,
)
    requires
        scope.held == Some(old_value),
    ensures
        scope.assign(new_value).held == Some(new_value),
        scope.assign(new_value).output == scope.output.push(
            EventView::Dropped(old_value.drop_line()),
        ),
        scope.assign(new_value).output.is_prefix_of(scope.assign(new_value).run(rest).output),
        scope.assign(new_value).output.is_prefix_of(scope.assign(new_value).run(rest).close()),
{
    lemma_output_grows(scope.assign(new_value), rest);
}

/// A scope with one binding, and the output written while it lasts.
///
/// A value enters the scope by [`Scope::assign`] and leaves it only by being
/// dropped, which writes its line: when the binding is assigned again, or
/// when the scope ends.
pub struct Scope {
    held: Option<Application>,
    output: Vec<Event>,
}

impl View for Scope {
    type V = ScopeView;

    closed spec fn view(&self) -> ScopeView {
        ScopeView {
            held: match self.held {
                Some(value) => Some(value@),
                None => None,
            },
            output: views(self.output@),
        }
    }
}

impl Scope {
    /// Opens a scope: the binding holds no value and nothing is written.
    pub fn new() -> (scope: Scope)
        ensures
            scope@ == ScopeView::empty(),
    {
        let scope = Scope { held: None, output: Vec::new() };
        assert(scope@.output =~= Seq::empty());
        scope
    }

    /// The value that the binding holds, if it holds one.
    pub fn held(&self) -> (value: Option<&Application>)
        ensures
            value is Some <==> self@.held is Some,
            value is Some ==> self@.held == Some(value.unwrap()@),
    {
        self.held.as_ref()
    }

    /// The output so far.
    pub fn output(&self) -> (events: &Vec<Event>)
        ensures
            views(events@) == self@.output,
    {
        &self.output
    }

    /// Assigns `value` to the binding. The value that the binding held is
    /// dropped first, and its line is in the output when this returns.
    pub fn assign(&mut self, value: Application)
        ensures
            final(self)@ == old(self)@.assign(value@),
    {
        self.drop_held();
        self.held = Some(value);
    }

    /// Writes `line`.
    pub fn mark(&mut self, line: String)
        ensures
            final(self)@ == old(self)@.mark(line@),
    {
        self.output.push(Event::Marker(line));
        assert(self@.output =~= old(self)@.output.push(EventView::Marker(line@)));
    }

    /// Ends the scope: the value that the binding holds is dropped, and the
    /// whole output is handed out.
    pub fn close(self) -> (output: Vec<Event>)
        ensures
            views(output@) == self@.close(),
    {
        let mut scope = self;
        scope.drop_held();
        scope.output
    }

    /// Drops the value that the binding holds, if any.
    fn drop_held(&mut self)
        ensures
            final(self)@.held is None,
            final(self)@.output == old(self)@.output_after_drop(),
    {
        let held = self.held.take();
        match held {
            Some(value) => {
                let line = value.drop_message();
                self.output.push(Event::Dropped(line));
            },
            None => {},
        }
    }
}

} // verus!
