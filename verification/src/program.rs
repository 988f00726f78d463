//! The execution loop, one step at a time. A program owns its store and its
//! counter; a step fetches the cell at the counter, advances the counter,
//! carries the cell out and applies what it asks for. What has to happen
//! outside, writing the store back and showing the output, is reported to the
//! caller, who drives the loop.

use vstd::prelude::*;
use crate::code::{Actions, Code, Fault};
use crate::instruction::effect_of;
use crate::parse::{encode, first_bad_line, lines_of, parse, ParseError};
use crate::present::line_of;
use crate::text::{join_lines, joined, texts};

verus! {

/// Where a run stands.
#[derive(Debug, Clone, Copy, PartialEq, Eq, Structural)]
pub enum Status {
    /// The run goes on.
    Running,
    /// The run has ended with this exit code: by an instruction that asked
    /// for it, or with 0 because the counter left the store.
    Exited(i32),
    /// The run has ended because an instruction failed.
    Failed(Fault),
}

/// What one step asks of its caller.
#[derive(Debug, Clone, Copy, PartialEq, Eq, Structural)]
pub struct Step {
    /// How often the store is to be written back.
    pub persists: usize,
    /// Where the run stands after the step.
    pub status: Status,
}

/// What a list of actions comes to.
pub struct Applied {
    /// The counter afterwards.
    pub counter: usize,
    /// How many times the store is to be written back.
    pub persists: nat,
    /// The exit code, where the list ends the run.
    pub exit: Option<i32>,
}

/// A program as a value: the name of its store, its cells, its counter, and
/// the exit code once the run has ended.
pub struct ProgramView {
    pub file_name: Seq<char>,
    pub code: Seq<Code>,
    pub counter: usize,
    pub exit: Option<i32>,
}

/// What one step comes to.
pub struct Stepped {
    /// The program afterwards.
    pub program: ProgramView,
    /// What the step writes out.
    pub output: Seq<char>,
    /// How many times the store is to be written back.
    pub persists: nat,
    /// Where the run stands afterwards.
    pub status: Status,
}

/// The exit code of the whole run, once it has ended: the code of the exit,
/// or 1 after a failure.
pub open spec fn exit_code_of(status: Status) -> Option<i32> {
    match status {
        Status::Running => None,
        Status::Exited(code) => Some(code),
        Status::Failed(_) => Some(1),
    }
}

/// Applies `actions` in order, starting with the counter at `counter`. A jump
/// sets the counter, a sync counts as one write of the store, and an exit
/// ends the list: what stands behind it is not applied.
pub open spec fn applied(counter: usize, actions: Seq<Actions>) -> Applied
    decreases actions.len(),
{
    if actions.len() == 0 {
        Applied { counter, persists: 0, exit: None }
    } else {
        match actions[0] {
            Actions::Jump(address) => applied(address, actions.drop_first()),
            Actions::Exit(code) => Applied { counter, persists: 0, exit: Some(code) },
            Actions::Sync => {
                let rest = applied(counter, actions.drop_first());
                Applied { counter: rest.counter, persists: rest.persists + 1, exit: rest.exit }
            },
        }
    }
}

/// One step of the program `pre`. A run that has ended stays as it is. A
/// counter behind the last cell ends the run with exit code 0. Else the
/// counter advances by one, the cell that it stood at is carried out, and its
/// actions are applied to the advanced counter; a failure ends the run with
/// exit code 1.
pub open spec fn stepped(pre: ProgramView) -> Stepped {
    if let Some(code) = pre.exit {
        Stepped { program: pre, output: Seq::empty(), persists: 0, status: Status::Exited(code) }
    } else if pre.counter >= pre.code.len() {
        Stepped {
            program: ProgramView { exit: Some(0), ..pre },
            output: Seq::empty(),
            persists: 0,
            status: Status::Exited(0),
        }
    } else {
        let next = (pre.counter + 1) as usize;
        match effect_of(pre.code[pre.counter as int], pre.code) {
            Err(fault) => Stepped {
                program: ProgramView { counter: next, exit: Some(1), ..pre },
                output: Seq::empty(),
                persists: 0,
                status: Status::Failed(fault),
            },
            Ok(effect) => {
                let result = applied(next, effect.actions);
                Stepped {
                    program: ProgramView {
                        code: effect.mem,
                        counter: result.counter,
                        exit: result.exit,
                        ..pre
                    },
                    output: effect.output,
                    persists: result.persists,
                    status: match result.exit {
                        Some(code) => Status::Exited(code),
                        None => Status::Running,
                    },
                }
            },
        }
    }
}

/// The lines that encode the cells of a store, in order.
pub open spec fn lines_of_cells(code: Seq<Code>) -> Seq<Seq<char>> {
    Seq::new(code.len(), |i: int| line_of(code[i]))
}

/// The text that a store is written back as: the line of each cell, with a
/// line feed between each two.
pub open spec fn text_of(code: Seq<Code>) -> Seq<char> {
    joined(lines_of_cells(code), seq!['\n'])
}

impl Status {
    /// The exit code of the whole run, once it has ended.
    pub fn exit_code(&self) -> (r: Option<i32>)
        ensures
            r == exit_code_of(*self),
    {
        match self {
            Status::Running => None,
            Status::Exited(code) => Some(*code),
            Status::Failed(_) => Some(1),
        }
    }
}

/// Applies `actions` in order to the counter: the counter afterwards, the
/// number of writes of the store asked for, and the exit code where the run
/// ends.
pub fn apply_actions(counter: usize, actions: &Vec<Actions>) -> (r: (usize, usize, Option<i32>))
    ensures
        r.0 == applied(counter, actions@).counter,
        r.1 == applied(counter, actions@).persists,
        r.2 == applied(counter, actions@).exit,
{
    let mut now: usize = counter;
    let mut persists: usize = 0;
    let mut at: usize = 0;
    assert(actions@.skip(0) =~= actions@);
    while at < actions.len()
        invariant
            at <= actions.len(),
            persists <= at,
            applied(counter, actions@).counter == applied(now, actions@.skip(at as int)).counter,
            applied(counter, actions@).persists == persists + applied(
                now,
                actions@.skip(at as int),
            ).persists,
            applied(counter, actions@).exit == applied(now, actions@.skip(at as int)).exit,
        decreases actions.len() - at,
    {
        assert(actions@.skip(at as int).drop_first() =~= actions@.skip(at + 1));
        match actions[at] {
            Actions::Jump(address) => {
                now = address;
            },
            Actions::Exit(code) => {
                return (now, persists, Some(code));
            },
            Actions::Sync => {
                persists += 1;
            },
        }
        at += 1;
    }
    (now, persists, None)
}

/// A program in its store: the cells, the counter that names the next cell to
/// carry out, and the name of the file that holds its text.
pub struct Program {
    file_name: String,
    code: Vec<Code>,
    counter: usize,
    exit: Option<i32>,
}

impl View for Program {
    type V = ProgramView;

    closed spec fn view(&self) -> ProgramView {
        ProgramView {
            file_name: self.file_name@,
            code: self.code@,
            counter: self.counter,
            exit: self.exit,
        }
    }
}

impl Program {
    /// A program of the cells `code` that is kept in the file `file_name`,
    /// about to carry out its first cell.
    pub fn new(file_name: String, code: Vec<Code>) -> (program: Program)
        ensures
            program@ == (ProgramView {
                file_name: file_name@,
                code: code@,
                counter: 0,
                exit: None,
            }),
    {
        Program { file_name, code, counter: 0, exit: None }
    }

    /// The program that the file `file_name` holds, `data` being the text of
    /// that file.
    pub fn from_file(file_name: String, data: &str) -> (r: Result<Program, ParseError>)
        ensures
            match r {
                Ok(program) => {
                    &&& program@.file_name == file_name@
                    &&& program@.counter == 0
                    &&& program@.exit is None
                    &&& encode(lines_of(data@), program@.code)
                },
                Err(error) => first_bad_line(lines_of(data@), error.line as int),
            },
    {
        match parse(data) {
            Ok(code) => Ok(Program::new(file_name, code)),
            Err(error) => Err(error),
        }
    }

    /// Carries out one step. What the step writes out is appended to `out`.
    pub fn step(&mut self, out: &mut String) -> (step: Step)
        ensures
            final(self)@ == stepped(old(self)@).program,
            final(out)@ == old(out)@ + stepped(old(self)@).output,
            step.persists == stepped(old(self)@).persists,
            step.status == stepped(old(self)@).status,
    {
        if let Some(code) = self.exit {
            return Step { persists: 0, status: Status::Exited(code) };
        }
        if self.counter >= self.code.len() {
            self.exit = Some(0);
            return Step { persists: 0, status: Status::Exited(0) };
        }
        let inst: Code = self.code[self.counter];
        self.counter = self.counter + 1;
        match inst.run(&mut self.code, out) {
            Ok(actions) => {
                let (counter, persists, exit) = apply_actions(self.counter, &actions);
                self.counter = counter;
                self.exit = exit;
                let status = match exit {
                    Some(code) => Status::Exited(code),
                    None => Status::Running,
                };
                Step { persists, status }
            },
            Err(fault) => {
                self.exit = Some(1);
                Step { persists: 0, status: Status::Failed(fault) }
            },
        }
    }

    /// The text that the store is written back as.
    pub fn source(&self) -> (text: String)
        ensures
            text@ == text_of(self@.code),
    {
        let mut lines: Vec<String> = Vec::new();
        let mut at: usize = 0;
        while at < self.code.len()
            invariant
                at <= self.code.len(),
                lines.len() == at,
                forall|i: int| 0 <= i < at ==> (#[trigger] lines@[i])@ == line_of(self.code@[i]),
            decreases self.code.len() - at,
        {
            lines.push(self.code[at].present());
            at += 1;
        }
        proof {
            reveal_strlit("\n");
            assert("\n"@ =~= seq!['\n']);
            assert(texts(lines@) =~= lines_of_cells(self.code@));
        }
        join_lines(&lines, "\n")
    }

    /// The name of the file that holds the program.
    pub fn file_name(&self) -> (name: &String)
        ensures
            name@ == self@.file_name,
    {
        &self.file_name
    }

    /// The cells of the program.
    pub fn code(&self) -> (code: &Vec<Code>)
        ensures
            code@ == self@.code,
    {
        &self.code
    }

    /// The address of the next cell to carry out.
    pub fn counter(&self) -> (counter: usize)
        ensures
            counter == self@.counter,
    {
        self.counter
    }

    /// The exit code, once the run has ended.
    pub fn exit_code(&self) -> (code: Option<i32>)
        ensures
            code == self@.exit,
    {
        self.exit
    }
}

} // verus!
