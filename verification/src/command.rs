//! What the pipeline asks its caller to do, and what the caller reports back.
//!
//! The library never runs a tool itself. It describes each step as an
//! [`Action`]; the caller carries the action out and answers with an
//! [`Event`].

use crate::target::Target;
use crate::text::{chain, opt_view, views};
use vstd::prelude::*;

verus! {

/// An external tool of the toolchain. The caller knows where each one lives.
#[derive(Debug, Clone, PartialEq, Eq)]
pub enum Tool {
    /// The packaging tool of the SDK's build tools.
    Aapt,
    /// The alignment tool of the SDK's build tools.
    Zipalign,
    /// The signing tool of the SDK's build tools.
    Apksigner,
    /// The object-copy tool of the toolchain for one architecture.
    Objcopy(Target),
    /// The device bridge, bound to the device with the given serial number,
    /// or to the only connected device when there is none.
    Adb(Option<String>),
}

pub enum ToolView {
    Aapt,
    Zipalign,
    Apksigner,
    Objcopy(Target),
    Adb(Option<Seq<char>>),
}

impl View for Tool {
    type V = ToolView;

    open spec fn view(&self) -> ToolView {
        match self {
            Tool::Aapt => ToolView::Aapt,
            Tool::Zipalign => ToolView::Zipalign,
            Tool::Apksigner => ToolView::Apksigner,
            Tool::Objcopy(target) => ToolView::Objcopy(*target),
            Tool::Adb(serial) => ToolView::Adb(opt_view(*serial)),
        }
    }
}

/// One run of an external tool: which tool, in which working directory, and
/// the arguments that follow the tool's own name.
#[derive(Debug, Clone, PartialEq, Eq)]
pub struct Invocation {
    pub tool: Tool,
    /// The directory the tool is started in; the caller's own when `None`.
    pub current_dir: Option<String>,
    pub args: Vec<String>,
}

pub struct InvocationView {
    pub tool: ToolView,
    pub current_dir: Option<Seq<char>>,
    pub args: Seq<Seq<char>>,
}

impl View for Invocation {
    type V = InvocationView;

    open spec fn view(&self) -> InvocationView {
        InvocationView {
            tool: self.tool@,
            current_dir: opt_view(self.current_dir),
            args: views(self.args@),
        }
    }
}

/// The name by which a tool is called, with the device it is bound to where
/// it is bound to one.
pub open spec fn tool_name(tool: ToolView) -> Seq<char> {
    match tool {
        ToolView::Aapt => "aapt"@,
        ToolView::Zipalign => "zipalign"@,
        ToolView::Apksigner => "apksigner"@,
        ToolView::Objcopy(_) => "objcopy"@,
        ToolView::Adb(None) => "adb"@,
        ToolView::Adb(Some(serial)) => "adb -s "@ + serial,
    }
}

/// The arguments one after another, a space before each.
pub open spec fn spaced(args: Seq<Seq<char>>) -> Seq<char>
    decreases args.len(),
{
    if args.len() == 0 {
        Seq::empty()
    } else {
        spaced(args.drop_last()) + seq![' '] + args.last()
    }
}

/// An invocation as one line of text: the tool's name and the arguments,
/// separated by spaces.
pub open spec fn command_line_of(invocation: InvocationView) -> Seq<char> {
    tool_name(invocation.tool) + spaced(invocation.args)
}

impl Tool {
    /// The name by which the tool is called, with the device it is bound to
    /// where it is bound to one.
    pub fn name(&self) -> (name: String)
        ensures
            name@ == tool_name(self@),
    {
        match self {
            Tool::Aapt => String::from_str("aapt"),
            Tool::Zipalign => String::from_str("zipalign"),
            Tool::Apksigner => String::from_str("apksigner"),
            Tool::Objcopy(_) => String::from_str("objcopy"),
            Tool::Adb(None) => String::from_str("adb"),
            Tool::Adb(Some(serial)) => chain("adb -s ", serial.as_str()),
        }
    }
}

impl Invocation {
    /// The invocation as one line of text, to show to the user.
    pub fn command_line(&self) -> (line: String)
        ensures
            line@ == command_line_of(self@),
    {
        let mut line = self.tool.name();
        let mut i: usize = 0;
        while i < self.args.len()
            invariant
                i <= self.args.len(),
                line@ == tool_name(self.tool@) + spaced(views(self.args@).take(i as int)),
            decreases self.args.len() - i,
        {
            proof {
                let seen = views(self.args@).take(i + 1);
                assert(seen.drop_last() =~= views(self.args@).take(i as int));
                assert(tool_name(self.tool@) + spaced(seen) =~= tool_name(self.tool@) + spaced(
                    seen.drop_last(),
                ) + seq![' '] + seen.last());
            }
            line.push(' ');
            line.append(self.args[i].as_str());
            i = i + 1;
        }
        assert(views(self.args@).take(self.args.len() as int) =~= views(self.args@));
        line
    }
}

/// One step of a job, for the caller to carry out.
#[derive(Debug, Clone, PartialEq, Eq)]
pub enum Action {
    /// Check that a file exists at the path.
    RequireFile(String),
    /// Create the directory and every missing parent; an existing directory
    /// is no failure.
    CreateDirAll(String),
    /// Write the serialized manifest as `AndroidManifest.xml` into the
    /// directory.
    WriteManifest(String),
    /// Copy a file byte for byte.
    CopyFile { from: String, to: String },
    /// Run a tool and wait until it exits.
    Run(Invocation),
}

pub enum ActionView {
    RequireFile(Seq<char>),
    CreateDirAll(Seq<char>),
    WriteManifest(Seq<char>),
    CopyFile { from: Seq<char>, to: Seq<char> },
    Run(InvocationView),
}

impl View for Action {
    type V = ActionView;

    open spec fn view(&self) -> ActionView {
        match self {
            Action::RequireFile(path) => ActionView::RequireFile(path@),
            Action::CreateDirAll(path) => ActionView::CreateDirAll(path@),
            Action::WriteManifest(dir) => ActionView::WriteManifest(dir@),
            Action::CopyFile { from, to } => ActionView::CopyFile { from: from@, to: to@ },
            Action::Run(invocation) => ActionView::Run(invocation@),
        }
    }
}

/// The views of a sequence of actions, in order.
pub open spec fn action_views(actions: Seq<Action>) -> Seq<ActionView> {
    Seq::new(actions.len(), |i: int| actions[i]@)
}

pub proof fn lemma_action_views_push(actions: Seq<Action>, action: Action)
    ensures
        action_views(actions.push(action)) == action_views(actions).push(action@),
{
    assert(action_views(actions.push(action)) =~= action_views(actions).push(action@));
}

/// What came of one action.
#[derive(Debug, Clone, PartialEq, Eq)]
pub enum Event {
    /// The action was carried out: the tool exited with status zero, the file
    /// is there, the directory exists, the copy is written.
    Succeeded,
    /// The action was carried out and its answer is no: the tool exited with
    /// another status, or the file is not there.
    Failed,
    /// The action could not be carried out; the text is the operating
    /// system's message.
    Io(String),
}

pub enum EventView {
    Succeeded,
    Failed,
    Io(Seq<char>),
}

impl View for Event {
    type V = EventView;

    open spec fn view(&self) -> EventView {
        match self {
            Event::Succeeded => EventView::Succeeded,
            Event::Failed => EventView::Failed,
            Event::Io(message) => EventView::Io(message@),
        }
    }
}

/// What a tool left behind when it was run for its output.
#[derive(Debug, Clone, PartialEq, Eq)]
pub struct ToolOutput {
    /// Whether the tool exited with status zero.
    pub success: bool,
    /// What the tool wrote to its standard output.
    pub stdout: String,
}

} // verus!
