use vstd::prelude::*;
use vstd::string::StringExecFns;

verus! {

/// An installed desktop application.
#[derive(Clone, Debug)]
pub struct App {
    pub name: String,
    pub description: String,
    /// Opaque identifier used only to launch the application.
    pub desktop_file: String,
}

/// A named shell action belonging to a command set.
#[derive(Clone, Debug)]
pub struct SubCommand {
    pub name: String,
    pub command: String,
}

/// A user-defined command set: an optional direct action plus ordered sub-actions.
#[derive(Clone, Debug)]
pub struct CustomCommand {
    pub name: String,
    pub description: String,
    pub subcommands: Vec<SubCommand>,
    pub command: Option<String>,
}

/// One entry of a result list.
#[derive(Clone, Debug)]
pub enum SearchItem {
    App(App),
    CustomCommand(CustomCommand),
    SubCommand { parent: String, sub: SubCommand },
}

/// Which entities a fuzzy query draws its candidates from.
#[derive(Clone, Copy, Debug, PartialEq, Eq, Structural)]
pub enum FilterMode {
    All,
    Apps,
    Commands,
}

/// What executing a result asks the process layer to do.
#[derive(Clone, Debug)]
pub enum Action {
    /// Open an application by its identifier.
    Launch(String),
    /// Run a shell command line.
    Shell(String),
}

/// What selecting a result does.
#[derive(Clone, Debug)]
pub enum Selection {
    /// Replace the query with this text, entering drill-down.
    DrillDown(String),
    /// Execute the result.
    Execute(Option<Action>),
}

pub struct AppView {
    pub name: Seq<char>,
    pub description: Seq<char>,
    pub desktop_file: Seq<char>,
}

pub struct SubView {
    pub name: Seq<char>,
    pub command: Seq<char>,
}

pub struct CommandView {
    pub name: Seq<char>,
    pub description: Seq<char>,
    pub subcommands: Seq<SubView>,
    pub command: Option<Seq<char>>,
}

pub enum ItemView {
    App(AppView),
    Command(CommandView),
    Sub { parent: Seq<char>, sub: SubView },
}

pub enum ActionView {
    Launch(Seq<char>),
    Shell(Seq<char>),
}

impl View for App {
    type V = AppView;

    open spec fn view(&self) -> AppView {
        AppView { name: self.name@, description: self.description@, desktop_file: self.desktop_file@ }
    }
}

impl View for SubCommand {
    type V = SubView;

    open spec fn view(&self) -> SubView {
        SubView { name: self.name@, command: self.command@ }
    }
}

pub open spec fn opt_string_view(o: Option<String>) -> Option<Seq<char>> {
    match o {
        Some(s) => Some(s@),
        None => None,
    }
}

impl View for CustomCommand {
    type V = CommandView;

    open spec fn view(&self) -> CommandView {
        CommandView {
            name: self.name@,
            description: self.description@,
            subcommands: self.subcommands@.map_values(|s: SubCommand| s@),
            command: opt_string_view(self.command),
        }
    }
}

impl View for SearchItem {
    type V = ItemView;

    open spec fn view(&self) -> ItemView {
        match self {
            SearchItem::App(a) => ItemView::App(a@),
            SearchItem::CustomCommand(c) => ItemView::Command(c@),
            SearchItem::SubCommand { parent, sub } => ItemView::Sub { parent: parent@, sub: sub@ },
        }
    }
}

impl View for Action {
    type V = ActionView;

    open spec fn view(&self) -> ActionView {
        match self {
            Action::Launch(s) => ActionView::Launch(s@),
            Action::Shell(s) => ActionView::Shell(s@),
        }
    }
}

impl ItemView {
    /// The display name of a result.
    pub open spec fn name(self) -> Seq<char> {
        match self {
            ItemView::App(a) => a.name,
            ItemView::Command(c) => c.name,
            ItemView::Sub { sub, .. } => sub.name,
        }
    }

    /// The description shown under a result; a sub-action shows its parent's name.
    pub open spec fn description(self) -> Seq<char> {
        match self {
            ItemView::App(a) => a.description,
            ItemView::Command(c) => c.description,
            ItemView::Sub { parent, .. } => parent,
        }
    }

    /// What executing the result runs, if anything.
    pub open spec fn action(self) -> Option<ActionView> {
        match self {
            ItemView::App(a) => Some(ActionView::Launch(a.desktop_file)),
            ItemView::Command(c) => match c.command {
                Some(cmd) => Some(ActionView::Shell(cmd)),
                None => None,
            },
            ItemView::Sub { sub, .. } => Some(ActionView::Shell(sub.command)),
        }
    }

    /// Selecting this result enters drill-down instead of executing it.
    pub open spec fn has_children(self) -> bool {
        match self {
            ItemView::Command(c) => c.subcommands.len() > 0,
            _ => false,
        }
    }
}

pub open spec fn opt_action_view(o: Option<Action>) -> Option<ActionView> {
    match o {
        Some(a) => Some(a@),
        None => None,
    }
}

impl App {
    /// A field-by-field copy.
    pub fn copied(&self) -> (r: App)
        ensures
            r@ == self@,
    {
        App {
            name: self.name.clone(),
            description: self.description.clone(),
            desktop_file: self.desktop_file.clone(),
        }
    }
}

impl SubCommand {
    /// A field-by-field copy.
    pub fn copied(&self) -> (r: SubCommand)
        ensures
            r@ == self@,
    {
        SubCommand { name: self.name.clone(), command: self.command.clone() }
    }
}

impl CustomCommand {
    /// A field-by-field copy, sub-actions in the same order.
    pub fn copied(&self) -> (r: CustomCommand)
        ensures
            r@ == self@,
    {
        let mut subs: Vec<SubCommand> = Vec::new();
        let mut i: usize = 0;
        while i < self.subcommands.len()
            invariant
                i <= self.subcommands@.len(),
                subs@.len() == i,
                forall|j: int| 0 <= j < i ==> (#[trigger] subs@[j])@ == self.subcommands@[j]@,
            decreases self.subcommands@.len() - i,
        {
            subs.push(self.subcommands[i].copied());
            i = i + 1;
        }
        assert(subs@.map_values(|s: SubCommand| s@) =~= self.subcommands@.map_values(|s: SubCommand| s@));
        let command = match &self.command {
            Some(c) => Some(c.clone()),
            None => None,
        };
        CustomCommand {
            name: self.name.clone(),
            description: self.description.clone(),
            subcommands: subs,
            command,
        }
    }

    /// True when selecting this command set should enter drill-down.
    pub fn has_subcommands(&self) -> (r: bool)
        ensures
            r == (self@.subcommands.len() > 0),
    {
        self.subcommands.len() > 0
    }
}

impl SearchItem {
    /// The display name.
    pub fn name(&self) -> (r: &str)
        ensures
            r@ == self@.name(),
    {
        match self {
            SearchItem::App(app) => app.name.as_str(),
            SearchItem::CustomCommand(cmd) => cmd.name.as_str(),
            SearchItem::SubCommand { sub, .. } => sub.name.as_str(),
        }
    }

    /// The description; for a sub-action, the name of its command set.
    pub fn description(&self) -> (r: String)
        ensures
            r@ == self@.description(),
    {
        match self {
            SearchItem::App(app) => app.description.clone(),
            SearchItem::CustomCommand(cmd) => cmd.description.clone(),
            SearchItem::SubCommand { parent, .. } => parent.clone(),
        }
    }

    /// What executing this result runs: launch an application, run a shell
    /// command, or nothing for a command set without a direct action.
    pub fn execute(&self) -> (r: Option<Action>)
        ensures
            opt_action_view(r) == self@.action(),
    {
        match self {
            SearchItem::App(app) => Some(Action::Launch(app.desktop_file.clone())),
            SearchItem::CustomCommand(cmd) => match &cmd.command {
                Some(command) => Some(Action::Shell(command.clone())),
                None => None,
            },
            SearchItem::SubCommand { sub, .. } => Some(Action::Shell(sub.command.clone())),
        }
    }

    /// True for a command set result with sub-actions.
    pub fn has_children(&self) -> (r: bool)
        ensures
            r == self@.has_children(),
    {
        match self {
            SearchItem::CustomCommand(cmd) => cmd.has_subcommands(),
            _ => false,
        }
    }

    /// Selecting a command set with sub-actions rewrites the query to
    /// `"<name> > "`; selecting anything else executes it.
    pub fn select(&self) -> (r: Selection)
        ensures
            self@.has_children() ==> (r matches Selection::DrillDown(t) && t@ == self@.name() + seq![' ', '>', ' ']),
            !self@.has_children() ==> (r matches Selection::Execute(a) && opt_action_view(a) == self@.action()),
    {
        match self {
            SearchItem::CustomCommand(cmd) => {
                if cmd.has_subcommands() {
                    proof {
                        reveal_strlit(" > ");
                        assert(" > "@ =~= seq![' ', '>', ' ']);
                    }
                    let mut text = cmd.name.clone();
                    text.append(" > ");
                    return Selection::DrillDown(text);
                }
                Selection::Execute(self.execute())
            },
            _ => Selection::Execute(self.execute()),
        }
    }

    /// A copy with the same view.
    pub fn copied(&self) -> (r: SearchItem)
        ensures
            r@ == self@,
    {
        match self {
            SearchItem::App(a) => SearchItem::App(a.copied()),
            SearchItem::CustomCommand(c) => SearchItem::CustomCommand(c.copied()),
            SearchItem::SubCommand { parent, sub } => SearchItem::SubCommand {
                parent: parent.clone(),
                sub: sub.copied(),
            },
        }
    }
}

} // verus!
