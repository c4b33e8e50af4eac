//! The platform-independent core of a desktop agent: a service lifecycle
//! state machine, a tray-menu model that renders itself as HTML, and the
//! application settings with their validation.
use vstd::prelude::*;
use crate::text::{is_blank, all_ws, owned, str_eq};

verus! {

// ───────────────────────── service lifecycle ─────────────────────────

/// The lifecycle state of a service.
#[derive(Debug, Clone, Copy, PartialEq, Eq, Structural)]
pub enum ServiceState {
    /// Not running (the initial state).
    Stopped,
    /// Running.
    Running,
    /// Paused; still holds its resources and can continue.
    Paused,
}

impl Default for ServiceState {
    fn default() -> (s: Self)
        ensures
            s == ServiceState::Stopped,
    {
        ServiceState::Stopped
    }
}

/// A control command sent to a service.
#[derive(Debug, Clone, Copy, PartialEq, Eq, Structural)]
pub enum ServiceCommand {
    /// Legal only when stopped.
    Start,
    /// Legal when running or paused.
    Stop,
    /// Legal only when running.
    Pause,
    /// Legal only when paused.
    Continue,
}

/// A command that the state does not accept.
#[derive(Debug, Clone, Copy, PartialEq, Eq, Structural)]
pub struct InvalidTransition {
    pub from: ServiceState,
    pub command: ServiceCommand,
}

/// The state a legal command leads to, or `None` where it is illegal.
pub open spec fn next_state(s: ServiceState, c: ServiceCommand) -> Option<ServiceState> {
    match (s, c) {
        (ServiceState::Stopped, ServiceCommand::Start) => Some(ServiceState::Running),
        (ServiceState::Running, ServiceCommand::Stop) => Some(ServiceState::Stopped),
        (ServiceState::Paused, ServiceCommand::Stop) => Some(ServiceState::Stopped),
        (ServiceState::Running, ServiceCommand::Pause) => Some(ServiceState::Paused),
        (ServiceState::Paused, ServiceCommand::Continue) => Some(ServiceState::Running),
        _ => None,
    }
}

/// The name `{:?}` gives a state.
pub open spec fn state_name(s: ServiceState) -> Seq<char> {
    match s {
        ServiceState::Stopped => "Stopped"@,
        ServiceState::Running => "Running"@,
        ServiceState::Paused => "Paused"@,
    }
}

/// The name `{:?}` gives a command.
pub open spec fn command_name(c: ServiceCommand) -> Seq<char> {
    match c {
        ServiceCommand::Start => "Start"@,
        ServiceCommand::Stop => "Stop"@,
        ServiceCommand::Pause => "Pause"@,
        ServiceCommand::Continue => "Continue"@,
    }
}

fn state_name_str(s: ServiceState) -> (r: &'static str)
    ensures
        r@ == state_name(s),
{
    match s {
        ServiceState::Stopped => {
            proof {
                reveal_strlit("Stopped");
            }
            "Stopped"
        },
        ServiceState::Running => {
            proof {
                reveal_strlit("Running");
            }
            "Running"
        },
        ServiceState::Paused => {
            proof {
                reveal_strlit("Paused");
            }
            "Paused"
        },
    }
}

fn command_name_str(c: ServiceCommand) -> (r: &'static str)
    ensures
        r@ == command_name(c),
{
    match c {
        ServiceCommand::Start => "Start",
        ServiceCommand::Stop => "Stop",
        ServiceCommand::Pause => "Pause",
        ServiceCommand::Continue => "Continue",
    }
}

impl InvalidTransition {
    /// The error message: which state refused which command.
    pub open spec fn message_spec(self) -> Seq<char> {
        "非法服务迁移：状态 "@ + state_name(self.from) + " 不接受命令 "@ + command_name(self.command)
    }

    /// The error message, as the `Display` form shows it.
    pub fn message(&self) -> (r: String)
        ensures
            r@ == self.message_spec(),
    {
        let mut r = String::new();
        r.push_str("非法服务迁移：状态 ");
        r.push_str(state_name_str(self.from));
        r.push_str(" 不接受命令 ");
        r.push_str(command_name_str(self.command));
        assert(r@ =~= self.message_spec());
        r
    }
}

impl ServiceState {
    /// Applies one command: the next state where the command is legal in
    /// this state, the refused pair otherwise.
    pub fn apply(self, command: ServiceCommand) -> (r: Result<ServiceState, InvalidTransition>)
        ensures
            match next_state(self, command) {
                Some(n) => r == Ok::<ServiceState, InvalidTransition>(n),
                None => r == Err::<ServiceState, InvalidTransition>(
                    InvalidTransition { from: self, command },
                ),
            },
    {
        match (self, command) {
            (ServiceState::Stopped, ServiceCommand::Start) => Ok(ServiceState::Running),
            (ServiceState::Running, ServiceCommand::Stop) => Ok(ServiceState::Stopped),
            (ServiceState::Paused, ServiceCommand::Stop) => Ok(ServiceState::Stopped),
            (ServiceState::Running, ServiceCommand::Pause) => Ok(ServiceState::Paused),
            (ServiceState::Paused, ServiceCommand::Continue) => Ok(ServiceState::Running),
            _ => Err(InvalidTransition { from: self, command }),
        }
    }

    /// Running or paused: the service holds its resources.
    pub fn is_active(self) -> (b: bool)
        ensures
            b == (self != ServiceState::Stopped),
    {
        match self {
            ServiceState::Running | ServiceState::Paused => true,
            ServiceState::Stopped => false,
        }
    }
}

/// Each command is legal exactly in its documented states, and leads to its
/// documented state: `Start` only from stopped, to running; `Stop` from
/// running or paused, to stopped; `Pause` only from running, to paused;
/// `Continue` only from paused, to running. Every other pair is refused.
pub proof fn law_commands_legal_exactly(s: ServiceState)
    ensures
        (next_state(s, ServiceCommand::Start) is Some) <==> s == ServiceState::Stopped,
        (next_state(s, ServiceCommand::Stop) is Some) <==> s != ServiceState::Stopped,
        (next_state(s, ServiceCommand::Pause) is Some) <==> s == ServiceState::Running,
        (next_state(s, ServiceCommand::Continue) is Some) <==> s == ServiceState::Paused,
        next_state(s, ServiceCommand::Start) is Some ==> next_state(s, ServiceCommand::Start)
            == Some(ServiceState::Running),
        next_state(s, ServiceCommand::Stop) is Some ==> next_state(s, ServiceCommand::Stop)
            == Some(ServiceState::Stopped),
        next_state(s, ServiceCommand::Pause) is Some ==> next_state(s, ServiceCommand::Pause)
            == Some(ServiceState::Paused),
        next_state(s, ServiceCommand::Continue) is Some ==> next_state(
            s,
            ServiceCommand::Continue,
        ) == Some(ServiceState::Running),
{
}

/// Every state the machine reaches by a legal command is one that accepts
/// some command back: a running service can stop, a paused one can continue,
/// a stopped one can start. In particular every accepted command leads to a
/// state from which `Stop` or `Start` is legal, so no state is a dead end.
pub proof fn law_no_dead_end(s: ServiceState, c: ServiceCommand)
    requires
        next_state(s, c) is Some,
    ensures
        next_state(next_state(s, c)->0, ServiceCommand::Stop) is Some || next_state(
            next_state(s, c)->0,
            ServiceCommand::Start,
        ) is Some,
{
}

/// Pausing a running service and then continuing it returns it to running;
/// stopping an active service always succeeds and leaves it stopped.
pub proof fn law_pause_continue_and_stop(s: ServiceState)
    ensures
        s == ServiceState::Running ==> (next_state(s, ServiceCommand::Pause) matches Some(p)
            && next_state(p, ServiceCommand::Continue) == Some(ServiceState::Running)),
        s != ServiceState::Stopped ==> next_state(s, ServiceCommand::Stop) == Some(
            ServiceState::Stopped,
        ),
        next_state(s, ServiceCommand::Start) is Some <==> s == ServiceState::Stopped,
{
}

// ───────────────────────── tray menu ─────────────────────────

/// One menu entry.
#[derive(Debug, Clone, PartialEq, Eq)]
pub enum MenuItem {
    /// A command; `enabled` is false when it is greyed out.
    Action { id: String, label: String, enabled: bool },
    /// An on/off switch.
    Checkbox { id: String, label: String, checked: bool },
    /// A separator line.
    Separator,
}

/// The id of an entry; a separator has none.
pub open spec fn item_id(m: MenuItem) -> Option<Seq<char>> {
    match m {
        MenuItem::Action { id, .. } => Some(id@),
        MenuItem::Checkbox { id, .. } => Some(id@),
        MenuItem::Separator => None,
    }
}

impl MenuItem {
    /// The entry's id; `None` for a separator.
    pub fn id(&self) -> (r: Option<&str>)
        ensures
            match r {
                Some(s) => item_id(*self) == Some(s@),
                None => item_id(*self) is None,
            },
    {
        match self {
            MenuItem::Action { id, .. } => Some(id.as_str()),
            MenuItem::Checkbox { id, .. } => Some(id.as_str()),
            MenuItem::Separator => None,
        }
    }

    /// A field-for-field copy.
    pub fn duplicate(&self) -> (r: MenuItem)
        ensures
            r == *self,
    {
        match self {
            MenuItem::Action { id, label, enabled } => MenuItem::Action {
                id: id.clone(),
                label: label.clone(),
                enabled: *enabled,
            },
            MenuItem::Checkbox { id, label, checked } => MenuItem::Checkbox {
                id: id.clone(),
                label: label.clone(),
                checked: *checked,
            },
            MenuItem::Separator => MenuItem::Separator,
        }
    }
}

/// An ordered list of menu entries.
#[derive(Debug, Clone, PartialEq, Eq)]
pub struct TrayMenu {
    items: Vec<MenuItem>,
}

impl View for TrayMenu {
    type V = Seq<MenuItem>;

    closed spec fn view(&self) -> Seq<MenuItem> {
        self.items@
    }
}

impl Default for TrayMenu {
    fn default() -> (m: Self)
        ensures
            m@ == Seq::<MenuItem>::empty(),
    {
        TrayMenu { items: Vec::new() }
    }
}

/// `i` is the first position of `s` whose entry has the id `id`.
pub open spec fn first_with_id(s: Seq<MenuItem>, id: Seq<char>, i: int) -> bool {
    &&& 0 <= i < s.len()
    &&& item_id(s[i]) == Some(id)
    &&& forall|j: int| 0 <= j < i ==> item_id(#[trigger] s[j]) != Some(id)
}

/// The entry is a checkbox with the id `id`.
pub open spec fn is_checkbox_with(m: MenuItem, id: Seq<char>) -> bool {
    m matches MenuItem::Checkbox { id: i, .. } && i@ == id
}

/// The entry is an action with the id `id`.
pub open spec fn is_action_with(m: MenuItem, id: Seq<char>) -> bool {
    m matches MenuItem::Action { id: i, .. } && i@ == id
}

/// `i` is the first checkbox of `s` with the id `id`.
pub open spec fn first_checkbox(s: Seq<MenuItem>, id: Seq<char>, i: int) -> bool {
    &&& 0 <= i < s.len()
    &&& is_checkbox_with(s[i], id)
    &&& forall|j: int| 0 <= j < i ==> !is_checkbox_with(#[trigger] s[j], id)
}

/// `i` is the first action of `s` with the id `id`.
pub open spec fn first_action(s: Seq<MenuItem>, id: Seq<char>, i: int) -> bool {
    &&& 0 <= i < s.len()
    &&& is_action_with(s[i], id)
    &&& forall|j: int| 0 <= j < i ==> !is_action_with(#[trigger] s[j], id)
}

/// The HTML of one entry.
pub open spec fn item_html(m: MenuItem) -> Seq<char> {
    match m {
        MenuItem::Action { id, label, enabled } => "<li class=\""@ + (if enabled {
            "action"@
        } else {
            "action disabled"@
        }) + "\" data-id=\""@ + id@ + "\">"@ + label@ + "</li>"@,
        MenuItem::Checkbox { id, label, checked } => "<li class=\"checkbox\" data-id=\""@ + id@
            + "\">"@ + (if checked {
            "[x]"@
        } else {
            "[ ]"@
        }) + " "@ + label@ + "</li>"@,
        MenuItem::Separator => "<li class=\"sep\"><hr></li>"@,
    }
}

/// The HTML of the entries, one after another.
pub open spec fn items_html(s: Seq<MenuItem>) -> Seq<char>
    decreases s.len(),
{
    if s.len() == 0 {
        seq![]
    } else {
        items_html(s.drop_last()) + item_html(s.last())
    }
}

/// The whole menu as a list.
pub open spec fn menu_html(s: Seq<MenuItem>) -> Seq<char> {
    "<ul class=\"menu\">"@ + items_html(s) + "</ul>"@
}

fn push_item_html(out: &mut String, m: &MenuItem)
    ensures
        final(out)@ == old(out)@ + item_html(*m),
{
    match m {
        MenuItem::Action { id, label, enabled } => {
            out.push_str("<li class=\"");
            if *enabled {
                out.push_str("action");
            } else {
                out.push_str("action disabled");
            }
            out.push_str("\" data-id=\"");
            out.push_str(id.as_str());
            out.push_str("\">");
            out.push_str(label.as_str());
            out.push_str("</li>");
        },
        MenuItem::Checkbox { id, label, checked } => {
            out.push_str("<li class=\"checkbox\" data-id=\"");
            out.push_str(id.as_str());
            out.push_str("\">");
            if *checked {
                out.push_str("[x]");
            } else {
                out.push_str("[ ]");
            }
            out.push_str(" ");
            out.push_str(label.as_str());
            out.push_str("</li>");
        },
        MenuItem::Separator => {
            out.push_str("<li class=\"sep\"><hr></li>");
        },
    }
    assert(final(out)@ =~= old(out)@ + item_html(*m));
}

impl TrayMenu {
    /// An empty menu.
    pub fn new() -> (m: Self)
        ensures
            m@ == Seq::<MenuItem>::empty(),
    {
        TrayMenu { items: Vec::new() }
    }

    /// Appends an enabled action.
    pub fn action(self, id: &str, label: &str) -> (m: Self)
        ensures
            m@.len() == self@.len() + 1,
            m@.drop_last() == self@,
            m@.last() matches MenuItem::Action { id: i, label: l, enabled }
                && i@ == id@ && l@ == label@ && enabled,
    {
        let mut items = self.items;
        items.push(MenuItem::Action { id: owned(id), label: owned(label), enabled: true });
        TrayMenu { items }
    }

    /// Appends a checkbox.
    pub fn checkbox(self, id: &str, label: &str, checked: bool) -> (m: Self)
        ensures
            m@.len() == self@.len() + 1,
            m@.drop_last() == self@,
            m@.last() matches MenuItem::Checkbox { id: i, label: l, checked: c }
                && i@ == id@ && l@ == label@ && c == checked,
    {
        let mut items = self.items;
        items.push(MenuItem::Checkbox { id: owned(id), label: owned(label), checked });
        TrayMenu { items }
    }

    /// Appends a separator.
    pub fn separator(self) -> (m: Self)
        ensures
            m@ == self@.push(MenuItem::Separator),
    {
        let mut items = self.items;
        items.push(MenuItem::Separator);
        TrayMenu { items }
    }

    /// All entries, in order.
    pub fn items(&self) -> (r: &[MenuItem])
        ensures
            r@ == self@,
    {
        self.items.as_slice()
    }

    /// The number of entries, separators included.
    pub fn len(&self) -> (n: usize)
        ensures
            n == self@.len(),
    {
        self.items.len()
    }

    /// No entries at all.
    pub fn is_empty(&self) -> (b: bool)
        ensures
            b == (self@.len() == 0),
    {
        self.items.len() == 0
    }

    /// The first entry with the id `id`.
    pub fn find(&self, id: &str) -> (r: Option<&MenuItem>)
        ensures
            match r {
                Some(m) => exists|i: int| first_with_id(self@, id@, i) && *m == self@[i],
                None => forall|i: int| 0 <= i < self@.len() ==> item_id(#[trigger] self@[i]) != Some(id@),
            },
    {
        let mut i: usize = 0;
        while i < self.items.len()
            invariant
                i <= self.items.len(),
                forall|j: int| 0 <= j < i ==> item_id(#[trigger] self@[j]) != Some(id@),
            decreases self.items.len() - i,
        {
            let item = &self.items[i];
            match item.id() {
                Some(s) => {
                    if str_eq(s, id) {
                        assert(first_with_id(self@, id@, i as int));
                        return Some(item);
                    }
                },
                None => {},
            }
            i += 1;
        }
        None
    }

    /// Flips the first checkbox with the id `id` and returns its new state;
    /// `None`, with the menu unchanged, where no checkbox has that id.
    pub fn toggle(&mut self, id: &str) -> (r: Option<bool>)
        ensures
            match r {
                Some(v) => exists|i: int| #![auto] first_checkbox(old(self)@, id@, i) && {
                    &&& old(self)@[i] matches MenuItem::Checkbox { id: k, label: l, checked: c }
                    &&& v == !c
                    &&& final(self)@ == old(self)@.update(
                        i,
                        MenuItem::Checkbox { id: k, label: l, checked: v },
                    )
                },
                None => {
                    &&& final(self)@ == old(self)@
                    &&& forall|i: int| 0 <= i < old(self)@.len() ==> !is_checkbox_with(#[trigger] old(self)@[i], id@)
                },
            },
    {
        let mut i: usize = 0;
        while i < self.items.len()
            invariant
                i <= self.items.len(),
                self@ == old(self)@,
                forall|j: int| 0 <= j < i ==> !is_checkbox_with(#[trigger] self@[j], id@),
            decreases self.items.len() - i,
        {
            let found: Option<MenuItem> = match &self.items[i] {
                MenuItem::Checkbox { id: k, label, checked } => {
                    if str_eq(k.as_str(), id) {
                        Some(MenuItem::Checkbox { id: k.clone(), label: label.clone(), checked: !*checked })
                    } else {
                        None
                    }
                },
                _ => None,
            };
            match found {
                Some(new_item) => {
                    let v = match &new_item {
                        MenuItem::Checkbox { checked, .. } => *checked,
                        _ => false,
                    };
                    assert(first_checkbox(old(self)@, id@, i as int));
                    self.items.set(i, new_item);
                    return Some(v);
                },
                None => {},
            }
            i += 1;
        }
        None
    }

    /// Enables or greys out the first action with the id `id`; `false`, with
    /// the menu unchanged, where no action has that id.
    pub fn set_enabled(&mut self, id: &str, value: bool) -> (r: bool)
        ensures
            r ==> exists|i: int| #![auto] first_action(old(self)@, id@, i) && {
                &&& old(self)@[i] matches MenuItem::Action { id: k, label: l, .. }
                &&& final(self)@ == old(self)@.update(
                    i,
                    MenuItem::Action { id: k, label: l, enabled: value },
                )
            },
            !r ==> {
                &&& final(self)@ == old(self)@
                &&& forall|i: int| 0 <= i < old(self)@.len() ==> !is_action_with(#[trigger] old(self)@[i], id@)
            },
    {
        let mut i: usize = 0;
        while i < self.items.len()
            invariant
                i <= self.items.len(),
                self@ == old(self)@,
                forall|j: int| 0 <= j < i ==> !is_action_with(#[trigger] self@[j], id@),
            decreases self.items.len() - i,
        {
            let found: Option<MenuItem> = match &self.items[i] {
                MenuItem::Action { id: k, label, .. } => {
                    if str_eq(k.as_str(), id) {
                        Some(MenuItem::Action { id: k.clone(), label: label.clone(), enabled: value })
                    } else {
                        None
                    }
                },
                _ => None,
            };
            match found {
                Some(new_item) => {
                    assert(first_action(old(self)@, id@, i as int));
                    self.items.set(i, new_item);
                    return true;
                },
                None => {},
            }
            i += 1;
        }
        false
    }

    /// The menu as a minimal HTML list, one `<li>` per entry.
    pub fn to_html(&self) -> (r: String)
        ensures
            r@ == menu_html(self@),
    {
        let mut body = String::new();
        body.push_str("<ul class=\"menu\">");
        let mut i: usize = 0;
        while i < self.items.len()
            invariant
                i <= self.items.len(),
                body@ == "<ul class=\"menu\">"@ + items_html(self@.subrange(0, i as int)),
            decreases self.items.len() - i,
        {
            push_item_html(&mut body, &self.items[i]);
            proof {
                assert(self@.subrange(0, i + 1).drop_last() =~= self@.subrange(0, i as int));
            }
            i += 1;
            assert(body@ =~= "<ul class=\"menu\">"@ + items_html(self@.subrange(0, i as int)));
        }
        body.push_str("</ul>");
        assert(self@.subrange(0, self@.len() as int) =~= self@);
        assert(body@ =~= menu_html(self@));
        body
    }
}

/// The entry with its check mark flipped; other entries unchanged.
pub open spec fn flipped(m: MenuItem) -> MenuItem {
    match m {
        MenuItem::Checkbox { id, label, checked } => MenuItem::Checkbox { id, label, checked: !checked },
        _ => m,
    }
}

/// Toggling a checkbox twice restores the menu: the first toggle leaves the
/// same entry first among the checkboxes with that id, and the second flips
/// it back.
pub proof fn law_toggle_twice_restores(s: Seq<MenuItem>, id: Seq<char>, i: int)
    requires
        first_checkbox(s, id, i),
    ensures
        first_checkbox(s.update(i, flipped(s[i])), id, i),
        s.update(i, flipped(s[i])).update(i, flipped(flipped(s[i]))) == s,
{
    let t = s.update(i, flipped(s[i]));
    assert forall|j: int| 0 <= j < i implies !is_checkbox_with(#[trigger] t[j], id) by {
        assert(t[j] == s[j]);
    }
    assert(t.update(i, flipped(flipped(s[i]))) =~= s);
}

// ───────────────────────── settings ─────────────────────────

/// The colour scheme.
#[derive(Debug, Clone, Copy, PartialEq, Eq, Structural)]
pub enum Theme {
    /// Follow the system.
    System,
    Light,
    Dark,
}

impl Default for Theme {
    fn default() -> (t: Self)
        ensures
            t == Theme::System,
    {
        Theme::System
    }
}

/// The application settings.
#[derive(Debug, Clone, PartialEq, Eq)]
pub struct AppConfig {
    /// The name; also the autostart value name and the event-log source.
    pub app_name: String,
    pub autostart: bool,
    pub start_minimized: bool,
    pub theme: Theme,
}

/// Why a configuration is refused.
#[derive(Debug, Clone, Copy, PartialEq, Eq, Structural)]
pub enum ConfigError {
    /// The name is empty or blank.
    EmptyName,
    /// The name holds a character that registry or path names refuse.
    InvalidNameChar(char),
}

/// The text that `{:?}` gives for a character: the character between single
/// quotes, with Rust's escapes applied.
pub uninterp spec fn debug_char(c: char) -> Seq<char>;

/// `<char as Debug>::fmt`, through `format!("{:?}", ..)`. std's escaping
/// rules decide the text; the contract names the result.
#[verifier::external_body]
fn debug_char_string(c: char) -> (r: String)
    ensures
        r@ == debug_char(c),
{
    format!("{:?}", c)
}

impl ConfigError {
    pub open spec fn message_spec(self) -> Seq<char> {
        match self {
            ConfigError::EmptyName => "应用名不能为空"@,
            ConfigError::InvalidNameChar(c) => "应用名含非法字符："@ + debug_char(c),
        }
    }

    /// The error message, as the `Display` form shows it.
    pub fn message(&self) -> (r: String)
        ensures
            r@ == self.message_spec(),
    {
        match self {
            ConfigError::EmptyName => owned("应用名不能为空"),
            ConfigError::InvalidNameChar(c) => {
                let mut r = owned("应用名含非法字符：");
                let d = debug_char_string(*c);
                r.push_str(d.as_str());
                r
            },
        }
    }
}

/// The registry key, under the current user's hive, whose values start
/// programs at log-in.
pub const AUTOSTART_REG_PATH: &'static str = "Software\\Microsoft\\Windows\\CurrentVersion\\Run";

/// The characters that a registry value or a file name cannot hold.
pub open spec fn forbidden(c: char) -> bool {
    c == '\\' || c == '/' || c == ':' || c == '*' || c == '?' || c == '"' || c == '<' || c == '>'
        || c == '|'
}

/// The first forbidden character of `s`, if any.
pub open spec fn first_forbidden(s: Seq<char>) -> Option<char>
    decreases s.len(),
{
    if s.len() == 0 {
        None
    } else if forbidden(s[0]) {
        Some(s[0])
    } else {
        first_forbidden(s.drop_first())
    }
}

/// The outcome of validating a name.
pub open spec fn validate_spec(name: Seq<char>) -> Result<(), ConfigError> {
    if all_ws(name) {
        Err(ConfigError::EmptyName)
    } else {
        match first_forbidden(name) {
            Some(c) => Err(ConfigError::InvalidNameChar(c)),
            None => Ok(()),
        }
    }
}

fn is_forbidden(c: char) -> (b: bool)
    ensures
        b == forbidden(c),
{
    c == '\\' || c == '/' || c == ':' || c == '*' || c == '?' || c == '"' || c == '<' || c == '>'
        || c == '|'
}

fn find_forbidden(s: &str) -> (r: Option<char>)
    ensures
        r == first_forbidden(s@),
{
    let v = crate::text::chars_of(s);
    let mut i: usize = v.len();
    let mut r: Option<char> = None;
    // Scan from the back, so that the last assignment is the first hit.
    while i > 0
        invariant
            i <= v.len(),
            v@ == s@,
            r == first_forbidden(v@.subrange(i as int, v.len() as int)),
        decreases i,
    {
        i -= 1;
        proof {
            let t = v@.subrange(i as int, v.len() as int);
            assert(t.drop_first() =~= v@.subrange(i + 1, v.len() as int));
            assert(t[0] == v@[i as int]);
        }
        if is_forbidden(v[i]) {
            r = Some(v[i]);
        }
    }
    assert(v@.subrange(0, v.len() as int) =~= v@);
    r
}

impl AppConfig {
    /// Default settings for the named application.
    pub fn new(app_name: &str) -> (c: Self)
        ensures
            c.app_name@ == app_name@,
            !c.autostart,
            c.start_minimized,
            c.theme == Theme::System,
    {
        AppConfig { app_name: owned(app_name), autostart: false, start_minimized: true, theme: Theme::System }
    }

    /// Refuses a blank name, then a name with a character that registry and
    /// path names cannot hold (the first such character is reported).
    pub fn validate(&self) -> (r: Result<(), ConfigError>)
        ensures
            r == validate_spec(self.app_name@),
    {
        if is_blank(self.app_name.as_str()) {
            return Err(ConfigError::EmptyName);
        }
        match find_forbidden(self.app_name.as_str()) {
            Some(c) => Err(ConfigError::InvalidNameChar(c)),
            None => Ok(()),
        }
    }

    /// The autostart value name, which is the application name.
    pub fn autostart_value_name(&self) -> (r: &str)
        ensures
            r@ == self.app_name@,
    {
        self.app_name.as_str()
    }
}

// ───────────────────────── registry string data ─────────────────────────

/// The UTF-16 code units of one character.
pub open spec fn utf16_units(c: char) -> Seq<u16> {
    let v = c as u32;
    if v < 0x10000 {
        seq![v as u16]
    } else {
        let w = (v - 0x10000) as u32;
        seq![(0xD800 + w / 0x400) as u16, (0xDC00 + w % 0x400) as u16]
    }
}

/// The UTF-16 code units of a string.
pub open spec fn utf16(s: Seq<char>) -> Seq<u16>
    decreases s.len(),
{
    if s.len() == 0 {
        seq![]
    } else {
        utf16(s.drop_last()) + utf16_units(s.last())
    }
}

/// The little-endian bytes of code units.
pub open spec fn le_bytes(s: Seq<u16>) -> Seq<u8>
    decreases s.len(),
{
    if s.len() == 0 {
        seq![]
    } else {
        le_bytes(s.drop_last()) + seq![(s.last() % 256) as u8, (s.last() / 256) as u8]
    }
}

fn push_unit(out: &mut Vec<u8>, u: u16)
    ensures
        final(out)@ == old(out)@ + seq![(u % 256) as u8, (u / 256) as u8],
{
    out.push((u % 256) as u8);
    out.push((u / 256) as u8);
    assert(final(out)@ =~= old(out)@ + seq![(u % 256) as u8, (u / 256) as u8]);
}

/// The data of a `REG_SZ` registry value: the string in UTF-16 with a
/// terminating NUL unit, each unit as two little-endian bytes.
pub fn reg_sz_bytes(s: &str) -> (r: Vec<u8>)
    ensures
        r@ == le_bytes(utf16(s@).push(0u16)),
{
    let v = crate::text::chars_of(s);
    let mut out: Vec<u8> = Vec::new();
    let ghost mut units: Seq<u16> = seq![];
    let mut i: usize = 0;
    while i < v.len()
        invariant
            i <= v.len(),
            v@ == s@,
            units == utf16(v@.subrange(0, i as int)),
            out@ == le_bytes(units),
        decreases v.len() - i,
    {
        let c = v[i];
        let x = c as u32;
        proof {
            assert(v@.subrange(0, i + 1).drop_last() =~= v@.subrange(0, i as int));
        }
        if x < 0x10000 {
            let u = x as u16;
            push_unit(&mut out, u);
            proof {
                assert(le_bytes(units.push(u)).drop_last().drop_last() =~= le_bytes(units)) by {
                    assert(units.push(u).drop_last() =~= units);
                }
                assert(le_bytes(units.push(u)) =~= le_bytes(units) + seq![(u % 256) as u8, (u / 256) as u8]) by {
                    assert(units.push(u).drop_last() =~= units);
                }
                units = units.push(u);
                assert(utf16_units(c) =~= seq![u]);
            }
        } else {
            let w = x - 0x10000;
            let hi = (0xD800 + w / 0x400) as u16;
            let lo = (0xDC00 + w % 0x400) as u16;
            push_unit(&mut out, hi);
            push_unit(&mut out, lo);
            proof {
                assert(units.push(hi).drop_last() =~= units);
                assert(units.push(hi).push(lo).drop_last() =~= units.push(hi));
                assert(le_bytes(units.push(hi)) =~= le_bytes(units) + seq![(hi % 256) as u8, (hi / 256) as u8]);
                assert(le_bytes(units.push(hi).push(lo)) =~= le_bytes(units.push(hi)) + seq![(lo % 256) as u8, (lo / 256) as u8]);
                assert(utf16_units(c) =~= seq![hi, lo]);
                assert(units + seq![hi, lo] =~= units.push(hi).push(lo));
                units = units.push(hi).push(lo);
            }
        }
        i += 1;
        proof {
            assert(units == utf16(v@.subrange(0, i as int)));
        }
    }
    push_unit(&mut out, 0u16);
    proof {
        assert(v@.subrange(0, v.len() as int) =~= v@);
        assert(units.push(0u16).drop_last() =~= units);
        assert(le_bytes(units.push(0u16)) =~= le_bytes(units) + seq![(0u16 % 256) as u8, (0u16 / 256) as u8]);
    }
    out
}

/// The page a webview shows the menu in: a fixed HTML shell with a heading,
/// and the menu's list inside the body.
pub fn page(menu: &TrayMenu) -> (r: String)
    ensures
        r@ == "<!doctype html><html><head><meta charset=\"utf-8\"><style>body{font-family:Segoe UI,sans-serif;padding:16px}.menu{list-style:none;padding:0}.sep hr{border:0;border-top:1px solid #ccc}.disabled{color:#aaa}</style></head><body><h3>托盘菜单预览</h3>"@
            + menu_html(menu@) + "</body></html>"@,
{
    let mut r = crate::text::lit(
        "<!doctype html><html><head><meta charset=\"utf-8\"><style>body{font-family:Segoe UI,sans-serif;padding:16px}.menu{list-style:none;padding:0}.sep hr{border:0;border-top:1px solid #ccc}.disabled{color:#aaa}</style></head><body><h3>托盘菜单预览</h3>",
    );
    let body = menu.to_html();
    r.push_str(body.as_str());
    r.push_str("</body></html>");
    r
}

} // verus!
