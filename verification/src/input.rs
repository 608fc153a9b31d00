//! Key bindings: what a key press means in each mode, and what it does to
//! the state. Reading keys, telling the time and sending calls are the
//! host's; it hands every key press here and carries out what comes back.

use crate::client::RemoteCall;
use crate::dispatch::{invoke_sdk_method, resolved, resolved_view, Resolved};
use crate::document::{object_view, Document, DocumentView};
use crate::error::ApiError;
use crate::extract::{extract_json_value, extracted};
use crate::format::{format_one_error, friendly_error};
use crate::navigation::{
    clamped, drill_target, drilled_down, drilled_up, executed, filter_fields, filter_view,
    resuggested, suggestion_advanced, suggestion_applied, suggestion_retreated, App,
    CommandOutcome, Drill, Mode, PendingAction,
};
use crate::registry::{entry, get_resource, ActionDef, ResourceConfig, SubResourceDef};
use crate::text::{
    chars_of, parse_i32, parsed_i32, push_char, slice_chars, str_eq, string_of,
};
use vstd::prelude::*;
use vstd::string::*;

verus! {

/// A key, as far as the bindings tell keys apart.
#[derive(Debug, Clone, Copy, PartialEq, Eq, Structural)]
pub enum Key {
    Char(char),
    Enter,
    Esc,
    Backspace,
    Tab,
    BackTab,
    Up,
    Down,
    Left,
    Right,
    PageUp,
    PageDown,
    /// Any other key.
    Other,
}

/// What the host is to do after a key press.
#[derive(Debug)]
pub enum Action {
    Nothing,
    /// Stop the client.
    Quit,
    /// Fetch the items of the resource on show.
    Fetch,
    /// Send this call, then report how it went.
    Send(RemoteCall),
}

/// What a key press came to.
#[derive(Debug)]
pub struct KeyOutcome {
    pub action: Action,
    /// The key was a first `g`: a second one that follows soon goes to the
    /// top.
    pub await_g: bool,
    /// The key is filter input as well, to be taken in once the action is
    /// carried out.
    pub filter_after: bool,
}

/// The text without its last character.
pub open spec fn without_last(text: Seq<char>) -> Seq<char> {
    if text.len() == 0 {
        text
    } else {
        text.drop_last()
    }
}

/// Removes the last character of a text, if it has one.
pub fn pop_char(text: &mut String)
    ensures
        final(text)@ == without_last(old(text)@),
{
    let chars = chars_of(text.as_str());
    if chars.len() > 0 {
        let shorter = slice_chars(&chars, 0, chars.len() - 1);
        assert(shorter@ =~= chars@.drop_last());
        *text = string_of(&shorter);
    }
}

/// What a key does to the filter while the filter takes input.
pub open spec fn filter_input_effect(
    before: App,
    after: App,
    registry: ResourceConfig,
    key: Key,
) -> bool {
    match key {
        Key::Char(c) => typed_filter(before, after, registry, before.filter_text@.push(c)),
        Key::Backspace => typed_filter(before, after, registry, without_last(before.filter_text@)),
        Key::Enter => after == (App { filter_active: false, ..before }),
        _ => after == before,
    }
}

/// The state after the filter text was changed by a key: the view is
/// computed anew.
pub open spec fn typed_filter(
    before: App,
    after: App,
    registry: ResourceConfig,
    text: Seq<char>,
) -> bool {
    &&& after.filter_text@ == text
    &&& crate::document::items_view(after.filtered_items@) == filter_view(
        crate::document::items_view(before.items@),
        text,
        filter_fields(registry, before.current_resource_key@),
    )
    &&& after.selected == clamped(before.selected, after.filtered_items@.len())
    &&& after == (App {
        filter_text: after.filter_text,
        filtered_items: after.filtered_items,
        selected: after.selected,
        ..before
    })
}

/// Takes a key in as filter input: a character joins the filter text,
/// backspace removes its last character, enter ends the input. The host
/// calls this for a key that was marked as filter input, after the action
/// of that key is carried out, if the filter is still taking input.
pub fn filter_input(app: &mut App, registry: &ResourceConfig, key: Key)
    ensures
        filter_input_effect(*old(app), *final(app), *registry, key),
{
    match key {
        Key::Char(c) => {
            push_char(&mut app.filter_text, c);
            app.apply_filter(registry);
        },
        Key::Backspace => {
            pop_char(&mut app.filter_text);
            app.apply_filter(registry);
        },
        Key::Enter => {
            app.filter_active = false;
        },
        _ => {},
    }
}

/// What a key asks for in the list.
#[derive(Debug, Clone, Copy, PartialEq, Eq, Structural)]
pub enum Intent {
    /// The key is bound to nothing.
    Unbound,
    Quit,
    /// A second `g` soon after the first.
    GoToTop,
    /// A first `g`.
    AwaitG,
    Next,
    Previous,
    GoToBottom,
    PageDown,
    PageUp,
    StartFilter,
    ClearFilter,
    Describe,
    CommandMode,
    Help,
    Refresh,
    Back,
    /// An action is bound to the key but the client is read-only.
    Warn,
    /// The action at this position of the resource's actions.
    Act(usize),
    /// The sub-resource at this position of the resource's links.
    Drill(usize),
}

/// The text of a shortcut that is one character.
pub open spec fn one_char(c: char) -> Seq<char> {
    seq![c]
}

/// The position of the first action with the given shortcut, from `from`
/// on, or the number of actions where there is none.
pub open spec fn action_with(actions: Seq<ActionDef>, from: int, shortcut: Seq<char>) -> int
    decreases actions.len() - from,
{
    if from < 0 || from >= actions.len() {
        actions.len() as int
    } else if actions[from].shortcut matches Some(s) && s@ == shortcut {
        from
    } else {
        action_with(actions, from + 1, shortcut)
    }
}

/// The position of the first link with the given shortcut, from `from` on,
/// or the number of links where there is none.
pub open spec fn link_with(subs: Seq<SubResourceDef>, from: int, shortcut: Seq<char>) -> int
    decreases subs.len() - from,
{
    if from < 0 || from >= subs.len() {
        subs.len() as int
    } else if subs[from].shortcut@ == shortcut {
        from
    } else {
        link_with(subs, from + 1, shortcut)
    }
}

/// What a character that has no binding of its own asks for: the first
/// sub-resource under that shortcut, where an item is selected; else the
/// first action under it, which a read-only client refuses unless it only
/// reads.
pub open spec fn shortcut_intent(app: App, registry: ResourceConfig, c: char) -> Intent {
    match entry(registry.resources@, app.current_resource_key@) {
        None => Intent::Unbound,
        Some(resource) => {
            let link = link_with(resource.sub_resources@, 0, one_char(c));
            let action = action_with(resource.actions@, 0, one_char(c));
            if link < resource.sub_resources@.len() && app.selected < app.filtered_items@.len() {
                Intent::Drill(link as usize)
            } else if action < resource.actions@.len() {
                if app.readonly && resource.actions@[action].sdk_method@ != "get"@ {
                    Intent::Warn
                } else {
                    Intent::Act(action as usize)
                }
            } else {
                Intent::Unbound
            }
        },
    }
}

/// What control and `d` ask for: the first action under the shortcut
/// `ctrl+d`, which a read-only client refuses.
pub open spec fn control_d_intent(app: App, registry: ResourceConfig) -> Intent {
    match entry(registry.resources@, app.current_resource_key@) {
        None => Intent::Unbound,
        Some(resource) => {
            let action = action_with(resource.actions@, 0, "ctrl+d"@);
            if action < resource.actions@.len() {
                if app.readonly {
                    Intent::Warn
                } else {
                    Intent::Act(action as usize)
                }
            } else {
                Intent::Unbound
            }
        },
    }
}

/// The bindings of the list.
pub open spec fn normal_intent(
    app: App,
    registry: ResourceConfig,
    key: Key,
    control: bool,
    double_g: bool,
) -> Intent {
    match key {
        Key::Char(c) => if c == 'g' {
            if double_g {
                Intent::GoToTop
            } else {
                Intent::AwaitG
            }
        } else if c == 'q' {
            Intent::Quit
        } else if c == 'j' {
            Intent::Next
        } else if c == 'k' {
            Intent::Previous
        } else if c == 'G' {
            Intent::GoToBottom
        } else if c == 'f' && control {
            Intent::PageDown
        } else if c == 'b' && control {
            Intent::PageUp
        } else if c == '/' {
            Intent::StartFilter
        } else if c == 'd' && control && !(control_d_intent(app, registry) is Unbound) {
            control_d_intent(app, registry)
        } else if c == 'd' && !control {
            Intent::Describe
        } else if c == 'd' {
            Intent::Unbound
        } else if c == ':' {
            Intent::CommandMode
        } else if c == '?' {
            Intent::Help
        } else if c == 'R' {
            Intent::Refresh
        } else if c == 'b' {
            Intent::Back
        } else {
            shortcut_intent(app, registry, c)
        },
        Key::Down => Intent::Next,
        Key::Up => Intent::Previous,
        Key::PageDown => if control {
            Intent::PageDown
        } else {
            Intent::Unbound
        },
        Key::PageUp => if control {
            Intent::PageUp
        } else {
            Intent::Unbound
        },
        Key::Esc => if app.filter_active {
            Intent::ClearFilter
        } else {
            Intent::Unbound
        },
        Key::Enter => Intent::Describe,
        Key::Backspace => Intent::Back,
        _ => Intent::Unbound,
    }
}

impl Intent {
    /// Whether the key is done with once the intent is carried out: it is
    /// no filter input then.
    pub open spec fn ends_key(self) -> bool {
        self is Quit || self is GoToTop || self is AwaitG || self is Warn || self is Act
            || self is Drill
    }
}

/// The position of the first action with a shortcut.
fn find_action(actions: &Vec<ActionDef>, shortcut: &str) -> (at: usize)
    ensures
        at == action_with(actions@, 0, shortcut@),
        at <= actions@.len(),
{
    let mut at: usize = 0;
    while at < actions.len()
        invariant
            at <= actions@.len(),
            action_with(actions@, at as int, shortcut@) == action_with(actions@, 0, shortcut@),
        decreases actions@.len() - at,
    {
        match &actions[at].shortcut {
            Some(s) => {
                if str_eq(s.as_str(), shortcut) {
                    return at;
                }
            },
            None => {},
        }
        at += 1;
    }
    at
}

/// The position of the first link with a shortcut.
fn find_link(subs: &Vec<SubResourceDef>, shortcut: &str) -> (at: usize)
    ensures
        at == link_with(subs@, 0, shortcut@),
        at <= subs@.len(),
{
    let mut at: usize = 0;
    while at < subs.len()
        invariant
            at <= subs@.len(),
            link_with(subs@, at as int, shortcut@) == link_with(subs@, 0, shortcut@),
        decreases subs@.len() - at,
    {
        if str_eq(subs[at].shortcut.as_str(), shortcut) {
            return at;
        }
        at += 1;
    }
    at
}

fn shortcut_for(app: &App, registry: &ResourceConfig, c: char) -> (intent: Intent)
    ensures
        intent == shortcut_intent(*app, *registry, c),
{
    match get_resource(registry, app.current_resource_key.as_str()) {
        None => Intent::Unbound,
        Some(resource) => {
            let mut one: Vec<char> = Vec::new();
            one.push(c);
            assert(one@ =~= one_char(c));
            let shortcut = string_of(&one);
            let link = find_link(&resource.sub_resources, shortcut.as_str());
            if link < resource.sub_resources.len() && app.selected < app.filtered_items.len() {
                return Intent::Drill(link);
            }
            let action = find_action(&resource.actions, shortcut.as_str());
            if action < resource.actions.len() {
                if app.readonly && !str_eq(resource.actions[action].sdk_method.as_str(), "get") {
                    Intent::Warn
                } else {
                    Intent::Act(action)
                }
            } else {
                Intent::Unbound
            }
        },
    }
}

fn control_d_for(app: &App, registry: &ResourceConfig) -> (intent: Intent)
    ensures
        intent == control_d_intent(*app, *registry),
{
    match get_resource(registry, app.current_resource_key.as_str()) {
        None => Intent::Unbound,
        Some(resource) => {
            let action = find_action(&resource.actions, "ctrl+d");
            if action < resource.actions.len() {
                if app.readonly {
                    Intent::Warn
                } else {
                    Intent::Act(action)
                }
            } else {
                Intent::Unbound
            }
        },
    }
}

/// What a key asks for in the list.
pub fn intent_of(
    app: &App,
    registry: &ResourceConfig,
    key: Key,
    control: bool,
    double_g: bool,
) -> (intent: Intent)
    ensures
        intent == normal_intent(*app, *registry, key, control, double_g),
{
    match key {
        Key::Char(c) => {
            if c == 'g' {
                if double_g {
                    Intent::GoToTop
                } else {
                    Intent::AwaitG
                }
            } else if c == 'q' {
                Intent::Quit
            } else if c == 'j' {
                Intent::Next
            } else if c == 'k' {
                Intent::Previous
            } else if c == 'G' {
                Intent::GoToBottom
            } else if c == 'f' && control {
                Intent::PageDown
            } else if c == 'b' && control {
                Intent::PageUp
            } else if c == '/' {
                Intent::StartFilter
            } else if c == 'd' && control {
                control_d_for(app, registry)
            } else if c == 'd' {
                Intent::Describe
            } else if c == ':' {
                Intent::CommandMode
            } else if c == '?' {
                Intent::Help
            } else if c == 'R' {
                Intent::Refresh
            } else if c == 'b' {
                Intent::Back
            } else {
                shortcut_for(app, registry, c)
            }
        },
        Key::Down => Intent::Next,
        Key::Up => Intent::Previous,
        Key::PageDown => if control {
            Intent::PageDown
        } else {
            Intent::Unbound
        },
        Key::PageUp => if control {
            Intent::PageUp
        } else {
            Intent::Unbound
        },
        Key::Esc => if app.filter_active {
            Intent::ClearFilter
        } else {
            Intent::Unbound
        },
        Key::Enter => Intent::Describe,
        Key::Backspace => Intent::Back,
        _ => Intent::Unbound,
    }
}

/// The message of the warning that a read-only client gives.
pub open spec fn read_only_warning() -> Seq<char> {
    "Read-only mode: actions are disabled"@
}

/// The state after the confirmation of an action was asked for: where an
/// item is selected and the action asks for confirmation, the action on
/// that item waits for it; else nothing has changed.
pub open spec fn asked(before: App, after: App, registry: ResourceConfig, index: int) -> bool {
    match entry(registry.resources@, before.current_resource_key@) {
        Some(resource) => if 0 <= index < resource.actions@.len() && before.selected
            < before.filtered_items@.len() && crate::navigation::asks_confirmation(
            before,
            registry,
            resource.actions@[index],
        ) {
            &&& after.pending_action matches Some(pending)
                && crate::navigation::is_pending(
                before,
                registry,
                resource.actions@[index],
                extracted(before.filtered_items@[before.selected as int]@, resource.id_field@),
                pending,
            )
            &&& after == (App {
                pending_action: after.pending_action,
                mode: Mode::Confirm,
                ..before
            })
        } else {
            after == before
        },
        None => after == before,
    }
}

/// What carrying out an intent does to the state, and what it leaves to
/// the host.
pub open spec fn carried_out(
    before: App,
    after: App,
    registry: ResourceConfig,
    intent: Intent,
    action: Action,
) -> bool {
    let count = before.filtered_items@.len();
    match intent {
        Intent::Unbound | Intent::AwaitG => action is Nothing && after == before,
        Intent::Quit => action is Quit && after == before,
        Intent::Refresh => action is Fetch && after == before,
        Intent::GoToTop => action is Nothing && after == (App { selected: 0, ..before }),
        Intent::Next => action is Nothing && after == (App {
            selected: if count == 0 {
                before.selected
            } else {
                crate::navigation::least(before.selected + 1, count - 1) as usize
            },
            ..before
        }),
        Intent::PageDown => action is Nothing && after == (App {
            selected: if count == 0 {
                before.selected
            } else {
                crate::navigation::least(before.selected + 10, count - 1) as usize
            },
            ..before
        }),
        Intent::Previous => action is Nothing && after == (App {
            selected: if before.selected >= 1 {
                (before.selected - 1) as usize
            } else {
                0
            },
            ..before
        }),
        Intent::PageUp => action is Nothing && after == (App {
            selected: if before.selected >= 10 {
                (before.selected - 10) as usize
            } else {
                0
            },
            ..before
        }),
        Intent::GoToBottom => action is Nothing && after == (App {
            selected: if count == 0 {
                before.selected
            } else {
                (count - 1) as usize
            },
            ..before
        }),
        Intent::StartFilter => action is Nothing && after == (App { filter_active: true, ..before }),
        Intent::ClearFilter => {
            &&& action is Nothing
            &&& after.filter_text@.len() == 0
            &&& crate::document::items_view(after.filtered_items@) == filter_view(
                crate::document::items_view(before.items@),
                Seq::empty(),
                filter_fields(registry, before.current_resource_key@),
            )
            &&& after.selected == clamped(before.selected, after.filtered_items@.len())
            &&& after == (App {
                filter_text: after.filter_text,
                filter_active: false,
                filtered_items: after.filtered_items,
                selected: after.selected,
                ..before
            })
        },
        Intent::Describe => {
            &&& action is Nothing
            &&& count == 0 ==> after == before
            &&& count > 0 ==> {
                &&& after == (App {
                    mode: Mode::Describe,
                    describe_scroll: 0,
                    describe_data: after.describe_data,
                    ..before
                })
                &&& before.selected < count ==> (after.describe_data matches Some(d) && d@
                    == before.filtered_items@[before.selected as int]@)
                &&& before.selected >= count ==> after.describe_data is None
            }
        },
        Intent::CommandMode => {
            &&& action is Nothing
            &&& after.command_text@.len() == 0
            &&& crate::navigation::is_key_list(after.command_suggestions@, registry)
            &&& after == (App {
                mode: Mode::Command,
                command_text: after.command_text,
                command_suggestions: after.command_suggestions,
                command_suggestion_selected: 0,
                command_preview: None,
                ..before
            })
        },
        Intent::Help => action is Nothing && after == (App { mode: Mode::Help, ..before }),
        Intent::Back => if before.parent_context is Some {
            action is Fetch && drilled_up(before, after)
        } else {
            action is Nothing && after == before
        },
        Intent::Warn => {
            &&& action is Nothing
            &&& after.warning_message matches Some(m) && m@ == read_only_warning()
            &&& after == (App {
                warning_message: after.warning_message,
                mode: Mode::Warning,
                ..before
            })
        },
        Intent::Act(index) => action is Nothing && asked(before, after, registry, index as int),
        Intent::Drill(index) => match entry(registry.resources@, before.current_resource_key@) {
            Some(resource) => if index < resource.sub_resources@.len() {
                match drill_target(
                    before,
                    registry,
                    resource.sub_resources@[index as int].resource_key@,
                ) {
                    Drill::Down(item, label) => action is Fetch && drilled_down(
                        before,
                        after,
                        resource.sub_resources@[index as int].resource_key@,
                        item,
                        label,
                    ),
                    _ => action is Nothing && after == before,
                }
            } else {
                action is Nothing && after == before
            },
            None => action is Nothing && after == before,
        },
    }
}

/// Asks for the confirmation of the action at a position of the actions
/// of the resource on show, on the selected item.
fn ask(app: &mut App, registry: &ResourceConfig, index: usize)
    ensures
        asked(*old(app), *final(app), *registry, index as int),
{
    let resource = match get_resource(registry, app.current_resource_key.as_str()) {
        Some(resource) => resource,
        None => {
            return;
        },
    };
    if index >= resource.actions.len() || app.selected >= app.filtered_items.len() {
        return;
    }
    let id = extract_json_value(&app.filtered_items[app.selected], resource.id_field.as_str());
    match app.create_pending_action(registry, &resource.actions[index], id.as_str()) {
        Some(pending) => {
            app.enter_confirm_mode(pending);
        },
        None => {},
    }
}

/// Carries out what a key asks for in the list.
pub fn carry_out(app: &mut App, registry: &ResourceConfig, intent: Intent) -> (action: Action)
    ensures
        carried_out(*old(app), *final(app), *registry, intent, action),
{
    match intent {
        Intent::Unbound | Intent::AwaitG => Action::Nothing,
        Intent::Quit => Action::Quit,
        Intent::Refresh => Action::Fetch,
        Intent::GoToTop => {
            app.go_to_top();
            Action::Nothing
        },
        Intent::Next => {
            app.next();
            Action::Nothing
        },
        Intent::Previous => {
            app.previous();
            Action::Nothing
        },
        Intent::GoToBottom => {
            app.go_to_bottom();
            Action::Nothing
        },
        Intent::PageDown => {
            app.page_down(10);
            Action::Nothing
        },
        Intent::PageUp => {
            app.page_up(10);
            Action::Nothing
        },
        Intent::StartFilter => {
            app.filter_active = true;
            Action::Nothing
        },
        Intent::ClearFilter => {
            app.clear_filter(registry);
            Action::Nothing
        },
        Intent::Describe => {
            app.enter_describe_mode();
            Action::Nothing
        },
        Intent::CommandMode => {
            app.enter_command_mode(registry);
            Action::Nothing
        },
        Intent::Help => {
            app.enter_help_mode();
            Action::Nothing
        },
        Intent::Back => {
            if app.navigate_back() {
                Action::Fetch
            } else {
                Action::Nothing
            }
        },
        Intent::Warn => {
            app.show_warning("Read-only mode: actions are disabled");
            Action::Nothing
        },
        Intent::Act(index) => {
            ask(app, registry, index);
            Action::Nothing
        },
        Intent::Drill(index) => {
            match get_resource(registry, app.current_resource_key.as_str()) {
                Some(resource) => {
                    if index < resource.sub_resources.len() {
                        if app.navigate_to_sub_resource(
                            registry,
                            resource.sub_resources[index].resource_key.as_str(),
                        ) {
                            Action::Fetch
                        } else {
                            Action::Nothing
                        }
                    } else {
                        Action::Nothing
                    }
                },
                None => Action::Nothing,
            }
        },
    }
}

/// The state after a key press in the list: what the key asks for is
/// carried out, and a key that is not done with then is filter input, if
/// the filter takes input and no fetch is due first.
pub open spec fn normal_effect(
    before: App,
    after: App,
    registry: ResourceConfig,
    key: Key,
    intent: Intent,
    outcome: KeyOutcome,
) -> bool {
    exists|between: App| #[trigger]
        carried_out(before, between, registry, intent, outcome.action) && if !intent.ends_key()
            && !(outcome.action is Fetch) && between.filter_active {
            filter_input_effect(between, after, registry, key) && !outcome.filter_after
        } else {
            after == between && outcome.filter_after == (!intent.ends_key()
                && between.filter_active)
        }
}

/// A key press in the list.
pub fn handle_normal_mode(
    app: &mut App,
    registry: &ResourceConfig,
    key: Key,
    control: bool,
    double_g: bool,
) -> (outcome: KeyOutcome)
    ensures
        outcome.await_g == (normal_intent(*old(app), *registry, key, control, double_g) is AwaitG),
        normal_effect(
            *old(app),
            *final(app),
            *registry,
            key,
            normal_intent(*old(app), *registry, key, control, double_g),
            outcome,
        ),
{
    let intent = intent_of(app, registry, key, control, double_g);
    let action = carry_out(app, registry, intent);
    let ghost between = *app;
    let ends = match intent {
        Intent::Quit | Intent::GoToTop | Intent::AwaitG | Intent::Warn | Intent::Act(_)
        | Intent::Drill(_) => true,
        _ => false,
    };
    let await_g = match intent {
        Intent::AwaitG => true,
        _ => false,
    };
    let fetch = match action {
        Action::Fetch => true,
        _ => false,
    };
    let mut filter_after = false;
    if !ends && app.filter_active {
        if fetch {
            filter_after = true;
        } else {
            filter_input(app, registry, key);
        }
    }
    let outcome = KeyOutcome { action, await_g, filter_after };
    assert(carried_out(*old(app), between, *registry, intent, outcome.action));
    outcome
}

/// The state after a key press on the command line.
pub open spec fn command_effect(
    before: App,
    after: App,
    registry: ResourceConfig,
    key: Key,
    action: Action,
) -> bool {
    match key {
        Key::Esc => action is Nothing && after == left(before),
        Key::Enter => exists|between: App, outcome: CommandOutcome| #[trigger]
            executed(before, between, registry, outcome) && after == left(between) && match outcome {
                CommandOutcome::Quit => action is Quit,
                CommandOutcome::Fetch => action is Fetch,
                CommandOutcome::Nothing => action is Nothing,
            },
        Key::Char(c) => action is Nothing && after.command_text@ == before.command_text@.push(c)
            && resuggested(App { command_text: after.command_text, ..before }, after, registry),
        Key::Backspace => action is Nothing && after.command_text@ == without_last(
            before.command_text@,
        ) && resuggested(App { command_text: after.command_text, ..before }, after, registry),
        Key::Tab | Key::Down => action is Nothing && suggestion_advanced(before, after),
        Key::BackTab | Key::Up => action is Nothing && suggestion_retreated(before, after),
        Key::Right => action is Nothing && suggestion_applied(before, after, registry),
        _ => action is Nothing && after == before,
    }
}

/// The state after a mode was left for the list.
pub open spec fn left(before: App) -> App {
    App { mode: Mode::Normal, pending_action: None, describe_data: None, ..before }
}

/// A key press on the command line.
pub fn handle_command_mode(app: &mut App, registry: &ResourceConfig, key: Key) -> (action: Action)
    ensures
        command_effect(*old(app), *final(app), *registry, key, action),
{
    match key {
        Key::Esc => {
            app.exit_mode();
            Action::Nothing
        },
        Key::Enter => {
            let outcome = app.execute_command(registry);
            let ghost between = *app;
            app.exit_mode();
            let action = match outcome {
                CommandOutcome::Quit => Action::Quit,
                CommandOutcome::Fetch => Action::Fetch,
                CommandOutcome::Nothing => Action::Nothing,
            };
            assert(executed(*old(app), between, *registry, outcome) && *app == left(between));
            action
        },
        Key::Char(c) => {
            push_char(&mut app.command_text, c);
            app.update_command_suggestions(registry);
            Action::Nothing
        },
        Key::Backspace => {
            pop_char(&mut app.command_text);
            app.update_command_suggestions(registry);
            Action::Nothing
        },
        Key::Tab | Key::Down => {
            app.next_suggestion();
            Action::Nothing
        },
        Key::BackTab | Key::Up => {
            app.prev_suggestion();
            Action::Nothing
        },
        Key::Right => {
            app.apply_suggestion(registry);
            Action::Nothing
        },
        _ => Action::Nothing,
    }
}

/// Whether a key closes the help overlay.
pub open spec fn closes_help(key: Key) -> bool {
    key == Key::Esc || key == Key::Enter || key == Key::Char('q') || key == Key::Char('?')
}

/// A key press in the help overlay.
pub fn handle_help_mode(app: &mut App, key: Key)
    ensures
        *final(app) == if closes_help(key) {
            left(*old(app))
        } else {
            *old(app)
        },
{
    match key {
        Key::Esc | Key::Enter => {
            app.exit_mode();
        },
        Key::Char(c) => {
            if c == 'q' || c == '?' {
                app.exit_mode();
            }
        },
        _ => {},
    }
}

/// Whether a key closes a warning.
pub open spec fn closes_warning(key: Key) -> bool {
    key == Key::Esc || key == Key::Enter || key == Key::Char('q')
}

/// A key press in a warning dialog.
pub fn handle_warning_mode(app: &mut App, key: Key)
    ensures
        *final(app) == if closes_warning(key) {
            App { warning_message: None, ..left(*old(app)) }
        } else {
            *old(app)
        },
{
    let closes = match key {
        Key::Esc | Key::Enter => true,
        Key::Char(c) => c == 'q',
        _ => false,
    };
    if closes {
        app.warning_message = None;
        app.exit_mode();
    }
}

/// How far a key scrolls the details: down for a positive number.
pub open spec fn scrolled(scroll: usize, key: Key, control: bool, lines: usize) -> int {
    match key {
        Key::Char(c) => if c == 'j' {
            scroll + 1
        } else if c == 'k' {
            scroll - 1
        } else if c == 'g' {
            0
        } else if c == 'G' {
            lines - 20
        } else if c == 'f' && control {
            scroll + 20
        } else if c == 'b' && control {
            scroll - 20
        } else {
            scroll as int
        },
        Key::Down => scroll + 1,
        Key::Up => scroll - 1,
        Key::PageDown => if control {
            scroll + 20
        } else {
            scroll as int
        },
        Key::PageUp => if control {
            scroll - 20
        } else {
            scroll as int
        },
        _ => scroll as int,
    }
}

/// A number brought into the range of a `usize`.
pub open spec fn saturated(n: int) -> usize {
    if n < 0 {
        0
    } else if n > usize::MAX {
        usize::MAX
    } else {
        n as usize
    }
}

/// Whether a key closes the details.
pub open spec fn closes_details(key: Key) -> bool {
    key == Key::Esc || key == Key::Char('q') || key == Key::Char('d')
}

/// A key press in the details of an item, which take `lines` lines. The
/// details scroll by one line, by twenty, to the top or to the bottom.
pub fn handle_describe_mode(app: &mut App, key: Key, control: bool, lines: usize)
    ensures
        *final(app) == if closes_details(key) {
            left(*old(app))
        } else {
            App {
                describe_scroll: saturated(scrolled(old(app).describe_scroll, key, control, lines)),
                ..*old(app)
            }
        },
{
    let scroll = app.describe_scroll;
    let down_one = scroll.saturating_add(1);
    let up_one = scroll.saturating_sub(1);
    let down_page = scroll.saturating_add(20);
    let up_page = scroll.saturating_sub(20);
    match key {
        Key::Esc => {
            app.exit_mode();
        },
        Key::Char(c) => {
            if c == 'q' || c == 'd' {
                app.exit_mode();
            } else if c == 'j' {
                app.describe_scroll = down_one;
            } else if c == 'k' {
                app.describe_scroll = up_one;
            } else if c == 'g' {
                app.describe_scroll = 0;
            } else if c == 'G' {
                app.describe_scroll_to_bottom(lines, 20);
            } else if c == 'f' && control {
                app.describe_scroll = down_page;
            } else if c == 'b' && control {
                app.describe_scroll = up_page;
            }
        },
        Key::Down => {
            app.describe_scroll = down_one;
        },
        Key::Up => {
            app.describe_scroll = up_one;
        },
        Key::PageDown => {
            if control {
                app.describe_scroll = down_page;
            }
        },
        Key::PageUp => {
            if control {
                app.describe_scroll = up_page;
            }
        },
        _ => {},
    }
}

/// What a key asks for in a confirmation dialog.
#[derive(Debug, Clone, Copy, PartialEq, Eq, Structural)]
pub enum Answer {
    /// Leave the dialog without acting.
    Cancel,
    /// Move to the other button.
    Toggle,
    /// Act.
    Accept,
    /// Act if the yes button is selected, and leave the dialog.
    Choose,
    Unbound,
}

/// The bindings of the confirmation dialog.
pub open spec fn answer_of(key: Key) -> Answer {
    match key {
        Key::Esc => Answer::Cancel,
        Key::Left | Key::Right | Key::Tab => Answer::Toggle,
        Key::Enter => Answer::Choose,
        Key::Char(c) => if c == 'n' || c == 'N' {
            Answer::Cancel
        } else if c == 'y' || c == 'Y' {
            Answer::Accept
        } else {
            Answer::Unbound
        },
        _ => Answer::Unbound,
    }
}

/// The parameters of an action on a thing: its identifier as an integer
/// under `id`, zero where the identifier is no integer.
pub open spec fn action_params(resource_id: Seq<char>) -> DocumentView {
    DocumentView::Object(
        seq![
            (
                "id"@,
                DocumentView::Int(
                    match parsed_i32(resource_id) {
                        Some(id) => id as i64,
                        None => 0i64,
                    },
                ),
            ),
        ],
    )
}

/// What the action that waits for confirmation resolves to.
pub open spec fn pending_call(pending: PendingAction) -> Resolved {
    resolved(pending.service@, pending.sdk_method@, action_params(pending.resource_id@))
}

/// The state after the pending action was started, with what is left to
/// the host: nothing where no action waits; the call to send, with the
/// state marked as loading; or, where the action resolves to no call, the
/// error recorded.
pub open spec fn started(before: App, after: App, action: Action) -> bool {
    match before.pending_action {
        None => action is Nothing && after == before,
        Some(pending) => match pending_call(pending) {
            Resolved::Call(method, params) => {
                &&& action matches Action::Send(call) && call.is(method, params)
                &&& after == (App { pending_action: None, loading: true, ..before })
            },
            other => {
                &&& action is Nothing
                &&& exists|error: ApiError| #[trigger]
                    resolved_view(Err::<RemoteCall, ApiError>(error)) == Some(other) && (
                    after.error_message matches Some(m) && m@ == friendly_error(
                        error.message_text(),
                    ))
                &&& after == (App {
                    pending_action: None,
                    loading: false,
                    error_message: after.error_message,
                    ..before
                })
            },
        },
    }
}

/// Starts the action that waits for confirmation.
pub fn start_action(app: &mut App) -> (action: Action)
    ensures
        started(*old(app), *final(app), action),
{
    let pending = match app.pending_action.take() {
        Some(pending) => pending,
        None => {
            return Action::Nothing;
        },
    };
    let id: i32 = match parse_i32(&chars_of(pending.resource_id.as_str())) {
        Some(id) => id,
        None => 0,
    };
    let mut members: Vec<(String, Document)> = Vec::new();
    members.push((String::from_str("id"), Document::Int(id as i64)));
    proof {
        crate::document::lemma_object_view(members);
        assert(object_view(members@) =~= action_params(pending.resource_id@)->Object_0);
    }
    let params = Document::Object(members);
    match invoke_sdk_method(pending.service.as_str(), pending.sdk_method.as_str(), &params) {
        Ok(call) => {
            app.loading = true;
            Action::Send(call)
        },
        Err(error) => {
            app.error_message = Some(format_one_error(error.message().as_str()));
            app.loading = false;
            assert(resolved_view(Err::<RemoteCall, ApiError>(error)) == Some(
                pending_call(pending),
            ));
            Action::Nothing
        },
    }
}

/// Takes in how the call of an action went. After a call that went well a
/// fetch is due; one that failed leaves its message for the user.
pub fn finish_action(app: &mut App, outcome: Result<(), ApiError>) -> (fetch: bool)
    ensures
        fetch == (outcome is Ok),
        outcome is Ok ==> *final(app) == *old(app),
        outcome matches Err(error) ==> {
            &&& final(app).error_message matches Some(m) && m@ == friendly_error(
                error.message_text(),
            )
            &&& *final(app) == (App {
                error_message: final(app).error_message,
                loading: false,
                ..*old(app)
            })
        },
{
    match outcome {
        Ok(_) => true,
        Err(error) => {
            app.error_message = Some(format_one_error(error.message().as_str()));
            app.loading = false;
            false
        },
    }
}

/// The state after a key press in a confirmation dialog.
pub open spec fn confirm_effect(before: App, after: App, key: Key, action: Action) -> bool {
    match answer_of(key) {
        Answer::Cancel => action is Nothing && after == left(before),
        Answer::Toggle => action is Nothing && match before.pending_action {
            Some(pending) => after == (App {
                pending_action: Some(
                    PendingAction { selected_yes: !pending.selected_yes, ..pending },
                ),
                ..before
            }),
            None => after == before,
        },
        Answer::Accept => exists|between: App| #[trigger]
            started(before, between, action) && after == left(between),
        Answer::Choose => if before.pending_action matches Some(pending) && pending.selected_yes {
            exists|between: App| #[trigger]
                started(before, between, action) && after == left(between)
        } else {
            action is Nothing && after == left(before)
        },
        Answer::Unbound => action is Nothing && after == before,
    }
}

fn answer_for(key: Key) -> (answer: Answer)
    ensures
        answer == answer_of(key),
{
    match key {
        Key::Esc => Answer::Cancel,
        Key::Left | Key::Right | Key::Tab => Answer::Toggle,
        Key::Enter => Answer::Choose,
        Key::Char(c) => if c == 'n' || c == 'N' {
            Answer::Cancel
        } else if c == 'y' || c == 'Y' {
            Answer::Accept
        } else {
            Answer::Unbound
        },
        _ => Answer::Unbound,
    }
}

/// A key press in a confirmation dialog.
pub fn handle_confirm_mode(app: &mut App, key: Key) -> (action: Action)
    ensures
        confirm_effect(*old(app), *final(app), key, action),
{
    match answer_for(key) {
        Answer::Cancel => {
            app.exit_mode();
            Action::Nothing
        },
        Answer::Toggle => {
            match app.pending_action.take() {
                Some(pending) => {
                    let mut pending = pending;
                    pending.selected_yes = !pending.selected_yes;
                    app.pending_action = Some(pending);
                },
                None => {},
            }
            Action::Nothing
        },
        Answer::Accept => {
            let action = start_action(app);
            let ghost between = *app;
            app.exit_mode();
            assert(started(*old(app), between, action) && *app == left(between));
            action
        },
        Answer::Choose => {
            let chosen = match &app.pending_action {
                Some(pending) => pending.selected_yes,
                None => false,
            };
            if chosen {
                let action = start_action(app);
                let ghost between = *app;
                app.exit_mode();
                assert(started(*old(app), between, action) && *app == left(between));
                action
            } else {
                app.exit_mode();
                Action::Nothing
            }
        },
        Answer::Unbound => Action::Nothing,
    }
}

/// What the host knows when a key is pressed.
#[derive(Debug, Clone, Copy)]
pub struct KeyContext {
    /// Whether the control key is held.
    pub control: bool,
    /// Whether the key before was a first `g`, pressed less than half a
    /// second ago.
    pub double_g: bool,
    /// The number of lines that the details on show take.
    pub describe_lines: usize,
}

/// The state after a key press, in the mode in which the client is.
/// Control and `c` stops the client in every mode.
pub open spec fn key_effect(
    before: App,
    after: App,
    registry: ResourceConfig,
    key: Key,
    context: KeyContext,
    outcome: KeyOutcome,
) -> bool {
    if key == Key::Char('c') && context.control {
        outcome.action is Quit && !outcome.await_g && !outcome.filter_after && after == before
    } else {
        match before.mode {
            Mode::Normal => {
                let intent = normal_intent(before, registry, key, context.control, context.double_g);
                outcome.await_g == (intent is AwaitG) && normal_effect(
                    before,
                    after,
                    registry,
                    key,
                    intent,
                    outcome,
                )
            },
            Mode::Command => !outcome.await_g && !outcome.filter_after && command_effect(
                before,
                after,
                registry,
                key,
                outcome.action,
            ),
            Mode::Help => outcome.action is Nothing && !outcome.await_g && !outcome.filter_after
                && after == if closes_help(key) {
                left(before)
            } else {
                before
            },
            Mode::Confirm => !outcome.await_g && !outcome.filter_after && confirm_effect(
                before,
                after,
                key,
                outcome.action,
            ),
            Mode::Warning => outcome.action is Nothing && !outcome.await_g
                && !outcome.filter_after && after == if closes_warning(key) {
                App { warning_message: None, ..left(before) }
            } else {
                before
            },
            Mode::Describe => outcome.action is Nothing && !outcome.await_g
                && !outcome.filter_after && after == if closes_details(key) {
                left(before)
            } else {
                App {
                    describe_scroll: saturated(
                        scrolled(before.describe_scroll, key, context.control, context.describe_lines),
                    ),
                    ..before
                }
            },
        }
    }
}

/// A key press: the bindings of the mode in which the client is decide
/// what it does to the state and what is left to the host.
pub fn handle_key(app: &mut App, registry: &ResourceConfig, key: Key, context: KeyContext) -> (outcome:
    KeyOutcome)
    ensures
        key_effect(*old(app), *final(app), *registry, key, context, outcome),
{
    let stop = match key {
        Key::Char(c) => c == 'c' && context.control,
        _ => false,
    };
    if stop {
        return KeyOutcome { action: Action::Quit, await_g: false, filter_after: false };
    }
    match app.mode {
        Mode::Normal => handle_normal_mode(app, registry, key, context.control, context.double_g),
        Mode::Command => KeyOutcome {
            action: handle_command_mode(app, registry, key),
            await_g: false,
            filter_after: false,
        },
        Mode::Help => {
            handle_help_mode(app, key);
            KeyOutcome { action: Action::Nothing, await_g: false, filter_after: false }
        },
        Mode::Confirm => KeyOutcome {
            action: handle_confirm_mode(app, key),
            await_g: false,
            filter_after: false,
        },
        Mode::Warning => {
            handle_warning_mode(app, key);
            KeyOutcome { action: Action::Nothing, await_g: false, filter_after: false }
        },
        Mode::Describe => {
            handle_describe_mode(app, key, context.control, context.describe_lines);
            KeyOutcome { action: Action::Nothing, await_g: false, filter_after: false }
        },
    }
}

} // verus!
