//! The navigation engine: the observable state of the client, and what
//! every navigation, filter and pagination step does to it. The engine
//! sends nothing itself: a step that needs fresh data says so, and the
//! answer is handed back to it.

use crate::client::RemoteCall;
use crate::dispatch::{invoke_sdk_method, resolved, resolved_view, Resolved};
use crate::document::{
    clone_items, items_view, lemma_object_view, object_view, set_member, with_member, Document,
    DocumentView, Members,
};
use crate::error::ApiError;
use crate::extract::{extract_items, extract_json_value, extracted, listed, missing, target};
use crate::registry::{
    confirm_policy, entry, get_all_resource_keys, get_resource, holds_key, lists_key,
    strictly_sorted, ActionDef, ResourceConfig, ResourceDef, ResourceFilter, SubResourceDef,
};
use crate::text::{
    chars_of, contains, first_word, has_substring, leading_word, lowercase, lowercased, str_eq,
};
use vstd::prelude::*;
use vstd::string::*;

verus! {

/// What the client is showing.
#[derive(Debug, Clone, Copy, PartialEq, Eq, Structural)]
pub enum Mode {
    /// The list of items.
    Normal,
    /// The command line.
    Command,
    /// The help overlay.
    Help,
    /// A confirmation dialog.
    Confirm,
    /// A warning dialog.
    Warning,
    /// The details of the selected item.
    Describe,
}

/// An action that waits for the user's confirmation.
#[derive(Debug, Clone)]
pub struct PendingAction {
    pub service: String,
    pub sdk_method: String,
    pub resource_id: String,
    pub message: String,
    pub default_no: bool,
    pub destructive: bool,
    pub selected_yes: bool,
}

/// One step of ancestry: the resource that was left and the item through
/// which it was left.
#[derive(Debug, Clone)]
pub struct ParentContext {
    pub resource_key: String,
    pub item: Document,
    pub display_name: String,
}

/// Where a paginated listing stands.
#[derive(Debug, Clone)]
pub struct PaginationState {
    pub next_token: Option<String>,
    pub token_stack: Vec<Option<String>>,
    pub current_page: usize,
    pub has_more: bool,
}

impl PaginationState {
    /// Whether this is the state before any page was fetched.
    pub open spec fn is_reset(self) -> bool {
        &&& self.next_token is None
        &&& self.token_stack@.len() == 0
        &&& self.current_page == 0
        &&& !self.has_more
    }
}

impl Default for PaginationState {
    fn default() -> (state: PaginationState)
        ensures
            state.is_reset(),
    {
        PaginationState {
            next_token: None,
            token_stack: Vec::new(),
            current_page: 0,
            has_more: false,
        }
    }
}

/// One page of items, with the token of the page after it.
#[derive(Debug)]
pub struct PaginatedResult {
    pub items: Vec<Document>,
    pub next_token: Option<String>,
}

/// The state of the client.
#[derive(Debug)]
pub struct App {
    /// The resource on show.
    pub current_resource_key: String,
    /// The items of the last fetch.
    pub items: Vec<Document>,
    /// The items that pass the filter.
    pub filtered_items: Vec<Document>,
    pub selected: usize,
    pub mode: Mode,
    pub filter_text: String,
    pub filter_active: bool,
    /// The immediate parent, where the resource on show was drilled into.
    pub parent_context: Option<ParentContext>,
    /// The ancestors above the immediate parent, outermost first.
    pub navigation_stack: Vec<ParentContext>,
    pub command_text: String,
    pub command_suggestions: Vec<String>,
    pub command_suggestion_selected: usize,
    pub command_preview: Option<String>,
    pub pending_action: Option<PendingAction>,
    pub loading: bool,
    pub error_message: Option<String>,
    pub describe_scroll: usize,
    pub describe_data: Option<Document>,
    pub readonly: bool,
    pub warning_message: Option<String>,
    pub pagination: PaginationState,
    pub endpoint: String,
    pub username: String,
}

/// The smaller of two numbers.
pub open spec fn least(a: int, b: int) -> int {
    if a <= b {
        a
    } else {
        b
    }
}

impl App {
    /// How deep the resource on show lies below the top level: the number
    /// of ancestors.
    pub open spec fn depth(self) -> nat {
        self.navigation_stack@.len() + if self.parent_context is Some {
            1nat
        } else {
            0nat
        }
    }

    /// The state after start-up: the virtual machines on show, with the
    /// items that were fetched for them.
    pub fn from_initialized(
        initial_items: Vec<Document>,
        endpoint: String,
        username: String,
        readonly: bool,
    ) -> (app: App)
        ensures
            app.current_resource_key@ == "one-vms"@,
            app.items == initial_items,
            items_view(app.filtered_items@) == items_view(initial_items@),
            app.selected == 0,
            app.mode == Mode::Normal,
            app.filter_text@.len() == 0,
            !app.filter_active,
            app.depth() == 0,
            app.command_text@.len() == 0,
            app.command_suggestions@.len() == 0,
            app.command_suggestion_selected == 0,
            app.command_preview is None,
            app.pending_action is None,
            !app.loading,
            app.error_message is None,
            app.describe_scroll == 0,
            app.describe_data is None,
            app.readonly == readonly,
            app.warning_message is None,
            app.pagination.is_reset(),
            app.endpoint == endpoint,
            app.username == username,
    {
        let filtered_items = clone_items(&initial_items);
        App {
            current_resource_key: String::from_str("one-vms"),
            items: initial_items,
            filtered_items,
            selected: 0,
            mode: Mode::Normal,
            filter_text: String::new(),
            filter_active: false,
            parent_context: None,
            navigation_stack: Vec::new(),
            command_text: String::new(),
            command_suggestions: Vec::new(),
            command_suggestion_selected: 0,
            command_preview: None,
            pending_action: None,
            loading: false,
            error_message: None,
            describe_scroll: 0,
            describe_data: None,
            readonly,
            warning_message: None,
            pagination: PaginationState::default(),
            endpoint,
            username,
        }
    }

    /// Whether the data should be fetched again by itself. It never is.
    pub fn needs_refresh(&self) -> (needed: bool)
        ensures
            !needed,
    {
        false
    }

    /// The definition of the resource on show.
    pub fn current_resource<'a>(&self, registry: &'a ResourceConfig) -> (found: Option<
        &'a ResourceDef,
    >)
        ensures
            match entry(registry.resources@, self.current_resource_key@) {
                Some(definition) => found matches Some(d) && *d == definition,
                None => found is None,
            },
    {
        get_resource(registry, self.current_resource_key.as_str())
    }

    /// The commands that the command line offers: the keys of all
    /// resources, sorted.
    pub fn get_available_commands(&self, registry: &ResourceConfig) -> (commands: Vec<String>)
        ensures
            strictly_sorted(commands@),
            forall|key: Seq<char>| #[trigger]
                lists_key(commands@, key) <==> holds_key(registry.resources@, key),
    {
        get_all_resource_keys(registry)
    }

    /// Forgets where the listing stood.
    pub fn reset_pagination(&mut self)
        ensures
            final(self).pagination.is_reset(),
            *final(self) == (App { pagination: final(self).pagination, ..*old(self) }),
    {
        self.pagination = PaginationState::default();
    }

    /// The item under the selection, if the view has one there.
    pub fn selected_item(&self) -> (item: Option<&Document>)
        ensures
            self.selected < self.filtered_items@.len() ==> item == Some(
                &self.filtered_items@[self.selected as int],
            ),
            self.selected >= self.filtered_items@.len() ==> item is None,
    {
        if self.selected < self.filtered_items.len() {
            Some(&self.filtered_items[self.selected])
        } else {
            None
        }
    }

    /// Scrolls the details so that their last line is the last one shown.
    pub fn describe_scroll_to_bottom(&mut self, total_lines: usize, visible_lines: usize)
        ensures
            final(self).describe_scroll == if total_lines >= visible_lines {
                total_lines - visible_lines
            } else {
                0
            },
            *final(self) == (App { describe_scroll: final(self).describe_scroll, ..*old(self) }),
    {
        self.describe_scroll = if total_lines >= visible_lines {
            total_lines - visible_lines
        } else {
            0
        };
    }

    /// Moves the selection down by `page_size`, but not below the last
    /// item of the view.
    pub fn page_down(&mut self, page_size: usize)
        ensures
            old(self).filtered_items@.len() == 0 ==> final(self).selected == old(self).selected,
            old(self).filtered_items@.len() > 0 ==> final(self).selected == least(
                old(self).selected + page_size,
                old(self).filtered_items@.len() - 1,
            ),
            *final(self) == (App { selected: final(self).selected, ..*old(self) }),
    {
        let count = self.filtered_items.len();
        if count > 0 {
            let last = count - 1;
            if self.selected >= last || page_size >= last - self.selected {
                self.selected = last;
            } else {
                self.selected = self.selected + page_size;
            }
        }
    }

    /// Moves the selection up by `page_size`, but not above the first item.
    pub fn page_up(&mut self, page_size: usize)
        ensures
            final(self).selected == if old(self).selected >= page_size {
                old(self).selected - page_size
            } else {
                0
            },
            *final(self) == (App { selected: final(self).selected, ..*old(self) }),
    {
        self.selected = if self.selected >= page_size {
            self.selected - page_size
        } else {
            0
        };
    }

    /// Moves the selection to the next item of the view, if there is one.
    pub fn next(&mut self)
        ensures
            old(self).filtered_items@.len() == 0 ==> final(self).selected == old(self).selected,
            old(self).filtered_items@.len() > 0 ==> final(self).selected == least(
                old(self).selected + 1,
                old(self).filtered_items@.len() - 1,
            ),
            *final(self) == (App { selected: final(self).selected, ..*old(self) }),
    {
        self.page_down(1);
    }

    /// Moves the selection to the item before, if there is one.
    pub fn previous(&mut self)
        ensures
            final(self).selected == if old(self).selected >= 1 {
                old(self).selected - 1
            } else {
                0
            },
            *final(self) == (App { selected: final(self).selected, ..*old(self) }),
    {
        self.page_up(1);
    }

    /// Moves the selection to the first item.
    pub fn go_to_top(&mut self)
        ensures
            *final(self) == (App { selected: 0, ..*old(self) }),
    {
        self.selected = 0;
    }

    /// Moves the selection to the last item of the view, if it has any.
    pub fn go_to_bottom(&mut self)
        ensures
            old(self).filtered_items@.len() == 0 ==> final(self).selected == old(self).selected,
            old(self).filtered_items@.len() > 0 ==> final(self).selected == old(
                self
            ).filtered_items@.len() - 1,
            *final(self) == (App { selected: final(self).selected, ..*old(self) }),
    {
        if self.filtered_items.len() > 0 {
            self.selected = self.filtered_items.len() - 1;
        }
    }

    /// Shows the help overlay.
    pub fn enter_help_mode(&mut self)
        ensures
            *final(self) == (App { mode: Mode::Help, ..*old(self) }),
    {
        self.mode = Mode::Help;
    }

    /// Asks for the confirmation of an action.
    pub fn enter_confirm_mode(&mut self, pending: PendingAction)
        ensures
            *final(self) == (App {
                pending_action: Some(pending),
                mode: Mode::Confirm,
                ..*old(self)
            }),
    {
        self.pending_action = Some(pending);
        self.mode = Mode::Confirm;
    }

    /// Shows a warning.
    pub fn show_warning(&mut self, message: &str)
        ensures
            final(self).warning_message matches Some(m) && m@ == message@,
            *final(self) == (App {
                warning_message: final(self).warning_message,
                mode: Mode::Warning,
                ..*old(self)
            }),
    {
        self.warning_message = Some(String::from_str(message));
        self.mode = Mode::Warning;
    }

    /// Goes back to the list: a pending action and the details on show are
    /// dropped.
    pub fn exit_mode(&mut self)
        ensures
            *final(self) == (App {
                mode: Mode::Normal,
                pending_action: None,
                describe_data: None,
                ..*old(self)
            }),
    {
        self.mode = Mode::Normal;
        self.pending_action = None;
        self.describe_data = None;
    }

    /// Shows the details of the selected item. Nothing happens where the
    /// view is empty.
    pub fn enter_describe_mode(&mut self)
        ensures
            old(self).filtered_items@.len() == 0 ==> *final(self) == *old(self),
            old(self).filtered_items@.len() > 0 ==> {
                &&& *final(self) == (App {
                    mode: Mode::Describe,
                    describe_scroll: 0,
                    describe_data: final(self).describe_data,
                    ..*old(self)
                })
                &&& old(self).selected < old(self).filtered_items@.len() ==> (final(
                    self
                ).describe_data matches Some(d) && d@ == old(self).filtered_items@[old(
                    self
                ).selected as int]@)
                &&& old(self).selected >= old(self).filtered_items@.len() ==> final(
                    self
                ).describe_data is None
            },
    {
        if self.filtered_items.len() == 0 {
            return;
        }
        self.mode = Mode::Describe;
        self.describe_scroll = 0;
        self.describe_data = None;
        if self.selected < self.filtered_items.len() {
            self.describe_data = Some(self.filtered_items[self.selected].clone());
        }
    }

    /// Starts the command line: all commands are suggested, none is
    /// previewed.
    pub fn enter_command_mode(&mut self, registry: &ResourceConfig)
        ensures
            final(self).command_text@.len() == 0,
            is_key_list(final(self).command_suggestions@, *registry),
            *final(self) == (App {
                mode: Mode::Command,
                command_text: final(self).command_text,
                command_suggestions: final(self).command_suggestions,
                command_suggestion_selected: 0,
                command_preview: None,
                ..*old(self)
            }),
    {
        self.mode = Mode::Command;
        self.command_text = String::new();
        self.command_suggestions = self.get_available_commands(registry);
        self.command_suggestion_selected = 0;
        self.command_preview = None;
    }

    /// Previews the selected suggestion, or nothing where there is none.
    fn update_preview(&mut self)
        ensures
            texts(final(self).command_suggestions@) == texts(old(self).command_suggestions@),
            final(self).command_suggestions@.len() == old(self).command_suggestions@.len(),
            previews(*final(self)),
            *final(self) == (App {
                command_preview: final(self).command_preview,
                ..*old(self)
            }),
    {
        if self.command_suggestion_selected < self.command_suggestions.len() {
            self.command_preview = Some(
                self.command_suggestions[self.command_suggestion_selected].clone(),
            );
        } else {
            self.command_preview = None;
        }
    }

    /// Suggests the commands that hold the lower-case form of the text on
    /// the command line, all of them where the line is empty; a selection
    /// beyond the suggestions goes back to the first.
    pub fn update_command_suggestions(&mut self, registry: &ResourceConfig)
        ensures
            resuggested(*old(self), *final(self), *registry),
    {
        let input = chars_of(lowercase(self.command_text.as_str()).as_str());
        let all = self.get_available_commands(registry);
        let ghost wanted = suggested(texts(all@), input@);
        if input.len() == 0 {
            self.command_suggestions = all;
        } else {
            let mut kept: Vec<String> = Vec::new();
            let mut i: usize = 0;
            assert(texts(kept@) =~= Seq::empty());
            while i < all.len()
                invariant
                    i <= all@.len(),
                    input@.len() > 0,
                    texts(kept@) == holding(texts(all@), i as nat, input@),
                decreases all@.len() - i,
            {
                let ghost before = texts(kept@);
                let command = chars_of(all[i].as_str());
                if contains(&command, &input) {
                    kept.push(all[i].clone());
                    assert(texts(kept@) =~= before.push(all@[i as int]@));
                }
                i += 1;
            }
            self.command_suggestions = kept;
        }
        assert(texts(self.command_suggestions@) == wanted);
        if self.command_suggestion_selected >= self.command_suggestions.len() {
            self.command_suggestion_selected = 0;
        }
        self.update_preview();
        assert(is_key_list(all@, *registry));
    }

    /// Selects the next suggestion, the first one after the last.
    pub fn next_suggestion(&mut self)
        ensures
            suggestion_advanced(*old(self), *final(self)),
    {
        let count = self.command_suggestions.len();
        if count > 0 {
            if self.command_suggestion_selected >= count - 1 {
                self.command_suggestion_selected = 0;
            } else {
                self.command_suggestion_selected = self.command_suggestion_selected + 1;
            }
            self.update_preview();
        }
    }

    /// Selects the suggestion before, the last one before the first.
    pub fn prev_suggestion(&mut self)
        ensures
            suggestion_retreated(*old(self), *final(self)),
    {
        let count = self.command_suggestions.len();
        if count > 0 {
            if self.command_suggestion_selected == 0 {
                self.command_suggestion_selected = count - 1;
            } else {
                self.command_suggestion_selected = self.command_suggestion_selected - 1;
            }
            self.update_preview();
        }
    }

    /// Takes the previewed suggestion over as the text on the command
    /// line and suggests anew. Nothing happens without a preview.
    pub fn apply_suggestion(&mut self, registry: &ResourceConfig)
        ensures
            suggestion_applied(*old(self), *final(self), *registry),
    {
        match &self.command_preview {
            Some(preview) => {
                self.command_text = preview.clone();
                self.update_command_suggestions(registry);
            },
            None => {},
        }
    }

    /// Computes the view anew: the items that pass the filter, in order.
    /// A selection beyond the view moves to its last item, or to the first
    /// place where the view is empty.
    pub fn apply_filter(&mut self, registry: &ResourceConfig)
        ensures
            items_view(final(self).filtered_items@) == filter_view(
                items_view(old(self).items@),
                old(self).filter_text@,
                filter_fields(*registry, old(self).current_resource_key@),
            ),
            final(self).selected == clamped(old(self).selected, final(self).filtered_items@.len()),
            *final(self) == (App {
                filtered_items: final(self).filtered_items,
                selected: final(self).selected,
                ..*old(self)
            }),
    {
        let needle = chars_of(lowercase(self.filter_text.as_str()).as_str());
        if needle.len() == 0 {
            self.filtered_items = clone_items(&self.items);
        } else {
            let mut kept: Vec<Document> = Vec::new();
            assert(items_view(kept@) =~= Seq::empty());
            match get_resource(registry, self.current_resource_key.as_str()) {
                Some(resource) => {
                    let mut i: usize = 0;
                    while i < self.items.len()
                        invariant
                            i <= self.items@.len(),
                            filter_fields(*registry, self.current_resource_key@) == Some(
                                (resource.name_field@, resource.id_field@),
                            ),
                            items_view(kept@) == passing(
                                items_view(self.items@),
                                i as nat,
                                filter_fields(*registry, self.current_resource_key@),
                                needle@,
                            ),
                        decreases self.items@.len() - i,
                    {
                        let ghost before = items_view(kept@);
                        let item = &self.items[i];
                        let name = chars_of(
                            lowercase(
                                extract_json_value(item, resource.name_field.as_str()).as_str(),
                            ).as_str(),
                        );
                        let id = chars_of(
                            lowercase(
                                extract_json_value(item, resource.id_field.as_str()).as_str(),
                            ).as_str(),
                        );
                        if contains(&name, &needle) || contains(&id, &needle) {
                            kept.push(item.clone());
                            assert(items_view(kept@) =~= before.push(item@));
                        }
                        i += 1;
                    }
                },
                None => {
                    proof {
                        lemma_nothing_passes(
                            items_view(self.items@),
                            self.items@.len(),
                            needle@,
                        );
                    }
                },
            }
            self.filtered_items = kept;
        }
        if self.selected >= self.filtered_items.len() {
            self.selected = if self.filtered_items.len() > 0 {
                self.filtered_items.len() - 1
            } else {
                0
            };
        }
    }

    /// Drops the filter and computes the view anew.
    pub fn clear_filter(&mut self, registry: &ResourceConfig)
        ensures
            final(self).filter_text@.len() == 0,
            items_view(final(self).filtered_items@) == filter_view(
                items_view(old(self).items@),
                Seq::empty(),
                filter_fields(*registry, old(self).current_resource_key@),
            ),
            final(self).selected == clamped(old(self).selected, final(self).filtered_items@.len()),
            *final(self) == (App {
                filter_text: final(self).filter_text,
                filter_active: false,
                filtered_items: final(self).filtered_items,
                selected: final(self).selected,
                ..*old(self)
            }),
    {
        self.filter_text = String::new();
        self.filter_active = false;
        self.apply_filter(registry);
    }

    /// Goes on to the next page, where there is one: the token to fetch
    /// with is remembered and returned. Nothing comes back where the
    /// listing has no further page.
    pub fn next_page(&mut self) -> (token: Option<Option<String>>)
        requires
            old(self).pagination.current_page < usize::MAX,
        ensures
            !old(self).pagination.has_more ==> token is None && *final(self) == *old(self),
            old(self).pagination.has_more ==> {
                &&& token == Some(old(self).pagination.next_token)
                &&& final(self).pagination.token_stack@ == old(self).pagination.token_stack@.push(
                    old(self).pagination.next_token,
                )
                &&& final(self).pagination.current_page == old(self).pagination.current_page + 1
                &&& final(self).pagination.next_token == old(self).pagination.next_token
                &&& final(self).pagination.has_more
                &&& *final(self) == (App { pagination: final(self).pagination, ..*old(self) })
            },
    {
        if !self.pagination.has_more {
            return None;
        }
        let current = self.pagination.next_token.clone();
        self.pagination.token_stack.push(current.clone());
        self.pagination.current_page = self.pagination.current_page + 1;
        Some(current)
    }

    /// Goes back to the page before, where there is one: its token is
    /// taken from the remembered ones and returned. Nothing comes back on
    /// the first page.
    pub fn prev_page(&mut self) -> (token: Option<Option<String>>)
        ensures
            old(self).pagination.current_page <= 1 ==> token is None && *final(self) == *old(
                self
            ),
            old(self).pagination.current_page > 1 ==> {
                let stack = old(self).pagination.token_stack@;
                &&& token == Some(
                    if stack.len() >= 2 {
                        stack[stack.len() - 2]
                    } else {
                        None
                    },
                )
                &&& final(self).pagination.token_stack@ == if stack.len() >= 2 {
                    stack.take(stack.len() - 2)
                } else {
                    Seq::empty()
                }
                &&& final(self).pagination.current_page == old(self).pagination.current_page - 1
                &&& final(self).pagination.next_token == old(self).pagination.next_token
                &&& final(self).pagination.has_more == old(self).pagination.has_more
                &&& *final(self) == (App { pagination: final(self).pagination, ..*old(self) })
            },
    {
        if self.pagination.current_page <= 1 {
            return None;
        }
        let _ = self.pagination.token_stack.pop();
        let previous = match self.pagination.token_stack.pop() {
            Some(token) => token,
            None => None,
        };
        self.pagination.current_page = self.pagination.current_page - 1;
        assert(self.pagination.token_stack@ =~= if old(self).pagination.token_stack@.len() >= 2 {
            old(self).pagination.token_stack@.take(old(self).pagination.token_stack@.len() - 2)
        } else {
            Seq::empty()
        });
        Some(previous)
    }

    /// The hierarchy filter for the resource on show: the parent's first
    /// link to it gives one filter, from the identifier that its field
    /// holds in the parent item. There is none at the top level, for an
    /// unknown parent, without such a link, and where the identifier is
    /// missing: the fetch is unfiltered then.
    pub fn build_filters_from_context(&self, registry: &ResourceConfig) -> (filters: Vec<
        ResourceFilter,
    >)
        ensures
            match context_filter(*self, *registry) {
                Some((param, id)) => filters@.len() == 1 && filters@[0].name@ == param
                    && filters@[0].values@.len() == 1 && filters@[0].values@[0]@ == id,
                None => filters@.len() == 0,
            },
    {
        let mut filters: Vec<ResourceFilter> = Vec::new();
        match &self.parent_context {
            None => {},
            Some(parent) => {
                match get_resource(registry, parent.resource_key.as_str()) {
                    None => {},
                    Some(resource) => {
                        let subs = &resource.sub_resources;
                        let mut i: usize = 0;
                        while i < subs.len()
                            invariant
                                i <= subs@.len(),
                                filters@.len() == 0,
                                context_filter(*self, *registry) == link_filter(
                                    subs@,
                                    0,
                                    self.current_resource_key@,
                                    parent.item@,
                                ),
                                link_filter(subs@, i as int, self.current_resource_key@, parent.item@)
                                    == link_filter(
                                    subs@,
                                    0,
                                    self.current_resource_key@,
                                    parent.item@,
                                ),
                            decreases subs@.len() - i,
                        {
                            let sub = &subs[i];
                            if str_eq(
                                sub.resource_key.as_str(),
                                self.current_resource_key.as_str(),
                            ) {
                                let parent_id = extract_json_value(
                                    &parent.item,
                                    sub.parent_id_field.as_str(),
                                );
                                proof {
                                    reveal_strlit("-");
                                    assert("-"@ =~= missing());
                                }
                                if !str_eq(parent_id.as_str(), "-") {
                                    let mut values: Vec<String> = Vec::new();
                                    values.push(parent_id);
                                    filters.push(
                                        ResourceFilter::new(sub.filter_param.as_str(), values),
                                    );
                                }
                                return filters;
                            }
                            i += 1;
                        }
                    },
                }
            },
        }
        filters
    }

    /// Puts the state into what a failed fetch leaves: the message for the
    /// user recorded, no items, no selection, pagination forgotten.
    fn fail(&mut self, error: &ApiError)
        ensures
            failed_with(*old(self), *final(self), error.message_text()),
    {
        let message = error.message();
        self.error_message = Some(crate::format::format_one_error(message.as_str()));
        self.items = Vec::new();
        self.filtered_items = Vec::new();
        self.selected = 0;
        self.pagination = PaginationState::default();
        self.loading = false;
    }

    /// The first half of a fetch. For an unknown resource an error is
    /// recorded and nothing is to be sent. Else the request is resolved
    /// from the resource's parameters and the hierarchy filter: it is
    /// handed out with the state marked as loading, or, where it cannot be
    /// resolved, the fetch has failed.
    pub fn start_fetch(&mut self, registry: &ResourceConfig, page_token: Option<&str>) -> (step:
        FetchStep)
        ensures
            match entry(registry.resources@, old(self).current_resource_key@) {
                None => {
                    &&& step is Skipped
                    &&& final(self).error_message matches Some(m) && m@ == "Unknown resource: "@
                        + old(self).current_resource_key@
                    &&& *final(self) == (App {
                        error_message: final(self).error_message,
                        ..*old(self)
                    })
                },
                Some(resource) => match request_for(
                    resource,
                    filter_pairs(context_filter(*old(self), *registry)),
                    token_text(page_token),
                ) {
                    Resolved::Call(method, params) => {
                        &&& step matches FetchStep::Request(call) && call.is(method, params)
                        &&& *final(self) == (App {
                            loading: true,
                            error_message: None,
                            ..*old(self)
                        })
                    },
                    _ => step is Failed && exists|error: ApiError| #[trigger]
                        failed_with(*old(self), *final(self), error.message_text())
                            && resolved_view(Err::<RemoteCall, ApiError>(error)) == Some(
                            request_for(
                                resource,
                                filter_pairs(context_filter(*old(self), *registry)),
                                token_text(page_token),
                            ),
                        ),
                },
            },
    {
        let resource = match get_resource(registry, self.current_resource_key.as_str()) {
            Some(resource) => resource,
            None => {
                self.error_message = Some(
                    String::from_str("Unknown resource: ").concat(
                        self.current_resource_key.as_str(),
                    ),
                );
                return FetchStep::Skipped;
            },
        };
        let filters = self.build_filters_from_context(registry);
        proof {
            let pairs = filter_pairs(context_filter(*self, *registry));
            if filters@.len() == 1 {
                assert(texts(filters@[0].values@)[0] == filters@[0].values@[0]@);
            }
            assert(filters_view(filters@) =~= pairs);
        }
        match fetch_request(resource, &filters, page_token) {
            Ok(call) => {
                self.loading = true;
                self.error_message = None;
                FetchStep::Request(call)
            },
            Err(error) => {
                self.fail(&error);
                assert(failed_with(*old(self), *self, error.message_text())
                    && resolved_view(Err::<RemoteCall, ApiError>(error)) == Some(
                    request_for(
                        *resource,
                        filter_pairs(context_filter(*old(self), *registry)),
                        token_text(page_token),
                    ),
                ));
                FetchStep::Failed
            },
        }
    }

    /// The second half of a fetch: takes the answer in. On success the
    /// items at the resource's result path become the items on show, the
    /// view is computed anew, the selection stays where it still lies
    /// within the view and else goes to the first item, and no further
    /// page is on offer: the remote API has no pagination. On failure the
    /// message for the user is recorded, and items, selection and
    /// pagination are cleared.
    pub fn finish_fetch(&mut self, registry: &ResourceConfig, outcome: Result<Document, ApiError>)
        ensures
            match fetched(*registry, old(self).current_resource_key@, outcome) {
                Ok(items) => fetched_into(*old(self), *final(self), *registry, items),
                Err(message) => failed_with(*old(self), *final(self), message),
            },
    {
        let found = match outcome {
            Ok(response) => match get_resource(registry, self.current_resource_key.as_str()) {
                Some(resource) => fetch_items(resource, &response),
                None => Err(ApiError::UnknownResource(self.current_resource_key.clone())),
            },
            Err(error) => Err(error),
        };
        match found {
            Ok(page) => {
                let previous = self.selected;
                self.items = page.items;
                self.apply_filter(registry);
                self.pagination.has_more = page.next_token.is_some();
                self.pagination.next_token = page.next_token;
                if previous < self.filtered_items.len() {
                    self.selected = previous;
                } else {
                    self.selected = 0;
                }
                self.loading = false;
            },
            Err(error) => {
                self.fail(&error);
            },
        }
    }

    /// Jumps to a resource at the top level: the whole ancestry is
    /// dropped. Says whether a fetch is due; for an unknown resource an
    /// error is recorded instead.
    pub fn navigate_to_resource(&mut self, registry: &ResourceConfig, resource_key: &str) -> (fetch:
        bool)
        ensures
            fetch == (entry(registry.resources@, resource_key@) is Some),
            !fetch ==> {
                &&& final(self).error_message matches Some(m) && m@ == "Unknown resource: "@
                    + resource_key@
                &&& *final(self) == (App {
                    error_message: final(self).error_message,
                    ..*old(self)
                })
            },
            fetch ==> {
                &&& final(self).current_resource_key@ == resource_key@
                &&& final(self).depth() == 0
                &&& final(self).mode == Mode::Normal
                &&& moved(*old(self), *final(self))
            },
    {
        if get_resource(registry, resource_key).is_none() {
            self.error_message = Some(String::from_str("Unknown resource: ").concat(resource_key));
            return false;
        }
        self.parent_context = None;
        self.navigation_stack = Vec::new();
        self.current_resource_key = String::from_str(resource_key);
        self.selected = 0;
        self.filter_text = String::new();
        self.filter_active = false;
        self.mode = Mode::Normal;
        self.pagination = PaginationState::default();
        true
    }

    /// Drills down from the selected item into one of the sub-resources
    /// of the resource on show: the resource and the item become the
    /// immediate parent, under the item's name or, where it has none, its
    /// identifier. Says whether a fetch is due. Nothing happens without a
    /// selected item or for an unknown resource on show; a resource that
    /// is no sub-resource of the one on show is an error.
    pub fn navigate_to_sub_resource(&mut self, registry: &ResourceConfig, sub_resource_key: &str) -> (
        fetch: bool)
        ensures
            match drill_target(*old(self), *registry, sub_resource_key@) {
                Drill::Nothing => !fetch && *final(self) == *old(self),
                Drill::NotLinked => {
                    &&& !fetch
                    &&& final(self).error_message matches Some(m) && m@ == sub_resource_key@
                        + " is not a sub-resource of "@ + old(self).current_resource_key@
                    &&& *final(self) == (App {
                        error_message: final(self).error_message,
                        ..*old(self)
                    })
                },
                Drill::Down(item, label) => fetch && drilled_down(
                    *old(self),
                    *final(self),
                    sub_resource_key@,
                    item,
                    label,
                ),
            },
    {
        if self.selected >= self.filtered_items.len() {
            return false;
        }
        let resource = match get_resource(registry, self.current_resource_key.as_str()) {
            Some(resource) => resource,
            None => {
                return false;
            },
        };
        if !links_to(&resource.sub_resources, sub_resource_key) {
            self.error_message = Some(
                String::from_str(sub_resource_key).concat(" is not a sub-resource of ").concat(
                    self.current_resource_key.as_str(),
                ),
            );
            return false;
        }
        let item = self.filtered_items[self.selected].clone();
        let name = extract_json_value(&item, resource.name_field.as_str());
        proof {
            reveal_strlit("-");
            assert("-"@ =~= missing());
        }
        let display = if !str_eq(name.as_str(), "-") {
            name
        } else {
            extract_json_value(&item, resource.id_field.as_str())
        };
        let ghost before = self.navigation_stack@;
        match self.parent_context.take() {
            Some(context) => {
                self.navigation_stack.push(context);
            },
            None => {},
        }
        self.parent_context = Some(
            ParentContext {
                resource_key: self.current_resource_key.clone(),
                item,
                display_name: display,
            },
        );
        self.current_resource_key = String::from_str(sub_resource_key);
        self.selected = 0;
        self.filter_text = String::new();
        self.filter_active = false;
        self.pagination = PaginationState::default();
        proof {
            assert(self.ancestry().drop_last() =~= old(self).ancestry());
        }
        true
    }

    /// Drills up: the immediate parent's resource is on show again and the
    /// ancestry is one step shorter. Says whether a fetch is due. Nothing
    /// happens at the top level.
    pub fn navigate_back(&mut self) -> (fetch: bool)
        ensures
            fetch == (old(self).parent_context is Some),
            !fetch ==> *final(self) == *old(self),
            fetch ==> drilled_up(*old(self), *final(self)),
    {
        match self.parent_context.take() {
            Some(parent) => {
                let ghost before = self.navigation_stack@;
                self.parent_context = self.navigation_stack.pop();
                self.current_resource_key = parent.resource_key;
                self.selected = 0;
                self.filter_text = String::new();
                self.filter_active = false;
                self.pagination = PaginationState::default();
                proof {
                    if before.len() > 0 {
                        assert(self.ancestry() =~= before);
                    } else {
                        assert(self.ancestry() =~= Seq::empty());
                    }
                    assert(old(self).ancestry().drop_last() =~= before);
                }
                true
            },
            None => false,
        }
    }

    /// The trail from the top level to the resource on show: each
    /// ancestor as its resource, a colon and the name of the item that was
    /// drilled into, then the resource on show.
    pub fn get_breadcrumb(&self) -> (path: Vec<String>)
        ensures
            texts(path@) == crumbs(self.ancestry(), self.ancestry().len()).push(
                self.current_resource_key@,
            ),
    {
        let mut path: Vec<String> = Vec::new();
        assert(texts(path@) =~= Seq::empty());
        let mut i: usize = 0;
        while i < self.navigation_stack.len()
            invariant
                i <= self.navigation_stack@.len(),
                texts(path@) == crumbs(self.ancestry(), i as nat),
            decreases self.navigation_stack@.len() - i,
        {
            let ghost before = texts(path@);
            let crumb = crumb_of(&self.navigation_stack[i]);
            path.push(crumb);
            assert(self.ancestry()[i as int] == self.navigation_stack@[i as int]);
            assert(texts(path@) =~= before.push(crumb@));
            i += 1;
        }
        match &self.parent_context {
            Some(context) => {
                let ghost before = texts(path@);
                let crumb = crumb_of(context);
                path.push(crumb);
                assert(self.ancestry()[i as int] == *context);
                assert(texts(path@) =~= before.push(crumb@));
            },
            None => {},
        }
        let ghost before = texts(path@);
        path.push(self.current_resource_key.clone());
        assert(texts(path@) =~= before.push(self.current_resource_key@));
        path
    }

    /// The action that waits for confirmation when `action` is asked for
    /// on the thing with the given identifier: none where the action asks
    /// for no confirmation or the resource on show is unknown. Its
    /// message names the selected item, or the identifier where the item
    /// has no name.
    pub fn create_pending_action(
        &self,
        registry: &ResourceConfig,
        action: &ActionDef,
        resource_id: &str,
    ) -> (pending: Option<PendingAction>)
        ensures
            asks_confirmation(*self, *registry, *action) ==> (pending matches Some(p)
                && is_pending(*self, *registry, *action, resource_id@, p)),
            !asks_confirmation(*self, *registry, *action) ==> pending is None,
    {
        let config = match action.get_confirm_config() {
            Some(config) => config,
            None => {
                return None;
            },
        };
        let resource = match get_resource(registry, self.current_resource_key.as_str()) {
            Some(resource) => resource,
            None => {
                return None;
            },
        };
        proof {
            reveal_strlit("-");
            assert("-"@ =~= missing());
        }
        let mut subject = String::from_str(resource_id);
        if self.selected < self.filtered_items.len() {
            let name = extract_json_value(
                &self.filtered_items[self.selected],
                resource.name_field.as_str(),
            );
            if !str_eq(name.as_str(), "-") && !name.as_str().is_empty() {
                subject = name;
            }
        }
        let message = match config.message {
            Some(message) => message,
            None => action.display_name.clone(),
        };
        Some(
            PendingAction {
                service: resource.service.clone(),
                sdk_method: action.sdk_method.clone(),
                resource_id: String::from_str(resource_id),
                message: message.concat(" '").concat(subject.as_str()).concat("'?"),
                default_no: !config.default_yes,
                destructive: config.destructive,
                selected_yes: config.default_yes,
            },
        )
    }

    /// Runs what stands on the command line: its first word is `q` or
    /// `quit`, `back`, or the key of a resource. A sub-resource of the
    /// resource on show is drilled into where an item is selected; any
    /// other resource is jumped to. Anything else is an unknown command.
    /// An empty line takes the preview, and so does a line that the
    /// preview holds.
    pub fn execute_command(&mut self, registry: &ResourceConfig) -> (outcome: CommandOutcome)
        ensures
            executed(*old(self), *final(self), *registry, outcome),
    {
        let line = if self.command_text.as_str().is_empty() {
            match &self.command_preview {
                Some(preview) => preview.clone(),
                None => String::new(),
            }
        } else {
            match &self.command_preview {
                Some(preview) => if contains(
                    &chars_of(preview.as_str()),
                    &chars_of(self.command_text.as_str()),
                ) {
                    preview.clone()
                } else {
                    self.command_text.clone()
                },
                None => self.command_text.clone(),
            }
        };
        assert(line@ =~= command_line(*self));
        let word = match first_word(line.as_str()) {
            Some(word) => word,
            None => {
                return CommandOutcome::Nothing;
            },
        };
        let command = word.as_str();
        if str_eq(command, "q") || str_eq(command, "quit") {
            return CommandOutcome::Quit;
        }
        if str_eq(command, "back") {
            return if self.navigate_back() {
                CommandOutcome::Fetch
            } else {
                CommandOutcome::Nothing
            };
        }
        if get_resource(registry, command).is_none() {
            self.error_message = Some(String::from_str("Unknown command: ").concat(command));
            return CommandOutcome::Nothing;
        }
        let drill = match get_resource(registry, self.current_resource_key.as_str()) {
            Some(resource) => links_to(&resource.sub_resources, command)
                && self.selected < self.filtered_items.len(),
            None => false,
        };
        if drill {
            let fetch = self.navigate_to_sub_resource(registry, command);
            assert(fetch);
        } else {
            let fetch = self.navigate_to_resource(registry, command);
            assert(fetch);
        }
        CommandOutcome::Fetch
    }

    /// The ancestors of the resource on show, outermost first, the
    /// immediate parent last.
    pub open spec fn ancestry(self) -> Seq<ParentContext> {
        match self.parent_context {
            Some(parent) => self.navigation_stack@.push(parent),
            None => self.navigation_stack@,
        }
    }
}

/// The state after the suggestions were made anew for the text on the
/// command line.
pub open spec fn resuggested(before: App, after: App, registry: ResourceConfig) -> bool {
    &&& exists|all: Seq<String>| #[trigger]
        is_key_list(all, registry) && texts(after.command_suggestions@)
            == suggested(texts(all), lowercased(before.command_text@))
    &&& after.command_suggestion_selected == if before.command_suggestion_selected
        >= after.command_suggestions@.len() {
        0
    } else {
        before.command_suggestion_selected
    }
    &&& previews(after)
    &&& after == (App {
        command_suggestions: after.command_suggestions,
        command_suggestion_selected: after.command_suggestion_selected,
        command_preview: after.command_preview,
        ..before
    })
}

/// The state after the next suggestion was selected.
pub open spec fn suggestion_advanced(before: App, after: App) -> bool {
    &&& before.command_suggestions@.len() == 0 ==> after == before
    &&& before.command_suggestions@.len() > 0 ==> {
        &&& after.command_suggestion_selected as int == if before.command_suggestion_selected
            + 1 >= before.command_suggestions@.len() {
            0
        } else {
            before.command_suggestion_selected + 1
        }
        &&& previews(after)
        &&& after == (App {
            command_suggestion_selected: after.command_suggestion_selected,
            command_preview: after.command_preview,
            ..before
        })
    }
}

/// The state after the suggestion before was selected.
pub open spec fn suggestion_retreated(before: App, after: App) -> bool {
    &&& before.command_suggestions@.len() == 0 ==> after == before
    &&& before.command_suggestions@.len() > 0 ==> {
        &&& after.command_suggestion_selected as int == if before.command_suggestion_selected == 0 {
            before.command_suggestions@.len() - 1
        } else {
            before.command_suggestion_selected - 1
        }
        &&& previews(after)
        &&& after == (App {
            command_suggestion_selected: after.command_suggestion_selected,
            command_preview: after.command_preview,
            ..before
        })
    }
}

/// The state after the previewed suggestion was taken over.
pub open spec fn suggestion_applied(before: App, after: App, registry: ResourceConfig) -> bool {
    match before.command_preview {
        None => after == before,
        Some(preview) => after.command_text@ == preview@ && resuggested(
            App { command_text: after.command_text, ..before },
            after,
            registry,
        ),
    }
}

/// The state after the command line was run, with what it came to.
pub open spec fn executed(
    before: App,
    after: App,
    registry: ResourceConfig,
    outcome: CommandOutcome,
) -> bool {
    match leading_word(command_line(before)) {
        None => outcome is Nothing && after == before,
        Some(word) => match command_of(before, registry, word) {
            Command::Quit => outcome is Quit && after == before,
            Command::Back => if before.parent_context is Some {
                outcome is Fetch && drilled_up(before, after)
            } else {
                outcome is Nothing && after == before
            },
            Command::Unknown => {
                &&& outcome is Nothing
                &&& after.error_message matches Some(m) && m@ == "Unknown command: "@
                    + word
                &&& after == (App {
                    error_message: after.error_message,
                    ..before
                })
            },
            Command::Drill(item, label) => outcome is Fetch && drilled_down(
                before,
                after,
                word,
                item,
                label,
            ),
            Command::Jump => {
                &&& outcome is Fetch
                &&& after.current_resource_key@ == word
                &&& after.depth() == 0
                &&& after.mode == Mode::Normal
                &&& moved(before, after)
            },
        }
    }
}

/// What running the command line came to.
#[derive(Debug, Clone, Copy, PartialEq, Eq, Structural)]
pub enum CommandOutcome {
    /// The client is to stop.
    Quit,
    /// The resource on show changed: a fetch is due.
    Fetch,
    /// Nothing further is to be done.
    Nothing,
}

/// The text that the command line stands for: the preview where the line
/// is empty or the preview holds it, else the line itself.
pub open spec fn command_line(app: App) -> Seq<char> {
    match app.command_preview {
        Some(preview) => if app.command_text@.len() == 0 || has_substring(
            preview@,
            app.command_text@,
        ) {
            preview@
        } else {
            app.command_text@
        },
        None => app.command_text@,
    }
}

/// What a word on the command line asks for.
pub enum Command {
    Quit,
    Back,
    /// The word is no command and no resource.
    Unknown,
    /// Down into the sub-resource of that name, from this item, under
    /// this label.
    Drill(DocumentView, Seq<char>),
    /// To the resource of that name at the top level.
    Jump,
}

/// What a word asks for in a state.
pub open spec fn command_of(app: App, registry: ResourceConfig, word: Seq<char>) -> Command {
    if word == "q"@ || word == "quit"@ {
        Command::Quit
    } else if word == "back"@ {
        Command::Back
    } else if entry(registry.resources@, word) is None {
        Command::Unknown
    } else {
        match drill_target(app, registry, word) {
            Drill::Down(item, label) => Command::Drill(item, label),
            _ => Command::Jump,
        }
    }
}

/// Whether an action on the resource on show waits for confirmation: it
/// has a confirmation policy, and the resource is known.
pub open spec fn asks_confirmation(app: App, registry: ResourceConfig, action: ActionDef) -> bool {
    confirm_policy(action) is Some && entry(registry.resources@, app.current_resource_key@)
        is Some
}

/// Whether `pending` is what waits for confirmation when `action` is
/// asked for on the thing with the given identifier.
pub open spec fn is_pending(
    app: App,
    registry: ResourceConfig,
    action: ActionDef,
    resource_id: Seq<char>,
    pending: PendingAction,
) -> bool {
    let policy = confirm_policy(action).unwrap();
    let resource = entry(registry.resources@, app.current_resource_key@).unwrap();
    &&& pending.service@ == resource.service@
    &&& pending.sdk_method@ == action.sdk_method@
    &&& pending.resource_id@ == resource_id
    &&& pending.message@ == confirm_message(action) + " '"@ + subject_name(
        app,
        registry,
        resource_id,
    ) + "'?"@
    &&& pending.default_no == !policy.default_yes
    &&& pending.destructive == policy.destructive
    &&& pending.selected_yes == policy.default_yes
}

/// The message that asks for the confirmation of an action: the one of
/// its confirmation policy, or its display name.
pub open spec fn confirm_message(action: ActionDef) -> Seq<char> {
    match confirm_policy(action) {
        Some(policy) => match policy.message {
            Some(message) => message@,
            None => action.display_name@,
        },
        None => action.display_name@,
    }
}

/// The name under which the subject of an action is shown: the name of
/// the selected item, where there is one that is neither missing nor
/// empty, else the identifier.
pub open spec fn subject_name(app: App, registry: ResourceConfig, resource_id: Seq<char>) -> Seq<
    char,
> {
    match entry(registry.resources@, app.current_resource_key@) {
        Some(resource) => if app.selected < app.filtered_items@.len() {
            let name = extracted(
                app.filtered_items@[app.selected as int]@,
                resource.name_field@,
            );
            if name != missing() && name.len() > 0 {
                name
            } else {
                resource_id
            }
        } else {
            resource_id
        },
        None => resource_id,
    }
}

/// What the first half of a fetch came to.
#[derive(Debug)]
pub enum FetchStep {
    /// The resource on show is unknown: nothing to send.
    Skipped,
    /// This call is to be sent and its answer handed back.
    Request(RemoteCall),
    /// The request could not be resolved: the fetch has failed.
    Failed,
}

/// Whether some link leads to the given resource.
pub open spec fn is_linked(subs: Seq<SubResourceDef>, key: Seq<char>) -> bool {
    exists|i: int| 0 <= i < subs.len() && (#[trigger] subs[i]).resource_key@ == key
}

fn links_to(subs: &Vec<SubResourceDef>, key: &str) -> (linked: bool)
    ensures
        linked == is_linked(subs@, key@),
{
    let mut i: usize = 0;
    while i < subs.len()
        invariant
            i <= subs@.len(),
            forall|k: int| 0 <= k < i ==> (#[trigger] subs@[k]).resource_key@ != key@,
        decreases subs@.len() - i,
    {
        if str_eq(subs[i].resource_key.as_str(), key) {
            return true;
        }
        i += 1;
    }
    false
}

/// The parameter and the identifier that the links from `from` on give
/// for a child resource: those of the first link to the child, and none
/// where the identifier field of that link is missing in the parent item.
pub open spec fn link_filter(
    subs: Seq<SubResourceDef>,
    from: int,
    child: Seq<char>,
    parent_item: DocumentView,
) -> Option<(Seq<char>, Seq<char>)>
    decreases subs.len() - from,
{
    if from < 0 || from >= subs.len() {
        None
    } else if subs[from].resource_key@ == child {
        if extracted(parent_item, subs[from].parent_id_field@) != missing() {
            Some((subs[from].filter_param@, extracted(parent_item, subs[from].parent_id_field@)))
        } else {
            None
        }
    } else {
        link_filter(subs, from + 1, child, parent_item)
    }
}

/// The hierarchy filter of a state: what the immediate parent's links
/// give for the resource on show.
pub open spec fn context_filter(app: App, registry: ResourceConfig) -> Option<
    (Seq<char>, Seq<char>),
> {
    match app.parent_context {
        None => None,
        Some(parent) => match entry(registry.resources@, parent.resource_key@) {
            None => None,
            Some(resource) => link_filter(
                resource.sub_resources@,
                0,
                app.current_resource_key@,
                parent.item@,
            ),
        },
    }
}

/// The filters of a request: the hierarchy filter alone, or none.
pub open spec fn filter_pairs(filter: Option<(Seq<char>, Seq<char>)>) -> Seq<
    (Seq<char>, Seq<char>),
> {
    match filter {
        Some(pair) => seq![pair],
        None => Seq::empty(),
    }
}

/// The text of a page token.
pub open spec fn token_text(token: Option<&str>) -> Option<Seq<char>> {
    match token {
        Some(t) => Some(t@),
        None => None,
    }
}

/// The values of a filter, joined by commas.
pub open spec fn joined(values: Seq<Seq<char>>, count: nat) -> Seq<char>
    decreases count,
{
    if count == 0 || count > values.len() {
        Seq::empty()
    } else if count == 1 {
        values[0]
    } else {
        joined(values, (count - 1) as nat) + seq![','] + values[count - 1]
    }
}

/// The parameters after the first `count` filters were put into them,
/// each as a text under its name.
pub open spec fn with_filters(base: Members, filters: Seq<(Seq<char>, Seq<char>)>, count: nat) -> Members
    decreases count,
{
    if count == 0 || count > filters.len() {
        base
    } else {
        with_member(
            with_filters(base, filters, (count - 1) as nat),
            filters[count - 1].0,
            DocumentView::Text(filters[count - 1].1),
        )
    }
}

/// The parameters of a request: the base parameters with the filters and
/// the page token put into them, each as a text. Base parameters that are
/// no object are sent as they are.
pub open spec fn request_params(
    base: DocumentView,
    filters: Seq<(Seq<char>, Seq<char>)>,
    token: Option<Seq<char>>,
) -> DocumentView {
    match base {
        DocumentView::Object(members) => {
            let filtered = with_filters(members, filters, filters.len());
            match token {
                Some(t) => DocumentView::Object(
                    with_member(filtered, "page_token"@, DocumentView::Text(t)),
                ),
                None => DocumentView::Object(filtered),
            }
        },
        _ => base,
    }
}

/// What the listing request of a resource resolves to.
pub open spec fn request_for(
    resource: ResourceDef,
    filters: Seq<(Seq<char>, Seq<char>)>,
    token: Option<Seq<char>>,
) -> Resolved {
    resolved(
        resource.service@,
        resource.sdk_method@,
        request_params(resource.sdk_method_params@, filters, token),
    )
}

/// The filters as pairs of a name and the joined values.
pub open spec fn filters_view(filters: Seq<ResourceFilter>) -> Seq<(Seq<char>, Seq<char>)> {
    Seq::new(
        filters.len(),
        |i: int| (filters[i].name@, joined(texts(filters[i].values@), filters[i].values@.len())),
    )
}

fn join_values(values: &Vec<String>) -> (text: String)
    ensures
        text@ == joined(texts(values@), values@.len()),
{
    let mut text = String::new();
    let mut i: usize = 0;
    while i < values.len()
        invariant
            i <= values@.len(),
            text@ == joined(texts(values@), i as nat),
        decreases values@.len() - i,
    {
        proof {
            reveal_strlit(",");
            assert(","@ =~= seq![',']);
        }
        if i > 0 {
            text.append(",");
        }
        text.append(values[i].as_str());
        i += 1;
    }
    text
}

/// Resolves the listing request of a resource: its base parameters, with
/// the filters and the page token put into them, go to the dispatcher.
pub fn fetch_request(resource: &ResourceDef, filters: &Vec<ResourceFilter>, page_token: Option<
    &str,
>) -> (result: Result<RemoteCall, ApiError>)
    ensures
        resolved_view(result) == Some(
            request_for(*resource, filters_view(filters@), token_text(page_token)),
        ),
{
    let mut params = resource.sdk_method_params.clone();
    params = match params {
        Document::Object(members) => {
            let mut members = members;
            proof {
                lemma_object_view(members);
            }
            let ghost base = object_view(members@);
            let mut i: usize = 0;
            while i < filters.len()
                invariant
                    i <= filters@.len(),
                    object_view(members@) == with_filters(base, filters_view(filters@), i as nat),
                decreases filters@.len() - i,
            {
                set_member(
                    &mut members,
                    filters[i].name.clone(),
                    Document::Text(join_values(&filters[i].values)),
                );
                i += 1;
            }
            match page_token {
                Some(token) => {
                    set_member(
                        &mut members,
                        String::from_str("page_token"),
                        Document::Text(String::from_str(token)),
                    );
                },
                None => {},
            }
            proof {
                lemma_object_view(members);
            }
            Document::Object(members)
        },
        other => other,
    };
    invoke_sdk_method(resource.service.as_str(), resource.sdk_method.as_str(), &params)
}

/// The page that an answer holds for a resource: the items at its result
/// path, and no token, since the remote API has no pagination.
pub fn fetch_items(resource: &ResourceDef, response: &Document) -> (result: Result<
    PaginatedResult,
    ApiError,
>)
    ensures
        match target(response@, resource.response_path@, false) {
            Some(found) => result matches Ok(page) && items_view(page.items@) == listed(found)
                && page.next_token is None,
            None => result matches Err(ApiError::PathNotFound(p)) && p@
                == resource.response_path@,
        },
{
    match extract_items(response, resource.response_path.as_str()) {
        Ok(items) => Ok(PaginatedResult { items, next_token: None }),
        Err(error) => Err(error),
    }
}

/// What an answer comes to for the resource on show: the items to show,
/// or the message of the error that made the fetch fail.
pub open spec fn fetched(registry: ResourceConfig, key: Seq<char>, outcome: Result<
    Document,
    ApiError,
>) -> Result<Seq<DocumentView>, Seq<char>> {
    match outcome {
        Err(error) => Err(error.message_text()),
        Ok(response) => match entry(registry.resources@, key) {
            None => Err("Unknown resource: "@ + key),
            Some(resource) => match target(response@, resource.response_path@, false) {
                Some(found) => Ok(listed(found)),
                None => Err("Path '"@ + resource.response_path@ + "' not found in response"@),
            },
        },
    }
}

/// The state after a successful fetch.
pub open spec fn fetched_into(
    before: App,
    after: App,
    registry: ResourceConfig,
    items: Seq<DocumentView>,
) -> bool {
    &&& items_view(after.items@) == items
    &&& items_view(after.filtered_items@) == filter_view(
        items,
        before.filter_text@,
        filter_fields(registry, before.current_resource_key@),
    )
    &&& after.selected == if before.selected < after.filtered_items@.len() {
        before.selected
    } else {
        0
    }
    &&& after.pagination.next_token is None
    &&& !after.pagination.has_more
    &&& after.pagination.token_stack == before.pagination.token_stack
    &&& after.pagination.current_page == before.pagination.current_page
    &&& after == (App {
        items: after.items,
        filtered_items: after.filtered_items,
        selected: after.selected,
        pagination: after.pagination,
        loading: false,
        ..before
    })
}

/// The state after a failed fetch.
pub open spec fn failed_with(before: App, after: App, message: Seq<char>) -> bool {
    &&& after.error_message matches Some(m) && m@ == crate::format::friendly_error(message)
    &&& after.items@.len() == 0
    &&& after.filtered_items@.len() == 0
    &&& after.pagination.is_reset()
    &&& after == (App {
        error_message: after.error_message,
        items: after.items,
        filtered_items: after.filtered_items,
        selected: 0,
        pagination: after.pagination,
        loading: false,
        ..before
    })
}

/// The state after a move to another resource, but for the resource, the
/// ancestry and the mode: selection, filter and pagination start afresh,
/// everything else stays.
pub open spec fn moved(before: App, after: App) -> bool {
    &&& after.selected == 0
    &&& after.filter_text@.len() == 0
    &&& !after.filter_active
    &&& after.pagination.is_reset()
    &&& after == (App {
        current_resource_key: after.current_resource_key,
        parent_context: after.parent_context,
        navigation_stack: after.navigation_stack,
        mode: after.mode,
        selected: after.selected,
        filter_text: after.filter_text,
        filter_active: after.filter_active,
        pagination: after.pagination,
        ..before
    })
}

/// What a drill-down comes to.
pub enum Drill {
    /// No item is selected, or the resource on show is unknown.
    Nothing,
    /// The resource is no sub-resource of the one on show.
    NotLinked,
    /// Down from this item, under this label.
    Down(DocumentView, Seq<char>),
}

/// What drilling down into a resource comes to in a state.
pub open spec fn drill_target(app: App, registry: ResourceConfig, child: Seq<char>) -> Drill {
    if app.selected >= app.filtered_items@.len() {
        Drill::Nothing
    } else {
        match entry(registry.resources@, app.current_resource_key@) {
            None => Drill::Nothing,
            Some(resource) => if !is_linked(resource.sub_resources@, child) {
                Drill::NotLinked
            } else {
                let item = app.filtered_items@[app.selected as int]@;
                let name = extracted(item, resource.name_field@);
                Drill::Down(
                    item,
                    if name != missing() {
                        name
                    } else {
                        extracted(item, resource.id_field@)
                    },
                )
            },
        }
    }
}

/// The state after a drill-down into `child` from `item` under `label`:
/// the child is on show, the resource that was on show is the immediate
/// parent, and the ancestors there were stand above it.
pub open spec fn drilled_down(
    before: App,
    after: App,
    child: Seq<char>,
    item: DocumentView,
    label: Seq<char>,
) -> bool {
    &&& after.current_resource_key@ == child
    &&& after.parent_context matches Some(parent) && parent.resource_key@
        == before.current_resource_key@ && parent.item@ == item && parent.display_name@ == label
    &&& after.navigation_stack@ == before.ancestry()
    &&& after.mode == before.mode
    &&& moved(before, after)
}

/// The state after a drill-up: the immediate parent's resource is on
/// show, the ancestor above it is the immediate parent, and the ancestors
/// above that one stay.
pub open spec fn drilled_up(before: App, after: App) -> bool {
    let above = before.navigation_stack@;
    &&& before.parent_context matches Some(parent) && after.current_resource_key@
        == parent.resource_key@
    &&& after.parent_context == if above.len() > 0 {
        Some(above.last())
    } else {
        None
    }
    &&& after.navigation_stack@ == if above.len() > 0 {
        above.drop_last()
    } else {
        above
    }
    &&& after.mode == before.mode
    &&& moved(before, after)
}

/// Hierarchy law: a drill-down that is followed at once by a drill-up
/// leaves the resource that was on show on show again, at the depth at
/// which it was and below the same ancestors. Where the resource had an
/// immediate parent, that one is the immediate parent again.
pub proof fn lemma_drill_down_then_up(
    before: App,
    below: App,
    after: App,
    child: Seq<char>,
    item: DocumentView,
    label: Seq<char>,
)
    requires
        drilled_down(before, below, child, item, label),
        drilled_up(below, after),
    ensures
        after.current_resource_key@ == before.current_resource_key@,
        after.depth() == before.depth(),
        after.ancestry() == before.ancestry(),
        before.parent_context is Some ==> after.parent_context == before.parent_context
            && after.navigation_stack@ == before.navigation_stack@,
        before.depth() == 0 ==> after.parent_context is None && after.navigation_stack@.len() == 0,
{
    lemma_depth(before);
    lemma_depth(after);
    let above = below.navigation_stack@;
    if above.len() > 0 {
        assert(after.ancestry() =~= above);
        if before.parent_context is Some {
            assert(above.drop_last() =~= before.navigation_stack@);
        }
    } else {
        assert(after.ancestry() =~= above);
    }
}

/// The depth is the length of the ancestry.
pub proof fn lemma_depth(app: App)
    ensures
        app.depth() == app.ancestry().len(),
{
}

/// The crumb of one ancestor: its resource, a colon, and the name of the
/// item that was drilled into.
pub open spec fn crumb(context: ParentContext) -> Seq<char> {
    context.resource_key@ + seq![':'] + context.display_name@
}

/// The crumbs of the first `count` ancestors.
pub open spec fn crumbs(ancestry: Seq<ParentContext>, count: nat) -> Seq<Seq<char>>
    decreases count,
{
    if count == 0 || count > ancestry.len() {
        Seq::empty()
    } else {
        crumbs(ancestry, (count - 1) as nat).push(crumb(ancestry[count - 1]))
    }
}

fn crumb_of(context: &ParentContext) -> (text: String)
    ensures
        text@ == crumb(*context),
{
    proof {
        reveal_strlit(":");
        assert(":"@ =~= seq![':']);
    }
    context.resource_key.clone().concat(":").concat(context.display_name.as_str())
}

/// The texts of a list of strings.
pub open spec fn texts(strings: Seq<String>) -> Seq<Seq<char>> {
    Seq::new(strings.len(), |i: int| strings[i]@)
}

/// Whether a list holds the keys of all resources of a registry, each
/// once, sorted. There is one such list for a registry.
pub open spec fn is_key_list(keys: Seq<String>, registry: ResourceConfig) -> bool {
    &&& strictly_sorted(keys)
    &&& forall|key: Seq<char>| #[trigger]
        lists_key(keys, key) <==> holds_key(registry.resources@, key)
}

/// Of the first `count` commands, those that hold the input, in order.
pub open spec fn holding(commands: Seq<Seq<char>>, count: nat, input: Seq<char>) -> Seq<Seq<char>>
    decreases count,
{
    if count == 0 || count > commands.len() {
        Seq::empty()
    } else if has_substring(commands[count - 1], input) {
        holding(commands, (count - 1) as nat, input).push(commands[count - 1])
    } else {
        holding(commands, (count - 1) as nat, input)
    }
}

/// The commands that are suggested for an input: all for the empty input,
/// else those that hold it.
pub open spec fn suggested(commands: Seq<Seq<char>>, input: Seq<char>) -> Seq<Seq<char>> {
    if input.len() == 0 {
        commands
    } else {
        holding(commands, commands.len(), input)
    }
}

/// Whether the preview is the selected suggestion, or nothing where the
/// selection lies beyond the suggestions.
pub open spec fn previews(app: App) -> bool {
    if app.command_suggestion_selected < app.command_suggestions@.len() {
        app.command_preview matches Some(preview) && preview@
            == app.command_suggestions@[app.command_suggestion_selected as int]@
    } else {
        app.command_preview is None
    }
}

/// The fields by which the items of a resource are filtered: its name
/// field and its identifier field. An unknown resource has none.
pub open spec fn filter_fields(registry: ResourceConfig, key: Seq<char>) -> Option<
    (Seq<char>, Seq<char>),
> {
    match entry(registry.resources@, key) {
        Some(resource) => Some((resource.name_field@, resource.id_field@)),
        None => None,
    }
}

/// Whether an item passes a filter: the lower-case form of its name or of
/// its identifier holds the filter, itself in lower case.
pub open spec fn item_matches(
    item: DocumentView,
    name_field: Seq<char>,
    id_field: Seq<char>,
    needle: Seq<char>,
) -> bool {
    has_substring(lowercased(extracted(item, name_field)), needle) || has_substring(
        lowercased(extracted(item, id_field)),
        needle,
    )
}

/// Of the first `count` items, those that pass the filter, in order.
/// Without fields to filter by, none passes.
pub open spec fn passing(
    items: Seq<DocumentView>,
    count: nat,
    fields: Option<(Seq<char>, Seq<char>)>,
    needle: Seq<char>,
) -> Seq<DocumentView>
    decreases count,
{
    if count == 0 || count > items.len() {
        Seq::empty()
    } else {
        let earlier = passing(items, (count - 1) as nat, fields, needle);
        match fields {
            Some((name_field, id_field)) => if item_matches(
                items[count - 1],
                name_field,
                id_field,
                needle,
            ) {
                earlier.push(items[count - 1])
            } else {
                earlier
            },
            None => earlier,
        }
    }
}

/// The view of the items under a filter text: all items where the text
/// has an empty lower-case form, else those that pass.
pub open spec fn filter_view(
    items: Seq<DocumentView>,
    filter_text: Seq<char>,
    fields: Option<(Seq<char>, Seq<char>)>,
) -> Seq<DocumentView> {
    if lowercased(filter_text).len() == 0 {
        items
    } else {
        passing(items, items.len(), fields, lowercased(filter_text))
    }
}

/// A selection moved into a view of `count` items: one that lies beyond
/// the view goes to its last item, and to the first place where the view
/// is empty.
pub open spec fn clamped(selected: usize, count: nat) -> usize {
    if selected < count {
        selected
    } else if count > 0 {
        (count - 1) as usize
    } else {
        0
    }
}

/// Without fields to filter by, the view under a filter is empty.
pub proof fn lemma_nothing_passes(items: Seq<DocumentView>, count: nat, needle: Seq<char>)
    ensures
        passing(items, count, None, needle) == Seq::<DocumentView>::empty(),
    decreases count,
{
    if count > 0 && count <= items.len() {
        lemma_nothing_passes(items, (count - 1) as nat, needle);
    }
}

} // verus!
