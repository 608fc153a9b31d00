use tone::document::Document;
use tone::error::ApiError;
use tone::input::{
    carry_out, filter_input, finish_action, handle_command_mode, handle_confirm_mode,
    handle_describe_mode, handle_help_mode, handle_key, handle_normal_mode, handle_warning_mode,
    intent_of, pop_char, start_action, Action, Intent, Key, KeyContext,
};
use tone::navigation::{App, Mode, PendingAction};
use tone::registry::{ActionDef, ResourceConfig, ResourceDef, SubResourceDef};

fn text(s: &str) -> Document {
    Document::Text(s.to_string())
}

fn object(members: Vec<(&str, Document)>) -> Document {
    Document::Object(members.into_iter().map(|(k, v)| (k.to_string(), v)).collect())
}

fn action(key: &str, shortcut: Option<&str>, needs_confirm: bool) -> ActionDef {
    ActionDef {
        key: key.to_string(),
        display_name: key.to_uppercase(),
        shortcut: shortcut.map(str::to_string),
        sdk_method: key.to_string(),
        id_param: None,
        needs_confirm,
        confirm: None,
    }
}

fn registry() -> ResourceConfig {
    let vms = ResourceDef {
        display_name: "Virtual Machines".to_string(),
        service: "vm".to_string(),
        sdk_method: "list".to_string(),
        sdk_method_params: object(Vec::new()),
        response_path: "VM_POOL.VM".to_string(),
        id_field: "ID".to_string(),
        name_field: "NAME".to_string(),
        is_global: false,
        columns: Vec::new(),
        sub_resources: vec![SubResourceDef {
            resource_key: "one-images".to_string(),
            display_name: "Images".to_string(),
            shortcut: "i".to_string(),
            parent_id_field: "ID".to_string(),
            filter_param: "vm_id".to_string(),
        }],
        actions: vec![
            action("hidden", None, true),
            action("terminate", Some("ctrl+d"), true),
            action("stop", Some("s"), true),
            action("get", Some("v"), true),
            action("resume", Some("r"), false),
            action("hold", Some("s"), true),
        ],
        detail_sdk_method: None,
        detail_sdk_method_params: Document::Null,
    };
    let mut images = vms.clone();
    images.service = "image".to_string();
    images.sub_resources = Vec::new();
    images.actions = Vec::new();
    let mut registry = ResourceConfig::new();
    registry.merge(ResourceConfig {
        color_maps: Vec::new(),
        resources: vec![("one-vms".to_string(), vms), ("one-images".to_string(), images)],
    });
    registry
}

fn app() -> App {
    App::from_initialized(
        vec![
            object(vec![("ID", text("1")), ("NAME", text("web1"))]),
            object(vec![("ID", text("2")), ("NAME", text("web2"))]),
            object(vec![("ID", text("x3")), ("NAME", text("db"))]),
        ],
        String::new(),
        String::new(),
        false,
    )
}

fn plain() -> KeyContext {
    KeyContext { control: false, double_g: false, describe_lines: 0 }
}

fn control() -> KeyContext {
    KeyContext { control: true, double_g: false, describe_lines: 0 }
}

fn press(app: &mut App, key: Key) -> Action {
    handle_key(app, &registry(), key, plain()).action
}

#[test]
fn control_c_stops_in_every_mode() {
    for mode in [Mode::Normal, Mode::Command, Mode::Help, Mode::Confirm, Mode::Warning, Mode::Describe] {
        let mut app = app();
        app.mode = mode;
        let outcome = handle_key(&mut app, &registry(), Key::Char('c'), control());
        assert!(matches!(outcome.action, Action::Quit));
        assert_eq!(app.mode, mode);
    }
}

#[test]
fn keys_of_the_list() {
    let registry = registry();
    let app = app();
    let intent = |key, control| intent_of(&app, &registry, key, control, false);
    assert_eq!(intent(Key::Char('q'), false), Intent::Quit);
    assert_eq!(intent(Key::Char('j'), false), Intent::Next);
    assert_eq!(intent(Key::Down, false), Intent::Next);
    assert_eq!(intent(Key::Char('k'), true), Intent::Previous);
    assert_eq!(intent(Key::Up, false), Intent::Previous);
    assert_eq!(intent(Key::Char('G'), false), Intent::GoToBottom);
    assert_eq!(intent(Key::Char('g'), false), Intent::AwaitG);
    assert_eq!(intent_of(&app, &registry, Key::Char('g'), false, true), Intent::GoToTop);
    assert_eq!(intent(Key::Char('f'), true), Intent::PageDown);
    assert_eq!(intent(Key::PageDown, true), Intent::PageDown);
    assert_eq!(intent(Key::PageDown, false), Intent::Unbound);
    assert_eq!(intent(Key::Char('f'), false), Intent::Unbound);
    assert_eq!(intent(Key::Char('b'), true), Intent::PageUp);
    assert_eq!(intent(Key::PageUp, true), Intent::PageUp);
    assert_eq!(intent(Key::PageUp, false), Intent::Unbound);
    assert_eq!(intent(Key::Char('b'), false), Intent::Back);
    assert_eq!(intent(Key::Backspace, false), Intent::Back);
    assert_eq!(intent(Key::Char('/'), false), Intent::StartFilter);
    assert_eq!(intent(Key::Esc, false), Intent::Unbound);
    assert_eq!(intent(Key::Enter, false), Intent::Describe);
    assert_eq!(intent(Key::Char('d'), false), Intent::Describe);
    assert_eq!(intent(Key::Char('d'), true), Intent::Act(1));
    assert_eq!(intent(Key::Char(':'), false), Intent::CommandMode);
    assert_eq!(intent(Key::Char('?'), false), Intent::Help);
    assert_eq!(intent(Key::Char('R'), false), Intent::Refresh);
    assert_eq!(intent(Key::Char('i'), false), Intent::Drill(0));
    assert_eq!(intent(Key::Char('s'), false), Intent::Act(2));
    assert_eq!(intent(Key::Char('v'), false), Intent::Act(3));
    assert_eq!(intent(Key::Char('z'), false), Intent::Unbound);
    assert_eq!(intent(Key::Tab, false), Intent::Unbound);
    assert_eq!(intent(Key::Other, true), Intent::Unbound);
}

#[test]
fn keys_of_the_list_in_other_states() {
    let registry = registry();
    let mut app = app();
    app.filter_active = true;
    assert_eq!(intent_of(&app, &registry, Key::Esc, false, false), Intent::ClearFilter);
    app.readonly = true;
    assert_eq!(intent_of(&app, &registry, Key::Char('d'), true, false), Intent::Warn);
    assert_eq!(intent_of(&app, &registry, Key::Char('s'), false, false), Intent::Warn);
    // Reading is allowed to a read-only client.
    assert_eq!(intent_of(&app, &registry, Key::Char('v'), false, false), Intent::Act(3));
    app.selected = 7;
    assert_eq!(intent_of(&app, &registry, Key::Char('i'), false, false), Intent::Unbound);
    app.current_resource_key = "one-images".to_string();
    assert_eq!(intent_of(&app, &registry, Key::Char('d'), true, false), Intent::Unbound);
    assert_eq!(intent_of(&app, &registry, Key::Char('s'), false, false), Intent::Unbound);
    app.current_resource_key = "one-unknown".to_string();
    assert_eq!(intent_of(&app, &registry, Key::Char('d'), true, false), Intent::Unbound);
    assert_eq!(intent_of(&app, &registry, Key::Char('i'), false, false), Intent::Unbound);
}

#[test]
fn moving_in_the_list() {
    let mut app = app();
    assert!(matches!(press(&mut app, Key::Char('j')), Action::Nothing));
    assert_eq!(app.selected, 1);
    press(&mut app, Key::Char('G'));
    assert_eq!(app.selected, 2);
    press(&mut app, Key::Up);
    assert_eq!(app.selected, 1);
    let first = handle_key(&mut app, &registry(), Key::Char('g'), plain());
    assert!(first.await_g);
    assert_eq!(app.selected, 1);
    let second = handle_key(
        &mut app,
        &registry(),
        Key::Char('g'),
        KeyContext { control: false, double_g: true, describe_lines: 0 },
    );
    assert!(!second.await_g);
    assert_eq!(app.selected, 0);
    press(&mut app, Key::Char('G'));
    handle_key(&mut app, &registry(), Key::Char('b'), control());
    assert_eq!(app.selected, 0);
    handle_key(&mut app, &registry(), Key::Char('f'), control());
    assert_eq!(app.selected, 2);
    assert!(matches!(press(&mut app, Key::Char('q')), Action::Quit));
    assert!(matches!(press(&mut app, Key::Char('R')), Action::Fetch));
    assert!(matches!(press(&mut app, Key::Char('b')), Action::Nothing));
}

#[test]
fn typing_a_filter() {
    let registry = registry();
    let mut app = app();
    // The key that starts the filter is its first input.
    let outcome = handle_normal_mode(&mut app, &registry, Key::Char('/'), false, false);
    assert!(!outcome.filter_after);
    assert!(app.filter_active);
    assert_eq!(app.filter_text, "/");
    press(&mut app, Key::Backspace);
    assert_eq!(app.filter_text, "");
    assert!(app.filter_active);
    press(&mut app, Key::Char('w'));
    press(&mut app, Key::Char('E'));
    assert_eq!(app.filter_text, "wE");
    assert_eq!(app.filtered_items.len(), 2);
    // A key of the list is carried out and filters as well.
    press(&mut app, Key::Char('j'));
    assert_eq!(app.selected, 0);
    assert_eq!(app.filter_text, "wEj");
    assert!(app.filtered_items.is_empty());
    press(&mut app, Key::Backspace);
    press(&mut app, Key::Backspace);
    assert_eq!(app.filter_text, "w");
    // A fetch goes first: the key is filter input after it.
    let outcome = handle_normal_mode(&mut app, &registry, Key::Char('R'), false, false);
    assert!(matches!(outcome.action, Action::Fetch));
    assert!(outcome.filter_after);
    assert_eq!(app.filter_text, "w");
    filter_input(&mut app, &registry, Key::Char('R'));
    assert_eq!(app.filter_text, "wR");
    // Enter shows the details and ends the input.
    press(&mut app, Key::Backspace);
    press(&mut app, Key::Enter);
    assert!(!app.filter_active);
    assert_eq!(app.mode, Mode::Describe);
    assert_eq!(app.filter_text, "w");
    app.mode = Mode::Normal;
    app.filter_active = true;
    press(&mut app, Key::Esc);
    assert!(!app.filter_active);
    assert_eq!(app.filter_text, "");
    assert_eq!(app.filtered_items.len(), 3);
    filter_input(&mut app, &registry, Key::Tab);
    assert_eq!(app.filter_text, "");
}

#[test]
fn removing_the_last_character() {
    let mut text = "aé".to_string();
    pop_char(&mut text);
    assert_eq!(text, "a");
    pop_char(&mut text);
    pop_char(&mut text);
    assert_eq!(text, "");
}

#[test]
fn shortcuts_of_actions_and_sub_resources() {
    let registry = registry();
    let mut app = app();
    app.selected = 1;
    let outcome = handle_key(&mut app, &registry, Key::Char('s'), plain());
    assert!(matches!(outcome.action, Action::Nothing));
    assert!(!outcome.filter_after);
    assert_eq!(app.mode, Mode::Confirm);
    let pending = app.pending_action.as_ref().unwrap();
    assert_eq!(pending.sdk_method, "stop");
    assert_eq!(pending.resource_id, "2");
    assert_eq!(pending.service, "vm");
    assert_eq!(pending.message, "STOP 'web2'?");

    // An action that asks for no confirmation does nothing.
    let mut app = self::app();
    press(&mut app, Key::Char('r'));
    assert_eq!(app.mode, Mode::Normal);
    assert!(app.pending_action.is_none());

    let mut app = self::app();
    app.filter_active = true;
    let outcome = handle_key(&mut app, &registry, Key::Char('d'), control());
    assert_eq!(app.pending_action.as_ref().unwrap().sdk_method, "terminate");
    assert_eq!(app.filter_text, "");
    assert!(!outcome.filter_after);

    let mut app = self::app();
    app.readonly = true;
    press(&mut app, Key::Char('s'));
    assert_eq!(app.mode, Mode::Warning);
    assert_eq!(app.warning_message, Some("Read-only mode: actions are disabled".to_string()));
    assert!(app.pending_action.is_none());

    let mut app = self::app();
    app.selected = 2;
    assert!(matches!(press(&mut app, Key::Char('i')), Action::Fetch));
    assert_eq!(app.current_resource_key, "one-images");
    assert_eq!(app.parent_context.as_ref().unwrap().display_name, "db");
    assert!(matches!(press(&mut app, Key::Backspace), Action::Fetch));
    assert_eq!(app.current_resource_key, "one-vms");

    let mut app = self::app();
    assert!(matches!(carry_out(&mut app, &registry, Intent::Drill(5)), Action::Nothing));
    assert!(matches!(carry_out(&mut app, &registry, Intent::Act(9)), Action::Nothing));
    assert_eq!(app.mode, Mode::Normal);
}

#[test]
fn the_command_line() {
    let registry = registry();
    let mut app = app();
    press(&mut app, Key::Char(':'));
    assert_eq!(app.mode, Mode::Command);
    assert_eq!(app.command_suggestions, vec!["one-images", "one-vms"]);
    press(&mut app, Key::Char('V'));
    assert_eq!(app.command_text, "V");
    assert_eq!(app.command_suggestions, vec!["one-vms"]);
    press(&mut app, Key::Backspace);
    assert_eq!(app.command_text, "");
    assert_eq!(app.command_suggestions.len(), 2);
    press(&mut app, Key::Tab);
    assert_eq!(app.command_preview, Some("one-vms".to_string()));
    press(&mut app, Key::BackTab);
    assert_eq!(app.command_preview, Some("one-images".to_string()));
    press(&mut app, Key::Down);
    press(&mut app, Key::Up);
    press(&mut app, Key::Right);
    assert_eq!(app.command_text, "one-images");
    assert!(matches!(handle_command_mode(&mut app, &registry, Key::Left), Action::Nothing));
    app.selected = 9;
    assert!(matches!(press(&mut app, Key::Enter), Action::Fetch));
    assert_eq!(app.mode, Mode::Normal);
    assert_eq!(app.current_resource_key, "one-images");

    press(&mut app, Key::Char(':'));
    press(&mut app, Key::Char('q'));
    assert!(matches!(press(&mut app, Key::Enter), Action::Quit));
    press(&mut app, Key::Char(':'));
    press(&mut app, Key::Char('x'));
    assert!(matches!(press(&mut app, Key::Enter), Action::Nothing));
    assert_eq!(app.error_message, Some("Unknown command: x".to_string()));
    assert_eq!(app.mode, Mode::Normal);
    press(&mut app, Key::Char(':'));
    press(&mut app, Key::Esc);
    assert_eq!(app.mode, Mode::Normal);
}

#[test]
fn help_and_warning() {
    for key in [Key::Esc, Key::Enter, Key::Char('q'), Key::Char('?')] {
        let mut app = app();
        app.mode = Mode::Help;
        handle_help_mode(&mut app, key);
        assert_eq!(app.mode, Mode::Normal);
    }
    let mut app = app();
    press(&mut app, Key::Char('?'));
    assert_eq!(app.mode, Mode::Help);
    press(&mut app, Key::Char('j'));
    assert_eq!(app.mode, Mode::Help);
    assert_eq!(app.selected, 0);

    for key in [Key::Esc, Key::Enter, Key::Char('q')] {
        let mut app = self::app();
        app.show_warning("w");
        handle_warning_mode(&mut app, key);
        assert_eq!(app.mode, Mode::Normal);
        assert!(app.warning_message.is_none());
    }
    let mut app = self::app();
    app.show_warning("w");
    press(&mut app, Key::Char('?'));
    assert_eq!(app.mode, Mode::Warning);
    assert!(app.warning_message.is_some());
}

#[test]
fn scrolling_the_details() {
    let mut app = app();
    press(&mut app, Key::Enter);
    assert_eq!(app.mode, Mode::Describe);
    handle_describe_mode(&mut app, Key::Char('j'), false, 50);
    handle_describe_mode(&mut app, Key::Down, false, 50);
    assert_eq!(app.describe_scroll, 2);
    handle_describe_mode(&mut app, Key::Char('k'), false, 50);
    assert_eq!(app.describe_scroll, 1);
    handle_describe_mode(&mut app, Key::Up, false, 50);
    handle_describe_mode(&mut app, Key::Up, false, 50);
    assert_eq!(app.describe_scroll, 0);
    handle_describe_mode(&mut app, Key::Char('f'), true, 50);
    assert_eq!(app.describe_scroll, 20);
    handle_describe_mode(&mut app, Key::PageDown, true, 50);
    assert_eq!(app.describe_scroll, 40);
    handle_describe_mode(&mut app, Key::PageDown, false, 50);
    handle_describe_mode(&mut app, Key::Char('f'), false, 50);
    assert_eq!(app.describe_scroll, 40);
    handle_describe_mode(&mut app, Key::Char('b'), true, 50);
    assert_eq!(app.describe_scroll, 20);
    handle_describe_mode(&mut app, Key::PageUp, true, 50);
    handle_describe_mode(&mut app, Key::PageUp, true, 50);
    assert_eq!(app.describe_scroll, 0);
    handle_describe_mode(&mut app, Key::Char('G'), false, 50);
    assert_eq!(app.describe_scroll, 30);
    handle_describe_mode(&mut app, Key::Char('G'), false, 5);
    assert_eq!(app.describe_scroll, 0);
    app.describe_scroll = usize::MAX;
    handle_describe_mode(&mut app, Key::Char('j'), false, 5);
    assert_eq!(app.describe_scroll, usize::MAX);
    handle_describe_mode(&mut app, Key::Char('g'), false, 5);
    assert_eq!(app.describe_scroll, 0);
    let outcome = handle_key(
        &mut app,
        &registry(),
        Key::Char('G'),
        KeyContext { control: false, double_g: false, describe_lines: 25 },
    );
    assert!(matches!(outcome.action, Action::Nothing));
    assert_eq!(app.describe_scroll, 5);
    for key in [Key::Esc, Key::Char('q'), Key::Char('d')] {
        app.mode = Mode::Describe;
        handle_describe_mode(&mut app, key, false, 5);
        assert_eq!(app.mode, Mode::Normal);
        assert!(app.describe_data.is_none());
    }
}

fn pending(service: &str, method: &str, id: &str, selected_yes: bool) -> PendingAction {
    PendingAction {
        service: service.to_string(),
        sdk_method: method.to_string(),
        resource_id: id.to_string(),
        message: "Sure?".to_string(),
        default_no: !selected_yes,
        destructive: false,
        selected_yes,
    }
}

fn sent(action: Action) -> String {
    match action {
        Action::Send(call) => format!("{} {:?}", call.method, call.params),
        other => format!("{:?}", other),
    }
}

#[test]
fn confirming_an_action() {
    let mut app = app();
    app.enter_confirm_mode(pending("vm", "terminate", "12", false));
    // Enter on the no button leaves without acting.
    assert_eq!(sent(handle_confirm_mode(&mut app, Key::Enter)), "Nothing");
    assert_eq!(app.mode, Mode::Normal);
    assert!(app.pending_action.is_none());
    assert!(!app.loading);

    app.enter_confirm_mode(pending("vm", "terminate", "12", false));
    handle_confirm_mode(&mut app, Key::Tab);
    assert!(app.pending_action.as_ref().unwrap().selected_yes);
    handle_confirm_mode(&mut app, Key::Left);
    assert!(!app.pending_action.as_ref().unwrap().selected_yes);
    handle_confirm_mode(&mut app, Key::Right);
    handle_confirm_mode(&mut app, Key::Char('x'));
    assert_eq!(app.mode, Mode::Confirm);
    assert_eq!(
        sent(handle_confirm_mode(&mut app, Key::Enter)),
        "one.vm.action [String(\"terminate\"), Int(12)]"
    );
    assert_eq!(app.mode, Mode::Normal);
    assert!(app.pending_action.is_none());
    assert!(app.loading);

    for key in [Key::Char('y'), Key::Char('Y')] {
        let mut app = self::app();
        app.enter_confirm_mode(pending("vm", "hold", "7", false));
        assert_eq!(sent(press(&mut app, key)), "one.vm.action [String(\"hold\"), Int(7)]");
        assert_eq!(app.mode, Mode::Normal);
    }
    for key in [Key::Esc, Key::Char('n'), Key::Char('N')] {
        let mut app = self::app();
        app.enter_confirm_mode(pending("vm", "hold", "7", true));
        assert_eq!(sent(press(&mut app, key)), "Nothing");
        assert_eq!(app.mode, Mode::Normal);
        assert!(app.pending_action.is_none());
    }
}

#[test]
fn starting_and_finishing_an_action() {
    let mut app = app();
    assert_eq!(sent(start_action(&mut app)), "Nothing");
    // An identifier that is no integer counts as zero.
    app.pending_action = Some(pending("vm", "stop", "x3", true));
    assert_eq!(sent(start_action(&mut app)), "one.vm.action [String(\"stop\"), Int(0)]");
    assert!(app.loading);
    assert!(app.pending_action.is_none());
    assert!(finish_action(&mut app, Ok(())));
    assert!(app.loading);
    assert!(app.error_message.is_none());
    assert!(!finish_action(&mut app, Err(ApiError::Remote("timeout".to_string()))));
    assert!(!app.loading);
    assert_eq!(
        app.error_message,
        Some("Request timed out. Server may be unreachable.".to_string())
    );

    // An action that resolves to no call never reaches the host.
    let mut app = self::app();
    app.pending_action = Some(pending("vm", "explode", "1", true));
    assert_eq!(sent(start_action(&mut app)), "Nothing");
    assert_eq!(app.error_message, Some("Unknown VM method: explode".to_string()));
    assert!(!app.loading);
    let mut app = self::app();
    app.pending_action = Some(pending("mv", "stop", "1", true));
    assert_eq!(sent(handle_confirm_mode(&mut app, Key::Char('y'))), "Nothing");
    assert_eq!(app.error_message, Some("Unknown service: mv".to_string()));
    assert_eq!(app.mode, Mode::Normal);
}
