use evdev::KeyCode as Key;
use evdev::RelativeAxisCode;
use std::rc::Rc;
use std::ops::Not;
use std::str::FromStr;
use std::time::{Duration, Instant};
use xremap::action::Action;
use xremap::event::{Event, InputDeviceInfo, KeyEvent, RelativeEvent};
use xremap::event_handler::EventHandler;
use xremap::keymap::{
    Config, KeyPress, Keymap, KeymapAction, Modifier, Modmap, ModmapAction, MultiPurposeKey, OnlyOrNot,
    PressReleaseKey, Remap,
};
use xremap::keymap_table::build_keymap_table;
use xremap::keys::KeyValue;
use xremap::main_controller::WMClient;

// ---------------------------------------------------------------------------
// A small reader for the configuration snippets of the tests (a subset of
// YAML: block mappings and sequences, flow sequences and mappings, scalars).

#[derive(Debug, Clone)]
enum Y {
    Null,
    Str(String),
    List(Vec<Y>),
    Table(Vec<(String, Y)>),
}

impl Y {
    fn get(&self, key: &str) -> Option<&Y> {
        match self {
            Y::Table(entries) => entries.iter().find(|(k, _)| k == key).map(|(_, v)| v),
            _ => None,
        }
    }
    fn str(&self) -> String {
        match self {
            Y::Str(s) => s.clone(),
            other => panic!("not a scalar: {:?}", other),
        }
    }
    fn list(&self) -> Vec<Y> {
        match self {
            Y::List(v) => v.clone(),
            Y::Null => vec![],
            other => vec![other.clone()],
        }
    }
}

struct Line {
    indent: usize,
    text: String,
}

fn parse_yaml(src: &str) -> Y {
    let lines: Vec<Line> = src
        .lines()
        .filter(|l| !l.trim().is_empty() && !l.trim_start().starts_with('#'))
        .map(|l| Line { indent: l.len() - l.trim_start().len(), text: l.trim().to_string() })
        .collect();
    if lines.is_empty() {
        return Y::Table(vec![]);
    }
    let mut pos = 0;
    let indent = lines[0].indent;
    parse_block(&lines, &mut pos, indent)
}

fn parse_block(lines: &[Line], pos: &mut usize, indent: usize) -> Y {
    if lines[*pos].text.starts_with("- ") || lines[*pos].text == "-" {
        let mut items = vec![];
        while *pos < lines.len() && lines[*pos].indent == indent && lines[*pos].text.starts_with('-') {
            let rest = lines[*pos].text[1..].trim().to_string();
            if rest.is_empty() {
                *pos += 1;
                items.push(parse_block(lines, pos, lines[*pos].indent));
            } else if is_map_entry(&rest) {
                // A mapping that starts on the line of the dash.
                let inner = indent + (lines[*pos].text.len() - rest.len());
                let mut entries = vec![];
                let (k, v) = split_entry(&rest);
                *pos += 1;
                entries.push((k, entry_value(lines, pos, &v, inner)));
                while *pos < lines.len() && lines[*pos].indent == inner && !lines[*pos].text.starts_with("- ") {
                    let (k, v) = split_entry(&lines[*pos].text.clone());
                    *pos += 1;
                    entries.push((k, entry_value(lines, pos, &v, inner)));
                }
                items.push(Y::Table(entries));
            } else {
                *pos += 1;
                items.push(parse_scalar(&rest));
            }
        }
        Y::List(items)
    } else {
        let mut entries = vec![];
        while *pos < lines.len() && lines[*pos].indent == indent {
            let (k, v) = split_entry(&lines[*pos].text.clone());
            *pos += 1;
            entries.push((k, entry_value(lines, pos, &v, indent)));
        }
        Y::Table(entries)
    }
}

fn entry_value(lines: &[Line], pos: &mut usize, v: &str, indent: usize) -> Y {
    if v.is_empty() {
        if *pos < lines.len() && lines[*pos].indent > indent {
            let inner = lines[*pos].indent;
            parse_block(lines, pos, inner)
        } else if *pos < lines.len() && lines[*pos].indent == indent && lines[*pos].text.starts_with("- ") {
            parse_block(lines, pos, indent)
        } else {
            Y::Null
        }
    } else {
        parse_scalar(v)
    }
}

fn is_map_entry(s: &str) -> bool {
    !s.starts_with('[') && !s.starts_with('{') && s.contains(": ") || s.ends_with(':')
}

fn split_entry(s: &str) -> (String, String) {
    match s.find(": ") {
        Some(i) => (s[..i].trim().to_string(), s[i + 2..].trim().to_string()),
        None => (s.trim_end_matches(':').trim().to_string(), String::new()),
    }
}

fn parse_scalar(s: &str) -> Y {
    let s = s.trim();
    if s.starts_with('[') || s.starts_with('{') {
        let chars: Vec<char> = s.chars().collect();
        let mut i = 0;
        parse_flow(&chars, &mut i)
    } else if s == "null" || s == "~" {
        Y::Null
    } else {
        Y::Str(s.trim_matches('"').trim_matches('\'').to_string())
    }
}

fn parse_flow(c: &[char], i: &mut usize) -> Y {
    skip_ws(c, i);
    if c[*i] == '[' {
        *i += 1;
        let mut items = vec![];
        loop {
            skip_ws(c, i);
            if c[*i] == ']' {
                *i += 1;
                break;
            }
            items.push(parse_flow(c, i));
            skip_ws(c, i);
            if c[*i] == ',' {
                *i += 1;
            }
        }
        Y::List(items)
    } else if c[*i] == '{' {
        *i += 1;
        let mut entries = vec![];
        loop {
            skip_ws(c, i);
            if c[*i] == '}' {
                *i += 1;
                break;
            }
            let mut key = String::new();
            while c[*i] != ':' {
                key.push(c[*i]);
                *i += 1;
            }
            *i += 1;
            let value = parse_flow(c, i);
            entries.push((key.trim().to_string(), value));
            skip_ws(c, i);
            if c[*i] == ',' {
                *i += 1;
            }
        }
        Y::Table(entries)
    } else {
        let mut word = String::new();
        while *i < c.len() && c[*i] != ',' && c[*i] != ']' && c[*i] != '}' {
            word.push(c[*i]);
            *i += 1;
        }
        parse_scalar(&word)
    }
}

fn skip_ws(c: &[char], i: &mut usize) {
    while *i < c.len() && c[*i] == ' ' {
        *i += 1;
    }
}

// ---------------------------------------------------------------------------
// Key names and key combinations.

const OFFSET: u16 = 59974;

fn key_code(name: &str) -> u16 {
    let upper = name.to_uppercase();
    let alias = match upper.as_str() {
        "SHIFT_L" | "S_L" => Some(Key::KEY_LEFTSHIFT),
        "SHIFT_R" | "S_R" => Some(Key::KEY_RIGHTSHIFT),
        "CONTROL_L" | "CTRL_L" | "C_L" => Some(Key::KEY_LEFTCTRL),
        "CONTROL_R" | "CTRL_R" | "C_R" => Some(Key::KEY_RIGHTCTRL),
        "ALT_L" | "A_L" | "M_L" => Some(Key::KEY_LEFTALT),
        "ALT_R" | "A_R" | "M_R" => Some(Key::KEY_RIGHTALT),
        "SUPER_L" | "WIN_L" | "W_L" => Some(Key::KEY_LEFTMETA),
        "SUPER_R" | "WIN_R" | "W_R" => Some(Key::KEY_RIGHTMETA),
        _ => None,
    };
    if let Some(k) = alias {
        return k.code();
    }
    let disguised = match upper.as_str() {
        "XRIGHTCURSOR" => Some(0),
        "XLEFTCURSOR" => Some(1),
        "XDOWNCURSOR" => Some(2),
        "XUPCURSOR" => Some(3),
        "XRIGHTSCROLL" => Some(12),
        "XLEFTSCROLL" => Some(13),
        "XUPSCROLL" => Some(16),
        "XDOWNSCROLL" => Some(17),
        "ANY" => Some(26),
        _ => None,
    };
    if let Some(d) = disguised {
        return OFFSET + d;
    }
    let full = if upper.starts_with("KEY_") || upper.starts_with("BTN_") { upper } else { format!("KEY_{}", upper) };
    Key::from_str(&full).unwrap_or_else(|_| panic!("unknown key {}", name)).code()
}

fn key_press(s: &str) -> KeyPress {
    let parts: Vec<&str> = s.split('-').collect();
    let (mods, key) = parts.split_at(parts.len() - 1);
    let modifiers = mods
        .iter()
        .map(|m| match m.to_uppercase().as_str() {
            "SHIFT" | "S" => Modifier::Shift,
            "C" | "CTRL" | "CONTROL" => Modifier::Control,
            "M" | "ALT" => Modifier::Alt,
            "SUPER" | "WIN" | "WINDOWS" => Modifier::Windows,
            _ => Modifier::Key(key_code(m)),
        })
        .collect();
    KeyPress { key: key_code(key[0]), modifiers }
}

fn keys_of(y: &Y) -> Vec<u16> {
    y.list().iter().map(|k| key_code(&k.str())).collect()
}

// ---------------------------------------------------------------------------
// From the snippet to the configuration.

fn matcher(y: Option<&Y>) -> Option<OnlyOrNot> {
    y.map(|m| OnlyOrNot {
        only: m.get("only").map(|v| v.list().iter().map(|s| s.str()).collect()),
        not: m.get("not").map(|v| v.list().iter().map(|s| s.str()).collect()),
    })
}

fn modes(y: Option<&Y>) -> Option<Vec<String>> {
    y.map(|m| m.list().iter().map(|s| s.str()).collect())
}

fn actions(y: &Y) -> Vec<KeymapAction> {
    match y {
        Y::Null => vec![],
        Y::List(items) => items.iter().flat_map(actions).collect(),
        Y::Str(s) => vec![KeymapAction::KeyPressAndRelease(key_press(s))],
        Y::Table(_) => vec![action(y)],
    }
}

fn action(y: &Y) -> KeymapAction {
    if let Some(r) = y.get("remap") {
        let timeout_ms = y.get("timeout_millis").map(|t| t.str().parse().unwrap());
        let timeout_key = y.get("timeout_key").map(keys_of);
        return KeymapAction::Remap(Rc::new(Remap { remap: remap_table(r), timeout_ms, timeout_key }));
    }
    if let Some(c) = y.get("launch") {
        return KeymapAction::Launch(c.list().iter().map(|s| s.str()).collect());
    }
    if let Some(m) = y.get("set_mode") {
        return KeymapAction::SetMode(m.str());
    }
    if let Some(b) = y.get("set_mark") {
        return KeymapAction::SetMark(b.str() == "true");
    }
    if let Some(k) = y.get("with_mark") {
        return KeymapAction::WithMark(key_press(&k.str()));
    }
    if let Some(b) = y.get("escape_next_key") {
        return KeymapAction::EscapeNextKey(b.str() == "true");
    }
    if let Some(ms) = y.get("sleep") {
        return KeymapAction::Sleep(ms.str().parse().unwrap());
    }
    if let Some(k) = y.get("press") {
        return KeymapAction::KeyPress(key_code(&k.str()));
    }
    if let Some(k) = y.get("release") {
        return KeymapAction::KeyRelease(key_code(&k.str()));
    }
    if let Some(k) = y.get("repeat") {
        return KeymapAction::KeyRepeat(key_code(&k.str()));
    }
    panic!("unknown keymap action {:?}", y)
}

fn remap_table(y: &Y) -> Vec<(KeyPress, Vec<KeymapAction>)> {
    match y {
        Y::Table(entries) => entries.iter().map(|(k, v)| (key_press(k), actions(v))).collect(),
        _ => vec![],
    }
}

fn modmap_action(y: &Y) -> ModmapAction {
    match y {
        Y::Str(s) => ModmapAction::Key(key_code(s)),
        Y::List(_) => ModmapAction::Keys(keys_of(y)),
        Y::Table(_) => {
            if let Some(held) = y.get("held") {
                ModmapAction::MultiPurposeKey(MultiPurposeKey {
                    held: keys_of(held),
                    alone: keys_of(y.get("alone").unwrap_or(&Y::Null)),
                    alone_timeout_ms: y.get("alone_timeout_millis").map(|t| t.str().parse().unwrap()).unwrap_or(1000),
                    free_hold: y.get("free_hold").map(|b| b.str() == "true").unwrap_or(false),
                })
            } else {
                let list = |name: &str| y.get(name).map(actions).unwrap_or_default();
                ModmapAction::PressReleaseKey(PressReleaseKey {
                    skip_key_event: y.get("skip_key_event").map(|b| b.str() == "true").unwrap_or(false),
                    press: list("press"),
                    repeat: list("repeat"),
                    release: list("release"),
                })
            }
        },
        Y::Null => panic!("empty modmap rule"),
    }
}

/// A multi-purpose rule needs both `held` and `alone`; one without either is
/// left out of the configuration.
fn incomplete_multipurpose(y: &Y) -> bool {
    y.get("held").is_some() != y.get("alone").is_some()
}

fn config_of(src: &str) -> Config {
    let y = parse_yaml(src);
    let modmap: Vec<Modmap> = y
        .get("modmap")
        .map(|m| m.list())
        .unwrap_or_default()
        .iter()
        .map(|block| Modmap {
            name: block.get("name").map(|n| n.str()).unwrap_or_default(),
            remap: match block.get("remap") {
                Some(Y::Table(entries)) => entries
                    .iter()
                    .filter(|(_, v)| incomplete_multipurpose(v).not())
                    .map(|(k, v)| (key_code(k), modmap_action(v)))
                    .collect(),
                _ => vec![],
            },
            application: matcher(block.get("application")),
            window: matcher(block.get("window")),
            device: matcher(block.get("device")),
            mode: modes(block.get("mode")),
        })
        .collect();
    let keymap: Vec<Keymap> = y
        .get("keymap")
        .map(|m| m.list())
        .unwrap_or_default()
        .iter()
        .map(|block| Keymap {
            name: block.get("name").map(|n| n.str()).unwrap_or_default(),
            remap: block.get("remap").map(remap_table).unwrap_or_default(),
            application: matcher(block.get("application")),
            window: matcher(block.get("window")),
            device: matcher(block.get("device")),
            mode: modes(block.get("mode")),
            exact_match: block.get("exact_match").map(|b| b.str() == "true").unwrap_or(false),
        })
        .collect();
    let keymap_table = build_keymap_table(&keymap);
    Config {
        modmap,
        keymap,
        keymap_table,
        virtual_modifiers: y.get("virtual_modifiers").map(keys_of).unwrap_or_default(),
        default_mode: y.get("default_mode").map(|m| m.str()).unwrap_or("default".to_string()),
        keypress_delay_ms: 0,
        experimental_map: vec![],
        throttle_ms: 0,
        notifications: false,
        enable_wheel: false,
    }
}

// ---------------------------------------------------------------------------
// Events, actions and the handler under test.

fn get_input_device_info() -> Rc<InputDeviceInfo> {
    Rc::new(InputDeviceInfo {
        name: "Some Device".into(),
        path: "/dev/input/event0".into(),
        vendor: 0x1234,
        product: 0x5678,
    })
}

fn press(key: Key) -> Event {
    Event::key_press(get_input_device_info(), key.code())
}

fn release(key: Key) -> Event {
    Event::key_release(get_input_device_info(), key.code())
}

#[allow(dead_code)]
fn repeat(key: Key) -> Event {
    Event::key_repeat(get_input_device_info(), key.code())
}

#[allow(dead_code)]
fn relative(code: u16, value: i32) -> Event {
    Event::relative(get_input_device_info(), code, value)
}

fn ke(key: Key, value: KeyValue) -> Action {
    Action::KeyEvent(KeyEvent::new(key.code(), value))
}

#[allow(dead_code)]
fn sleep(d: Duration) {
    let start = Instant::now();
    while start.elapsed() <= d {}
}

struct EventHandlerForTest {
    event_handler: EventHandler,
    config: Config,
    wmclient: WMClient,
}

impl EventHandlerForTest {
    fn new(config_yaml: &str) -> Self {
        Self::new_with_current_application(config_yaml, None)
    }

    fn new_with_current_application(config_yaml: &str, current_application: Option<String>) -> Self {
        let config = config_of(config_yaml);
        let event_handler = EventHandler::new(&config.default_mode, 0);
        let mut wmclient = WMClient::new(false);
        wmclient.current_application = current_application;
        Self { event_handler, config, wmclient }
    }

    fn check(&mut self, events: Vec<Event>, actions: Vec<Action>) {
        assert_eq!(
            format!("{actions:?}"),
            format!("{:?}", self.event_handler.on_events(&events, &self.config, &self.wmclient))
        );
    }
}

fn assert_actions(config_yaml: &str, events: Vec<Event>, actions: Vec<Action>) {
    EventHandlerForTest::new(config_yaml).check(events, actions);
}

#[allow(dead_code)]
fn assert_actions_with_current_application(
    config_yaml: &str,
    current_application: Option<String>,
    events: Vec<Event>,
    actions: Vec<Action>,
) {
    EventHandlerForTest::new_with_current_application(config_yaml, current_application).check(events, actions);
}

#[test]
fn test_mouse_movement_event_accumulation() {
    assert_actions(
        "",
        vec![
            relative(RelativeAxisCode::REL_X.0, 1),
            relative(RelativeAxisCode::REL_Y.0, 1),
        ],
        vec![Action::MouseMovementEventCollection(vec![
            RelativeEvent::new_with(RelativeAxisCode::REL_X.0, 1),
            RelativeEvent::new_with(RelativeAxisCode::REL_Y.0, 1),
        ])],
    )
}

#[test]
fn test_interleave_modifiers() {
    assert_actions(
        "
        keymap:
          - remap:
              M-f: C-right
        ",
        vec![press(Key::KEY_LEFTALT), press(Key::KEY_F)],
        vec![
            ke(Key::KEY_LEFTALT, KeyValue::Press),
            ke(Key::KEY_LEFTCTRL, KeyValue::Press),
            ke(Key::KEY_LEFTALT, KeyValue::Release),
            ke(Key::KEY_RIGHT, KeyValue::Press),
            ke(Key::KEY_RIGHT, KeyValue::Release),
            Action::Delay(0),
            ke(Key::KEY_LEFTALT, KeyValue::Press),
            Action::Delay(0),
            ke(Key::KEY_LEFTCTRL, KeyValue::Release),
        ],
    )
}

#[test]
fn test_exact_match_true() {
    assert_actions(
        "
        keymap:
          - exact_match: true
            remap:
              M-f: C-right
        ",
        vec![
            press(Key::KEY_LEFTALT),
            press(Key::KEY_LEFTSHIFT),
            press(Key::KEY_F),
        ],
        vec![
            ke(Key::KEY_LEFTALT, KeyValue::Press),
            ke(Key::KEY_LEFTSHIFT, KeyValue::Press),
            ke(Key::KEY_F, KeyValue::Press),
        ],
    )
}

#[test]
fn test_exact_match_false() {
    assert_actions(
        "
        keymap:
          - exact_match: false
            remap:
              M-f: C-right
        ",
        vec![
            press(Key::KEY_LEFTALT),
            press(Key::KEY_LEFTSHIFT),
            press(Key::KEY_F),
        ],
        vec![
            ke(Key::KEY_LEFTALT, KeyValue::Press),
            ke(Key::KEY_LEFTSHIFT, KeyValue::Press),
            ke(Key::KEY_LEFTCTRL, KeyValue::Press),
            ke(Key::KEY_LEFTALT, KeyValue::Release),
            ke(Key::KEY_RIGHT, KeyValue::Press),
            ke(Key::KEY_RIGHT, KeyValue::Release),
            Action::Delay(0),
            ke(Key::KEY_LEFTALT, KeyValue::Press),
            Action::Delay(0),
            ke(Key::KEY_LEFTCTRL, KeyValue::Release),
        ],
    )
}

#[test]
fn test_exact_match_default() {
    assert_actions(
        "
        keymap:
          - remap:
              M-f: C-right
        ",
        vec![
            press(Key::KEY_LEFTALT),
            press(Key::KEY_LEFTSHIFT),
            press(Key::KEY_F),
        ],
        vec![
            ke(Key::KEY_LEFTALT, KeyValue::Press),
            ke(Key::KEY_LEFTSHIFT, KeyValue::Press),
            ke(Key::KEY_LEFTCTRL, KeyValue::Press),
            ke(Key::KEY_LEFTALT, KeyValue::Release),
            ke(Key::KEY_RIGHT, KeyValue::Press),
            ke(Key::KEY_RIGHT, KeyValue::Release),
            Action::Delay(0),
            ke(Key::KEY_LEFTALT, KeyValue::Press),
            Action::Delay(0),
            ke(Key::KEY_LEFTCTRL, KeyValue::Release),
        ],
    )
}

#[test]
fn test_keymaps_are_merged() {
    assert_actions(
        "
        keymap:
          - remap:
              a: b
          - remap:
              c: d
        ",
        vec![
            press(Key::KEY_A),
            release(Key::KEY_A),
            press(Key::KEY_C),
            release(Key::KEY_C),
        ],
        vec![
            ke(Key::KEY_B, KeyValue::Press),
            ke(Key::KEY_B, KeyValue::Release),
            Action::Delay(0),
            Action::Delay(0),
            ke(Key::KEY_A, KeyValue::Release),
            ke(Key::KEY_D, KeyValue::Press),
            ke(Key::KEY_D, KeyValue::Release),
            Action::Delay(0),
            Action::Delay(0),
            ke(Key::KEY_C, KeyValue::Release),
        ],
    );
}

#[test]
fn test_keymap_merge_gives_precedence_to_first() {
    assert_actions(
        "
        keymap:
          - remap:
              a: b
          - remap:
              a: c
        ",
        vec![press(Key::KEY_A), release(Key::KEY_A)],
        vec![
            ke(Key::KEY_B, KeyValue::Press),
            ke(Key::KEY_B, KeyValue::Release),
            Action::Delay(0),
            Action::Delay(0),
            ke(Key::KEY_A, KeyValue::Release),
        ],
    );
}

#[test]
fn test_keymap_emit_is_not_used_in_subsequent_remaps() {
    assert_actions(
        "
        keymap:
            - remap:
                a: b
            - remap:
                b: c
        ",
        vec![press(Key::KEY_A), release(Key::KEY_A)],
        vec![
            ke(Key::KEY_B, KeyValue::Press),
            ke(Key::KEY_B, KeyValue::Release),
            Action::Delay(0),
            Action::Delay(0),
            ke(Key::KEY_A, KeyValue::Release),
        ],
    )
}

#[test]
fn test_application_override() {
    let config = "
        keymap:

          - name: firefox
            application:
              only: [firefox]
            remap:
              a: C-c

          - name: generic
            remap:
              a: C-b
    ";

    assert_actions(
        config,
        vec![press(Key::KEY_A)],
        vec![
            ke(Key::KEY_LEFTCTRL, KeyValue::Press),
            ke(Key::KEY_B, KeyValue::Press),
            ke(Key::KEY_B, KeyValue::Release),
            Action::Delay(0),
            Action::Delay(0),
            ke(Key::KEY_LEFTCTRL, KeyValue::Release),
        ],
    );

    assert_actions_with_current_application(
        config,
        Some(String::from("firefox")),
        vec![press(Key::KEY_A)],
        vec![
            ke(Key::KEY_LEFTCTRL, KeyValue::Press),
            ke(Key::KEY_C, KeyValue::Press),
            ke(Key::KEY_C, KeyValue::Release),
            Action::Delay(0),
            Action::Delay(0),
            ke(Key::KEY_LEFTCTRL, KeyValue::Release),
        ],
    );
}

#[test]
fn test_device_override() {
    let config = "
        keymap:

          - name: event1
            device:
              only: [event1]
            remap:
              a: C-c

          - name: event0
            remap:
              a: C-b
    ";

    assert_actions(
        config,
        vec![Event::KeyEvent(
            Rc::new(InputDeviceInfo {
                name: "Some Device".into(),
                path: "/dev/input/event0".into(),
                vendor: 0x1234,
                product: 0x5678,
            }),
            KeyEvent::new(Key::KEY_A.code(), KeyValue::Press),
        )],
        vec![
            ke(Key::KEY_LEFTCTRL, KeyValue::Press),
            ke(Key::KEY_B, KeyValue::Press),
            ke(Key::KEY_B, KeyValue::Release),
            Action::Delay(0),
            Action::Delay(0),
            ke(Key::KEY_LEFTCTRL, KeyValue::Release),
        ],
    );

    assert_actions(
        config,
        vec![Event::KeyEvent(
            Rc::new(InputDeviceInfo {
                name: "Other Device".into(),
                path: "/dev/input/event1".into(),
                vendor: 0x1234,
                product: 0x5678,
            }),
            KeyEvent::new(Key::KEY_A.code(), KeyValue::Press),
        )],
        vec![
            ke(Key::KEY_LEFTCTRL, KeyValue::Press),
            ke(Key::KEY_C, KeyValue::Press),
            ke(Key::KEY_C, KeyValue::Release),
            Action::Delay(0),
            Action::Delay(0),
            ke(Key::KEY_LEFTCTRL, KeyValue::Release),
        ],
    );
}

#[test]
fn test_no_keymap_action() {
    assert_actions(
        "
        keymap:
          - remap:
              f12: []
        ",
        vec![press(Key::KEY_F12), release(Key::KEY_F12)],
        vec![
            //This is just release, so the key is not emitted.
            ke(Key::KEY_F12, KeyValue::Release),
        ],
    );

    //Same test with the null keyword
    assert_actions(
        "
        keymap:
          - remap:
              f12: null
        ",
        vec![press(Key::KEY_F12), release(Key::KEY_F12)],
        vec![ke(Key::KEY_F12, KeyValue::Release)],
    )
}

#[test]
fn test_keymap_with_modifier_alone_is_not_supported() {
    assert_actions(
        "
        keymap:
          - remap:
              C_L: end
        ",
        vec![press(Key::KEY_LEFTCTRL)],
        vec![ke(Key::KEY_LEFTCTRL, KeyValue::Press)],
    )
}

#[test]
fn test_keymap_modifier_spuriously_pressed() {
    assert_actions(
        "
        keymap:
            - remap:
                c_l-s: k
        ",
        vec![
            press(Key::KEY_LEFTCTRL),
            // Pressing a second time is an input error, but it can easily happen when doing remapping.
            press(Key::KEY_LEFTCTRL),
            press(Key::KEY_S),
        ],
        vec![
            ke(Key::KEY_LEFTCTRL, KeyValue::Press),
            ke(Key::KEY_LEFTCTRL, KeyValue::Press),
            ke(Key::KEY_LEFTCTRL, KeyValue::Release),
            ke(Key::KEY_K, KeyValue::Press),
            ke(Key::KEY_K, KeyValue::Release),
            Action::Delay(0),
            ke(Key::KEY_LEFTCTRL, KeyValue::Press),
            Action::Delay(0),
        ],
    )
}

#[test]
fn test_keymap_modifiers_are_released_in_order_of_pressed() {
    assert_actions(
        "
        keymap:
            - remap:
                c_l-w_l-s: k
        ",
        vec![
            press(Key::KEY_LEFTCTRL),
            press(Key::KEY_LEFTMETA),
            press(Key::KEY_S),
        ],
        vec![
            ke(Key::KEY_LEFTCTRL, KeyValue::Press),
            ke(Key::KEY_LEFTMETA, KeyValue::Press),
            ke(Key::KEY_LEFTCTRL, KeyValue::Release),
            ke(Key::KEY_LEFTMETA, KeyValue::Release),
            ke(Key::KEY_K, KeyValue::Press),
            ke(Key::KEY_K, KeyValue::Release),
            Action::Delay(0),
            ke(Key::KEY_LEFTCTRL, KeyValue::Press),
            ke(Key::KEY_LEFTMETA, KeyValue::Press),
            Action::Delay(0),
        ],
    )
}

#[test]
fn test_keymap_press_release_repeat_only_actions() {
    assert_actions(
        "
        keymap:
            - remap:
                capslock:
                    - { press: A}
                    - { release: B}
                    - { repeat: C}
        ",
        vec![press(Key::KEY_CAPSLOCK)],
        vec![
            ke(Key::KEY_A, KeyValue::Press),
            ke(Key::KEY_B, KeyValue::Release),
            ke(Key::KEY_C, KeyValue::Repeat),
        ],
    )
}

#[test]
fn test_any_key() {
    assert_actions(
        "
        keymap:
          - remap:
              a: b
              ANY: null
        ",
        vec![
            press(Key::KEY_A),
            release(Key::KEY_A),
            press(Key::KEY_C),
            release(Key::KEY_C),
        ],
        vec![
            ke(Key::KEY_B, KeyValue::Press),
            ke(Key::KEY_B, KeyValue::Release),
            Action::Delay(0),
            Action::Delay(0),
            ke(Key::KEY_A, KeyValue::Release),
            ke(Key::KEY_C, KeyValue::Release),
        ],
    );
}

#[test]
fn test_disguised_keys_match_any_key() {
    assert_actions(
        "
        keymap:
          - remap:
              ANY: A
        ",
        vec![relative(RelativeAxisCode::REL_WHEEL.0, 10)],
        vec![
            ke(Key::KEY_A, KeyValue::Press),
            ke(Key::KEY_A, KeyValue::Release),
            Action::Delay(0),
            Action::Delay(0),
        ],
    );
}

#[test]
fn test_anykey_can_activate_nested_remap() {
    assert_actions(
        "
        keymap:
          - remap:
              ANY:
                remap:
                  A: B
        ",
        vec![press(Key::KEY_K), press(Key::KEY_A)],
        vec![
            ke(Key::KEY_B, KeyValue::Press),
            ke(Key::KEY_B, KeyValue::Release),
            Action::Delay(0),
            Action::Delay(0),
        ],
    );
}

#[test]
fn test_any_does_not_work_in_nested_remap() {
    // This happens because it tries nested with K, and then cancels the nested
    // remap because K is not mapped there. So it doesn't matter that it's later
    // tried with any-key.
    assert_actions(
        "
        keymap:
          - remap:
              a:
                - remap:
                    b: c
                    any: d
              k: h
        ",
        vec![press(Key::KEY_A), press(Key::KEY_K)],
        vec![
            ke(Key::KEY_H, KeyValue::Press),
            ke(Key::KEY_H, KeyValue::Release),
            Action::Delay(0),
            Action::Delay(0),
        ],
    );
}

#[test]
fn test_disguised_event_does_not_match() {
    assert_actions(
        "",
        vec![relative(RelativeAxisCode::REL_WHEEL.0, 1)],
        vec![Action::RelativeEvent(RelativeEvent::new_with(
            RelativeAxisCode::REL_WHEEL.0,
            1,
        ))],
    )
}

#[test]
fn test_relative_events_in_keymap() {
    assert_actions(
        "
        keymap:
          - remap:
              XRightCursor: b
        ",
        vec![relative(RelativeAxisCode::REL_X.0, 1)],
        vec![
            ke(Key::KEY_B, KeyValue::Press),
            ke(Key::KEY_B, KeyValue::Release),
            Action::Delay(0),
            Action::Delay(0),
        ],
    )
}

#[test]
fn test_relative_events_in_keymap_with_held_modifier() {
    assert_actions(
        "
        keymap:
          - remap:
              Ctrl-XRightCursor: b
        ",
        vec![
            press(Key::KEY_LEFTCTRL),
            relative(RelativeAxisCode::REL_X.0, 1),
        ],
        vec![
            ke(Key::KEY_LEFTCTRL, KeyValue::Press),
            ke(Key::KEY_LEFTCTRL, KeyValue::Release),
            ke(Key::KEY_B, KeyValue::Press),
            ke(Key::KEY_B, KeyValue::Release),
            Action::Delay(0),
            ke(Key::KEY_LEFTCTRL, KeyValue::Press),
            Action::Delay(0),
        ],
    )
}

#[test]
fn test_mixed_mouse_events_matching_and_non_matching() {
    assert_actions(
        "
        keymap:
          - remap:
              XRightCursor: b
        ",
        vec![
            relative(RelativeAxisCode::REL_X.0, 10),
            relative(RelativeAxisCode::REL_Y.0, -10),
            relative(RelativeAxisCode::REL_X.0, 100),
            relative(RelativeAxisCode::REL_Y.0, -100),
        ],
        vec![
            ke(Key::KEY_B, KeyValue::Press),
            ke(Key::KEY_B, KeyValue::Release),
            Action::Delay(0),
            Action::Delay(0),
            ke(Key::KEY_B, KeyValue::Press),
            ke(Key::KEY_B, KeyValue::Release),
            Action::Delay(0),
            Action::Delay(0),
            Action::MouseMovementEventCollection(vec![
                RelativeEvent::new_with(RelativeAxisCode::REL_Y.0, -10),
                RelativeEvent::new_with(RelativeAxisCode::REL_Y.0, -100),
            ]),
        ],
    )
}

#[test]
fn test_mixed_wheel_events_matching_and_non_matching() {
    assert_actions(
        "
        keymap:
          - remap:
              XUpScroll: b
        ",
        vec![
            relative(RelativeAxisCode::REL_WHEEL.0, 10),
            relative(RelativeAxisCode::REL_WHEEL.0, -10),
            relative(RelativeAxisCode::REL_WHEEL.0, 100),
            relative(RelativeAxisCode::REL_WHEEL.0, -100),
        ],
        vec![
            ke(Key::KEY_B, KeyValue::Press),
            ke(Key::KEY_B, KeyValue::Release),
            Action::Delay(0),
            Action::Delay(0),
            Action::RelativeEvent(RelativeEvent::new_with(RelativeAxisCode::REL_WHEEL.0, -10)),
            ke(Key::KEY_B, KeyValue::Press),
            ke(Key::KEY_B, KeyValue::Release),
            Action::Delay(0),
            Action::Delay(0),
            Action::RelativeEvent(RelativeEvent::new_with(RelativeAxisCode::REL_WHEEL.0, -100)),
        ],
    )
}

#[test]
fn test_disguised_event_mapped_in_nested_remap() {
    assert_actions(
        "
        keymap:
          - remap:
              a:
                remap:
                    XUpScroll: d
        ",
        vec![
            press(Key::KEY_A),
            relative(RelativeAxisCode::REL_WHEEL.0, 1),
        ],
        vec![
            ke(Key::KEY_D, KeyValue::Press),
            ke(Key::KEY_D, KeyValue::Release),
            Action::Delay(0),
            Action::Delay(0),
        ],
    )
}

#[test]
fn test_disguised_event_cancels_nested_remap() {
    assert_actions(
        "
        keymap:
          - remap:
              a:
                remap:
                    b: c
        ",
        vec![
            press(Key::KEY_A),
            relative(RelativeAxisCode::REL_WHEEL.0, 1),
            press(Key::KEY_B),
        ],
        vec![
            Action::RelativeEvent(RelativeEvent::new_with(RelativeAxisCode::REL_WHEEL.0, 1)),
            ke(Key::KEY_B, KeyValue::Press),
        ],
    )
}

#[test]
fn test_emit_disguised_events_with_press_release_key() {
    assert_actions(
        "
        modmap:
            - remap:
                A:
                    press: XUpScroll
                    release: XDownScroll
                    skip_key_event: true
        ",
        vec![press(Key::KEY_A), release(Key::KEY_A)],
        vec![
            ke(Key(59990), KeyValue::Press),
            ke(Key(59990), KeyValue::Release),
            Action::Delay(0),
            Action::Delay(0),
            ke(Key(59991), KeyValue::Press),
            ke(Key(59991), KeyValue::Release),
            Action::Delay(0),
            Action::Delay(0),
        ],
    )
}

#[test]
fn test_disguised_event_trigger_same_disguised_event_in_modmap() {
    assert_actions(
        "
        modmap:
            - remap:
                XUpScroll: [C_L, XUpScroll, ALT_L]
        ",
        vec![relative(RelativeAxisCode::REL_WHEEL.0, 1)],
        vec![
            ke(Key::KEY_LEFTCTRL, KeyValue::Press),
            ke(Key::KEY_LEFTALT, KeyValue::Press),
            Action::RelativeEvent(RelativeEvent::new_with(RelativeAxisCode::REL_WHEEL.0, 1)),
            ke(Key::KEY_LEFTCTRL, KeyValue::Release),
            ke(Key::KEY_LEFTALT, KeyValue::Release),
        ],
    )
}

#[test]
fn test_disguised_event_trigger_same_disguised_event_in_keymap() {
    assert_actions(
        "
        keymap:
            - remap:
                XUpScroll: C_L-XUpScroll
        ",
        vec![relative(RelativeAxisCode::REL_WHEEL.0, 1)],
        vec![
            ke(Key::KEY_LEFTCTRL, KeyValue::Press),
            ke(Key(59990), KeyValue::Press),
            ke(Key(59990), KeyValue::Release),
            Action::Delay(0),
            Action::Delay(0),
            ke(Key::KEY_LEFTCTRL, KeyValue::Release),
        ],
    )
}

#[test]
fn test_disguised_event_trigger_other_disguised_event_in_modmap() {
    assert_actions(
        "
        modmap:
            - remap:
                XUpScroll: [C_L, XDownScroll, ALT_L]
        ",
        vec![relative(RelativeAxisCode::REL_WHEEL.0, 1)],
        vec![
            ke(Key::KEY_LEFTCTRL, KeyValue::Press),
            ke(Key(59991), KeyValue::Press),
            ke(Key::KEY_LEFTALT, KeyValue::Press),
            ke(Key::KEY_LEFTCTRL, KeyValue::Release),
            ke(Key(59991), KeyValue::Release),
            ke(Key::KEY_LEFTALT, KeyValue::Release),
        ],
    )
}

#[test]
fn test_disguised_event_trigger_other_disguised_event_in_keymap() {
    assert_actions(
        "
        keymap:
            - remap:
                XUpScroll: C_L-XDownScroll
        ",
        vec![relative(RelativeAxisCode::REL_WHEEL.0, 1)],
        vec![
            ke(Key::KEY_LEFTCTRL, KeyValue::Press),
            ke(Key(59991), KeyValue::Press),
            ke(Key(59991), KeyValue::Release),
            Action::Delay(0),
            Action::Delay(0),
            ke(Key::KEY_LEFTCTRL, KeyValue::Release),
        ],
    )
}

#[test]
fn test_key_trigger_disguised_event_in_modmap() {
    assert_actions(
        "
        modmap:
            - remap:
                A: XDownScroll
        ",
        vec![press(Key::KEY_A), release(Key::KEY_A)],
        vec![
            ke(Key(59991), KeyValue::Press),
            ke(Key(59991), KeyValue::Release),
        ],
    )
}

#[test]
fn test_key_trigger_disguised_event_in_keymap() {
    assert_actions(
        "
        keymap:
            - remap:
                A: C_L-XDownScroll
        ",
        vec![press(Key::KEY_A), release(Key::KEY_A)],
        vec![
            ke(Key::KEY_LEFTCTRL, KeyValue::Press),
            ke(Key(59991), KeyValue::Press),
            ke(Key(59991), KeyValue::Release),
            Action::Delay(0),
            Action::Delay(0),
            ke(Key::KEY_LEFTCTRL, KeyValue::Release),
            ke(Key::KEY_A, KeyValue::Release),
        ],
    )
}

#[test]
fn test_escape_next_key() {
    assert_actions(
        "
        keymap:
          - remap:
              esc: { escape_next_key: true }
              A: C
        ",
        vec![press(Key::KEY_ESC), press(Key::KEY_A)],
        vec![ke(Key::KEY_A, KeyValue::Press)],
    )
}

#[test]
fn test_release_does_not_cancel_escape_next_key() {
    assert_actions(
        "
        keymap:
          - remap:
              esc: { escape_next_key: true }
              A: C
        ",
        vec![
            press(Key::KEY_K),
            press(Key::KEY_ESC),
            release(Key::KEY_K),
            press(Key::KEY_A),
        ],
        vec![
            ke(Key::KEY_K, KeyValue::Press),
            ke(Key::KEY_K, KeyValue::Release),
            ke(Key::KEY_A, KeyValue::Press),
        ],
    )
}

#[test]
fn test_escape_next_disguised_key() {
    assert_actions(
        "
        keymap:
          - remap:
              esc: { escape_next_key: true }
              XUpScroll: C
        ",
        vec![
            press(Key::KEY_ESC),
            relative(RelativeAxisCode::REL_WHEEL.0, 10),
        ],
        vec![Action::RelativeEvent(RelativeEvent::new_with(
            RelativeAxisCode::REL_WHEEL.0,
            10,
        ))],
    )
}

#[test]
fn test_modifier_does_not_affect_escape_next_key() {
    assert_actions(
        "
        keymap:
          - remap:
              esc: { escape_next_key: true }
              Ctrl_L: A
              Ctrl_L-B: C
        ",
        vec![
            press(Key::KEY_ESC),
            press(Key::KEY_LEFTCTRL),
            press(Key::KEY_B),
        ],
        vec![
            ke(Key::KEY_LEFTCTRL, KeyValue::Press),
            ke(Key::KEY_B, KeyValue::Press),
        ],
    )
}

#[test]
fn test_virtual_modifier_does_not_affect_escape_next_key() {
    assert_actions(
        "
        virtual_modifiers: [Capslock]
        keymap:
          - remap:
              esc: { escape_next_key: true }
              Capslock: A
              Capslock-B: C
        ",
        vec![
            press(Key::KEY_ESC),
            press(Key::KEY_CAPSLOCK),
            press(Key::KEY_B),
        ],
        vec![ke(Key::KEY_B, KeyValue::Press)],
    )
}

#[test]
fn test_matching_any_key_does_not_affect_escape_next_key() {
    assert_actions(
        "
        keymap:
          - remap:
              esc: { escape_next_key: true }
              ANY: A
              c_l-B: C
        ",
        vec![
            press(Key::KEY_ESC),
            press(Key::KEY_LEFTCTRL),
            press(Key::KEY_B),
        ],
        vec![
            ke(Key::KEY_LEFTCTRL, KeyValue::Press),
            ke(Key::KEY_B, KeyValue::Press),
        ],
    )
}

#[test]
fn test_on_left_side() {
    assert_actions(
        "
        keymap:
            - remap:
                CONTROL-A: B
        ",
        vec![
            Event::KeyEvent(get_input_device_info(), KeyEvent::new(Key::KEY_LEFTCTRL.code(), KeyValue::Press)),
            Event::KeyEvent(get_input_device_info(), KeyEvent::new(Key::KEY_A.code(), KeyValue::Press)),
            Event::KeyEvent(get_input_device_info(), KeyEvent::new(Key::KEY_A.code(), KeyValue::Release)),
            Event::KeyEvent(get_input_device_info(), KeyEvent::new(Key::KEY_LEFTCTRL.code(), KeyValue::Release)),
        ],
        vec![
            ke(Key::KEY_LEFTCTRL, KeyValue::Press),
            ke(Key::KEY_LEFTCTRL, KeyValue::Release),
            ke(Key::KEY_B, KeyValue::Press),
            ke(Key::KEY_B, KeyValue::Release),
            Action::Delay(0),
            ke(Key::KEY_LEFTCTRL, KeyValue::Press),
            Action::Delay(0),
            ke(Key::KEY_A, KeyValue::Release),
            ke(Key::KEY_LEFTCTRL, KeyValue::Release),
        ],
    )
}

#[test]
fn test_on_right_side() {
    assert_actions(
        "
        keymap:
            - remap:
                A: CONTROL-B
        ",
        vec![
            Event::KeyEvent(get_input_device_info(), KeyEvent::new(Key::KEY_A.code(), KeyValue::Press)),
            Event::KeyEvent(get_input_device_info(), KeyEvent::new(Key::KEY_A.code(), KeyValue::Release)),
        ],
        vec![
            ke(Key::KEY_LEFTCTRL, KeyValue::Press),
            ke(Key::KEY_B, KeyValue::Press),
            ke(Key::KEY_B, KeyValue::Release),
            Action::Delay(0),
            Action::Delay(0),
            ke(Key::KEY_LEFTCTRL, KeyValue::Release),
            ke(Key::KEY_A, KeyValue::Release),
        ],
    )
}

#[test]
fn test_modifier_not_released_in_inexact_match() {
    assert_actions(
        "
        keymap:
            - remap:
                A: B
        ",
        vec![
            Event::KeyEvent(get_input_device_info(), KeyEvent::new(Key::KEY_LEFTCTRL.code(), KeyValue::Press)),
            Event::KeyEvent(get_input_device_info(), KeyEvent::new(Key::KEY_A.code(), KeyValue::Press)),
            Event::KeyEvent(get_input_device_info(), KeyEvent::new(Key::KEY_A.code(), KeyValue::Release)),
            Event::KeyEvent(get_input_device_info(), KeyEvent::new(Key::KEY_LEFTCTRL.code(), KeyValue::Release)),
        ],
        vec![
            ke(Key::KEY_LEFTCTRL, KeyValue::Press),
            ke(Key::KEY_B, KeyValue::Press),
            ke(Key::KEY_B, KeyValue::Release),
            Action::Delay(0),
            Action::Delay(0),
            ke(Key::KEY_A, KeyValue::Release),
            ke(Key::KEY_LEFTCTRL, KeyValue::Release),
        ],
    )
}

#[test]
fn test_virtual_modifier_is_not_considered_extra() {
    assert_actions(
        "
        virtual_modifiers:
            - CAPSLOCK
        keymap:
            - remap:
                CAPSLOCK-A: B
        ",
        vec![
            Event::KeyEvent(get_input_device_info(), KeyEvent::new(Key::KEY_CAPSLOCK.code(), KeyValue::Press)),
            Event::KeyEvent(get_input_device_info(), KeyEvent::new(Key::KEY_A.code(), KeyValue::Press)),
            Event::KeyEvent(get_input_device_info(), KeyEvent::new(Key::KEY_A.code(), KeyValue::Release)),
            Event::KeyEvent(get_input_device_info(), KeyEvent::new(Key::KEY_CAPSLOCK.code(), KeyValue::Release)),
        ],
        vec![
            ke(Key::KEY_B, KeyValue::Press),
            ke(Key::KEY_B, KeyValue::Release),
            Action::Delay(0),
            Action::Delay(0),
            ke(Key::KEY_A, KeyValue::Release),
        ],
    )
}

#[test]
fn test_emacs_like() {
    assert_actions(
        "
        keymap:
            - remap:
                C-space: { set_mark: true }
                C-f: { with_mark: right }
                C-g: [esc, { set_mark: false }]
        ",
        vec![
            press(Key::KEY_LEFTCTRL),
            press(Key::KEY_SPACE),
            press(Key::KEY_F),
            // Remove mark again
            press(Key::KEY_G),
            // Now it's without shift
            press(Key::KEY_F),
        ],
        vec![
            ke(Key::KEY_LEFTCTRL, KeyValue::Press),
            ke(Key::KEY_LEFTSHIFT, KeyValue::Press),
            ke(Key::KEY_LEFTCTRL, KeyValue::Release),
            ke(Key::KEY_RIGHT, KeyValue::Press),
            ke(Key::KEY_RIGHT, KeyValue::Release),
            Action::Delay(0),
            ke(Key::KEY_LEFTCTRL, KeyValue::Press),
            Action::Delay(0),
            ke(Key::KEY_LEFTSHIFT, KeyValue::Release),
            ke(Key::KEY_LEFTCTRL, KeyValue::Release),
            ke(Key::KEY_ESC, KeyValue::Press),
            ke(Key::KEY_ESC, KeyValue::Release),
            Action::Delay(0),
            ke(Key::KEY_LEFTCTRL, KeyValue::Press),
            Action::Delay(0),
            ke(Key::KEY_LEFTCTRL, KeyValue::Release),
            ke(Key::KEY_RIGHT, KeyValue::Press),
            ke(Key::KEY_RIGHT, KeyValue::Release),
            Action::Delay(0),
            ke(Key::KEY_LEFTCTRL, KeyValue::Press),
            Action::Delay(0),
        ],
    )
}

#[test]
fn test_mark_triggered_by_shift_combo() {
    let mut handler = EventHandlerForTest::new("
        keymap:
            - remap:
                f12: { set_mark: true }
                A: { with_mark: '1' }
                S-B: { with_mark: '2' }
        ");

    handler.check(vec![press(Key::KEY_F12)], vec![]);

    handler.check(
        vec![press(Key::KEY_A), release(Key::KEY_A)],
        vec![
            ke(Key::KEY_LEFTSHIFT, KeyValue::Press),
            ke(Key::KEY_1, KeyValue::Press),
            ke(Key::KEY_1, KeyValue::Release),
            Action::Delay(0),
            Action::Delay(0),
            ke(Key::KEY_LEFTSHIFT, KeyValue::Release),
            ke(Key::KEY_A, KeyValue::Release),
        ],
    );

    handler.check(
        vec![press(Key::KEY_LEFTSHIFT), press(Key::KEY_B)],
        vec![
            ke(Key::KEY_LEFTSHIFT, KeyValue::Press),
            ke(Key::KEY_2, KeyValue::Press),
            ke(Key::KEY_2, KeyValue::Release),
            Action::Delay(0),
            Action::Delay(0),
        ],
    )
}

#[test]
fn test_mark_triggered_by_shift_combo_and_emits_shift_combo() {
    let mut handler = EventHandlerForTest::new("
        keymap:
            - remap:
                f12: { set_mark: true }
                A: { with_mark: S-1 }
                S-B: { with_mark: S-2 }
        ");

    handler.check(vec![press(Key::KEY_F12)], vec![]);

    handler.check(
        vec![press(Key::KEY_A), release(Key::KEY_A)],
        vec![
            ke(Key::KEY_LEFTSHIFT, KeyValue::Press),
            ke(Key::KEY_1, KeyValue::Press),
            ke(Key::KEY_1, KeyValue::Release),
            Action::Delay(0),
            Action::Delay(0),
            ke(Key::KEY_LEFTSHIFT, KeyValue::Release),
            ke(Key::KEY_A, KeyValue::Release),
        ],
    );

    handler.check(
        vec![press(Key::KEY_LEFTSHIFT), press(Key::KEY_B)],
        vec![
            ke(Key::KEY_LEFTSHIFT, KeyValue::Press),
            ke(Key::KEY_2, KeyValue::Press),
            ke(Key::KEY_2, KeyValue::Release),
            Action::Delay(0),
            Action::Delay(0),
        ],
    )
}

#[test]
fn test_mark_triggered_with_extra_modifiers() {
    let mut handler = EventHandlerForTest::new("
        keymap:
            - remap:
                f12: { set_mark: true }
                A: { with_mark: '1' }
                S-B: { with_mark: '2' }
        ");

    handler.check(
        vec![press(Key::KEY_F12), press(Key::KEY_LEFTCTRL)],
        vec![ke(Key::KEY_LEFTCTRL, KeyValue::Press)],
    );

    handler.check(
        vec![press(Key::KEY_A), release(Key::KEY_A)],
        vec![
            ke(Key::KEY_LEFTSHIFT, KeyValue::Press),
            ke(Key::KEY_1, KeyValue::Press),
            ke(Key::KEY_1, KeyValue::Release),
            Action::Delay(0),
            Action::Delay(0),
            ke(Key::KEY_LEFTSHIFT, KeyValue::Release),
            ke(Key::KEY_A, KeyValue::Release),
        ],
    );

    handler.check(
        vec![press(Key::KEY_LEFTSHIFT), press(Key::KEY_B)],
        vec![
            ke(Key::KEY_LEFTSHIFT, KeyValue::Press),
            ke(Key::KEY_2, KeyValue::Press),
            ke(Key::KEY_2, KeyValue::Release),
            Action::Delay(0),
            Action::Delay(0),
        ],
    );
}

#[test]
fn test_mark_triggered_with_extra_modifiers_and_emits_shift_combo() {
    let mut handler = EventHandlerForTest::new("
        keymap:
            - remap:
                f12: { set_mark: true }
                A: { with_mark: S_L-1 }
                S-B: { with_mark: S_R-2 }
        ");

    handler.check(
        vec![press(Key::KEY_F12), press(Key::KEY_LEFTCTRL)],
        vec![ke(Key::KEY_LEFTCTRL, KeyValue::Press)],
    );

    handler.check(
        vec![press(Key::KEY_A), release(Key::KEY_A)],
        vec![
            ke(Key::KEY_LEFTSHIFT, KeyValue::Press),
            ke(Key::KEY_1, KeyValue::Press),
            ke(Key::KEY_1, KeyValue::Release),
            Action::Delay(0),
            Action::Delay(0),
            ke(Key::KEY_LEFTSHIFT, KeyValue::Release),
            ke(Key::KEY_A, KeyValue::Release),
        ],
    );

    handler.check(
        vec![press(Key::KEY_LEFTSHIFT), press(Key::KEY_B)],
        vec![
            ke(Key::KEY_LEFTSHIFT, KeyValue::Press),
            ke(Key::KEY_RIGHTSHIFT, KeyValue::Press),
            ke(Key::KEY_LEFTSHIFT, KeyValue::Release),
            ke(Key::KEY_2, KeyValue::Press),
            ke(Key::KEY_2, KeyValue::Release),
            Action::Delay(0),
            ke(Key::KEY_LEFTSHIFT, KeyValue::Press),
            Action::Delay(0),
            ke(Key::KEY_RIGHTSHIFT, KeyValue::Release),
        ],
    );
}

#[test]
fn test_modmap_one_key() {
    assert_actions(
        "
        modmap:
          - remap:
              CAPSLOCK: SHIFT_L
        ",
        vec![
            press(Key::KEY_CAPSLOCK),
            release(Key::KEY_CAPSLOCK),
        ],
        vec![
            ke(Key::KEY_LEFTSHIFT, KeyValue::Press),
            ke(Key::KEY_LEFTSHIFT, KeyValue::Release),
        ],
    );
}

#[test]
fn test_modmap_remap_two_concurrent_keys() {
    assert_actions(
        "
        modmap:
          - remap:
              CAPSLOCK: SHIFT_L
              CTRL_L: ALT_L
        ",
        vec![
            press(Key::KEY_CAPSLOCK),
            press(Key::KEY_LEFTCTRL),
            release(Key::KEY_CAPSLOCK),
            release(Key::KEY_LEFTCTRL),
        ],
        vec![
            ke(Key::KEY_LEFTSHIFT, KeyValue::Press),
            ke(Key::KEY_LEFTALT, KeyValue::Press),
            ke(Key::KEY_LEFTSHIFT, KeyValue::Release),
            ke(Key::KEY_LEFTALT, KeyValue::Release),
        ],
    );
}

#[test]
fn test_modmap_only_emits_press_on_press() {
    assert_actions(
        "
        modmap:
          - remap:
              CAPSLOCK: SHIFT_L
        ",
        vec![press(Key::KEY_CAPSLOCK)],
        vec![ke(Key::KEY_LEFTSHIFT, KeyValue::Press)],
    );
}

#[test]
fn test_modmap_can_emit_several_keys() {
    // Note that modifiers are not sorted first/last as the multipurpose keys are.
    assert_actions(
        "
        modmap:
          - remap:
              CAPSLOCK: [SHIFT_L, V]
        ",
        vec![
            press(Key::KEY_CAPSLOCK),
            release(Key::KEY_CAPSLOCK),
        ],
        vec![
            ke(Key::KEY_LEFTSHIFT, KeyValue::Press),
            ke(Key::KEY_V, KeyValue::Press),
            ke(Key::KEY_LEFTSHIFT, KeyValue::Release),
            ke(Key::KEY_V, KeyValue::Release),
        ],
    );
}

#[test]
fn test_modmap_followed_by_same_emit_key() {
    assert_actions(
        "
        modmap:
          - remap:
              CAPSLOCK: SHIFT_L
        ",
        vec![
            press(Key::KEY_CAPSLOCK),
            press(Key::KEY_LEFTSHIFT),
            release(Key::KEY_LEFTSHIFT),
            release(Key::KEY_CAPSLOCK),
        ],
        vec![
            ke(Key::KEY_LEFTSHIFT, KeyValue::Press),
            ke(Key::KEY_LEFTSHIFT, KeyValue::Press),
            ke(Key::KEY_LEFTSHIFT, KeyValue::Release),
            ke(Key::KEY_LEFTSHIFT, KeyValue::Release),
        ],
    );
}

#[test]
fn test_modmap_preceded_by_same_emit_key() {
    assert_actions(
        "
        modmap:
          - remap:
              CAPSLOCK: SHIFT_L
        ",
        vec![
            press(Key::KEY_LEFTSHIFT),
            press(Key::KEY_CAPSLOCK),
            release(Key::KEY_CAPSLOCK),
            release(Key::KEY_LEFTSHIFT),
        ],
        vec![
            ke(Key::KEY_LEFTSHIFT, KeyValue::Press),
            ke(Key::KEY_LEFTSHIFT, KeyValue::Press),
            ke(Key::KEY_LEFTSHIFT, KeyValue::Release),
            ke(Key::KEY_LEFTSHIFT, KeyValue::Release),
        ],
    );
}

#[test]
fn test_modmap_output_is_used_in_keymap() {
    assert_actions(
        "
        modmap:
          - remap:
              CAPSLOCK: X
        keymap:
          - remap:
              X: KEY_1
        ",
        vec![
            press(Key::KEY_CAPSLOCK),
            release(Key::KEY_CAPSLOCK),
        ],
        vec![
            ke(Key::KEY_1, KeyValue::Press),
            ke(Key::KEY_1, KeyValue::Release),
            Action::Delay(0),
            Action::Delay(0),
            ke(Key::KEY_X, KeyValue::Release),
        ],
    );
}

#[test]
fn test_modmap_emit_is_not_used_in_subsequent_remaps() {
    assert_actions(
        "
        modmap:
            - remap:
                a: b
            - remap:
                b: c
        ",
        vec![press(Key::KEY_A), release(Key::KEY_A)],
        vec![
            ke(Key::KEY_B, KeyValue::Press),
            ke(Key::KEY_B, KeyValue::Release),
        ],
    )
}

#[test]
fn test_multipurpose_is_interrupted() {
    // Held key is emitted if another key is pressed before release
    assert_actions(
        "
        modmap:
            - remap:
                CAPSLOCK:
                    held: SHIFT_L
                    alone: CAPSLOCK
        ",
        vec![
            Event::KeyEvent(get_input_device_info(), KeyEvent::new(Key::KEY_CAPSLOCK.code(), KeyValue::Press)),
            Event::KeyEvent(get_input_device_info(), KeyEvent::new(Key::KEY_A.code(), KeyValue::Press)),
            Event::KeyEvent(get_input_device_info(), KeyEvent::new(Key::KEY_A.code(), KeyValue::Release)),
            Event::KeyEvent(get_input_device_info(), KeyEvent::new(Key::KEY_CAPSLOCK.code(), KeyValue::Release)),
        ],
        vec![
            ke(Key::KEY_LEFTSHIFT, KeyValue::Press),
            ke(Key::KEY_A, KeyValue::Press),
            ke(Key::KEY_A, KeyValue::Release),
            ke(Key::KEY_LEFTSHIFT, KeyValue::Release),
        ],
    );
}

#[test]
fn test_multipurpose_released_without_interuption() {
    // Alone key is emitted if no other key is pressed before release
    assert_actions(
        "
        modmap:
            - remap:
                CAPSLOCK:
                    held: SHIFT_L
                    alone: CAPSLOCK
        ",
        vec![
            Event::KeyEvent(get_input_device_info(), KeyEvent::new(Key::KEY_CAPSLOCK.code(), KeyValue::Press)),
            Event::KeyEvent(get_input_device_info(), KeyEvent::new(Key::KEY_CAPSLOCK.code(), KeyValue::Release)),
        ],
        vec![
            ke(Key::KEY_CAPSLOCK, KeyValue::Press),
            ke(Key::KEY_CAPSLOCK, KeyValue::Release),
        ],
    )
}

#[test]
fn test_multipurpose_press_all_keys_then_release_all_keys_1() {
    // Held key will emit all key presses of the held-property before the triggering key is emitted.
    assert_actions(
        "
        modmap:
            - remap:
                CAPSLOCK:
                    held: [X, Y]
                    alone: A
        ",
        vec![
            Event::KeyEvent(get_input_device_info(), KeyEvent::new(Key::KEY_CAPSLOCK.code(), KeyValue::Press)),
            Event::KeyEvent(get_input_device_info(), KeyEvent::new(Key::KEY_1.code(), KeyValue::Press)),
            Event::KeyEvent(get_input_device_info(), KeyEvent::new(Key::KEY_1.code(), KeyValue::Release)),
            Event::KeyEvent(get_input_device_info(), KeyEvent::new(Key::KEY_CAPSLOCK.code(), KeyValue::Release)),
        ],
        vec![
            ke(Key::KEY_X, KeyValue::Press),
            ke(Key::KEY_Y, KeyValue::Press),
            ke(Key::KEY_1, KeyValue::Press),
            ke(Key::KEY_1, KeyValue::Release),
            ke(Key::KEY_X, KeyValue::Release),
            ke(Key::KEY_Y, KeyValue::Release),
        ],
    );
}

#[test]
fn test_multipurpose_press_all_keys_then_release_all_keys_2() {
    // Held key will emit all key presses of the held-property before the two triggering keys are emitted.
    assert_actions(
        "
        modmap:
            - remap:
                CAPSLOCK:
                    held: [X, Y]
                    alone: A
        ",
        vec![
            Event::KeyEvent(get_input_device_info(), KeyEvent::new(Key::KEY_CAPSLOCK.code(), KeyValue::Press)),
            Event::KeyEvent(get_input_device_info(), KeyEvent::new(Key::KEY_1.code(), KeyValue::Press)),
            Event::KeyEvent(get_input_device_info(), KeyEvent::new(Key::KEY_2.code(), KeyValue::Press)),
            Event::KeyEvent(get_input_device_info(), KeyEvent::new(Key::KEY_2.code(), KeyValue::Release)),
            Event::KeyEvent(get_input_device_info(), KeyEvent::new(Key::KEY_1.code(), KeyValue::Release)),
            Event::KeyEvent(get_input_device_info(), KeyEvent::new(Key::KEY_CAPSLOCK.code(), KeyValue::Release)),
        ],
        vec![
            ke(Key::KEY_X, KeyValue::Press),
            ke(Key::KEY_Y, KeyValue::Press),
            ke(Key::KEY_1, KeyValue::Press),
            ke(Key::KEY_2, KeyValue::Press),
            ke(Key::KEY_2, KeyValue::Release),
            ke(Key::KEY_1, KeyValue::Release),
            ke(Key::KEY_X, KeyValue::Release),
            ke(Key::KEY_Y, KeyValue::Release),
        ],
    );
}

#[test]
fn test_multipurpose_press_all_keys_then_release_all_keys_3() {
    // Alone key will emit all key presses before any release.
    assert_actions(
        "
        modmap:
            - remap:
                CAPSLOCK:
                    held: X
                    alone: [A, B]
        ",
        vec![
            Event::KeyEvent(get_input_device_info(), KeyEvent::new(Key::KEY_CAPSLOCK.code(), KeyValue::Press)),
            Event::KeyEvent(get_input_device_info(), KeyEvent::new(Key::KEY_CAPSLOCK.code(), KeyValue::Release)),
        ],
        vec![
            ke(Key::KEY_A, KeyValue::Press),
            ke(Key::KEY_B, KeyValue::Press),
            ke(Key::KEY_A, KeyValue::Release),
            ke(Key::KEY_B, KeyValue::Release),
        ],
    )
}

#[test]
fn test_key_release_will_not_trigger_held() {
    assert_actions(
        "
        modmap:
          - remap:
              CAPSLOCK:
                held: X
                alone: Y
        ",
        vec![
            Event::KeyEvent(get_input_device_info(), KeyEvent::new(Key::KEY_CAPSLOCK.code(), KeyValue::Press)),
            Event::KeyEvent(get_input_device_info(), KeyEvent::new(Key::KEY_1.code(), KeyValue::Release)),
            Event::KeyEvent(get_input_device_info(), KeyEvent::new(Key::KEY_CAPSLOCK.code(), KeyValue::Release)),
        ],
        vec![
            ke(Key::KEY_1, KeyValue::Release),
            ke(Key::KEY_Y, KeyValue::Press),
            ke(Key::KEY_Y, KeyValue::Release),
        ],
    );
}

#[test]
fn test_the_multipurpose_output_is_used_in_keymap_1() {
    // If key is held and a match in keymap is hit, then the keymap-action is emitted followed by the interrupting key.
    // It has to be that way because keymap emits press/release already when the key is pressed.
    assert_actions(
        "
        modmap:
            - remap:
                CAPSLOCK:
                    held: X
                    alone: Y
                    free_hold: true
        keymap:
            - remap:
                X: KEY_1
        ",
        vec![
            Event::KeyEvent(get_input_device_info(), KeyEvent::new(Key::KEY_CAPSLOCK.code(), KeyValue::Press)),
            Event::KeyEvent(get_input_device_info(), KeyEvent::new(Key::KEY_A.code(), KeyValue::Press)),
            Event::KeyEvent(get_input_device_info(), KeyEvent::new(Key::KEY_A.code(), KeyValue::Release)),
            Event::KeyEvent(get_input_device_info(), KeyEvent::new(Key::KEY_CAPSLOCK.code(), KeyValue::Release)),
        ],
        vec![
            ke(Key::KEY_1, KeyValue::Press),
            ke(Key::KEY_1, KeyValue::Release),
            Action::Delay(0),
            Action::Delay(0),
            ke(Key::KEY_A, KeyValue::Press),
            ke(Key::KEY_A, KeyValue::Release),
            ke(Key::KEY_X, KeyValue::Release),
        ],
    );
}

#[test]
fn test_the_multipurpose_output_is_used_in_keymap_2() {
    // If key is alone and a match in keymap is hit then the keymap is used.
    assert_actions(
        "
        modmap:
            - remap:
                CAPSLOCK:
                    held: X
                    alone: Y
                    free_hold: true
        keymap:
            - remap:
                Y: KEY_1
        ",
        vec![
            Event::KeyEvent(get_input_device_info(), KeyEvent::new(Key::KEY_CAPSLOCK.code(), KeyValue::Press)),
            Event::KeyEvent(get_input_device_info(), KeyEvent::new(Key::KEY_CAPSLOCK.code(), KeyValue::Release)),
        ],
        vec![
            ke(Key::KEY_1, KeyValue::Press),
            ke(Key::KEY_1, KeyValue::Release),
            Action::Delay(0),
            Action::Delay(0),
            ke(Key::KEY_Y, KeyValue::Release),
        ],
    );
}

#[test]
fn test_the_multipurpose_output_is_used_in_keymap_3() {
    // If key is alone while a non-modifier was already pressed.
    assert_actions(
        "
        modmap:
            - remap:
                CAPSLOCK:
                    held: X
                    alone: Y
                    free_hold: true
        keymap:
            - remap:
                Y: KEY_1
        ",
        vec![
            Event::KeyEvent(get_input_device_info(), KeyEvent::new(Key::KEY_A.code(), KeyValue::Press)),
            Event::KeyEvent(get_input_device_info(), KeyEvent::new(Key::KEY_CAPSLOCK.code(), KeyValue::Press)),
            Event::KeyEvent(get_input_device_info(), KeyEvent::new(Key::KEY_CAPSLOCK.code(), KeyValue::Release)),
            Event::KeyEvent(get_input_device_info(), KeyEvent::new(Key::KEY_A.code(), KeyValue::Release)),
        ],
        vec![
            ke(Key::KEY_A, KeyValue::Press),
            ke(Key::KEY_1, KeyValue::Press),
            ke(Key::KEY_1, KeyValue::Release),
            Action::Delay(0),
            Action::Delay(0),
            ke(Key::KEY_Y, KeyValue::Release),
            ke(Key::KEY_A, KeyValue::Release),
        ],
    );
}

#[test]
fn test_the_multipurpose_output_is_used_in_keymap_4() {
    // Alone while a modifier was already pressed
    assert_actions(
        "
        modmap:
            - remap:
                CAPSLOCK:
                    held: X
                    alone: Y
                    free_hold: true
        keymap:
            - remap:
                Y: KEY_1
        ",
        vec![
            Event::KeyEvent(get_input_device_info(), KeyEvent::new(Key::KEY_LEFTCTRL.code(), KeyValue::Press)),
            Event::KeyEvent(get_input_device_info(), KeyEvent::new(Key::KEY_CAPSLOCK.code(), KeyValue::Press)),
            Event::KeyEvent(get_input_device_info(), KeyEvent::new(Key::KEY_CAPSLOCK.code(), KeyValue::Release)),
            Event::KeyEvent(get_input_device_info(), KeyEvent::new(Key::KEY_LEFTCTRL.code(), KeyValue::Release)),
        ],
        vec![
            ke(Key::KEY_LEFTCTRL, KeyValue::Press),
            ke(Key::KEY_1, KeyValue::Press),
            ke(Key::KEY_1, KeyValue::Release),
            Action::Delay(0),
            Action::Delay(0),
            ke(Key::KEY_Y, KeyValue::Release),
            ke(Key::KEY_LEFTCTRL, KeyValue::Release),
        ],
    );
}

#[test]
fn test_alone_is_not_optional() {
    // The configuration is just ignored. A warning would be better.
    assert_actions(
        "
        modmap:
          - remap:
              CAPSLOCK:
                held: X
        ",
        vec![
            Event::KeyEvent(get_input_device_info(), KeyEvent::new(Key::KEY_CAPSLOCK.code(), KeyValue::Press)),
            Event::KeyEvent(get_input_device_info(), KeyEvent::new(Key::KEY_A.code(), KeyValue::Press)),
            Event::KeyEvent(get_input_device_info(), KeyEvent::new(Key::KEY_A.code(), KeyValue::Release)),
            Event::KeyEvent(get_input_device_info(), KeyEvent::new(Key::KEY_CAPSLOCK.code(), KeyValue::Release)),
        ],
        vec![
            ke(Key::KEY_CAPSLOCK, KeyValue::Press),
            ke(Key::KEY_A, KeyValue::Press),
            ke(Key::KEY_A, KeyValue::Release),
            ke(Key::KEY_CAPSLOCK, KeyValue::Release),
        ],
    );
}

#[test]
fn test_held_is_not_optional() {
    // The configuration is just ignored. A warning would be better.
    assert_actions(
        "
        modmap:
          - remap:
              CAPSLOCK:
                alone: X
        ",
        vec![
            Event::KeyEvent(get_input_device_info(), KeyEvent::new(Key::KEY_CAPSLOCK.code(), KeyValue::Press)),
            Event::KeyEvent(get_input_device_info(), KeyEvent::new(Key::KEY_CAPSLOCK.code(), KeyValue::Release)),
        ],
        vec![
            ke(Key::KEY_CAPSLOCK, KeyValue::Press),
            ke(Key::KEY_CAPSLOCK, KeyValue::Release),
        ],
    );
}

#[test]
fn test_output_key_used_as_trigger() {
    // A press is filtered from the output. Is there a reason for this. In which use case is it needed?
    assert_actions(
        "
        modmap:
          - remap:
              CAPSLOCK:
                held: X
                alone: Y
        ",
        vec![
            Event::KeyEvent(get_input_device_info(), KeyEvent::new(Key::KEY_CAPSLOCK.code(), KeyValue::Press)),
            Event::KeyEvent(get_input_device_info(), KeyEvent::new(Key::KEY_X.code(), KeyValue::Press)),
            Event::KeyEvent(get_input_device_info(), KeyEvent::new(Key::KEY_X.code(), KeyValue::Release)),
            Event::KeyEvent(get_input_device_info(), KeyEvent::new(Key::KEY_CAPSLOCK.code(), KeyValue::Release)),
        ],
        vec![
            ke(Key::KEY_X, KeyValue::Press),
            ke(Key::KEY_X, KeyValue::Release),
            ke(Key::KEY_X, KeyValue::Release),
        ],
    );
}

#[test]
fn test_modifiers_are_sorted_first_and_last_held() {
    assert_actions(
        "
        modmap:
          - remap:
              CAPSLOCK:
                held: [X, Control_L, Y]
                alone: A
        ",
        vec![
            Event::KeyEvent(get_input_device_info(), KeyEvent::new(Key::KEY_CAPSLOCK.code(), KeyValue::Press)),
            Event::KeyEvent(get_input_device_info(), KeyEvent::new(Key::KEY_A.code(), KeyValue::Press)),
            Event::KeyEvent(get_input_device_info(), KeyEvent::new(Key::KEY_A.code(), KeyValue::Release)),
            Event::KeyEvent(get_input_device_info(), KeyEvent::new(Key::KEY_CAPSLOCK.code(), KeyValue::Release)),
        ],
        vec![
            ke(Key::KEY_LEFTCTRL, KeyValue::Press),
            ke(Key::KEY_X, KeyValue::Press),
            ke(Key::KEY_Y, KeyValue::Press),
            ke(Key::KEY_A, KeyValue::Press),
            ke(Key::KEY_A, KeyValue::Release),
            ke(Key::KEY_X, KeyValue::Release),
            ke(Key::KEY_Y, KeyValue::Release),
            ke(Key::KEY_LEFTCTRL, KeyValue::Release),
        ],
    );
}

#[test]
fn test_modifiers_are_sorted_first_and_last_alone() {
    assert_actions(
        "
        modmap:
          - remap:
              CAPSLOCK:
                held: A
                alone: [X, Control_L, Y]
        ",
        vec![
            Event::KeyEvent(get_input_device_info(), KeyEvent::new(Key::KEY_CAPSLOCK.code(), KeyValue::Press)),
            Event::KeyEvent(get_input_device_info(), KeyEvent::new(Key::KEY_CAPSLOCK.code(), KeyValue::Release)),
        ],
        vec![
            ke(Key::KEY_LEFTCTRL, KeyValue::Press),
            ke(Key::KEY_X, KeyValue::Press),
            ke(Key::KEY_Y, KeyValue::Press),
            ke(Key::KEY_X, KeyValue::Release),
            ke(Key::KEY_Y, KeyValue::Release),
            ke(Key::KEY_LEFTCTRL, KeyValue::Release),
        ],
    );
}

#[test]
fn test_press_release() {
    assert_actions(
        "
        modmap:
            - remap:
                A:
                    press: C
                    release: D
        ",
        vec![press(Key::KEY_A)],
        vec![
            ke(Key::KEY_C, KeyValue::Press),
            ke(Key::KEY_C, KeyValue::Release),
            Action::Delay(0),
            Action::Delay(0),
            ke(Key::KEY_A, KeyValue::Press),
        ],
    )
}

#[test]
fn test_press_release_skip_original_key() {
    assert_actions(
        "
        modmap:
            - remap:
                A:
                    press: C
                    release: D
                    skip_key_event: true
        ",
        vec![press(Key::KEY_A)],
        vec![
            ke(Key::KEY_C, KeyValue::Press),
            ke(Key::KEY_C, KeyValue::Release),
            Action::Delay(0),
            Action::Delay(0),
        ],
    )
}

#[test]
fn test_press_release_repeat_original_key() {
    assert_actions(
        "
        modmap:
            - remap:
                A:
                    press: C
                    release: D
        ",
        vec![press(Key::KEY_A), repeat(Key::KEY_A)],
        vec![
            ke(Key::KEY_C, KeyValue::Press),
            ke(Key::KEY_C, KeyValue::Release),
            Action::Delay(0),
            Action::Delay(0),
            ke(Key::KEY_A, KeyValue::Press),
            ke(Key::KEY_A, KeyValue::Repeat),
        ],
    )
}

#[test]
fn test_press_release_repeat_custom_key() {
    assert_actions(
        "
        modmap:
            - remap:
                A:
                    press: C
                    release: D
                    repeat: E
        ",
        vec![press(Key::KEY_A), repeat(Key::KEY_A)],
        vec![
            ke(Key::KEY_C, KeyValue::Press),
            ke(Key::KEY_C, KeyValue::Release),
            Action::Delay(0),
            Action::Delay(0),
            ke(Key::KEY_A, KeyValue::Press),
            ke(Key::KEY_E, KeyValue::Press),
            ke(Key::KEY_E, KeyValue::Release),
            Action::Delay(0),
            Action::Delay(0),
            ke(Key::KEY_A, KeyValue::Repeat),
        ],
    )
}

#[test]
fn test_press_release_can_escape_next_key() {
    assert_actions(
        "
        modmap:
          - remap:
              A:
                press: B
                release: { escape_next_key: true }
                skip_key_event: true

        keymap:
          - remap:
              C: D
        ",
        vec![
            press(Key::KEY_A),
            release(Key::KEY_A),
            press(Key::KEY_C),
            release(Key::KEY_C),
        ],
        vec![
            ke(Key::KEY_B, KeyValue::Press),
            ke(Key::KEY_B, KeyValue::Release),
            Action::Delay(0),
            Action::Delay(0),
            ke(Key::KEY_C, KeyValue::Press),
            ke(Key::KEY_C, KeyValue::Release),
        ],
    )
}

#[test]
fn test_merge_nested_sibling_remaps() {
    let config = "
        keymap:
          - remap:
              capslock:
                - remap:
                    a: b
                - remap:
                    c: d
    ";

    assert_actions(
        config,
        vec![
            press(Key::KEY_CAPSLOCK),
            release(Key::KEY_CAPSLOCK),
            press(Key::KEY_A),
            release(Key::KEY_A),
        ],
        vec![
            ke(Key::KEY_CAPSLOCK, KeyValue::Release),
            ke(Key::KEY_B, KeyValue::Press),
            ke(Key::KEY_B, KeyValue::Release),
            Action::Delay(0),
            Action::Delay(0),
            ke(Key::KEY_A, KeyValue::Release),
        ],
    );

    assert_actions(
        config,
        vec![
            press(Key::KEY_CAPSLOCK),
            release(Key::KEY_CAPSLOCK),
            press(Key::KEY_C),
            release(Key::KEY_C),
        ],
        vec![
            ke(Key::KEY_CAPSLOCK, KeyValue::Release),
            ke(Key::KEY_D, KeyValue::Press),
            ke(Key::KEY_D, KeyValue::Release),
            Action::Delay(0),
            Action::Delay(0),
            ke(Key::KEY_C, KeyValue::Release),
        ],
    );
}

#[test]
fn test_merge_nested_sibling_remaps_precedence_to_first() {
    assert_actions(
        "
        keymap:
          - remap:
              CAPSLOCK:
                - remap:
                    a: b
                - remap:
                    a: c
    ",
        vec![
            press(Key::KEY_CAPSLOCK),
            release(Key::KEY_CAPSLOCK),
            press(Key::KEY_A),
            release(Key::KEY_A),
        ],
        vec![
            ke(Key::KEY_CAPSLOCK, KeyValue::Release),
            ke(Key::KEY_B, KeyValue::Press),
            ke(Key::KEY_B, KeyValue::Release),
            Action::Delay(0),
            Action::Delay(0),
            ke(Key::KEY_A, KeyValue::Release),
        ],
    );
}

#[test]
fn test_event_canceling_remap_gets_emitted() {
    assert_actions(
        "
        keymap:
          - remap:
              a:
                remap:
                    c: d
        ",
        vec![
            press(Key::KEY_A),
            release(Key::KEY_A),
            press(Key::KEY_K),
            release(Key::KEY_K),
        ],
        vec![
            ke(Key::KEY_A, KeyValue::Release),
            ke(Key::KEY_K, KeyValue::Press),
            ke(Key::KEY_K, KeyValue::Release),
        ],
    )
}

#[test]
fn test_the_event_canceling_remap_gets_emitted_when_same_as_trigger_key_when_implicit() {
    // This does not work
    assert_actions(
        "
        keymap:
          - remap:
              a:
                remap:
                    c: d
        ",
        vec![
            press(Key::KEY_A),
            release(Key::KEY_A),
            press(Key::KEY_A),
            release(Key::KEY_A),
        ],
        vec![
            ke(Key::KEY_A, KeyValue::Release),
            ke(Key::KEY_A, KeyValue::Release),
        ],
    )
}

#[test]
fn test_the_event_canceling_remap_gets_emitted_when_same_as_trigger_key_when_explicit() {
    assert_actions(
        "
        keymap:
          - remap:
              a:
                remap:
                    c: d
                    a: a
        ",
        vec![
            press(Key::KEY_A),
            release(Key::KEY_A),
            press(Key::KEY_A),
            release(Key::KEY_A),
        ],
        vec![
            ke(Key::KEY_A, KeyValue::Release),
            ke(Key::KEY_A, KeyValue::Press),
            ke(Key::KEY_A, KeyValue::Release),
            Action::Delay(0),
            Action::Delay(0),
            ke(Key::KEY_A, KeyValue::Release),
        ],
    )
}

#[test]
fn test_modifier_canceling_remap_gets_emitted() {
    assert_actions(
        "
        keymap:
          - remap:
              a:
                remap:
                    c: d
        ",
        vec![
            press(Key::KEY_A),
            release(Key::KEY_A),
            press(Key::KEY_LEFTCTRL),
            release(Key::KEY_LEFTCTRL),
        ],
        vec![
            ke(Key::KEY_A, KeyValue::Release),
            ke(Key::KEY_LEFTCTRL, KeyValue::Press),
            ke(Key::KEY_LEFTCTRL, KeyValue::Release),
        ],
    )
}

#[test]
fn test_event_canceling_remap_is_used_for_matching() {
    assert_actions(
        "
        keymap:
          - remap:
              a:
                remap:
                    c: d
              k: l
        ",
        vec![
            press(Key::KEY_A),
            release(Key::KEY_A),
            press(Key::KEY_K),
            release(Key::KEY_K),
        ],
        vec![
            ke(Key::KEY_A, KeyValue::Release),
            ke(Key::KEY_L, KeyValue::Press),
            ke(Key::KEY_L, KeyValue::Release),
            Action::Delay(0),
            Action::Delay(0),
            ke(Key::KEY_K, KeyValue::Release),
        ],
    )
}

#[test]
fn test_modifier_canceling_remap_is_used_for_matching() {
    assert_actions(
        "
        keymap:
          - remap:
              a:
                remap:
                    c: d
              ctrl-k: l
        ",
        vec![
            press(Key::KEY_A),
            release(Key::KEY_A),
            press(Key::KEY_LEFTCTRL),
            press(Key::KEY_K),
            release(Key::KEY_K),
            release(Key::KEY_LEFTCTRL),
        ],
        vec![
            ke(Key::KEY_A, KeyValue::Release),
            ke(Key::KEY_LEFTCTRL, KeyValue::Press),
            ke(Key::KEY_LEFTCTRL, KeyValue::Release),
            ke(Key::KEY_L, KeyValue::Press),
            ke(Key::KEY_L, KeyValue::Release),
            Action::Delay(0),
            ke(Key::KEY_LEFTCTRL, KeyValue::Press),
            Action::Delay(0),
            ke(Key::KEY_K, KeyValue::Release),
            ke(Key::KEY_LEFTCTRL, KeyValue::Release),
        ],
    )
}

#[test]
fn test_cancel_by_timeout_emits_nothing() {
    assert_actions(
        "
        keymap:
          - remap:
              a:
                remap:
                    c: d
        ",
        vec![
            press(Key::KEY_A),
            release(Key::KEY_A),
            Event::OverrideTimeout,
            // Check it's canceled.
            press(Key::KEY_C),
            release(Key::KEY_C),
        ],
        vec![
            ke(Key::KEY_A, KeyValue::Release),
            ke(Key::KEY_C, KeyValue::Press),
            ke(Key::KEY_C, KeyValue::Release),
        ],
    )
}

#[test]
fn test_cancel_by_timeout_with_timeout_key() {
    // There is no default timeout_millis so timeout_key is just ignored.
    assert_actions(
        "
        keymap:
          - remap:
              a:
                timeout_key: t
                remap:
                    c: d
        ",
        vec![
            press(Key::KEY_A),
            release(Key::KEY_A),
            Event::OverrideTimeout,
            press(Key::KEY_C),
            release(Key::KEY_C),
        ],
        vec![
            ke(Key::KEY_A, KeyValue::Release),
            ke(Key::KEY_C, KeyValue::Press),
            ke(Key::KEY_C, KeyValue::Release),
        ],
    )
}

#[test]
fn test_cancel_by_timeout_with_explicit_timeout() {
    assert_actions(
        "
        keymap:
          - remap:
              a:
                timeout_key: t
                timeout_millis: 100
                remap:
                    c: d
        ",
        vec![
            press(Key::KEY_A),
            release(Key::KEY_A),
            Event::OverrideTimeout,
            press(Key::KEY_C),
            release(Key::KEY_C),
        ],
        vec![
            ke(Key::KEY_A, KeyValue::Release),
            ke(Key::KEY_T, KeyValue::Press),
            ke(Key::KEY_T, KeyValue::Release),
            ke(Key::KEY_C, KeyValue::Press),
            ke(Key::KEY_C, KeyValue::Release),
        ],
    )
}

#[test]
fn test_cancel_by_key_with_defined_timeout_key() {
    assert_actions(
        "
        keymap:
          - remap:
              a:
                timeout_key: t
                timeout_millis: 100
                remap:
                    c: d
        ",
        vec![
            press(Key::KEY_A),
            release(Key::KEY_A),
            press(Key::KEY_K),
            release(Key::KEY_K),
            press(Key::KEY_C),
            release(Key::KEY_C),
        ],
        vec![
            ke(Key::KEY_A, KeyValue::Release),
            ke(Key::KEY_T, KeyValue::Press),
            ke(Key::KEY_T, KeyValue::Release),
            ke(Key::KEY_K, KeyValue::Press),
            ke(Key::KEY_K, KeyValue::Release),
            ke(Key::KEY_C, KeyValue::Press),
            ke(Key::KEY_C, KeyValue::Release),
        ],
    )
}

#[test]
fn test_cancel_by_key_with_defined_timeout_key_but_no_match() {
    assert_actions(
        "
        keymap:
          - remap:
              a:
                timeout_key: t
                timeout_millis: 100
                remap:
                    ctrl-c: d
        ",
        vec![
            press(Key::KEY_A),
            release(Key::KEY_A),
            // KEY_C doesn't match because it has the wrong modifiers
            press(Key::KEY_C),
            release(Key::KEY_C),
        ],
        vec![
            ke(Key::KEY_A, KeyValue::Release),
            ke(Key::KEY_C, KeyValue::Press),
            ke(Key::KEY_C, KeyValue::Release),
        ],
    )
}

#[test]
fn tests_extra_modifiers_test_on_left_side() {
    assert_actions(
        "
        keymap:
            - remap:
                CONTROL-A: B
        ",
        vec![
            press(Key::KEY_LEFTCTRL),
            press(Key::KEY_A),
            release(Key::KEY_A),
            release(Key::KEY_LEFTCTRL),
        ],
        vec![
            ke(Key::KEY_LEFTCTRL, KeyValue::Press),
            ke(Key::KEY_LEFTCTRL, KeyValue::Release),
            ke(Key::KEY_B, KeyValue::Press),
            ke(Key::KEY_B, KeyValue::Release),
            Action::Delay(0),
            ke(Key::KEY_LEFTCTRL, KeyValue::Press),
            Action::Delay(0),
            ke(Key::KEY_A, KeyValue::Release),
            ke(Key::KEY_LEFTCTRL, KeyValue::Release),
        ],
    )
}

#[test]
fn tests_extra_modifiers_test_on_right_side() {
    assert_actions(
        "
        keymap:
            - remap:
                A: CONTROL-B
        ",
        vec![press(Key::KEY_A), release(Key::KEY_A)],
        vec![
            ke(Key::KEY_LEFTCTRL, KeyValue::Press),
            ke(Key::KEY_B, KeyValue::Press),
            ke(Key::KEY_B, KeyValue::Release),
            Action::Delay(0),
            Action::Delay(0),
            ke(Key::KEY_LEFTCTRL, KeyValue::Release),
            ke(Key::KEY_A, KeyValue::Release),
        ],
    )
}

#[test]
fn tests_extra_modifiers_test_modifier_not_released_in_inexact_match() {
    assert_actions(
        "
        keymap:
            - remap:
                A: B
        ",
        vec![
            press(Key::KEY_LEFTCTRL),
            press(Key::KEY_A),
            release(Key::KEY_A),
            release(Key::KEY_LEFTCTRL),
        ],
        vec![
            ke(Key::KEY_LEFTCTRL, KeyValue::Press),
            ke(Key::KEY_B, KeyValue::Press),
            ke(Key::KEY_B, KeyValue::Release),
            Action::Delay(0),
            Action::Delay(0),
            ke(Key::KEY_A, KeyValue::Release),
            ke(Key::KEY_LEFTCTRL, KeyValue::Release),
        ],
    )
}

#[test]
fn tests_extra_modifiers_test_virtual_modifier_is_not_considered_extra() {
    assert_actions(
        "
        virtual_modifiers:
            - CAPSLOCK
        keymap:
            - remap:
                CAPSLOCK-A: B
        ",
        vec![
            press(Key::KEY_CAPSLOCK),
            press(Key::KEY_A),
            release(Key::KEY_A),
            release(Key::KEY_CAPSLOCK),
        ],
        vec![
            ke(Key::KEY_B, KeyValue::Press),
            ke(Key::KEY_B, KeyValue::Release),
            Action::Delay(0),
            Action::Delay(0),
            ke(Key::KEY_A, KeyValue::Release),
        ],
    )
}
