use rnake::widgets::{
    Action, Choice, DialogResult, DialogReturn, Event, Key, Menu, Message, Reaction, Widget,
};

const KEYS: [Key; 8] = [
    Key::Return,
    Key::Space,
    Key::Left,
    Key::Right,
    Key::Up,
    Key::Down,
    Key::Escape,
    Key::Other,
];

fn items() -> Vec<String> {
    vec!["slow".to_string(), "normal".to_string(), "fast".to_string()]
}

#[test]
fn an_action_shows_its_text() {
    let a = Action::new("Start the game".to_string());
    assert!(a.can_activate());
    assert_eq!(a.present(), "Start the game");
}

#[test]
fn return_and_space_choose_an_action() {
    let mut a = Action::new("Exit".to_string());
    for key in KEYS {
        let chosen = key == Key::Return || key == Key::Space;
        assert_eq!(a.feed(Event::KeyDown(key)), chosen);
        assert_eq!(a.present(), "Exit");
    }
    assert!(!a.feed(Event::Quit));
    assert!(!a.feed(Event::Other));
}

#[test]
fn a_message_shows_its_text_and_cannot_be_activated() {
    let m = Message::new("Game over.".to_string());
    assert!(!m.can_activate());
    assert_eq!(m.present(), "Game over.");
}

#[test]
fn a_choice_shows_what_is_chosen() {
    let items = items();
    let c = Choice::new("Speed".to_string(), &items, 1);
    assert!(c.can_activate());
    assert_eq!(c.present(), "Speed > normal <");
    assert_eq!(c.result(), 1);
    let c = Choice::new("Speed".to_string(), &items, 0);
    assert_eq!(c.present(), "Speed > slow <");
    assert_eq!(c.result(), 0);
}

#[test]
fn the_arrows_go_round_a_choice() {
    let items = items();
    let mut c = Choice::new("Speed".to_string(), &items, 1);
    assert!(!c.feed(Event::KeyDown(Key::Right)));
    assert_eq!(c.result(), 2);
    assert_eq!(c.present(), "Speed > fast <");
    assert!(!c.feed(Event::KeyDown(Key::Right)));
    assert_eq!(c.result(), 0);
    assert_eq!(c.present(), "Speed > slow <");
    assert!(!c.feed(Event::KeyDown(Key::Left)));
    assert_eq!(c.result(), 2);
    assert_eq!(c.present(), "Speed > fast <");
    assert!(!c.feed(Event::KeyDown(Key::Left)));
    assert_eq!(c.result(), 1);
    assert_eq!(c.present(), "Speed > normal <");
}

#[test]
fn other_keys_leave_a_choice_alone() {
    let items = items();
    let mut c = Choice::new("Speed".to_string(), &items, 2);
    for key in [Key::Return, Key::Space, Key::Up, Key::Down, Key::Escape, Key::Other] {
        assert!(!c.feed(Event::KeyDown(key)));
        assert_eq!(c.result(), 2);
        assert_eq!(c.present(), "Speed > fast <");
    }
    assert!(!c.feed(Event::Quit));
    assert!(!c.feed(Event::Other));
    assert_eq!(c.result(), 2);
}

#[test]
fn a_choice_of_one_item_stays() {
    let items = vec!["1".to_string()];
    let mut c = Choice::new("Level".to_string(), &items, 0);
    c.feed(Event::KeyDown(Key::Left));
    assert_eq!(c.result(), 0);
    c.feed(Event::KeyDown(Key::Right));
    assert_eq!(c.result(), 0);
    assert_eq!(c.present(), "Level > 1 <");
}

#[test]
fn a_menu_marks_the_first_widget_that_can_be_activated() {
    let mut note = Message::new("Settings".to_string());
    let mut start = Action::new("Start the game".to_string());
    let mut exit = Action::new("Exit".to_string());
    let mut menu = Menu::new(vec![&mut note, &mut start, &mut exit]);
    assert_eq!(
        menu.show(),
        vec!["Settings", "- Start the game -", "Exit"]
    );
}

#[test]
fn up_and_down_move_the_mark_round() {
    let mut start = Action::new("Start".to_string());
    let mut note = Message::new("or".to_string());
    let mut options = Action::new("Options".to_string());
    let mut exit = Action::new("Exit".to_string());
    let mut menu = Menu::new(vec![&mut start, &mut note, &mut options, &mut exit]);
    let moved = Reaction { click: true, close: None };
    assert_eq!(menu.feed(Event::KeyDown(Key::Down)), moved);
    assert_eq!(menu.show(), vec!["Start", "or", "- Options -", "Exit"]);
    assert_eq!(menu.feed(Event::KeyDown(Key::Down)), moved);
    assert_eq!(menu.show(), vec!["Start", "or", "Options", "- Exit -"]);
    assert_eq!(menu.feed(Event::KeyDown(Key::Down)), moved);
    assert_eq!(menu.show(), vec!["- Start -", "or", "Options", "Exit"]);
    assert_eq!(menu.feed(Event::KeyDown(Key::Up)), moved);
    assert_eq!(menu.show(), vec!["Start", "or", "Options", "- Exit -"]);
    assert_eq!(menu.feed(Event::KeyDown(Key::Up)), moved);
    assert_eq!(menu.show(), vec!["Start", "or", "- Options -", "Exit"]);
}

#[test]
fn a_chosen_action_closes_the_menu_with_its_index() {
    let mut start = Action::new("Start".to_string());
    let mut note = Message::new("or".to_string());
    let mut exit = Action::new("Exit".to_string());
    let mut menu = Menu::new(vec![&mut start, &mut note, &mut exit]);
    menu.show();
    menu.feed(Event::KeyDown(Key::Down));
    menu.show();
    assert_eq!(
        menu.feed(Event::KeyDown(Key::Return)),
        Reaction { click: true, close: Some(DialogReturn::Index(2)) }
    );
    assert_eq!(
        menu.feed(Event::KeyDown(Key::Space)),
        Reaction { click: true, close: Some(DialogReturn::Index(2)) }
    );
    // a key that the action does not know clicks and closes nothing
    assert_eq!(
        menu.feed(Event::KeyDown(Key::Other)),
        Reaction { click: true, close: None }
    );
    assert_eq!(
        menu.feed(Event::KeyDown(Key::Left)),
        Reaction { click: true, close: None }
    );
}

#[test]
fn keys_go_to_the_widget_that_was_marked_when_the_menu_was_shown() {
    let mut start = Action::new("Start".to_string());
    let mut exit = Action::new("Exit".to_string());
    let mut menu = Menu::new(vec![&mut start, &mut exit]);
    menu.show();
    // the mark moves, but the menu is not shown again before the next key
    menu.feed(Event::KeyDown(Key::Down));
    assert_eq!(
        menu.feed(Event::KeyDown(Key::Return)),
        Reaction { click: true, close: Some(DialogReturn::Index(0)) }
    );
    assert_eq!(menu.show(), vec!["Start", "- Exit -"]);
    assert_eq!(
        menu.feed(Event::KeyDown(Key::Return)),
        Reaction { click: true, close: Some(DialogReturn::Index(1)) }
    );
}

#[test]
fn escape_closes_any_menu() {
    let mut start = Action::new("Start".to_string());
    let mut menu = Menu::new(vec![&mut start]);
    let cancelled = Reaction {
        click: true,
        close: Some(DialogReturn::Result(DialogResult::Cancel)),
    };
    assert_eq!(menu.feed(Event::KeyDown(Key::Escape)), cancelled);
    let mut over = Message::new("Game over.".to_string());
    let mut menu = Menu::new(vec![&mut over]);
    assert_eq!(menu.feed(Event::KeyDown(Key::Escape)), cancelled);
}

#[test]
fn space_closes_a_menu_of_messages() {
    let mut over = Message::new("Game over.".to_string());
    let mut again = Message::new("Press SPACE to play again,".to_string());
    let mut menu = Menu::new(vec![&mut over, &mut again]);
    assert_eq!(menu.show(), vec!["Game over.", "Press SPACE to play again,"]);
    let silent = Reaction { click: false, close: None };
    for key in [Key::Return, Key::Left, Key::Right, Key::Up, Key::Down, Key::Other] {
        assert_eq!(menu.feed(Event::KeyDown(key)), silent);
    }
    assert_eq!(menu.feed(Event::Quit), silent);
    assert_eq!(menu.feed(Event::Other), silent);
    assert_eq!(
        menu.feed(Event::KeyDown(Key::Space)),
        Reaction { click: true, close: Some(DialogReturn::Result(DialogResult::Okay)) }
    );
    assert_eq!(menu.show(), vec!["Game over.", "Press SPACE to play again,"]);
}

#[test]
fn events_that_are_no_keys_do_nothing() {
    let mut start = Action::new("Start".to_string());
    let mut menu = Menu::new(vec![&mut start]);
    let silent = Reaction { click: false, close: None };
    assert_eq!(menu.feed(Event::Quit), silent);
    assert_eq!(menu.feed(Event::Other), silent);
    assert_eq!(menu.show(), vec!["- Start -"]);
}

#[test]
fn an_empty_menu_shows_nothing() {
    let mut menu = Menu::new(vec![]);
    assert_eq!(menu.show(), Vec::<String>::new());
    assert_eq!(
        menu.feed(Event::KeyDown(Key::Space)),
        Reaction { click: true, close: Some(DialogReturn::Result(DialogResult::Okay)) }
    );
}

#[test]
fn a_menu_changes_the_choice_that_is_marked() {
    let speeds = items();
    let levels = vec!["1".to_string(), "2".to_string()];
    let mut speed = Choice::new("Speed".to_string(), &speeds, 1);
    let mut level = Choice::new("Level".to_string(), &levels, 0);
    let mut save = Action::new("Save settings".to_string());
    {
        let widgets: Vec<&mut dyn Widget> = vec![&mut speed, &mut level, &mut save];
        let mut menu = Menu::new(widgets);
        assert_eq!(
            menu.show(),
            vec!["- Speed > normal < -", "Level > 1 <", "Save settings"]
        );
        let fed = Reaction { click: true, close: None };
        assert_eq!(menu.feed(Event::KeyDown(Key::Right)), fed);
        assert_eq!(
            menu.show(),
            vec!["- Speed > fast < -", "Level > 1 <", "Save settings"]
        );
        assert_eq!(menu.feed(Event::KeyDown(Key::Return)), fed);
        assert_eq!(menu.feed(Event::KeyDown(Key::Down)), fed);
        menu.show();
        assert_eq!(menu.feed(Event::KeyDown(Key::Left)), fed);
        assert_eq!(
            menu.show(),
            vec!["Speed > fast <", "- Level > 2 < -", "Save settings"]
        );
        assert_eq!(menu.feed(Event::KeyDown(Key::Down)), fed);
        menu.show();
        assert_eq!(
            menu.feed(Event::KeyDown(Key::Return)),
            Reaction { click: true, close: Some(DialogReturn::Index(2)) }
        );
    }
    assert_eq!(speed.result(), 2);
    assert_eq!(level.result(), 1);
}
