use toot_3d::error::ClientError;
use toot_3d::ui::citro2d::TexDimError;
use toot_3d::ui::glyph_cache::Glyph;
use toot_3d::ui::kbd::{
    get_input, keyboard_setup, Button, KeyboardError, KeyboardSetup, SwkbdError, ValidInput,
};
use toot_3d::ui::layout::Scale;
use toot_3d::ui::loader::{Loader, QrCanvas};
use toot_3d::ui::mailbox::{Mailbox, UiMsg};
use toot_3d::ui::pool::LogicImgPool;
use toot_3d::ui::screen::error::ErrorScreen;
use toot_3d::ui::screen::qr::QrScreen;
use toot_3d::ui::screen::timeline::{
    ends_line, parse_html, status_text, wrap_status, TimelineScreen,
};
use toot_3d::ui::text::{TextLines, TextRenderer};
use toot_3d::ui::{Action, Ui};

type Box3 = Mailbox<u8, u8, u8>;

#[test]
fn the_keyboard_is_set_up_for_the_question() {
    assert_eq!(
        keyboard_setup(true, false),
        KeyboardSetup {
            qwerty: true,
            buttons: 1,
            multiline: false,
            allow_home: true,
            allow_reset: true,
            allow_power: true,
            valid_input: ValidInput::NotEmptyNotBlank,
        }
    );
    let free = keyboard_setup(false, true);
    assert!(!free.qwerty && free.multiline);
    assert_eq!(free.valid_input, ValidInput::Anything);
}

#[test]
fn the_left_button_cancels() {
    let typed = || "typed".to_string();
    assert_eq!(get_input(Ok(Button::Right), typed()), Ok(typed()));
    assert_eq!(get_input(Ok(Button::Middle), typed()), Ok(typed()));
    assert_eq!(get_input(Ok(Button::Left), typed()), Err(KeyboardError(None)));
    assert_eq!(
        get_input(Err(SwkbdError::HomePressed), typed()),
        Err(KeyboardError(Some(SwkbdError::HomePressed)))
    );
}

#[test]
fn keyboard_errors_have_their_texts() {
    let text = |e: Option<SwkbdError>| KeyboardError(e).to_string();
    assert_eq!(text(None), "Input cancelled");
    assert_eq!(text(Some(SwkbdError::InvalidInput)), "Invalid input");
    assert_eq!(text(Some(SwkbdError::OutOfMem)), "Out of memory");
    assert_eq!(text(Some(SwkbdError::HomePressed)), "Home button pressed");
    assert_eq!(text(Some(SwkbdError::ResetPressed)), "Console reset");
    assert_eq!(text(Some(SwkbdError::PowerPressed)), "Power button pressed");
}

#[test]
fn input_is_asked_for_by_a_message() {
    let mut mailbox = Box3::new();
    toot_3d::ui::get_input(&mut mailbox, "Which instance?", true, false, 5);
    let (batch, _) = mailbox.drain_once();
    assert!(matches!(
        batch[..],
        [UiMsg::Keyboard { hint: "Which instance?", restrict: true, blank_allowed: false, reply: 5 }]
    ));
}

#[test]
fn markup_becomes_plain_text() {
    let text = |html: &str| parse_html(html).ok().unwrap();
    assert_eq!(text("<p>Hello</p>"), "Hello\n");
    // only the end of an element ends a line
    assert_eq!(text("<p>one<br>two</p><p>three</p>"), "onetwo\nthree\n");
    assert_eq!(text("one<br></br>two"), "one\ntwo");
    assert_eq!(text("<p>a<br/>b</p>"), "ab\n");
    assert_eq!(text("a &amp; b &lt;3"), "a & b <3");
    assert_eq!(text("<p><span class=\"x\">@</span><a href=\"u\">user</a> hi</p>"), "@user hi\n");
    assert_eq!(text(""), "");
    assert_eq!(text("plain"), "plain");
    assert!(matches!(parse_html("&unknown;"), Err(ClientError::Markup(_))));
    assert!(ends_line(&b"p".to_vec()));
    assert!(ends_line(&b"br".to_vec()));
    assert!(!ends_line(&b"b".to_vec()));
    assert!(!ends_line(&b"pr".to_vec()));
    assert!(!ends_line(&b"".to_vec()));
    assert!(!ends_line(&b"pre".to_vec()));
}

#[test]
fn a_status_is_shown_with_its_author() {
    assert_eq!(status_text("Alice", "Hello\n"), "from Alice\nHello\n\n");
    let mut mailbox = Box3::new();
    wrap_status("Alice", "<p>Hello world</p>", &mut mailbox, 9).ok().unwrap();
    assert!(wrap_status("Alice", "&bad;", &mut mailbox, 9).is_err());
    let (batch, _) = mailbox.drain_once();
    assert_eq!(batch.len(), 1);
    match &batch[0] {
        UiMsg::WordWrap { text, width, scale, tx } => {
            assert_eq!(text, "from Alice\nHello world\n\n");
            assert_eq!((*width, *scale, *tx), (360, Scale { num: 1, den: 2 }, 9));
        }
        _ => panic!("no text to wrap"),
    }
}

#[test]
fn the_timeline_scrolls_by_four_pixels_and_stops_at_the_top() {
    let mut screen = TimelineScreen::new(Vec::new());
    assert_eq!(screen.get_scroll(), 0);
    screen.update(true, false);
    assert_eq!(screen.get_scroll(), 0);
    screen.update(false, true);
    screen.update(false, true);
    assert_eq!(screen.get_scroll(), 8);
    screen.update(false, false);
    assert_eq!(screen.get_scroll(), 8);
    // up wins over down
    screen.update(true, true);
    assert_eq!(screen.get_scroll(), 4);
    screen.update(true, false);
    screen.update(true, false);
    assert_eq!(screen.get_scroll(), 0);
    assert!(screen.get_statuses().is_empty());
}

#[test]
fn the_error_screen_closes_on_start() {
    let mut mailbox = Box3::new();
    ErrorScreen::new("it broke".to_string(), &mut mailbox, 3);
    let (batch, _) = mailbox.drain_once();
    match &batch[0] {
        UiMsg::WordWrap { text, width, scale, tx } => {
            assert_eq!(text, "it broke");
            assert_eq!((*width, *scale, *tx), (360, Scale { num: 1, den: 2 }, 3));
        }
        _ => panic!("no text to wrap"),
    }
    let renderer = TextRenderer::new(30);
    let lines = TextLines::new("", &vec![], &renderer, 360, Scale { num: 1, den: 2 });
    let mut screen = ErrorScreen::show(lines);
    assert!(!screen.update(false));
    assert!(screen.update(true));
    assert_eq!(screen.lines().lines().len(), 1);
    assert_eq!(ErrorScreen::color(), 0xff5555ff);
}

#[test]
fn the_qr_code_is_shown_in_the_middle() {
    let mut pool = LogicImgPool::new();
    let mut mailbox = Box3::new();
    let screen = QrScreen::new(QrCanvas::new(29, 29), &mut pool, &mut mailbox).ok().unwrap();
    assert_eq!(screen.position(), (200 - 29, 120 - 29));
    assert_eq!(screen.qr_code().get_id(), 0);
    let (batch, _) = mailbox.drain_once();
    assert!(matches!(batch[..], [UiMsg::LoadImage(0, Loader::Code(_))]));
    assert!(matches!(
        QrScreen::new(QrCanvas::new(70000, 1), &mut pool, &mut mailbox),
        Err(ClientError::BadImage)
    ));
    // a code that is larger than the display starts left of it
    let screen = QrScreen::new(QrCanvas::new(300, 130), &mut pool, &mut mailbox).ok().unwrap();
    assert_eq!(screen.position(), (-100, -10));
    pool.dealloc(screen.into_handle(), &mut mailbox);
}

#[test]
fn the_render_thread_applies_each_message() {
    let mut ui: Ui<&str, u8> = Ui::new(0, TextRenderer::new(30));
    assert_eq!(*ui.screen(), 0);
    let canvas = QrCanvas::new(2, 2);
    let action: Action<u8, u8, u8> = ui.apply(UiMsg::LoadImage(4, Loader::Code(canvas)));
    match action {
        Action::Upload(4, image) => assert_eq!((image.width(), image.height()), (2, 2)),
        _ => panic!("nothing to upload"),
    }
    // the picture is there once the GPU has it
    assert!(ui.picture(4).is_none());
    ui.bind(4, "four");
    assert_eq!(ui.picture(4), Some(&"four"));
    assert!(ui.picture(5).is_none());
    let action: Action<u8, u8, u8> =
        ui.apply(UiMsg::LoadImage(5, Loader::Code(QrCanvas::new(2000, 2))));
    assert!(matches!(action, Action::LoadFailed(TexDimError)));
    assert!(ui.picture(5).is_none());
    let action: Action<u8, u8, u8> = ui.apply(UiMsg::UnloadImage(4));
    assert!(matches!(action, Action::Unload(4)));
    assert_eq!(ui.unbind(4), Some("four"));
    assert_eq!(ui.unbind(4), None);
    assert!(ui.picture(4).is_none());
    let action: Action<u8, u8, u8> = ui.apply(UiMsg::SetScreen(7));
    // the screen that was shown is handed out
    assert!(matches!(action, Action::Closed(0)));
    assert_eq!(*ui.screen(), 7);
    *ui.screen_mut() = 8;
    assert_eq!(*ui.screen(), 8);
    let action = ui.apply(UiMsg::Keyboard { hint: "h", restrict: true, blank_allowed: false, reply: 1u8 });
    assert!(matches!(
        action,
        Action::<u8, u8, u8>::Keyboard { hint: "h", restrict: true, blank_allowed: false, reply: 1 }
    ));
    let scale = Scale { num: 1, den: 2 };
    let action = ui.apply(UiMsg::WordWrap { text: "t".to_string(), width: 9, scale, tx: 2u8 });
    match action {
        Action::<u8, u8, u8>::WordWrap { text, width: 9, scale: s, tx: 2 } => {
            assert_eq!((text.as_str(), s), ("t", scale))
        }
        _ => panic!("nothing to wrap"),
    }
    assert!(matches!(ui.apply::<u8, u8>(UiMsg::Flush), Action::Nothing));
    assert!(matches!(ui.apply::<u8, u8>(UiMsg::Quit), Action::Nothing));
    ui.text_renderer().put_glyph('a', Glyph { index: 1, x_advance: 2 });
    assert_eq!(ui.text_renderer().get_glyph('a'), Some(Glyph { index: 1, x_advance: 2 }));
}

#[test]
fn a_frame_takes_in_the_messages_up_to_a_flush() {
    let mut ui: Ui<&str, u8> = Ui::new(0, TextRenderer::new(30));
    let mut mailbox = Box3::new();
    mailbox.send(UiMsg::LoadImage(0, Loader::Code(QrCanvas::new(1, 1))));
    mailbox.send(UiMsg::SetScreen(1));
    mailbox.send(UiMsg::UnloadImage(0));
    mailbox.send(UiMsg::SetScreen(2));
    mailbox.send(UiMsg::Flush);
    mailbox.send(UiMsg::SetScreen(3));
    mailbox.send(UiMsg::Quit);
    mailbox.send(UiMsg::SetScreen(4));
    let (actions, running) = ui.iteration(&mut mailbox);
    assert!(running);
    assert_eq!(actions.len(), 4);
    assert!(matches!(actions[0], Action::Upload(0, _)));
    assert!(matches!(actions[1], Action::Closed(0)));
    assert!(matches!(actions[2], Action::Unload(0)));
    assert!(matches!(actions[3], Action::Closed(1)));
    assert_eq!(*ui.screen(), 2);
    assert_eq!(mailbox.len(), 3);
    let (actions, running) = ui.iteration(&mut mailbox);
    assert!(!running);
    assert_eq!(actions.len(), 1);
    assert_eq!(*ui.screen(), 3);
    assert_eq!(mailbox.len(), 1);
    let (actions, running) = ui.iteration(&mut mailbox);
    assert!(running);
    assert_eq!((actions.len(), *ui.screen(), mailbox.len()), (1, 4, 0));
    let (actions, running) = ui.iteration(&mut mailbox);
    assert!(running && actions.is_empty());
}
