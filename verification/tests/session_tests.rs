use gdrawer::app::{
    read_typed_number, AdvancedMessage, AfterScan, App, BreakMessage, DirectoryTarget, DisplayTime,
    Effect, FinishMessage, ImageMessage, ImageSlot, MenuMessage, Message, Screen,
};
use gdrawer::config::{ImageSet, Version};

type Handle = u32;
type Msg = Message<Handle>;

fn images(n: usize) -> Vec<String> {
    (0..n).map(|i| format!("/pics/{}.png", i)).collect()
}

fn send(app: &mut App<Handle>, msg: Msg) -> Effect<Handle> {
    assert!(app.accepts(&msg), "message refused: {:?}", msg);
    app.update(msg)
}

/// A fresh state whose menu lists `n` images, with the given limit and
/// durations.
fn prepared(n: usize, limit: u32, image_secs: u32, break_secs: u32) -> App<Handle> {
    let mut app: App<Handle> = App::new(None);
    assert!(matches!(app.images_scanned(images(n), AfterScan::Keep), Effect::Nothing));
    send(&mut app, MenuMessage::ImageLimitChanged(limit).to_mes());
    send(&mut app, MenuMessage::ImageDurationChanged(image_secs).to_mes());
    send(&mut app, MenuMessage::BreakDurationChanged(break_secs).to_mes());
    app
}

/// A running session over `n` images, started from the menu.
fn started_with(n: usize, limit: u32, image_secs: u32, break_secs: u32) -> App<Handle> {
    let mut app = prepared(n, limit, image_secs, break_secs);
    let e = send(&mut app, MenuMessage::StartPressed.to_mes());
    assert!(matches!(e, Effect::Dispatch(Message::LoadBothImages)));
    app
}

fn started(n: usize, limit: u32) -> App<Handle> {
    started_with(n, limit, 30, 5)
}

#[test]
fn new_without_saved_data() {
    let app: App<Handle> = App::new(None);
    assert!(matches!(app.screen(), Screen::Menu));
    assert_eq!(app.directory(), "");
    assert!(app.images().is_empty());
    assert!(app.sets().entries().is_empty());
    assert_eq!((app.image_duration(), app.break_duration(), app.image_limit()), (30, 5, 10));
    assert!(!app.ticking() && !app.on_break());
    assert!(app.cur_handle().is_none() && app.next_handle().is_none() && app.cur_id().is_none());
    assert_eq!(app.timer(), 0);
    assert!(matches!(app.display_time(), DisplayTime::Image));
    assert_eq!(app.set_name(), "Set");
    assert_eq!(app.set_directory(), "");
    assert_eq!((app.set_image_duration(), app.set_break_duration(), app.set_image_limit()), (30, 5, 10));
    assert_eq!(app.title(), "GDrawer");
    assert!(!app.ticking());
    let d: App<Handle> = App::default();
    assert_eq!(d.set_name(), "Set");
    assert_eq!(d.version().major, 0);
}

#[test]
fn new_with_saved_data() {
    let sets = vec![
        ("b".to_string(), ImageSet::new("/b".to_string(), 60, 10, 3)),
        ("a".to_string(), ImageSet::new("/a".to_string(), 30, 5, 4)),
    ];
    let app: App<Handle> = App::new(Some((Version::new(1, 0, 2), sets)));
    assert_eq!(app.version().patch, 2);
    assert_eq!(app.sets().entries().len(), 2);
    assert_eq!(app.sets().entries()[0].0, "a");
}

#[test]
fn start_shuffles_the_same_images_and_fits_limit() {
    let app = started(3, 10);
    assert!(app.ticking() && app.ticking());
    assert!(matches!(app.screen(), Screen::Image));
    assert_eq!(app.cur_id(), Some(0));
    assert_eq!(app.image_limit(), 3);
    assert_eq!(app.timer(), 30);
    let mut got = app.images().clone();
    got.sort();
    assert_eq!(got, images(3));
}

#[test]
fn start_keeps_smaller_limit() {
    let app = started(20, 4);
    assert_eq!(app.image_limit(), 4);
    assert_eq!(app.images().len(), 20);
}

#[test]
fn load_effects_name_listed_images() {
    let mut app = started(3, 3);
    let list = app.images().clone();
    match send(&mut app, Message::LoadBothImages) {
        Effect::LoadBothImages(a, b) => {
            assert_eq!(a, list[0]);
            assert_eq!(b, list[1]);
        }
        other => panic!("{:?}", other),
    }
    match send(&mut app, Message::LoadImage) {
        Effect::LoadImage(p, ImageSlot::Current) => assert_eq!(p, list[0]),
        other => panic!("{:?}", other),
    }
    match send(&mut app, Message::PreloadImage) {
        Effect::LoadImage(p, ImageSlot::Next) => assert_eq!(p, list[1]),
        other => panic!("{:?}", other),
    }
    assert!(matches!(send(&mut app, Message::CurImageLoaded(7)), Effect::Nothing));
    assert!(matches!(send(&mut app, Message::NextImageLoaded(8)), Effect::Nothing));
    assert_eq!((*app.cur_handle(), *app.next_handle()), (Some(7), Some(8)));
}

#[test]
fn loading_two_images_of_one_is_refused() {
    let app = started(1, 10);
    assert_eq!(app.image_limit(), 1);
    assert!(!app.accepts(&Message::LoadBothImages));
    assert!(app.accepts(&Message::LoadImage));
}

#[test]
fn ticks_run_down_to_a_break_then_back() {
    let mut app = started_with(3, 3, 2, 2);
    assert_eq!(app.timer(), 2);
    send(&mut app, Message::NextImageLoaded(5));
    assert!(matches!(send(&mut app, Message::Tick), Effect::Nothing));
    assert_eq!(app.timer(), 1);
    assert!(matches!(send(&mut app, Message::Tick), Effect::Nothing));
    assert!(matches!(app.screen(), Screen::Break));
    assert!(app.on_break());
    assert_eq!(app.cur_id(), Some(1));
    assert_eq!(app.timer(), 2);
    send(&mut app, Message::Tick);
    let e = send(&mut app, Message::Tick);
    assert!(matches!(e, Effect::Dispatch(Message::PreloadImage)));
    assert!(matches!(app.screen(), Screen::Image));
    assert!(!app.on_break());
    assert_eq!(app.timer(), 2);
    assert_eq!(*app.cur_handle(), Some(5));
    assert_eq!(*app.next_handle(), None);
}

#[test]
fn last_image_tick_finishes() {
    let mut app = started_with(2, 2, 1, 1);
    // the first image's time runs out: a break before the second
    assert!(matches!(send(&mut app, Message::Tick), Effect::Nothing));
    assert!(matches!(app.screen(), Screen::Break));
    assert_eq!(app.cur_id(), Some(1));
    // the break's time runs out: the second image
    let e = send(&mut app, Message::Tick);
    assert!(matches!(e, Effect::Dispatch(Message::PreloadImage)));
    assert!(matches!(app.screen(), Screen::Image));
    assert_eq!(app.timer(), 1);
    // the last image's time runs out: the session is over
    assert!(matches!(send(&mut app, Message::Tick), Effect::Nothing));
    assert!(matches!(app.screen(), Screen::Finish));
    assert!(!app.ticking());
    assert_eq!(app.timer(), 0);
    assert!(!app.accepts(&Message::Tick));
    assert!(matches!(send(&mut app, FinishMessage::MenuPressed.to_mes()), Effect::Nothing));
    assert!(matches!(app.screen(), Screen::Menu));
}

#[test]
fn skip_image_moves_on_when_next_is_loaded() {
    let mut app = started(3, 3);
    // nothing preloaded yet: skipping does nothing
    assert!(matches!(send(&mut app, ImageMessage::SkipImage.to_mes()), Effect::Nothing));
    assert_eq!(app.cur_id(), Some(0));
    send(&mut app, Message::NextImageLoaded(11));
    let e = send(&mut app, ImageMessage::SkipImage.to_mes());
    assert!(matches!(e, Effect::Dispatch(Message::PreloadImage)));
    assert_eq!(app.cur_id(), Some(1));
    assert_eq!(app.timer(), 31);
    assert_eq!(*app.cur_handle(), Some(11));
    send(&mut app, Message::NextImageLoaded(12));
    // the last image: no more preloading
    assert!(matches!(send(&mut app, ImageMessage::SkipImage.to_mes()), Effect::Nothing));
    assert_eq!(app.cur_id(), Some(2));
    // skipping past the limit ends the session
    assert!(matches!(send(&mut app, ImageMessage::SkipImage.to_mes()), Effect::Nothing));
    assert!(matches!(app.screen(), Screen::Finish));
}

#[test]
fn stopping_returns_to_menu() {
    let mut app = started(3, 3);
    assert!(matches!(send(&mut app, ImageMessage::BreakSession.to_mes()), Effect::Nothing));
    assert!(!app.ticking() && app.cur_id().is_none());
    assert!(matches!(app.screen(), Screen::Menu));
    let mut app = started(3, 3);
    send(&mut app, BreakMessage::BreakSession.to_mes());
    assert!(!app.ticking());
    assert!(matches!(app.screen(), Screen::Menu));
}

#[test]
fn end_break_shows_next_image() {
    let mut app = started_with(3, 3, 1, 30);
    send(&mut app, Message::Tick);
    assert!(app.on_break());
    assert!(matches!(app.screen(), Screen::Break));
    send(&mut app, MenuMessage::ImageDurationChanged(30).to_mes());
    send(&mut app, Message::NextImageLoaded(3));
    let e = send(&mut app, BreakMessage::EndBreak.to_mes());
    assert!(matches!(e, Effect::Dispatch(Message::PreloadImage)));
    assert!(matches!(app.screen(), Screen::Image));
    assert!(!app.on_break());
    assert_eq!(app.timer(), 31);
    assert_eq!(*app.cur_handle(), Some(3));
    assert_eq!(*app.next_handle(), None);
    send(&mut app, MenuMessage::ImageDurationChanged(u32::MAX).to_mes());
    assert!(!app.accepts(&BreakMessage::EndBreak.to_mes()));
}

#[test]
fn menu_settings() {
    let mut app: App<Handle> = App::new(None);
    send(&mut app, MenuMessage::ImageDurationChanged(90).to_mes());
    send(&mut app, MenuMessage::BreakDurationChanged(15).to_mes());
    send(&mut app, MenuMessage::ImageLimitChanged(3).to_mes());
    send(&mut app, MenuMessage::ChangeDisplayedTime(gdrawer::app::DisplayTime::Break).to_mes());
    assert_eq!((app.image_duration(), app.break_duration(), app.image_limit()), (90, 15, 3));
    assert!(matches!(app.display_time(), DisplayTime::Break));
    assert!(matches!(
        send(&mut app, MenuMessage::ChangeDirectoryPressed.to_mes()),
        Effect::PickDirectory(DirectoryTarget::Menu)
    ));
    // no directory yet: nothing to scan
    assert!(matches!(send(&mut app, MenuMessage::ScanImagesPressed.to_mes()), Effect::Nothing));
    assert!(matches!(send(&mut app, MenuMessage::DirectoryChanged(None).to_mes()), Effect::Nothing));
    let e = send(&mut app, MenuMessage::DirectoryChanged(Some("/pics".to_string())).to_mes());
    assert!(matches!(e, Effect::Dispatch(Message::Menu(MenuMessage::ScanImagesPressed))));
    assert_eq!(app.directory(), "/pics");
    match send(&mut app, MenuMessage::ScanImagesPressed.to_mes()) {
        Effect::ScanImages(d, AfterScan::Keep) => assert_eq!(d, "/pics"),
        other => panic!("{:?}", other),
    }
    assert!(matches!(app.images_scanned(images(4), AfterScan::Keep), Effect::Nothing));
    assert_eq!(*app.images(), images(4));
    assert!(!app.ticking());
}

#[test]
fn advanced_screen_round_trip() {
    let mut app: App<Handle> = App::new(None);
    send(&mut app, MenuMessage::DirectoryChanged(Some("/x".to_string())).to_mes());
    assert!(matches!(send(&mut app, MenuMessage::AdvancedPressed.to_mes()), Effect::Nothing));
    assert!(matches!(app.screen(), Screen::Advanced));
    assert!(matches!(send(&mut app, AdvancedMessage::MenuPressed.to_mes()), Effect::Nothing));
    assert!(matches!(app.screen(), Screen::Menu));
    assert_eq!(app.directory(), "/x");
    assert_eq!(app.set_name(), "Set");
}

#[test]
fn typed_numbers() {
    assert_eq!(read_typed_number(5, ""), 0);
    assert_eq!(read_typed_number(5, "12"), 12);
    assert_eq!(read_typed_number(5, "1x"), 5);
    assert_eq!(read_typed_number(5, "99999999999"), 5);
    let mut app: App<Handle> = App::new(None);
    send(&mut app, AdvancedMessage::ImageDurationChanged("45".to_string()).to_mes());
    send(&mut app, AdvancedMessage::BreakDurationChanged("".to_string()).to_mes());
    send(&mut app, AdvancedMessage::ImageLimitChanged("abc".to_string()).to_mes());
    assert_eq!((app.set_image_duration(), app.set_break_duration(), app.set_image_limit()), (45, 0, 10));
}

#[test]
fn save_set_then_delete() {
    let mut app: App<Handle> = App::new(None);
    send(&mut app, AdvancedMessage::SetNameChanged("Faces".to_string()).to_mes());
    let e = send(&mut app, AdvancedMessage::DirectoryChanged(Some("/faces".to_string())).to_mes());
    assert!(matches!(e, Effect::Dispatch(Message::Menu(MenuMessage::ScanImagesPressed))));
    send(&mut app, AdvancedMessage::ImageDurationChanged("60".to_string()).to_mes());
    match send(&mut app, AdvancedMessage::SaveSet.to_mes()) {
        Effect::CheckDirectory(d) => assert_eq!(d, "/faces"),
        other => panic!("{:?}", other),
    }
    // a missing directory saves nothing
    assert!(matches!(app.save_set_checked(false), Effect::Nothing));
    assert!(!app.sets().contains_key("Faces"));
    assert!(matches!(app.save_set_checked(true), Effect::SaveData));
    let saved = app.sets().get("Faces").unwrap();
    assert_eq!(saved.directory, "/faces");
    assert_eq!((saved.image_duration, saved.break_duration, saved.image_limit), (60, 5, 10));
    assert_eq!(app.set_name(), "Set");
    assert_eq!(app.set_directory(), "");
    assert_eq!((app.set_image_duration(), app.set_break_duration(), app.set_image_limit()), (30, 5, 10));
    // the same name again is not saved over
    send(&mut app, AdvancedMessage::SetNameChanged("Faces".to_string()).to_mes());
    assert!(matches!(send(&mut app, AdvancedMessage::SaveSet.to_mes()), Effect::Nothing));
    assert!(matches!(app.save_set_checked(true), Effect::Nothing));
    assert_eq!(app.sets().get("Faces").unwrap().image_duration, 60);
    send(&mut app, AdvancedMessage::DeleteSet("Faces".to_string()).to_mes());
    assert!(app.sets().entries().is_empty());
}

#[test]
fn empty_set_name_is_not_saved() {
    let mut app: App<Handle> = App::new(None);
    send(&mut app, AdvancedMessage::SetNameChanged(String::new()).to_mes());
    assert!(matches!(send(&mut app, AdvancedMessage::SaveSet.to_mes()), Effect::CheckDirectory(_)));
    assert!(matches!(app.save_set_checked(true), Effect::Nothing));
    assert!(app.sets().entries().is_empty());
}

#[test]
fn pressing_a_set_fills_the_fields_and_start_uses_them() {
    let sets = vec![("Hands".to_string(), ImageSet::new("/hands".to_string(), 90, 15, 2))];
    let mut app: App<Handle> = App::new(Some((Version::default(), sets)));
    send(&mut app, AdvancedMessage::SetPressed("Nope".to_string()).to_mes());
    assert_eq!(app.set_name(), "Set");
    send(&mut app, AdvancedMessage::SetPressed("Hands".to_string()).to_mes());
    assert_eq!(app.set_name(), "Hands");
    assert_eq!(app.set_directory(), "/hands");
    assert_eq!((app.set_image_duration(), app.set_break_duration(), app.set_image_limit()), (90, 15, 2));
    assert!(matches!(
        send(&mut app, AdvancedMessage::ChangeDirectoryPressed.to_mes()),
        Effect::PickDirectory(DirectoryTarget::Advanced)
    ));
    match send(&mut app, AdvancedMessage::StartPressed.to_mes()) {
        Effect::ScanImages(d, AfterScan::StartSession) => assert_eq!(d, "/hands"),
        other => panic!("{:?}", other),
    }
    assert_eq!(app.directory(), "/hands");
    assert_eq!((app.image_duration(), app.break_duration(), app.image_limit()), (90, 15, 2));
    let e = app.images_scanned(images(5), AfterScan::StartSession);
    assert!(matches!(e, Effect::Dispatch(Message::LoadBothImages)));
    assert!(app.ticking());
    assert_eq!(app.image_limit(), 2);
    assert_eq!(app.timer(), 90);
    let mut got = app.images().clone();
    got.sort();
    assert_eq!(got, images(5));
}

#[test]
fn counter_never_passes_limit() {
    let mut app = started_with(10, 3, 1, 1);
    for _ in 0..20 {
        if !app.ticking() {
            break;
        }
        send(&mut app, Message::NextImageLoaded(1));
        send(&mut app, Message::Tick);
        if let Some(k) = app.cur_id() {
            assert!(k < app.image_limit());
        }
        if app.on_break() {
            send(&mut app, BreakMessage::EndBreak.to_mes());
        }
    }
    assert!(matches!(app.screen(), Screen::Finish));
}

#[test]
fn start_reorders_images() {
    // with ten images, five starts all keeping the listed order would happen
    // about once in 10^32 runs
    let mut reordered = false;
    for _ in 0..5 {
        let app = started(10, 10);
        if *app.images() != images(10) {
            reordered = true;
        }
    }
    assert!(reordered);
}

#[test]
fn events_keep_version() {
    let mut app: App<Handle> = App::new(Some((Version::new(2, 3, 4), Vec::new())));
    send(&mut app, MenuMessage::AdvancedPressed.to_mes());
    send(&mut app, AdvancedMessage::SetNameChanged("x".to_string()).to_mes());
    send(&mut app, AdvancedMessage::MenuPressed.to_mes());
    assert_eq!((app.version().major, app.version().minor, app.version().patch), (2, 3, 4));
}
