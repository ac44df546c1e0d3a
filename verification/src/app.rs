use crate::config::{ImageSet, Version};
use crate::set_map::{pairs_map, SetMap};
use crate::text::{parse_u32, u32_from_text};
use rand::seq::SliceRandom;
use vstd::prelude::*;

verus! {

// ---------------------------------------------------------------------------
// Screens and messages
// ---------------------------------------------------------------------------

/// The screen that is shown.
#[derive(Debug, Clone, Copy, PartialEq, Eq)]
pub enum Screen {
    Menu,
    Advanced,
    Image,
    Break,
    Finish,
}

/// Which of the two fixed durations the menu offers choices for.
#[derive(Debug, Clone, Copy, PartialEq, Eq)]
pub enum DisplayTime {
    Image,
    Break,
}

/// An event for the session: a user action, a timer tick, or an image that
/// finished loading (`H` is the type of a loaded image).
#[derive(Debug, Clone)]
pub enum Message<H> {
    Menu(MenuMessage),
    Advanced(AdvancedMessage),
    Image(ImageMessage),
    Break(BreakMessage),
    Finish(FinishMessage),
    Tick,
    LoadImage,
    CurImageLoaded(H),
    PreloadImage,
    NextImageLoaded(H),
    LoadBothImages,
}

#[derive(Debug, Clone)]
pub enum MenuMessage {
    ChangeDirectoryPressed,
    /// The picked directory, if one was picked and its path is valid text.
    DirectoryChanged(Option<String>),
    ImageDurationChanged(u32),
    BreakDurationChanged(u32),
    ImageLimitChanged(u32),
    ScanImagesPressed,
    StartPressed,
    AdvancedPressed,
    ChangeDisplayedTime(DisplayTime),
}

#[derive(Debug, Clone)]
pub enum AdvancedMessage {
    SetPressed(String),
    SetNameChanged(String),
    ImageDurationChanged(String),
    BreakDurationChanged(String),
    ImageLimitChanged(String),
    SaveSet,
    DeleteSet(String),
    MenuPressed,
    StartPressed,
    ChangeDirectoryPressed,
    /// The picked directory, if one was picked and its path is valid text.
    DirectoryChanged(Option<String>),
}

#[derive(Debug, Clone)]
pub enum ImageMessage {
    SkipImage,
    BreakSession,
}

#[derive(Debug, Clone)]
pub enum BreakMessage {
    EndBreak,
    BreakSession,
}

#[derive(Debug, Clone)]
pub enum FinishMessage {
    MenuPressed,
}

impl MenuMessage {
    pub fn to_mes<H>(self) -> (m: Message<H>)
        ensures
            m == Message::<H>::Menu(self),
    {
        Message::Menu(self)
    }
}

impl AdvancedMessage {
    pub fn to_mes<H>(self) -> (m: Message<H>)
        ensures
            m == Message::<H>::Advanced(self),
    {
        Message::Advanced(self)
    }
}

impl ImageMessage {
    pub fn to_mes<H>(self) -> (m: Message<H>)
        ensures
            m == Message::<H>::Image(self),
    {
        Message::Image(self)
    }
}

impl BreakMessage {
    pub fn to_mes<H>(self) -> (m: Message<H>)
        ensures
            m == Message::<H>::Break(self),
    {
        Message::Break(self)
    }
}

impl FinishMessage {
    pub fn to_mes<H>(self) -> (m: Message<H>)
        ensures
            m == Message::<H>::Finish(self),
    {
        Message::Finish(self)
    }
}

// ---------------------------------------------------------------------------
// What the surrounding program is asked to do
// ---------------------------------------------------------------------------

/// Which screen asked for a directory.
#[derive(Debug, Clone, Copy, PartialEq, Eq)]
pub enum DirectoryTarget {
    Menu,
    Advanced,
}

/// Where a loaded image goes.
#[derive(Debug, Clone, Copy, PartialEq, Eq)]
pub enum ImageSlot {
    Current,
    Next,
}

/// What follows a scan of a directory for images.
#[derive(Debug, Clone, Copy, PartialEq, Eq)]
pub enum AfterScan {
    Keep,
    StartSession,
}

/// Work that a step of the session hands to the surrounding program.
#[derive(Debug, Clone)]
pub enum Effect<H> {
    /// Nothing to do.
    Nothing,
    /// Feed this message back in.
    Dispatch(Message<H>),
    /// Let the user pick a directory; the answer comes back as the target
    /// screen's `DirectoryChanged` message.
    PickDirectory(DirectoryTarget),
    /// Load the image at this path; it comes back as `CurImageLoaded` or
    /// `NextImageLoaded`.
    LoadImage(String, ImageSlot),
    /// Load the current and the next image at once.
    LoadBothImages(String, String),
    /// Walk this directory, keep the image files (`select_images`) and hand
    /// them to `App::images_scanned`.
    ScanImages(String, AfterScan),
    /// Find out whether this directory exists and hand the answer to
    /// `App::save_set_checked`.
    CheckDirectory(String),
    /// Save the version and the sets.
    SaveData,
}


// ---------------------------------------------------------------------------
// The state
// ---------------------------------------------------------------------------

/// The whole state of the program between two events. Its fields are read
/// through the getters below and changed only by the event handlers.
pub struct App<H> {
    version: Version,
    screen: Screen,
    // menu
    directory: String,
    images: Vec<String>,
    sets: SetMap,
    image_duration: u32,
    break_duration: u32,
    image_limit: u32,
    running: bool,
    on_break: bool,
    cur_handle: Option<H>,
    next_handle: Option<H>,
    cur_id: Option<u32>,
    timer: u32,
    display_time: DisplayTime,
    // advanced
    set_name: String,
    set_directory: String,
    set_image_duration: u32,
    set_break_duration: u32,
    set_image_limit: u32,
}

/// The state as the contracts speak of it.
pub struct AppView<H> {
    pub version: Version,
    pub screen: Screen,
    pub directory: String,
    pub images: Seq<String>,
    pub sets: Map<Seq<char>, ImageSet>,
    pub image_duration: u32,
    pub break_duration: u32,
    pub image_limit: u32,
    pub running: bool,
    pub on_break: bool,
    pub cur_handle: Option<H>,
    pub next_handle: Option<H>,
    pub cur_id: Option<u32>,
    pub timer: u32,
    pub display_time: DisplayTime,
    pub set_name: String,
    pub set_directory: String,
    pub set_image_duration: u32,
    pub set_break_duration: u32,
    pub set_image_limit: u32,
}

impl<H> View for App<H> {
    type V = AppView<H>;

    closed spec fn view(&self) -> AppView<H> {
        AppView {
            version: self.version,
            screen: self.screen,
            directory: self.directory,
            images: self.images@,
            sets: self.sets@,
            image_duration: self.image_duration,
            break_duration: self.break_duration,
            image_limit: self.image_limit,
            running: self.running,
            on_break: self.on_break,
            cur_handle: self.cur_handle,
            next_handle: self.next_handle,
            cur_id: self.cur_id,
            timer: self.timer,
            display_time: self.display_time,
            set_name: self.set_name,
            set_directory: self.set_directory,
            set_image_duration: self.set_image_duration,
            set_break_duration: self.set_break_duration,
            set_image_limit: self.set_image_limit,
        }
    }
}

// ---------------------------------------------------------------------------
// The rules, as functions of the state
// ---------------------------------------------------------------------------

impl<H> AppView<H> {
    /// The image counter can always be advanced by one.
    pub open spec fn wf(self) -> bool {
        self.cur_id matches Some(k) ==> k < u32::MAX
    }

    /// Index of the image being shown (no session counts as the first).
    pub open spec fn current_index(self) -> int {
        match self.cur_id {
            Some(k) => k as int,
            None => 0,
        }
    }

    /// The state with no session running and the menu shown.
    pub open spec fn stopped(self) -> Self {
        AppView { running: false, screen: Screen::Menu, cur_id: None, ..self }
    }

    /// The state with the session over and its last screen shown.
    pub open spec fn finished(self) -> Self {
        AppView { running: false, screen: Screen::Finish, ..self }
    }

    /// The preloaded image becomes the shown one.
    pub open spec fn handle_moved(self) -> Self {
        AppView { cur_handle: self.next_handle, next_handle: None, ..self }
    }

    /// The state when a session starts over `shuffled`, the images in the
    /// order in which they will be shown.
    pub open spec fn started(self, shuffled: Seq<String>) -> Self {
        let available = self.images.len() as u32;
        AppView {
            image_limit: if self.image_limit <= available { self.image_limit } else { available },
            cur_id: Some(0),
            running: true,
            images: shuffled,
            screen: Screen::Image,
            timer: self.image_duration,
            ..self
        }
    }

    /// One second passing.
    pub open spec fn ticked(self) -> (Self, Effect<H>) {
        let timer = (self.timer - 1) as u32;
        let s = AppView { timer, ..self };
        if timer != 0 {
            (s, Effect::Nothing)
        } else if self.on_break {
            (
                AppView { timer: self.image_duration, screen: Screen::Image, on_break: false, ..s.handle_moved() },
                Effect::Dispatch(Message::PreloadImage),
            )
        } else {
            let id = self.current_index() + 1;
            if id >= self.image_limit {
                (s.finished(), Effect::Nothing)
            } else {
                (
                    AppView { cur_id: Some(id as u32), on_break: true, screen: Screen::Break, timer: self.break_duration, ..s },
                    Effect::Nothing,
                )
            }
        }
    }

    pub open spec fn menu_step(self, m: MenuMessage, shuffled: Seq<String>) -> (Self, Effect<H>) {
        match m {
            MenuMessage::ChangeDirectoryPressed => (self, Effect::PickDirectory(DirectoryTarget::Menu)),
            MenuMessage::DirectoryChanged(path) => match path {
                Some(d) => (
                    AppView { directory: d, ..self },
                    Effect::Dispatch(Message::Menu(MenuMessage::ScanImagesPressed)),
                ),
                None => (self, Effect::Nothing),
            },
            MenuMessage::ScanImagesPressed => if self.directory@.len() > 0 {
                (self, Effect::ScanImages(self.directory, AfterScan::Keep))
            } else {
                (self, Effect::Nothing)
            },
            MenuMessage::ImageDurationChanged(d) => (AppView { image_duration: d, ..self }, Effect::Nothing),
            MenuMessage::BreakDurationChanged(d) => (AppView { break_duration: d, ..self }, Effect::Nothing),
            MenuMessage::ImageLimitChanged(l) => (AppView { image_limit: l, ..self }, Effect::Nothing),
            MenuMessage::ChangeDisplayedTime(t) => (AppView { display_time: t, ..self }, Effect::Nothing),
            MenuMessage::AdvancedPressed => (AppView { screen: Screen::Advanced, ..self }, Effect::Nothing),
            MenuMessage::StartPressed => (self.started(shuffled), Effect::Dispatch(Message::LoadBothImages)),
        }
    }

    pub open spec fn advanced_step(self, m: AdvancedMessage) -> (Self, Effect<H>) {
        match m {
            AdvancedMessage::StartPressed => (
                AppView {
                    image_duration: self.set_image_duration,
                    break_duration: self.set_break_duration,
                    image_limit: self.set_image_limit,
                    directory: self.set_directory,
                    ..self
                },
                Effect::ScanImages(self.set_directory, AfterScan::StartSession),
            ),
            AdvancedMessage::MenuPressed => (AppView { screen: Screen::Menu, ..self }, Effect::Nothing),
            AdvancedMessage::SetNameChanged(name) => (AppView { set_name: name, ..self }, Effect::Nothing),
            AdvancedMessage::ImageDurationChanged(t) => (
                AppView { set_image_duration: typed_number(self.set_image_duration, t@), ..self },
                Effect::Nothing,
            ),
            AdvancedMessage::BreakDurationChanged(t) => (
                AppView { set_break_duration: typed_number(self.set_break_duration, t@), ..self },
                Effect::Nothing,
            ),
            AdvancedMessage::ImageLimitChanged(t) => (
                AppView { set_image_limit: typed_number(self.set_image_limit, t@), ..self },
                Effect::Nothing,
            ),
            AdvancedMessage::SetPressed(name) => if self.sets.contains_key(name@) {
                let set = self.sets[name@];
                (
                    AppView {
                        set_name: name,
                        set_directory: set.directory,
                        set_image_duration: set.image_duration,
                        set_break_duration: set.break_duration,
                        set_image_limit: set.image_limit,
                        ..self
                    },
                    Effect::Nothing,
                )
            } else {
                (self, Effect::Nothing)
            },
            AdvancedMessage::SaveSet => if self.sets.contains_key(self.set_name@) {
                (self, Effect::Nothing)
            } else {
                (self, Effect::CheckDirectory(self.set_directory))
            },
            AdvancedMessage::DeleteSet(name) => (AppView { sets: self.sets.remove(name@), ..self }, Effect::Nothing),
            AdvancedMessage::ChangeDirectoryPressed => (self, Effect::PickDirectory(DirectoryTarget::Advanced)),
            AdvancedMessage::DirectoryChanged(path) => match path {
                Some(d) => (
                    AppView { set_directory: d, ..self },
                    Effect::Dispatch(Message::Menu(MenuMessage::ScanImagesPressed)),
                ),
                None => (self, Effect::Nothing),
            },
        }
    }

    pub open spec fn image_step(self, m: ImageMessage) -> (Self, Effect<H>) {
        match m {
            ImageMessage::SkipImage => {
                let id = self.current_index() + 1;
                if id >= self.image_limit {
                    (self.finished(), Effect::Nothing)
                } else if self.next_handle is Some {
                    let s = AppView {
                        timer: (self.image_duration + 1) as u32,
                        cur_id: Some(id as u32),
                        ..self.handle_moved()
                    };
                    if id < self.image_limit - 1 {
                        (s, Effect::Dispatch(Message::PreloadImage))
                    } else {
                        (s, Effect::Nothing)
                    }
                } else {
                    (self, Effect::Nothing)
                }
            },
            ImageMessage::BreakSession => (self.stopped(), Effect::Nothing),
        }
    }

    pub open spec fn break_step(self, m: BreakMessage) -> (Self, Effect<H>) {
        match m {
            BreakMessage::EndBreak => (
                AppView {
                    on_break: false,
                    screen: Screen::Image,
                    timer: (self.image_duration + 1) as u32,
                    ..self.handle_moved()
                },
                Effect::Dispatch(Message::PreloadImage),
            ),
            BreakMessage::BreakSession => (self.stopped(), Effect::Nothing),
        }
    }

    pub open spec fn finish_step(self, m: FinishMessage) -> (Self, Effect<H>) {
        match m {
            FinishMessage::MenuPressed => (
                AppView { screen: Screen::Menu, running: false, on_break: false, ..self },
                Effect::Nothing,
            ),
        }
    }

    /// The state and the effect after `msg`, where a session that starts
    /// shows its images in the order `shuffled`.
    pub open spec fn step(self, msg: Message<H>, shuffled: Seq<String>) -> (Self, Effect<H>) {
        match msg {
            Message::Menu(m) => self.menu_step(m, shuffled),
            Message::Advanced(m) => self.advanced_step(m),
            Message::Image(m) => self.image_step(m),
            Message::Break(m) => self.break_step(m),
            Message::Finish(m) => self.finish_step(m),
            Message::Tick => self.ticked(),
            Message::LoadImage => (
                self,
                Effect::LoadImage(self.images[self.current_index()], ImageSlot::Current),
            ),
            Message::CurImageLoaded(h) => (AppView { cur_handle: Some(h), ..self }, Effect::Nothing),
            Message::PreloadImage => (
                self,
                Effect::LoadImage(self.images[self.current_index() + 1], ImageSlot::Next),
            ),
            Message::NextImageLoaded(h) => (AppView { next_handle: Some(h), ..self }, Effect::Nothing),
            Message::LoadBothImages => (
                self,
                Effect::LoadBothImages(
                    self.images[self.current_index()],
                    self.images[self.current_index() + 1],
                ),
            ),
        }
    }

    /// `next` and `effect` are what `msg` may lead to: the rules above, where
    /// a starting session shows the same images in any order.
    pub open spec fn leads_to(self, msg: Message<H>, next: Self, effect: Effect<H>) -> bool {
        &&& next.images.to_multiset() == self.images.to_multiset()
        &&& (next, effect) == self.step(msg, next.images)
    }

    /// `msg` can be handled without an arithmetic overflow or a missing image.
    pub open spec fn accepts(self, msg: Message<H>) -> bool {
        match msg {
            Message::Tick => self.timer > 0,
            Message::LoadImage => self.current_index() < self.images.len(),
            Message::PreloadImage => self.current_index() + 1 < self.images.len(),
            Message::LoadBothImages => self.current_index() + 1 < self.images.len(),
            Message::Image(ImageMessage::SkipImage) => {
                (self.current_index() + 1 < self.image_limit && self.next_handle is Some)
                    ==> self.image_duration < u32::MAX
            },
            Message::Break(BreakMessage::EndBreak) => self.image_duration < u32::MAX,
            _ => true,
        }
    }
}

/// The number typed into a field of the advanced screen: zero for an empty
/// field, the number read from the text, or the previous value when the text
/// is not a number.
pub open spec fn typed_number(previous: u32, text: Seq<char>) -> u32 {
    if text.len() == 0 {
        0
    } else {
        match u32_from_text(text) {
            Some(v) => v,
            None => previous,
        }
    }
}


impl<H> AppView<H> {
    /// The state the program starts in, with the saved version and sets.
    pub open spec fn is_fresh(self, version: Version, sets: Map<Seq<char>, ImageSet>) -> bool {
        &&& self.version == version
        &&& self.screen == Screen::Menu
        &&& self.directory@.len() == 0
        &&& self.images.len() == 0
        &&& self.sets == sets
        &&& self.image_duration == 30
        &&& self.break_duration == 5
        &&& self.image_limit == 10
        &&& !self.running
        &&& !self.on_break
        &&& self.cur_handle is None
        &&& self.next_handle is None
        &&& self.cur_id is None
        &&& self.timer == 0
        &&& self.display_time == DisplayTime::Image
        &&& self.set_name@ == "Set"@
        &&& self.set_directory@.len() == 0
        &&& self.set_image_duration == 30
        &&& self.set_break_duration == 5
        &&& self.set_image_limit == 10
    }
}

/// Shuffles the images with `SliceRandom::shuffle` of the `rand` crate,
/// driven by the thread-local generator `rand::rng()`. The order that comes
/// out is random; what is stated is only that the same images come out (the
/// shuffle only swaps elements). `rand::rng()` panics when the operating
/// system cannot seed the generator; that depends on no argument and is not
/// stated.
#[verifier::external_body]
fn shuffle_images(images: &mut Vec<String>)
    ensures
        final(images)@.to_multiset() == old(images)@.to_multiset(),
        final(images)@.len() == old(images)@.len(),
{
    images.shuffle(&mut rand::rng());
}

impl<H> App<H> {
    /// The image counter can always be advanced by one.
    #[verifier::type_invariant]
    spec fn counter_fits(self) -> bool {
        self.cur_id matches Some(k) ==> k < u32::MAX
    }

    fn fresh(version: Version, sets: SetMap) -> (a: Self)
        ensures
            a@.is_fresh(version, sets@),
            a@.wf(),
    {
        App {
            version,
            screen: Screen::Menu,
            directory: String::new(),
            images: Vec::new(),
            sets,
            image_duration: 30,
            break_duration: 5,
            image_limit: 10,
            running: false,
            on_break: false,
            cur_handle: None,
            next_handle: None,
            cur_id: None,
            timer: 0,
            display_time: DisplayTime::Image,
            set_name: String::from_str("Set"),
            set_directory: String::new(),
            set_image_duration: 30,
            set_break_duration: 5,
            set_image_limit: 10,
        }
    }

    /// The starting state, with the version and the sets that were saved, if
    /// they could be loaded.
    pub fn new(saved: Option<(Version, Vec<(String, ImageSet)>)>) -> (a: Self)
        ensures
            a@.wf(),
            match saved {
                Some(data) => a@.is_fresh(data.0, pairs_map(data.1@)),
                None => a@.is_fresh(Version { major: 0, minor: 0, patch: 0 }, Map::empty()),
            },
    {
        match saved {
            Some((version, pairs)) => App::fresh(version, SetMap::from_pairs(pairs)),
            None => App::fresh(Version::default(), SetMap::new()),
        }
    }

    /// The name shown in the window's title bar.
    pub fn title(&self) -> (t: String)
        ensures
            t@ == "GDrawer"@,
    {
        String::from_str("GDrawer")
    }

    /// Whether the clock should send `Tick` every second: while a session runs.
    pub fn ticking(&self) -> (r: bool)
        ensures
            r == self@.running,
    {
        self.running
    }

    fn current_index(&self) -> (i: u32)
        ensures
            i == self@.current_index(),
    {
        match self.cur_id {
            Some(k) => k,
            None => 0,
        }
    }

    /// Whether `msg` can be handled (see `AppView::accepts`).
    pub fn accepts(&self, msg: &Message<H>) -> (r: bool)
        ensures
            r == self@.accepts(*msg),
    {
        let cur = self.current_index();
        match msg {
            Message::Tick => self.timer > 0,
            Message::LoadImage => (cur as usize) < self.images.len(),
            Message::PreloadImage | Message::LoadBothImages => {
                (cur as u64 + 1) < self.images.len() as u64
            },
            Message::Image(ImageMessage::SkipImage) => {
                !((cur as u64) + 1 < self.image_limit as u64 && self.next_handle.is_some())
                    || self.image_duration < u32::MAX
            },
            Message::Break(BreakMessage::EndBreak) => self.image_duration < u32::MAX,
            _ => true,
        }
    }
}


impl<H> App<H> {
    fn move_handle(&mut self)
        ensures
            final(self)@ == old(self)@.handle_moved(),
    {
        proof {
            use_type_invariant(&*self);
        }
        let mut next: Option<H> = None;
        std::mem::swap(&mut next, &mut self.next_handle);
        self.cur_handle = next;
    }

    fn enable_break(&mut self)
        requires
            old(self)@.current_index() + 1 < old(self).image_limit,
        ensures
            final(self)@ == (AppView {
                cur_id: Some((old(self)@.current_index() + 1) as u32),
                on_break: true,
                screen: Screen::Break,
                timer: old(self).break_duration,
                ..old(self)@
            }),
    {
        proof {
            use_type_invariant(&*self);
        }
        self.cur_id = Some(self.current_index() + 1);
        self.on_break = true;
        self.screen = Screen::Break;
        self.timer = self.break_duration;
    }

    fn finish_session(&mut self)
        ensures
            final(self)@ == old(self)@.finished(),
    {
        proof {
            use_type_invariant(&*self);
        }
        self.running = false;
        self.screen = Screen::Finish;
    }

    fn stop_session(&mut self)
        ensures
            final(self)@ == old(self)@.stopped(),
    {
        proof {
            use_type_invariant(&*self);
        }
        self.running = false;
        self.screen = Screen::Menu;
        self.cur_id = None;
    }

    fn start(&mut self)
        ensures
            final(self)@ == old(self)@.started(final(self)@.images),
            final(self)@.images.to_multiset() == old(self)@.images.to_multiset(),
    {
        proof {
            use_type_invariant(&*self);
        }
        let available = self.images.len() as u32;
        if available < self.image_limit {
            self.image_limit = available;
        }
        self.cur_id = Some(0);
        self.running = true;
        let mut images: Vec<String> = Vec::new();
        std::mem::swap(&mut images, &mut self.images);
        shuffle_images(&mut images);
        self.images = images;
        self.screen = Screen::Image;
        self.timer = self.image_duration;
    }

    fn on_tick(&mut self) -> (e: Effect<H>)
        requires
            old(self).timer > 0,
        ensures
            (final(self)@, e) == old(self)@.ticked(),
    {
        proof {
            use_type_invariant(&*self);
        }
        self.timer = self.timer - 1;
        if self.timer == 0 {
            if self.on_break {
                self.move_handle();
                self.timer = self.image_duration;
                self.screen = Screen::Image;
                self.on_break = false;
                return Effect::Dispatch(Message::PreloadImage);
            } else {
                let id: u32 = self.current_index() + 1;
                if id >= self.image_limit {
                    self.finish_session();
                    return Effect::Nothing;
                } else {
                    self.enable_break();
                    return Effect::Nothing;
                }
            }
        }
        Effect::Nothing
    }

    fn menu_update(&mut self, message: MenuMessage) -> (e: Effect<H>)
        ensures
            final(self)@.images.to_multiset() == old(self)@.images.to_multiset(),
            (final(self)@, e) == old(self)@.menu_step(message, final(self)@.images),
    {
        proof {
            use_type_invariant(&*self);
        }
        match message {
            MenuMessage::ChangeDirectoryPressed => Effect::PickDirectory(DirectoryTarget::Menu),
            MenuMessage::DirectoryChanged(path) => {
                match path {
                    Some(d) => {
                        self.directory = d;
                        Effect::Dispatch(MenuMessage::ScanImagesPressed.to_mes())
                    },
                    None => Effect::Nothing,
                }
            },
            MenuMessage::ScanImagesPressed => {
                if self.directory.unicode_len() > 0 {
                    Effect::ScanImages(self.directory.clone(), AfterScan::Keep)
                } else {
                    Effect::Nothing
                }
            },
            MenuMessage::ImageDurationChanged(duration) => {
                self.image_duration = duration;
                Effect::Nothing
            },
            MenuMessage::BreakDurationChanged(duration) => {
                self.break_duration = duration;
                Effect::Nothing
            },
            MenuMessage::ImageLimitChanged(limit) => {
                self.image_limit = limit;
                Effect::Nothing
            },
            MenuMessage::ChangeDisplayedTime(display_time) => {
                self.display_time = display_time;
                Effect::Nothing
            },
            MenuMessage::AdvancedPressed => {
                self.screen = Screen::Advanced;
                Effect::Nothing
            },
            MenuMessage::StartPressed => {
                self.start();
                Effect::Dispatch(Message::LoadBothImages)
            },
        }
    }
}


/// Reads a number typed into a field of the advanced screen (see
/// `typed_number`).
pub fn read_typed_number(previous: u32, text: &str) -> (r: u32)
    ensures
        r == typed_number(previous, text@),
{
    if text.unicode_len() == 0 {
        0
    } else {
        match parse_u32(text) {
            Some(v) => v,
            None => previous,
        }
    }
}

impl<H> AppView<H> {
    /// What saving the set being edited leads to, once it is known whether
    /// its directory exists: nothing, when a set of that name exists, the name
    /// is empty or the directory does not exist; otherwise the set is stored
    /// under its name, the fields are reset and the data is saved.
    pub open spec fn set_saved(self, dir_exists: bool, next: Self, effect: Effect<H>) -> bool {
        if self.sets.contains_key(self.set_name@) || self.set_name@.len() == 0 || !dir_exists {
            next == self && effect == Effect::<H>::Nothing
        } else {
            &&& next == AppView {
                sets: self.sets.insert(
                    self.set_name@,
                    ImageSet {
                        directory: self.set_directory,
                        image_duration: self.set_image_duration,
                        break_duration: self.set_break_duration,
                        image_limit: self.set_image_limit,
                    },
                ),
                set_name: next.set_name,
                set_directory: next.set_directory,
                set_image_duration: 30,
                set_break_duration: 5,
                set_image_limit: 10,
                ..self
            }
            &&& next.set_name@ == "Set"@
            &&& next.set_directory@.len() == 0
            &&& effect == Effect::<H>::SaveData
        }
    }

    /// What the images found by a scan lead to: they replace the list, and a
    /// session starts over them if the scan was asked for by a start.
    pub open spec fn scanned(
        self,
        found: Seq<String>,
        after: AfterScan,
        next: Self,
        effect: Effect<H>,
    ) -> bool {
        let s = AppView { images: found, ..self };
        match after {
            AfterScan::Keep => next == s && effect == Effect::<H>::Nothing,
            AfterScan::StartSession => {
                &&& next.images.to_multiset() == found.to_multiset()
                &&& next == s.started(next.images)
                &&& effect == Effect::<H>::Dispatch(Message::LoadBothImages)
            },
        }
    }
}

impl<H> App<H> {
    fn advanced_update(&mut self, message: AdvancedMessage) -> (e: Effect<H>)
        ensures
            (final(self)@, e) == old(self)@.advanced_step(message),
    {
        proof {
            use_type_invariant(&*self);
        }
        match message {
            AdvancedMessage::StartPressed => {
                self.image_duration = self.set_image_duration;
                self.break_duration = self.set_break_duration;
                self.image_limit = self.set_image_limit;
                self.directory = self.set_directory.clone();
                Effect::ScanImages(self.directory.clone(), AfterScan::StartSession)
            },
            AdvancedMessage::MenuPressed => {
                self.screen = Screen::Menu;
                Effect::Nothing
            },
            AdvancedMessage::SetNameChanged(name) => {
                self.set_name = name;
                Effect::Nothing
            },
            AdvancedMessage::ImageDurationChanged(text) => {
                self.set_image_duration = read_typed_number(self.set_image_duration, text.as_str());
                Effect::Nothing
            },
            AdvancedMessage::BreakDurationChanged(text) => {
                self.set_break_duration = read_typed_number(self.set_break_duration, text.as_str());
                Effect::Nothing
            },
            AdvancedMessage::ImageLimitChanged(text) => {
                self.set_image_limit = read_typed_number(self.set_image_limit, text.as_str());
                Effect::Nothing
            },
            AdvancedMessage::SetPressed(set_name) => {
                match self.sets.get(set_name.as_str()) {
                    Some(set) => {
                        self.set_directory = set.directory.clone();
                        self.set_image_duration = set.image_duration;
                        self.set_break_duration = set.break_duration;
                        self.set_image_limit = set.image_limit;
                        self.set_name = set_name;
                    },
                    None => {},
                }
                Effect::Nothing
            },
            AdvancedMessage::SaveSet => {
                if self.sets.contains_key(self.set_name.as_str()) {
                    Effect::Nothing
                } else {
                    Effect::CheckDirectory(self.set_directory.clone())
                }
            },
            AdvancedMessage::DeleteSet(set_name) => {
                let mut sets = SetMap::new();
                std::mem::swap(&mut sets, &mut self.sets);
                let _ = sets.remove(set_name.as_str());
                self.sets = sets;
                Effect::Nothing
            },
            AdvancedMessage::ChangeDirectoryPressed => Effect::PickDirectory(DirectoryTarget::Advanced),
            AdvancedMessage::DirectoryChanged(path) => {
                match path {
                    Some(d) => {
                        self.set_directory = d;
                        Effect::Dispatch(MenuMessage::ScanImagesPressed.to_mes())
                    },
                    None => Effect::Nothing,
                }
            },
        }
    }

    fn image_update(&mut self, message: ImageMessage) -> (e: Effect<H>)
        requires
            old(self)@.accepts(Message::Image(message)),
        ensures
            (final(self)@, e) == old(self)@.image_step(message),
    {
        proof {
            use_type_invariant(&*self);
        }
        match message {
            ImageMessage::SkipImage => {
                let id: u32 = self.current_index() + 1;
                if id >= self.image_limit {
                    self.finish_session();
                } else if self.next_handle.is_some() {
                    self.move_handle();
                    self.timer = self.image_duration + 1;
                    self.cur_id = Some(id);
                    if id < self.image_limit - 1 {
                        return Effect::Dispatch(Message::PreloadImage);
                    } else {
                        return Effect::Nothing;
                    }
                } else {
                    return Effect::Nothing;
                }
                Effect::Nothing
            },
            ImageMessage::BreakSession => {
                self.stop_session();
                Effect::Nothing
            },
        }
    }

    fn break_update(&mut self, message: BreakMessage) -> (e: Effect<H>)
        requires
            old(self)@.accepts(Message::Break(message)),
        ensures
            (final(self)@, e) == old(self)@.break_step(message),
    {
        proof {
            use_type_invariant(&*self);
        }
        match message {
            BreakMessage::EndBreak => {
                self.move_handle();
                self.on_break = false;
                self.screen = Screen::Image;
                self.timer = self.image_duration + 1;
                Effect::Dispatch(Message::PreloadImage)
            },
            BreakMessage::BreakSession => {
                self.stop_session();
                Effect::Nothing
            },
        }
    }

    fn finish_update(&mut self, message: FinishMessage) -> (e: Effect<H>)
        ensures
            (final(self)@, e) == old(self)@.finish_step(message),
    {
        proof {
            use_type_invariant(&*self);
        }
        match message {
            FinishMessage::MenuPressed => {
                self.screen = Screen::Menu;
                self.running = false;
                self.on_break = false;
                Effect::Nothing
            },
        }
    }

    /// Handles one event: changes the state by the rules of
    /// `AppView::step` and says what the surrounding program has to do next.
    pub fn update(&mut self, message: Message<H>) -> (e: Effect<H>)
        requires
            old(self)@.accepts(message),
        ensures
            final(self)@.wf(),
            old(self)@.leads_to(message, final(self)@, e),
    {
        proof {
            use_type_invariant(&*self);
        }
        let e = match message {
            Message::Menu(m) => self.menu_update(m),
            Message::Advanced(m) => self.advanced_update(m),
            Message::Image(m) => self.image_update(m),
            Message::Break(m) => self.break_update(m),
            Message::Finish(m) => self.finish_update(m),
            Message::Tick => self.on_tick(),
            Message::LoadImage => {
                let i = self.current_index() as usize;
                Effect::LoadImage(self.images[i].clone(), ImageSlot::Current)
            },
            Message::CurImageLoaded(handle) => {
                self.cur_handle = Some(handle);
                Effect::Nothing
            },
            Message::PreloadImage => {
                let i = self.current_index() as usize + 1;
                Effect::LoadImage(self.images[i].clone(), ImageSlot::Next)
            },
            Message::NextImageLoaded(handle) => {
                self.next_handle = Some(handle);
                Effect::Nothing
            },
            Message::LoadBothImages => {
                let cur = self.current_index() as usize;
                let cur_path = self.images[cur].clone();
                let next_path = self.images[cur + 1].clone();
                Effect::LoadBothImages(cur_path, next_path)
            },
        };
        proof {
            use_type_invariant(&*self);
        }
        e
    }

    /// Takes the images that a scan found (`Effect::ScanImages`).
    pub fn images_scanned(&mut self, images: Vec<String>, after: AfterScan) -> (e: Effect<H>)
        ensures
            final(self)@.wf(),
            old(self)@.scanned(images@, after, final(self)@, e),
    {
        proof {
            use_type_invariant(&*self);
        }
        self.images = images;
        let e = match after {
            AfterScan::Keep => Effect::Nothing,
            AfterScan::StartSession => {
                self.start();
                Effect::Dispatch(Message::LoadBothImages)
            },
        };
        proof {
            use_type_invariant(&*self);
        }
        e
    }

    /// Finishes saving the set being edited, once it is known whether its
    /// directory exists (`Effect::CheckDirectory`).
    pub fn save_set_checked(&mut self, dir_exists: bool) -> (e: Effect<H>)
        ensures
            final(self)@.wf(),
            old(self)@.set_saved(dir_exists, final(self)@, e),
    {
        proof {
            use_type_invariant(&*self);
        }
        if self.sets.contains_key(self.set_name.as_str()) || self.set_name.unicode_len() == 0
            || !dir_exists {
            return Effect::Nothing;
        }
        let set = ImageSet::new(
            self.set_directory.clone(),
            self.set_image_duration,
            self.set_break_duration,
            self.set_image_limit,
        );
        let mut name = String::from_str("Set");
        std::mem::swap(&mut name, &mut self.set_name);
        self.set_directory = String::new();
        self.set_image_duration = 30;
        self.set_break_duration = 5;
        self.set_image_limit = 10;
        let mut sets = SetMap::new();
        std::mem::swap(&mut sets, &mut self.sets);
        sets.insert(name, set);
        self.sets = sets;
        proof {
            use_type_invariant(&*self);
        }
        Effect::SaveData
    }
}


// Reading the state
impl<H> App<H> {
    pub fn version(&self) -> (r: Version)
        ensures
            r == self@.version,
    {
        self.version
    }

    pub fn screen(&self) -> (r: Screen)
        ensures
            r == self@.screen,
    {
        self.screen
    }

    pub fn directory(&self) -> (r: &String)
        ensures
            *r == self@.directory,
    {
        &self.directory
    }

    pub fn images(&self) -> (r: &Vec<String>)
        ensures
            r@ == self@.images,
    {
        &self.images
    }

    pub fn sets(&self) -> (r: &SetMap)
        ensures
            r@ == self@.sets,
    {
        &self.sets
    }

    pub fn image_duration(&self) -> (r: u32)
        ensures
            r == self@.image_duration,
    {
        self.image_duration
    }

    pub fn break_duration(&self) -> (r: u32)
        ensures
            r == self@.break_duration,
    {
        self.break_duration
    }

    pub fn image_limit(&self) -> (r: u32)
        ensures
            r == self@.image_limit,
    {
        self.image_limit
    }

    pub fn on_break(&self) -> (r: bool)
        ensures
            r == self@.on_break,
    {
        self.on_break
    }

    pub fn cur_handle(&self) -> (r: &Option<H>)
        ensures
            *r == self@.cur_handle,
    {
        &self.cur_handle
    }

    pub fn next_handle(&self) -> (r: &Option<H>)
        ensures
            *r == self@.next_handle,
    {
        &self.next_handle
    }

    pub fn cur_id(&self) -> (r: Option<u32>)
        ensures
            r == self@.cur_id,
    {
        self.cur_id
    }

    pub fn timer(&self) -> (r: u32)
        ensures
            r == self@.timer,
    {
        self.timer
    }

    pub fn display_time(&self) -> (r: DisplayTime)
        ensures
            r == self@.display_time,
    {
        self.display_time
    }

    pub fn set_name(&self) -> (r: &String)
        ensures
            *r == self@.set_name,
    {
        &self.set_name
    }

    pub fn set_directory(&self) -> (r: &String)
        ensures
            *r == self@.set_directory,
    {
        &self.set_directory
    }

    pub fn set_image_duration(&self) -> (r: u32)
        ensures
            r == self@.set_image_duration,
    {
        self.set_image_duration
    }

    pub fn set_break_duration(&self) -> (r: u32)
        ensures
            r == self@.set_break_duration,
    {
        self.set_break_duration
    }

    pub fn set_image_limit(&self) -> (r: u32)
        ensures
            r == self@.set_image_limit,
    {
        self.set_image_limit
    }
}

impl<H> Default for App<H> {
    fn default() -> (a: Self)
        ensures
            a@.wf(),
            a@.is_fresh(Version { major: 0, minor: 0, patch: 0 }, Map::empty()),
    {
        App::fresh(Version::default(), SetMap::new())
    }
}

} // verus!
