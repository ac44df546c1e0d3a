//! Properties of the library that span several calls.
use crate::app::{
    typed_number, AdvancedMessage, AfterScan, AppView, BreakMessage, DirectoryTarget, DisplayTime,
    Effect, FinishMessage, ImageMessage, ImageSlot, MenuMessage, Message, Screen,
};
use crate::config::Version;
use crate::config::ImageSet;
use crate::text::{
    all_digits, decimal, digit_char, digit_value, digits_value, file_extension, is_digit,
    image_paths, is_image_extension, is_image_name, last_index_of, letter_is, time_text,
    u32_from_text, unsigned_body,
};
use crate::order::text_less;
use crate::picture::{last_component, path_extension};
use vstd::prelude::*;

verus! {

/// Opening the advanced screen from the menu and going back to the menu
/// leaves the state exactly as it was, and asks for nothing.
pub proof fn law_advanced_screen_round_trip<H>(
    s: AppView<H>,
    t: AppView<H>,
    e1: Effect<H>,
    u: AppView<H>,
    e2: Effect<H>,
)
    requires
        s.screen == Screen::Menu,
        s.leads_to(Message::Menu(MenuMessage::AdvancedPressed), t, e1),
        t.leads_to(Message::Advanced(AdvancedMessage::MenuPressed), u, e2),
    ensures
        u == s,
        e1 == Effect::<H>::Nothing,
        e2 == Effect::<H>::Nothing,
{
}

/// The counter of shown images only ever moves to the first image, to no
/// image, or to an image below the limit: a session never shows more images
/// than its limit allows.
pub proof fn law_counter_stays_below_limit<H>(
    s: AppView<H>,
    msg: Message<H>,
    t: AppView<H>,
    e: Effect<H>,
)
    requires
        s.wf(),
        s.accepts(msg),
        s.leads_to(msg, t, e),
        t.cur_id != s.cur_id,
    ensures
        t.cur_id matches Some(k) ==> k == 0 || k < t.image_limit,
{
}

/// Every image that a step asks to load is one of the listed images.
pub proof fn law_loads_only_listed_images<H>(
    s: AppView<H>,
    msg: Message<H>,
    t: AppView<H>,
    e: Effect<H>,
)
    requires
        s.accepts(msg),
        s.leads_to(msg, t, e),
    ensures
        e matches Effect::LoadImage(p, _) ==> s.images.contains(p),
        e matches Effect::LoadBothImages(a, b) ==> s.images.contains(a) && s.images.contains(b),
{
    let c = s.current_index();
    match msg {
        Message::LoadImage => {
            assert(s.images.contains(s.images[c]));
        },
        Message::PreloadImage => {
            assert(s.images.contains(s.images[c + 1]));
        },
        Message::LoadBothImages => {
            assert(s.images.contains(s.images[c]));
            assert(s.images.contains(s.images[c + 1]));
        },
        _ => {},
    }
}

/// Pressing start on the menu starts a session over the same images in some
/// order: the limit is cut down to their number, the first image is the
/// current one, its full time is on the clock, and both first images are
/// asked for, which can be done exactly when there are at least two.
pub proof fn law_start_session<H>(s: AppView<H>, t: AppView<H>, e: Effect<H>)
    requires
        s.images.len() <= u32::MAX,
        s.leads_to(Message::Menu(MenuMessage::StartPressed), t, e),
    ensures
        t == s.started(t.images),
        t.running,
        t.screen == Screen::Image,
        t.cur_id == Some(0u32),
        t.timer == s.image_duration,
        t.images.to_multiset() == s.images.to_multiset(),
        t.image_limit == if s.image_limit <= s.images.len() { s.image_limit as int } else { s.images.len() as int },
        e == Effect::<H>::Dispatch(Message::LoadBothImages),
        t.accepts(Message::LoadBothImages) <==> s.images.len() >= 2,
{
    broadcast use vstd::seq_lib::group_to_multiset_ensures;
    assert(t.images.len() == t.images.to_multiset().len());
    assert(s.images.len() == s.images.to_multiset().len());
}

/// Stopping a session from the image or the break screen stops the clock
/// (`App::ticking` is false) and returns to the menu with no current image.
pub proof fn law_stopping_stops_the_clock<H>(
    s: AppView<H>,
    msg: Message<H>,
    t: AppView<H>,
    e: Effect<H>,
)
    requires
        msg == Message::<H>::Image(ImageMessage::BreakSession) || msg == Message::<H>::Break(
            BreakMessage::BreakSession,
        ),
        s.leads_to(msg, t, e),
    ensures
        !t.running,
        t.screen == Screen::Menu,
        t.cur_id is None,
        e == Effect::<H>::Nothing,
{
}

/// Each kind of event is handled by its own rule: an event of a screen by
/// that screen's rule, and the clock by `ticked`. Only pressing start on
/// the menu may reorder the images.
pub proof fn law_events_go_to_their_screen<H>(s: AppView<H>, msg: Message<H>, t: AppView<H>, e: Effect<H>)
    ensures
        msg matches Message::Menu(m) ==> (s.leads_to(msg, t, e) <==> (
            t.images.to_multiset() == s.images.to_multiset() && (t, e) == s.menu_step(m, t.images))),
        msg matches Message::Advanced(m) ==> (s.leads_to(msg, t, e) <==> (t, e) == s.advanced_step(m)),
        msg matches Message::Image(m) ==> (s.leads_to(msg, t, e) <==> (t, e) == s.image_step(m)),
        msg matches Message::Break(m) ==> (s.leads_to(msg, t, e) <==> (t, e) == s.break_step(m)),
        msg matches Message::Finish(m) ==> (s.leads_to(msg, t, e) <==> (t, e) == s.finish_step(m)),
        msg is Tick ==> (s.leads_to(msg, t, e) <==> (t, e) == s.ticked()),
{
}

/// While the durations are at least one second, a running session always
/// has time on its clock, so the clock can always tick: every event keeps
/// this so.
pub proof fn law_running_clock_has_time<H>(s: AppView<H>, msg: Message<H>, t: AppView<H>, e: Effect<H>)
    requires
        s.running ==> s.timer >= 1,
        s.image_duration >= 1,
        s.break_duration >= 1,
        s.accepts(msg),
        s.leads_to(msg, t, e),
    ensures
        t.running ==> t.timer >= 1 && t.accepts(Message::Tick),
{
}

/// The same holds when the images of a scan come in, whether or not a
/// session starts over them.
pub proof fn law_scan_keeps_clock_time<H>(
    s: AppView<H>,
    found: Seq<String>,
    after: AfterScan,
    t: AppView<H>,
    e: Effect<H>,
)
    requires
        s.running ==> s.timer >= 1,
        s.image_duration >= 1,
        s.scanned(found, after, t, e),
    ensures
        t.running ==> t.timer >= 1 && t.accepts(Message::Tick),
{
}

/// While more than one second is left, a clock tick takes exactly one
/// second off the clock and changes nothing else.
pub proof fn law_tick_counts_down<H>(s: AppView<H>, t: AppView<H>, e: Effect<H>)
    requires
        s.timer > 1,
        s.leads_to(Message::Tick, t, e),
    ensures
        t == (AppView { timer: (s.timer - 1) as u32, ..s }),
        e == Effect::<H>::Nothing,
{
}

/// When the time of image `k` runs out and it is not the last one the limit
/// allows, a break begins: the break screen, the break time on the clock,
/// and the counter on the next image; the pictures stay as they were.
pub proof fn law_tick_ends_image_with_break<H>(s: AppView<H>, k: u32, t: AppView<H>, e: Effect<H>)
    requires
        s.timer == 1,
        !s.on_break,
        s.cur_id == Some(k),
        k + 1 < s.image_limit,
        s.leads_to(Message::Tick, t, e),
    ensures
        t.on_break,
        t.screen == Screen::Break,
        t.timer == s.break_duration,
        t.cur_id == Some((k + 1) as u32),
        t.running == s.running,
        t.images == s.images,
        t.cur_handle == s.cur_handle,
        t.next_handle == s.next_handle,
        t.image_duration == s.image_duration,
        t.break_duration == s.break_duration,
        t.image_limit == s.image_limit,
        e == Effect::<H>::Nothing,
{
}

/// When the time of the last image the limit allows runs out, the session
/// is over: the finish screen, the clock stopped at zero.
pub proof fn law_tick_ends_last_image<H>(s: AppView<H>, k: u32, t: AppView<H>, e: Effect<H>)
    requires
        s.timer == 1,
        !s.on_break,
        s.cur_id == Some(k),
        k + 1 >= s.image_limit,
        s.leads_to(Message::Tick, t, e),
    ensures
        !t.running,
        t.screen == Screen::Finish,
        t.timer == 0,
        t.cur_id == s.cur_id,
        t.images == s.images,
        e == Effect::<H>::Nothing,
{
}

/// When a break's time runs out, the preloaded picture is shown with the
/// image time on the clock, and the picture after it is asked for.
pub proof fn law_tick_ends_break<H>(s: AppView<H>, t: AppView<H>, e: Effect<H>)
    requires
        s.timer == 1,
        s.on_break,
        s.leads_to(Message::Tick, t, e),
    ensures
        !t.on_break,
        t.screen == Screen::Image,
        t.timer == s.image_duration,
        t.cur_handle == s.next_handle,
        t.next_handle is None,
        t.cur_id == s.cur_id,
        t.running == s.running,
        t.images == s.images,
        e == Effect::<H>::Dispatch(Message::PreloadImage),
{
}

/// With image `k` current, the load requests name image `k` for the shown
/// slot and image `k + 1` for the preloaded one, and change nothing; a
/// loaded picture lands in the slot it was asked for.
pub proof fn law_loads_follow_the_counter<H>(s: AppView<H>, k: u32, msg: Message<H>, t: AppView<H>, e: Effect<H>)
    requires
        s.cur_id == Some(k),
        s.leads_to(msg, t, e),
    ensures
        msg is LoadImage ==> t == s && e == Effect::<H>::LoadImage(s.images[k as int], ImageSlot::Current),
        msg is PreloadImage ==> t == s && e == Effect::<H>::LoadImage(s.images[k + 1], ImageSlot::Next),
        msg is LoadBothImages ==> t == s && e == Effect::<H>::LoadBothImages(s.images[k as int], s.images[k + 1]),
        msg matches Message::CurImageLoaded(h) ==> t == (AppView { cur_handle: Some(h), ..s }) && e == Effect::<H>::Nothing,
        msg matches Message::NextImageLoaded(h) ==> t == (AppView { next_handle: Some(h), ..s }) && e == Effect::<H>::Nothing,
{
}

/// Skipping image `k`: past the last allowed image the session is over;
/// otherwise, once the next picture is loaded, it is shown with the image
/// time and one second more on the clock, and the one after it is asked for
/// unless it would pass the limit; while it is not loaded nothing happens.
pub proof fn law_skip_image<H>(s: AppView<H>, k: u32, t: AppView<H>, e: Effect<H>)
    requires
        s.cur_id == Some(k),
        s.accepts(Message::Image(ImageMessage::SkipImage)),
        s.leads_to(Message::Image(ImageMessage::SkipImage), t, e),
    ensures
        k + 1 >= s.image_limit ==> !t.running && t.screen == Screen::Finish && e == Effect::<H>::Nothing,
        k + 1 < s.image_limit && s.next_handle is None ==> t == s && e == Effect::<H>::Nothing,
        k + 1 < s.image_limit && s.next_handle is Some ==> {
            &&& t.cur_id == Some((k + 1) as u32)
            &&& t.cur_handle == s.next_handle
            &&& t.next_handle is None
            &&& t.timer == s.image_duration + 1
            &&& t.screen == s.screen
            &&& t.images == s.images
            &&& (k + 2 < s.image_limit ==> e == Effect::<H>::Dispatch(Message::PreloadImage))
            &&& (k + 2 >= s.image_limit ==> e == Effect::<H>::Nothing)
        },
{
}

/// Ending a break early shows the preloaded picture with the image time and
/// one second more on the clock, and asks for the picture after it.
pub proof fn law_end_break<H>(s: AppView<H>, t: AppView<H>, e: Effect<H>)
    requires
        s.accepts(Message::Break(BreakMessage::EndBreak)),
        s.leads_to(Message::Break(BreakMessage::EndBreak), t, e),
    ensures
        !t.on_break,
        t.screen == Screen::Image,
        t.timer == s.image_duration + 1,
        t.cur_handle == s.next_handle,
        t.next_handle is None,
        t.cur_id == s.cur_id,
        e == Effect::<H>::Dispatch(Message::PreloadImage),
{
}

/// A field of the advanced screen becomes the number its text reads as,
/// zero when it is empty, and keeps its value when the text is no number.
pub proof fn law_typed_number_reads_the_text(previous: u32, text: Seq<char>)
    ensures
        text.len() == 0 ==> typed_number(previous, text) == 0,
        u32_from_text(text) matches Some(v) ==> typed_number(previous, text) == v,
        text.len() > 0 && u32_from_text(text) is None ==> typed_number(previous, text) == previous,
{
}

/// Typing the decimal notation of any number into a field of the advanced
/// screen sets the field to that number, whatever it held.
pub proof fn law_typed_decimal_is_taken(previous: u32, n: u32)
    ensures
        typed_number(previous, decimal(n as nat)) == n,
{
    law_decimal_reads_back(n);
    lemma_decimal_digits(n as nat);
}

/// A successful save stores exactly the settings that were typed under the
/// typed name, asks for the data to be written, and resets the fields; a
/// save with a taken or empty name, or a missing directory, changes nothing.
pub proof fn law_save_stores_typed_settings<H>(s: AppView<H>, dir_exists: bool, t: AppView<H>, e: Effect<H>)
    requires
        s.set_saved(dir_exists, t, e),
    ensures
        dir_exists && !s.sets.contains_key(s.set_name@) && s.set_name@.len() > 0 ==> {
            &&& e == Effect::<H>::SaveData
            &&& t.sets.contains_key(s.set_name@)
            &&& t.sets[s.set_name@].directory == s.set_directory
            &&& t.sets[s.set_name@].image_duration == s.set_image_duration
            &&& t.sets[s.set_name@].break_duration == s.set_break_duration
            &&& t.sets[s.set_name@].image_limit == s.set_image_limit
            &&& t.set_name@ == seq!['S', 'e', 't']
            &&& t.set_directory@.len() == 0
            &&& t.set_image_duration == 30
            &&& t.set_break_duration == 5
            &&& t.set_image_limit == 10
            &&& t.screen == s.screen
            &&& t.images == s.images
        },
        !dir_exists || s.sets.contains_key(s.set_name@) || s.set_name@.len() == 0 ==> t == s && e
            == Effect::<H>::Nothing,
{
    reveal_strlit("Set");
}

/// A character with an ASCII capital letter turned into its small letter.
pub open spec fn ascii_lower(c: char) -> char {
    if 'A' <= c && c <= 'Z' {
        ((c as int) + 32) as char
    } else {
        c
    }
}

/// A text with its ASCII capital letters turned into small letters.
pub open spec fn ascii_lowercase(s: Seq<char>) -> Seq<char> {
    s.map_values(|c: char| ascii_lower(c))
}

/// The small letters `png`, `jpg` or `jpeg`.
pub open spec fn is_picture_suffix(l: Seq<char>) -> bool {
    l == seq!['p', 'n', 'g'] || l == seq!['j', 'p', 'g'] || l == seq!['j', 'p', 'e', 'g']
}

proof fn lemma_letter(c: char, x: char)
    requires
        'a' <= x && x <= 'z',
    ensures
        letter_is(c, x) <==> ascii_lower(c) == x,
{
    if 'A' <= c && c <= 'Z' {
        assert((((c as int) + 32) as char) as int == (c as int) + 32);
    }
}

proof fn lemma_image_extension(e: Seq<char>)
    ensures
        is_image_extension(e) <==> is_picture_suffix(ascii_lowercase(e)),
{
    let l = ascii_lowercase(e);
    assert(l.len() == e.len());
    if e.len() == 3 {
        lemma_letter(e[0], 'p');
        lemma_letter(e[1], 'n');
        lemma_letter(e[2], 'g');
        lemma_letter(e[0], 'j');
        lemma_letter(e[1], 'p');
        assert(l[0] == ascii_lower(e[0]) && l[1] == ascii_lower(e[1]) && l[2] == ascii_lower(e[2]));
        if l[0] == 'p' && l[1] == 'n' && l[2] == 'g' {
            assert(l =~= seq!['p', 'n', 'g']);
        }
        if l[0] == 'j' && l[1] == 'p' && l[2] == 'g' {
            assert(l =~= seq!['j', 'p', 'g']);
        }
        if l == seq!['p', 'n', 'g'] {
            assert(l[0] == 'p' && l[1] == 'n' && l[2] == 'g');
        }
        if l == seq!['j', 'p', 'g'] {
            assert(l[0] == 'j' && l[1] == 'p' && l[2] == 'g');
        }
        assert(l != seq!['j', 'p', 'e', 'g']);
    } else if e.len() == 4 {
        lemma_letter(e[0], 'j');
        lemma_letter(e[1], 'p');
        lemma_letter(e[2], 'e');
        lemma_letter(e[3], 'g');
        assert(l[0] == ascii_lower(e[0]) && l[1] == ascii_lower(e[1]) && l[2] == ascii_lower(e[2])
            && l[3] == ascii_lower(e[3]));
        if l[0] == 'j' && l[1] == 'p' && l[2] == 'e' && l[3] == 'g' {
            assert(l =~= seq!['j', 'p', 'e', 'g']);
        }
        if l == seq!['j', 'p', 'e', 'g'] {
            assert(l[0] == 'j' && l[1] == 'p' && l[2] == 'e' && l[3] == 'g');
        }
        assert(l != seq!['p', 'n', 'g']);
        assert(l != seq!['j', 'p', 'g']);
    } else {
        assert(l != seq!['p', 'n', 'g']);
        assert(l != seq!['j', 'p', 'g']);
        assert(l != seq!['j', 'p', 'e', 'g']);
    }
}

/// A file is one of the pictures exactly when its name has an extension
/// that lowercases to `png`, `jpg` or `jpeg`: so the ASCII case of the
/// extension never matters.
pub proof fn law_image_names_ignore_case(name: Seq<char>)
    ensures
        is_image_name(name) <==> (file_extension(name) matches Some(e) && is_picture_suffix(
            ascii_lowercase(e),
        )),
{
    if let Some(e) = file_extension(name) {
        lemma_image_extension(e);
    }
}

proof fn lemma_last_mark(stem: Seq<char>, c: char, rest: Seq<char>)
    requires
        forall|i: int| 0 <= i < rest.len() ==> rest[i] != c,
    ensures
        last_index_of(stem.push(c) + rest, c) == stem.len(),
    decreases rest.len(),
{
    let n = stem.push(c) + rest;
    if rest.len() == 0 {
        assert(n =~= stem.push(c));
    } else {
        lemma_last_mark(stem, c, rest.drop_last());
        assert(n.drop_last() =~= stem.push(c) + rest.drop_last());
        assert(n.last() == rest.last());
    }
}

/// A name made of a non-empty stem, a dot and an extension without dots is
/// a picture's exactly when the extension lowercases to `png`, `jpg` or
/// `jpeg`: `photo.JPG` is one, like `photo.jpg`.
pub proof fn law_image_name_by_extension(stem: Seq<char>, ext: Seq<char>)
    requires
        stem.len() > 0,
        forall|i: int| 0 <= i < ext.len() ==> ext[i] != '.',
    ensures
        ext.len() > 0 ==> file_extension(stem.push('.') + ext) == Some(ext),
        is_image_name(stem.push('.') + ext) <==> is_picture_suffix(ascii_lowercase(ext)),
{
    let n = stem.push('.') + ext;
    lemma_last_mark(stem, '.', ext);
    lemma_image_extension(ext);
    if ext.len() > 0 {
        assert(n.len() > 2);
        assert(n.subrange(stem.len() as int + 1, n.len() as int) =~= ext);
    } else {
        assert(ascii_lowercase(ext).len() == 0);
        if n != seq!['.', '.'] {
            assert(n.subrange(stem.len() as int + 1, n.len() as int) =~= ext);
        }
    }
}

/// The program starts on the menu with no folder, no images and no session,
/// the image time at 30 seconds, the break time at 5, at most 10 images, the
/// image time's choices shown, and the set fields at `Set`, no folder, 30, 5
/// and 10.
pub proof fn law_fresh_state<H>(a: AppView<H>, version: Version, sets: Map<Seq<char>, ImageSet>)
    requires
        a.is_fresh(version, sets),
    ensures
        a.version == version,
        a.sets == sets,
        a.screen == Screen::Menu,
        a.directory@.len() == 0,
        a.images.len() == 0,
        a.image_duration == 30,
        a.break_duration == 5,
        a.image_limit == 10,
        !a.running,
        !a.on_break,
        a.cur_id is None,
        a.cur_handle is None,
        a.next_handle is None,
        a.timer == 0,
        a.display_time == DisplayTime::Image,
        a.set_name@ == seq!['S', 'e', 't'],
        a.set_directory@.len() == 0,
        a.set_image_duration == 30,
        a.set_break_duration == 5,
        a.set_image_limit == 10,
{
    reveal_strlit("Set");
}

/// The menu's settings: each change sets exactly its own field; a chosen
/// folder becomes the menu's folder and is scanned; a scan is asked for the
/// menu's folder when there is one; the advanced button opens that screen.
pub proof fn law_menu_settings<H>(s: AppView<H>, m: MenuMessage, t: AppView<H>, e: Effect<H>)
    requires
        s.leads_to(Message::Menu(m), t, e),
    ensures
        m matches MenuMessage::ImageDurationChanged(d) ==> t == (AppView { image_duration: d, ..s }) && e == Effect::<H>::Nothing,
        m matches MenuMessage::BreakDurationChanged(d) ==> t == (AppView { break_duration: d, ..s }) && e == Effect::<H>::Nothing,
        m matches MenuMessage::ImageLimitChanged(l) ==> t == (AppView { image_limit: l, ..s }) && e == Effect::<H>::Nothing,
        m matches MenuMessage::ChangeDisplayedTime(d) ==> t == (AppView { display_time: d, ..s }) && e == Effect::<H>::Nothing,
        m matches MenuMessage::DirectoryChanged(Some(d)) ==> t == (AppView { directory: d, ..s })
            && e == Effect::<H>::Dispatch(Message::Menu(MenuMessage::ScanImagesPressed)),
        m matches MenuMessage::DirectoryChanged(None) ==> t == s && e == Effect::<H>::Nothing,
        m is ChangeDirectoryPressed ==> t == s && e == Effect::<H>::PickDirectory(DirectoryTarget::Menu),
        m is ScanImagesPressed ==> t == s && (s.directory@.len() > 0 ==> e == Effect::<H>::ScanImages(s.directory, AfterScan::Keep))
            && (s.directory@.len() == 0 ==> e == Effect::<H>::Nothing),
        m is AdvancedPressed ==> t == (AppView { screen: Screen::Advanced, ..s }) && e == Effect::<H>::Nothing,
{
}

/// The advanced screen: starting takes the set fields as the session's
/// settings and folder and scans that folder to start; pressing a saved set
/// fills the fields with it; saving first checks the folder of a new name;
/// deleting removes that name only; a chosen folder fills the set's folder.
pub proof fn law_advanced_screen<H>(s: AppView<H>, m: AdvancedMessage, t: AppView<H>, e: Effect<H>)
    requires
        s.leads_to(Message::Advanced(m), t, e),
    ensures
        m is StartPressed ==> {
            &&& t.image_duration == s.set_image_duration
            &&& t.break_duration == s.set_break_duration
            &&& t.image_limit == s.set_image_limit
            &&& t.directory == s.set_directory
            &&& t.images == s.images
            &&& t.sets == s.sets
            &&& t.running == s.running
            &&& e == Effect::<H>::ScanImages(s.set_directory, AfterScan::StartSession)
        },
        m matches AdvancedMessage::SetPressed(name) ==> (s.sets.contains_key(name@) ==> {
            &&& t.set_name == name
            &&& t.set_directory == s.sets[name@].directory
            &&& t.set_image_duration == s.sets[name@].image_duration
            &&& t.set_break_duration == s.sets[name@].break_duration
            &&& t.set_image_limit == s.sets[name@].image_limit
            &&& t.sets == s.sets
            &&& e == Effect::<H>::Nothing
        }) && (!s.sets.contains_key(name@) ==> t == s && e == Effect::<H>::Nothing),
        m is SaveSet ==> t == s && (s.sets.contains_key(s.set_name@) ==> e == Effect::<H>::Nothing)
            && (!s.sets.contains_key(s.set_name@) ==> e == Effect::<H>::CheckDirectory(s.set_directory)),
        m matches AdvancedMessage::DeleteSet(name) ==> {
            &&& !t.sets.contains_key(name@)
            &&& forall|k: Seq<char>| k != name@ ==> (#[trigger] t.sets.contains_key(k) <==> s.sets.contains_key(k))
                && (s.sets.contains_key(k) ==> t.sets[k] == s.sets[k])
            &&& e == Effect::<H>::Nothing
        },
        m matches AdvancedMessage::SetNameChanged(name) ==> t == (AppView { set_name: name, ..s }) && e == Effect::<H>::Nothing,
        m matches AdvancedMessage::DirectoryChanged(Some(d)) ==> t.set_directory == d && t.directory == s.directory,
        m is ChangeDirectoryPressed ==> t == s && e == Effect::<H>::PickDirectory(DirectoryTarget::Advanced),
        m is MenuPressed ==> t == (AppView { screen: Screen::Menu, ..s }) && e == Effect::<H>::Nothing,
{
}

/// Leaving the finish screen goes back to the menu with no session running.
pub proof fn law_finish_returns_to_menu<H>(s: AppView<H>, t: AppView<H>, e: Effect<H>)
    requires
        s.leads_to(Message::Finish(FinishMessage::MenuPressed), t, e),
    ensures
        t.screen == Screen::Menu,
        !t.running,
        !t.on_break,
        t.images == s.images,
        t.sets == s.sets,
        e == Effect::<H>::Nothing,
{
}

/// A scan made from the menu only replaces the listed images with the ones
/// found, in their order.
pub proof fn law_scan_replaces_images<H>(s: AppView<H>, found: Seq<String>, t: AppView<H>, e: Effect<H>)
    requires
        s.scanned(found, AfterScan::Keep, t, e),
    ensures
        t == (AppView { images: found, ..s }),
        e == Effect::<H>::Nothing,
{
}

/// Saving a set never changes or drops a set that was saved before; at most
/// the edited name is added.
pub proof fn law_saving_keeps_saved_sets<H>(s: AppView<H>, dir_exists: bool, t: AppView<H>, e: Effect<H>)
    requires
        s.set_saved(dir_exists, t, e),
    ensures
        forall|k: Seq<char>| #[trigger]
            s.sets.contains_key(k) ==> t.sets.contains_key(k) && t.sets[k] == s.sets[k],
        forall|k: Seq<char>| #[trigger] t.sets.contains_key(k) ==> s.sets.contains_key(k) || k == s.set_name@,
{
}

/// Deleting the set that was just saved gives back the sets as they were
/// before the save.
pub proof fn law_delete_undoes_save<H>(
    s: AppView<H>,
    t: AppView<H>,
    e: Effect<H>,
    name: String,
    u: AppView<H>,
    e2: Effect<H>,
)
    requires
        s.set_saved(true, t, e),
        e == Effect::<H>::SaveData,
        name@ == s.set_name@,
        t.leads_to(Message::Advanced(AdvancedMessage::DeleteSet(name)), u, e2),
    ensures
        u.sets == s.sets,
{
    assert(u.sets =~= s.sets);
}

/// No event changes the saved data's version, and only deleting a set
/// changes the saved sets (saving one goes through `App::save_set_checked`).
pub proof fn law_events_keep_saved_data<H>(s: AppView<H>, msg: Message<H>, t: AppView<H>, e: Effect<H>)
    requires
        s.leads_to(msg, t, e),
    ensures
        t.version == s.version,
        !(msg matches Message::Advanced(AdvancedMessage::DeleteSet(_))) ==> t.sets == s.sets,
{
}

/// Storing a set under a new name and removing that name again gives back
/// the sets as they were (`SetMap::insert`, then `SetMap::remove`).
pub proof fn law_insert_then_remove_restores(
    before: Map<Seq<char>, ImageSet>,
    name: Seq<char>,
    set: ImageSet,
)
    requires
        !before.contains_key(name),
    ensures
        before.insert(name, set).remove(name) == before,
{
    assert(before.insert(name, set).remove(name) =~= before);
}

proof fn lemma_digit(k: nat)
    requires
        k < 10,
    ensures
        is_digit(digit_char(k)),
        digit_value(digit_char(k)) == k,
{
    if k == 0 {
    } else if k == 1 {
    } else if k == 2 {
    } else if k == 3 {
    } else if k == 4 {
    } else if k == 5 {
    } else if k == 6 {
    } else if k == 7 {
    } else if k == 8 {
    } else {
    }
}

proof fn lemma_decimal_digits(n: nat)
    ensures
        decimal(n).len() > 0,
        all_digits(decimal(n)),
        digits_value(decimal(n)) == n,
    decreases n,
{
    if n < 10 {
        lemma_digit(n);
        let d = decimal(n);
        assert(d.drop_last() =~= Seq::<char>::empty());
        assert(digits_value(d.drop_last()) == 0);
        assert(d.last() == digit_char(n));
        assert(digits_value(d) == digits_value(d.drop_last()) * 10 + digit_value(d.last()));
        assert(is_digit(d[0]));
    } else {
        lemma_decimal_digits(n / 10);
        lemma_digit(n % 10);
        let d = decimal(n);
        let p = decimal(n / 10);
        assert(d.drop_last() =~= p);
        assert(d.last() == digit_char(n % 10));
        assert(digits_value(d) == digits_value(p) * 10 + digit_value(digit_char(n % 10)));
        assert((n / 10) * 10 + n % 10 == n);
        assert(is_digit(digit_char(n % 10)));
        assert forall|i: int| 0 <= i < d.len() implies #[trigger] is_digit(d[i]) by {
            if i < p.len() {
                assert(d[i] == p[i]);
            }
        }
    }
}

/// Reading back the decimal notation of a number (as `format_time` writes
/// it) gives the number.
pub proof fn law_decimal_reads_back(n: u32)
    ensures
        u32_from_text(decimal(n as nat)) == Some(n),
{
    lemma_decimal_digits(n as nat);
    let d = decimal(n as nat);
    assert(is_digit(d[0]));
    assert(unsigned_body(d) == d);
}


/// Scanning keeps exactly the paths of the entries whose file name is a
/// picture's, in the order of the walk.
pub proof fn law_scan_keeps_picture_paths(entries: Seq<(String, String)>)
    ensures
        image_paths(entries) == entries.filter(|e: (String, String)| is_image_name(e.1@)).map_values(
            |e: (String, String)| e.0,
        ),
    decreases entries.len(),
{
    let pred = |e: (String, String)| is_image_name(e.1@);
    let f = |e: (String, String)| e.0;
    if entries.len() == 0 {
        reveal(Seq::filter);
        assert(entries.filter(pred) =~= Seq::<(String, String)>::empty());
        assert(entries.filter(pred).map_values(f) =~= Seq::<String>::empty());
    } else {
        law_scan_keeps_picture_paths(entries.drop_last());
        entries.drop_last().lemma_filter_push(entries.last(), pred);
        assert(entries.drop_last().push(entries.last()) =~= entries);
        let rest = entries.drop_last().filter(pred);
        if pred(entries.last()) {
            assert(entries.filter(pred) == rest.push(entries.last()));
            assert(rest.push(entries.last()).map_values(f) =~= rest.map_values(f).push(entries.last().0));
        } else {
            assert(entries.filter(pred) == rest);
        }
    }
}

/// Saved sets are listed in the order of their names: a name comes before
/// every longer name it begins, and otherwise the first differing character
/// decides.
pub proof fn law_name_order(a: Seq<char>, b: Seq<char>, i: int)
    requires
        0 <= i <= a.len(),
        i <= b.len(),
        a.subrange(0, i) == b.subrange(0, i),
    ensures
        i == a.len() && i < b.len() ==> text_less(a, b),
        i < a.len() && i < b.len() && (a[i] as int) < (b[i] as int) ==> text_less(a, b),
        i < a.len() && i < b.len() && (a[i] as int) < (b[i] as int) ==> !text_less(b, a),
    decreases i,
{
    if i > 0 {
        assert(a[0] == a.subrange(0, i)[0]);
        assert(b[0] == b.subrange(0, i)[0]);
        assert(a.drop_first().subrange(0, i - 1) =~= a.subrange(0, i).drop_first());
        assert(b.drop_first().subrange(0, i - 1) =~= b.subrange(0, i).drop_first());
        law_name_order(a.drop_first(), b.drop_first(), i - 1);
    }
}

/// How a time is written: under 100 seconds as seconds; from 100 seconds up
/// to an hour as its whole minutes and the seconds left over (the seconds
/// left out when there are none); an hour or more as a joke.
pub proof fn law_time_text(minutes: nat, seconds: nat)
    requires
        seconds < 60,
    ensures
        minutes * 60 + seconds < 100 ==> time_text(minutes * 60 + seconds) == decimal(minutes * 60 + seconds) + "sec"@,
        100 <= minutes * 60 + seconds && minutes < 60 && seconds > 0 ==> time_text(minutes * 60 + seconds)
            == decimal(minutes) + "min "@ + decimal(seconds) + "sec"@,
        100 <= minutes * 60 + seconds && minutes < 60 && seconds == 0 ==> time_text(minutes * 60 + seconds)
            == decimal(minutes) + "min"@,
        minutes >= 60 ==> time_text(minutes * 60 + seconds) == "U retarded?"@,
{
    let t = minutes * 60 + seconds;
    assert(t / 60 == minutes && t % 60 == seconds) by (nonlinear_arith)
        requires
            t == minutes * 60 + seconds,
            seconds < 60,
    ;
}


/// A picture's format is chosen by the extension of the file name at the
/// end of its path: for `folder/stem.ext`, with a non-empty stem and no `/`
/// or `.` in the extension, that is `ext`, whatever the folder holds.
pub proof fn law_picture_extension(folder: Seq<char>, stem: Seq<char>, ext: Seq<char>)
    requires
        stem.len() > 0,
        ext.len() > 0,
        forall|i: int| 0 <= i < stem.len() ==> stem[i] != '/',
        forall|i: int| 0 <= i < ext.len() ==> ext[i] != '/' && ext[i] != '.',
    ensures
        path_extension(folder.push('/') + (stem.push('.') + ext)) == ext,
{
    let name = stem.push('.') + ext;
    assert forall|i: int| 0 <= i < name.len() implies name[i] != '/' by {
        if i < stem.len() {
            assert(name[i] == stem[i]);
        } else if i > stem.len() {
            assert(name[i] == ext[i - stem.len() - 1]);
        }
    }
    lemma_last_mark(folder, '/', name);
    let path = folder.push('/') + name;
    assert(last_component(path) =~= name);
    law_image_name_by_extension(stem, ext);
}


/// A name that starts with its only dot, such as `.png`, has no extension,
/// so it is never taken for a picture.
pub proof fn law_dot_name_has_no_extension(ext: Seq<char>)
    requires
        forall|i: int| 0 <= i < ext.len() ==> ext[i] != '.',
    ensures
        file_extension(seq!['.'] + ext) is None,
        !is_image_name(seq!['.'] + ext),
{
    lemma_last_mark(Seq::empty(), '.', ext);
    assert(Seq::<char>::empty().push('.') =~= seq!['.']);
}

} // verus!
