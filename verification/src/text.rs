use vstd::prelude::*;

verus! {

// ---------------------------------------------------------------------------
// Decimal notation
// ---------------------------------------------------------------------------

/// The character of a decimal digit.
pub open spec fn digit_char(d: nat) -> char {
    if d == 0 { '0' }
    else if d == 1 { '1' }
    else if d == 2 { '2' }
    else if d == 3 { '3' }
    else if d == 4 { '4' }
    else if d == 5 { '5' }
    else if d == 6 { '6' }
    else if d == 7 { '7' }
    else if d == 8 { '8' }
    else { '9' }
}

/// Decimal notation of `n`, without leading zeros (`0` is written `"0"`).
pub open spec fn decimal(n: nat) -> Seq<char>
    decreases n,
{
    if n < 10 {
        seq![digit_char(n)]
    } else {
        decimal(n / 10).push(digit_char(n % 10))
    }
}

fn digit_text(d: u32) -> (s: &'static str)
    requires
        d < 10,
    ensures
        s@ == seq![digit_char(d as nat)],
{
    proof {
        reveal_strlit("0");
        reveal_strlit("1");
        reveal_strlit("2");
        reveal_strlit("3");
        reveal_strlit("4");
        reveal_strlit("5");
        reveal_strlit("6");
        reveal_strlit("7");
        reveal_strlit("8");
        reveal_strlit("9");
    }
    match d {
        0 => "0",
        1 => "1",
        2 => "2",
        3 => "3",
        4 => "4",
        5 => "5",
        6 => "6",
        7 => "7",
        8 => "8",
        _ => "9",
    }
}

/// Appends the decimal notation of `n` to `out`.
pub fn push_decimal(out: &mut String, n: u32)
    ensures
        final(out)@ == old(out)@ + decimal(n as nat),
    decreases n,
{
    if n >= 10 {
        push_decimal(out, n / 10);
    }
    out.append(digit_text(n % 10));
    assert(old(out)@ + decimal(n as nat) =~= out@) by {
        if n >= 10 {
            assert(decimal(n as nat) == decimal((n / 10) as nat).push(digit_char((n % 10) as nat)));
        }
    }
}


// ---------------------------------------------------------------------------
// Durations
// ---------------------------------------------------------------------------

/// How a duration of `time` seconds is shown: plain seconds below 100 seconds,
/// minutes (and the remaining seconds, if any) from 100 seconds on, and a
/// refusal for an hour or more.
pub open spec fn time_text(time: nat) -> Seq<char> {
    let seconds = time % 60;
    let minutes = time / 60;
    if minutes >= 60 {
        "U retarded?"@
    } else if time >= 100 {
        if seconds != 0 {
            decimal(minutes) + "min "@ + decimal(seconds) + "sec"@
        } else {
            decimal(minutes) + "min"@
        }
    } else {
        decimal(time) + "sec"@
    }
}

/// Formats a duration given in seconds for display.
pub fn format_time(time: u32) -> (s: String)
    ensures
        s@ == time_text(time as nat),
{
    let seconds: u32 = time % 60;
    let minutes: u32 = time / 60;
    if minutes >= 60 {
        return String::from_str("U retarded?");
    }
    let mut out = String::new();
    if time >= 100 {
        push_decimal(&mut out, minutes);
        if seconds != 0 {
            out.append("min ");
            push_decimal(&mut out, seconds);
            out.append("sec");
        } else {
            out.append("min");
        }
    } else {
        push_decimal(&mut out, time);
        out.append("sec");
    }
    out
}


// ---------------------------------------------------------------------------
// Reading whole numbers
// ---------------------------------------------------------------------------

pub open spec fn is_digit(c: char) -> bool {
    '0' <= c && c <= '9'
}

pub open spec fn digit_value(c: char) -> nat {
    ((c as int) - ('0' as int)) as nat
}

/// Value of a string of decimal digits (most significant first).
pub open spec fn digits_value(s: Seq<char>) -> nat
    decreases s.len(),
{
    if s.len() == 0 {
        0
    } else {
        digits_value(s.drop_last()) * 10 + digit_value(s.last())
    }
}

pub open spec fn all_digits(s: Seq<char>) -> bool {
    forall|i: int| 0 <= i < s.len() ==> #[trigger] is_digit(s[i])
}

/// The text after an optional leading `+`.
pub open spec fn unsigned_body(s: Seq<char>) -> Seq<char> {
    if s.len() > 0 && s[0] == '+' {
        s.drop_first()
    } else {
        s
    }
}

/// What reading `s` as an unsigned 32-bit number gives, in the notation that
/// `str::parse::<u32>` accepts: an optional `+`, then one or more ASCII
/// digits whose value fits in 32 bits.
pub open spec fn u32_from_text(s: Seq<char>) -> Option<u32> {
    let body = unsigned_body(s);
    if body.len() > 0 && all_digits(body) && digits_value(body) <= u32::MAX {
        Some(digits_value(body) as u32)
    } else {
        None
    }
}

proof fn lemma_digits_value_grows(s: Seq<char>, c: char)
    requires
        is_digit(c),
    ensures
        digits_value(s.push(c)) >= digits_value(s),
        digits_value(s.push(c)) == digits_value(s) * 10 + digit_value(c),
{
    assert(s.push(c).drop_last() =~= s);
}

/// Reads an unsigned 32-bit number written in decimal.
pub fn parse_u32(text: &str) -> (r: Option<u32>)
    ensures
        r == u32_from_text(text@),
{
    let len = text.unicode_len();
    let ghost s = text@;
    let mut start: usize = 0;
    if len > 0 && text.get_char(0) == '+' {
        start = 1;
    }
    let ghost body = unsigned_body(s);
    assert(body =~= s.subrange(start as int, len as int));
    if start == len {
        return None;
    }
    let mut acc: u64 = 0;
    let mut overflow = false;
    let mut i = start;
    while i < len
        invariant
            start <= i <= len,
            len == s.len(),
            s == text@,
            body =~= s.subrange(start as int, len as int),
            body == unsigned_body(s),
            all_digits(body.take(i - start)),
            overflow ==> digits_value(body.take(i - start)) > u32::MAX,
            !overflow ==> acc == digits_value(body.take(i - start)),
            !overflow ==> acc <= u32::MAX,
        decreases len - i,
    {
        let c = text.get_char(i);
        if !('0' <= c && c <= '9') {
            assert(body[i - start] == c);
            assert(!is_digit(body[i - start]));
            assert(!all_digits(body));
            return None;
        }
        let ghost prefix = body.take(i - start);
        assert(body.take(i - start + 1) =~= prefix.push(c));
        proof {
            lemma_digits_value_grows(prefix, c);
        }
        if !overflow {
            let d = (c as u32 - '0' as u32) as u64;
            acc = acc * 10 + d;
            if acc > 0xffff_ffffu64 {
                overflow = true;
            }
        }
        i = i + 1;
    }
    assert(body.take(len - start) =~= body);
    if overflow {
        None
    } else {
        Some(acc as u32)
    }
}


// ---------------------------------------------------------------------------
// Image files
// ---------------------------------------------------------------------------

/// Index of the last `c` in `s`, or -1 when there is none.
pub open spec fn last_index_of(s: Seq<char>, c: char) -> int
    decreases s.len(),
{
    if s.len() == 0 {
        -1
    } else if s.last() == c {
        s.len() - 1
    } else {
        last_index_of(s.drop_last(), c)
    }
}

/// The extension of a file name as `Path::extension` finds it: the text after
/// the last dot, where that dot is not the first character of the name.
pub open spec fn file_extension(name: Seq<char>) -> Option<Seq<char>> {
    let i = last_index_of(name, '.');
    if i > 0 && name != seq!['.', '.'] {
        Some(name.subrange(i + 1, name.len() as int))
    } else {
        None
    }
}

/// `c` is the lowercase ASCII letter `lower` or its uppercase form.
pub open spec fn letter_is(c: char, lower: char) -> bool {
    c == lower || (c as int) == (lower as int) - 32
}

/// `ext` lowercases to `png`, `jpg` or `jpeg`. Only ASCII letters lowercase to
/// these letters, so comparing letter by letter without regard to ASCII case
/// is the same as comparing the lowercased text.
pub open spec fn is_image_extension(ext: Seq<char>) -> bool {
    ||| ext.len() == 3 && letter_is(ext[0], 'p') && letter_is(ext[1], 'n') && letter_is(ext[2], 'g')
    ||| ext.len() == 3 && letter_is(ext[0], 'j') && letter_is(ext[1], 'p') && letter_is(ext[2], 'g')
    ||| ext.len() == 4 && letter_is(ext[0], 'j') && letter_is(ext[1], 'p') && letter_is(ext[2], 'e')
        && letter_is(ext[3], 'g')
}

pub open spec fn is_image_name(name: Seq<char>) -> bool {
    match file_extension(name) {
        Some(ext) => is_image_extension(ext),
        None => false,
    }
}

fn char_is(c: char, lower: char, upper: char) -> (r: bool)
    requires
        (upper as int) == (lower as int) - 32,
    ensures
        r == letter_is(c, lower),
{
    c == lower || c == upper
}

/// Whether a file with this name is one of the pictures a session shows
/// (a `png`, `jpg` or `jpeg` extension, in any ASCII case).
pub fn is_image_file_name(name: &str) -> (r: bool)
    ensures
        r == is_image_name(name@),
{
    let len = name.unicode_len();
    let ghost s = name@;
    // find the last dot
    let mut i = len;
    let mut dot: Option<usize> = None;
    assert(s.take(len as int) =~= s);
    while i > 0 && dot.is_none()
        invariant
            i <= len,
            len == s.len(),
            s == name@,
            dot is None ==> last_index_of(s, '.') == last_index_of(s.take(i as int), '.'),
            dot matches Some(d) ==> last_index_of(s, '.') == d && d < len,
        decreases i,
    {
        let c = name.get_char(i - 1);
        assert(s.take(i as int).drop_last() =~= s.take(i - 1));
        assert(s.take(i as int).last() == c);
        if c == '.' {
            dot = Some(i - 1);
        }
        i = i - 1;
    }
    if dot.is_none() {
        assert(i == 0);
        assert(s.take(0) =~= Seq::<char>::empty());
    }
    let d = match dot {
        None => { return false; },
        Some(d) => d,
    };
    if d == 0 {
        return false;
    }
    if len == 2 {
        // the name `..`: the only two-character name whose last dot is not first
        // and that has no extension is `..` itself
        if name.get_char(0) == '.' && name.get_char(1) == '.' {
            assert(s =~= seq!['.', '.']);
            return false;
        }
    }
    let ext_len = len - d - 1;
    let ghost ext = s.subrange(d + 1, len as int);
    assert(s != seq!['.', '.'] ) by {
        if s == seq!['.', '.'] {
            assert(s[0] == '.' && s[1] == '.');
        }
    }
    if ext_len == 3 {
        let a = name.get_char(d + 1);
        let b = name.get_char(d + 2);
        let c = name.get_char(d + 3);
        assert(ext[0] == a && ext[1] == b && ext[2] == c);
        (char_is(a, 'p', 'P') && char_is(b, 'n', 'N') && char_is(c, 'g', 'G'))
            || (char_is(a, 'j', 'J') && char_is(b, 'p', 'P') && char_is(c, 'g', 'G'))
    } else if ext_len == 4 {
        let a = name.get_char(d + 1);
        let b = name.get_char(d + 2);
        let c = name.get_char(d + 3);
        let e = name.get_char(d + 4);
        assert(ext[0] == a && ext[1] == b && ext[2] == c && ext[3] == e);
        char_is(a, 'j', 'J') && char_is(b, 'p', 'P') && char_is(c, 'e', 'E') && char_is(e, 'g', 'G')
    } else {
        false
    }
}


/// The paths among `(path, file name)` entries whose file name is an image's,
/// in the order of the entries.
pub open spec fn image_paths(entries: Seq<(String, String)>) -> Seq<String>
    decreases entries.len(),
{
    if entries.len() == 0 {
        Seq::empty()
    } else {
        let rest = image_paths(entries.drop_last());
        if is_image_name(entries.last().1@) {
            rest.push(entries.last().0)
        } else {
            rest
        }
    }
}

/// Keeps the paths of the image files among the entries of a directory walk;
/// each entry is a path with the file name it ends in.
pub fn select_images(entries: &Vec<(String, String)>) -> (paths: Vec<String>)
    ensures
        paths@ == image_paths(entries@),
{
    let mut paths: Vec<String> = Vec::new();
    let n = entries.len();
    let mut i: usize = 0;
    while i < n
        invariant
            i <= n,
            n == entries@.len(),
            paths@ == image_paths(entries@.take(i as int)),
        decreases n - i,
    {
        let entry = &entries[i];
        assert(entries@.take(i + 1).drop_last() =~= entries@.take(i as int));
        assert(entries@.take(i + 1).last() == entries@[i as int]);
        if is_image_file_name(entry.1.as_str()) {
            paths.push(entry.0.clone());
        }
        i = i + 1;
    }
    assert(entries@.take(n as int) =~= entries@);
    paths
}

} // verus!
