//! Rendering: the compact color-coded name, and the detailed line with the
//! is-directory flag, size, octal permission bits and modification time.
//! The color codes and the local-time text come from outside crates behind
//! trusted wrappers; everything around them is built and proved here.

use vstd::prelude::*;
use crate::entry::{EntryKind, FileEntry};
use crate::listing::{file_name, spec_display_name, PathInfo};
use crate::textfmt::{
    bool_text, pad_left, pad_right, spec_bool_text, spec_dec, spec_oct, spec_pad_left,
    spec_pad_right, u32_to_oct, u64_to_dec,
};

verus! {

/// Whether `s` holds the terminal escape character. Free of it, a
/// color-coded text is the input bare or between one fixed color code and
/// the reset code; with it, color-coding may rewrite the input.
pub open spec fn spec_has_esc(s: Seq<char>) -> bool {
    s.contains('\u{1b}')
}

/// The ANSI code that opens blue foreground text.
pub open spec fn spec_blue_prefix() -> Seq<char> {
    seq!['\u{1b}', '[', '3', '4', 'm']
}

/// The ANSI code that opens yellow foreground text.
pub open spec fn spec_yellow_prefix() -> Seq<char> {
    seq!['\u{1b}', '[', '3', '3', 'm']
}

/// The ANSI code that resets the style.
pub open spec fn spec_reset() -> Seq<char> {
    seq!['\u{1b}', '[', '0', 'm']
}

/// `s` wrapped in the color code for its kind — blue for a directory,
/// yellow for anything else — and closed by the reset code.
pub open spec fn spec_color_wrapped(s: Seq<char>, dir: bool) -> Seq<char> {
    (if dir {
        spec_blue_prefix()
    } else {
        spec_yellow_prefix()
    }) + s + spec_reset()
}

/// What a color-coded text is, for an input free of the escape character:
/// the input unchanged (colors off), or the input between its kind's color
/// code and the reset code (colors on).
pub open spec fn spec_colorized(r: Seq<char>, s: Seq<char>, dir: bool) -> bool {
    !spec_has_esc(s) ==> (r == s || r == spec_color_wrapped(s, dir))
}

/// Relies on colored::Colorize::blue (foreground code "34") and
/// ColoredString's Display: depending on the terminal settings the
/// rendered text is the input unchanged, or the blue code, the input, and
/// the reset code. An input holding the escape character may additionally
/// have the style re-applied after each reset sequence it holds, so the
/// exact outcome is stated only for inputs free of that character.
#[verifier::external_body]
fn colorize_blue(s: &str) -> (r: String)
    ensures
        r@.len() >= s@.len(),
        !spec_has_esc(s@) ==> (r@ == s@ || r@ == spec_blue_prefix() + s@ + spec_reset()),
{
    colored::Colorize::blue(s).to_string()
}

/// Relies on colored::Colorize::yellow (foreground code "33") and
/// ColoredString's Display, exactly as the blue wrapper does.
#[verifier::external_body]
fn colorize_yellow(s: &str) -> (r: String)
    ensures
        r@.len() >= s@.len(),
        !spec_has_esc(s@) ==> (r@ == s@ || r@ == spec_yellow_prefix() + s@ + spec_reset()),
{
    colored::Colorize::yellow(s).to_string()
}

/// The smallest seconds-since-epoch value that chrono holds as a date:
/// midnight opening its first day, -262143-01-01.
pub const MIN_FORMATTABLE_SECS: i64 = -8_334_601_228_800;

/// The largest seconds-since-epoch value that chrono holds as a date: the
/// last second of its last day, 262142-12-31.
pub const MAX_FORMATTABLE_SECS: i64 = 8_210_266_876_799;

/// An ASCII decimal digit.
pub open spec fn spec_ascii_digit(c: char) -> bool {
    '0' <= c && c <= '9'
}

/// The shape of a "%Y-%m-%d %H:%M:%S" text, read from its end: nineteen or
/// more characters, the two `-`, the space and the two `:` at their fixed
/// places, digits between them. A year of more than four digits (or with a
/// sign) extends the text to the left.
pub open spec fn spec_clock_shape(t: Seq<char>) -> bool {
    let n = t.len() as int;
    &&& t.len() >= 19
    &&& spec_ascii_digit(t[n - 1]) && spec_ascii_digit(t[n - 2]) && t[n - 3] == ':'
    &&& spec_ascii_digit(t[n - 4]) && spec_ascii_digit(t[n - 5]) && t[n - 6] == ':'
    &&& spec_ascii_digit(t[n - 7]) && spec_ascii_digit(t[n - 8]) && t[n - 9] == ' '
    &&& spec_ascii_digit(t[n - 10]) && spec_ascii_digit(t[n - 11]) && t[n - 12] == '-'
    &&& spec_ascii_digit(t[n - 13]) && spec_ascii_digit(t[n - 14]) && t[n - 15] == '-'
    &&& spec_ascii_digit(t[n - 16]) && spec_ascii_digit(t[n - 17]) && spec_ascii_digit(t[n - 18])
        && spec_ascii_digit(t[n - 19])
}

/// Relies on chrono: DateTime::from_timestamp, with_timezone to Local, and
/// format with "%Y-%m-%d %H:%M:%S". from_timestamp returns a date exactly
/// for the seconds values within chrono's calendar, the two bounds above.
/// The formatted text zero-pads every field to its width (the year to at
/// least four digits), so it has the clock shape stated above. Which
/// calendar time the digits show depends on the machine's time zone, so
/// nothing more is claimed of it.
#[verifier::external_body]
fn format_local_time(secs: i64) -> (r: Option<String>)
    ensures
        r is Some <==> MIN_FORMATTABLE_SECS <= secs <= MAX_FORMATTABLE_SECS,
        r matches Some(t) ==> spec_clock_shape(t@),
{
    chrono::DateTime::from_timestamp(secs, 0).map(
        |dt| dt.with_timezone(&chrono::Local).format("%Y-%m-%d %H:%M:%S").to_string(),
    )
}

/// The timestamp column: the local-time text for a present modification
/// time within chrono's calendar, and the placeholder "N/A" when the time
/// is absent or past what the calendar can hold. Rendering never fails.
pub fn render_timestamp(modified: Option<i64>) -> (r: String)
    ensures
        modified is None ==> r@ == "N/A"@,
        modified matches Some(secs) && MIN_FORMATTABLE_SECS <= secs <= MAX_FORMATTABLE_SECS ==> r@
            != "N/A"@ && spec_clock_shape(r@),
        modified matches Some(secs) && !(MIN_FORMATTABLE_SECS <= secs <= MAX_FORMATTABLE_SECS)
            ==> r@ == "N/A"@,
        r@ == "N/A"@ || spec_clock_shape(r@),
{
    match modified {
        Option::None => "N/A".to_owned(),
        Option::Some(secs) => match format_local_time(secs) {
            Option::Some(t) => {
                proof {
                    reveal_strlit("N/A");
                }
                t
            },
            Option::None => "N/A".to_owned(),
        },
    }
}

/// The detailed line for given column texts: the (already color-coded) name
/// padded right to twenty places, the is-directory flag padded right to
/// five, the size padded left to ten, the octal permission bits padded left
/// to four, and the timestamp text, separated by single spaces.
pub open spec fn spec_detail_line(
    name: Seq<char>,
    is_dir: bool,
    size: nat,
    permissions: nat,
    edited: Seq<char>,
) -> Seq<char> {
    spec_pad_right(name, 20) + " "@ + spec_pad_right(spec_bool_text(is_dir), 5) + " "@
        + spec_pad_left(spec_dec(size), 10) + " "@ + spec_pad_left(spec_oct(permissions), 4) + " "@
        + edited
}

/// Builds the detailed line from its parts.
pub fn detail_line(name: &str, is_dir: bool, size: u64, permissions: u32, edited: &str) -> (r:
    String)
    ensures
        r@ == spec_detail_line(name@, is_dir, size as nat, permissions as nat, edited@),
{
    let mut line = pad_right(name.to_owned(), 20);
    line.append(" ");
    let flag = pad_right(bool_text(is_dir).to_owned(), 5);
    line.append(flag.as_str());
    line.append(" ");
    let size_text = pad_left(u64_to_dec(size), 10);
    line.append(size_text.as_str());
    line.append(" ");
    let perm_text = pad_left(u32_to_oct(permissions), 4);
    line.append(perm_text.as_str());
    line.append(" ");
    line.append(edited);
    proof {
        assert(line@ =~= spec_detail_line(
            name@,
            is_dir,
            size as nat,
            permissions as nat,
            edited@,
        ));
    }
    line
}

impl FileEntry {
    /// One detailed output line for this entry: its name color-coded by
    /// kind, then the is-directory flag, the size, the permission bits in
    /// octal, and the modification time — "N/A" when that is absent.
    pub fn render(&self) -> (r: String)
        ensures
            exists|colored_name: Seq<char>, edited: Seq<char>|
                {
                    &&& r@ == #[trigger] spec_detail_line(
                        colored_name,
                        self.kind is Directory,
                        self.size as nat,
                        self.permissions as nat,
                        edited,
                    )
                    &&& colored_name.len() >= self.name@.len()
                    &&& spec_colorized(colored_name, self.name@, self.kind is Directory)
                    &&& (self.last_edited is None ==> edited == "N/A"@)
                    &&& (self.last_edited matches Some(secs) && MIN_FORMATTABLE_SECS <= secs
                        <= MAX_FORMATTABLE_SECS ==> edited != "N/A"@)
                    &&& (edited == "N/A"@ || spec_clock_shape(edited))
                },
    {
        let is_dir = matches!(self.kind, EntryKind::Directory);
        let colored = if is_dir {
            colorize_blue(self.name.as_str())
        } else {
            colorize_yellow(self.name.as_str())
        };
        let edited = render_timestamp(self.last_edited);
        let r = detail_line(colored.as_str(), is_dir, self.size, self.permissions, edited.as_str());
        proof {
            let cn = colored@;
            let ed = edited@;
            assert(r@ == spec_detail_line(
                cn,
                self.kind is Directory,
                self.size as nat,
                self.permissions as nat,
                ed,
            ));
        }
        r
    }
}

/// The compact output token for one entry: its display name (the path's
/// final named component, or the whole path text when it has none),
/// color-coded blue for a directory and yellow otherwise. For a display
/// name free of the escape character the token is exactly that name, bare
/// or inside its kind's color codes.
pub fn render_compact(info: &PathInfo) -> (r: String)
    ensures
        r@.len() >= spec_display_name(info.path@).len(),
        spec_colorized(r@, spec_display_name(info.path@), info.is_dir),
{
    let shown: &str = match file_name(info.path.as_str()) {
        Option::Some(n) => n,
        Option::None => info.path.as_str(),
    };
    if info.is_dir {
        colorize_blue(shown)
    } else {
        colorize_yellow(shown)
    }
}

/// The compact output tokens for a whole listing, one per entry, in order.
pub fn colorize_paths(files: &Vec<PathInfo>) -> (r: Vec<String>)
    ensures
        r@.len() == files@.len(),
        forall|i: int|
            0 <= i < r@.len() ==> (#[trigger] r@[i]@).len() >= spec_display_name(
                files@[i].path@,
            ).len(),
        forall|i: int|
            0 <= i < r@.len() ==> spec_colorized(
                #[trigger] r@[i]@,
                spec_display_name(files@[i].path@),
                files@[i].is_dir,
            ),
{
    let mut r: Vec<String> = Vec::new();
    let mut i: usize = 0;
    while i < files.len()
        invariant
            i <= files@.len(),
            r@.len() == i,
            forall|j: int|
                0 <= j < i ==> (#[trigger] r@[j]@).len() >= spec_display_name(
                    files@[j].path@,
                ).len(),
            forall|j: int|
                0 <= j < i ==> spec_colorized(
                    #[trigger] r@[j]@,
                    spec_display_name(files@[j].path@),
                    files@[j].is_dir,
                ),
        decreases files@.len() - i,
    {
        let token = render_compact(&files[i]);
        r.push(token);
        i = i + 1;
    }
    r
}

} // verus!
