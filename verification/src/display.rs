//! Verified text building for the user-facing views: decimal numbers,
//! `minutes:seconds` durations, the now-playing and queue-embed lines, and
//! the paging buttons of the interactive queue view.

use vstd::prelude::*;
use vstd::string::StringExecFns;

use crate::track::{get_artist, get_title, spec_artist, spec_title, Track};

verus! {

/// The digit character for a value below ten.
pub open spec fn digit_char(d: int) -> char {
    if d == 0 {
        '0'
    } else if d == 1 {
        '1'
    } else if d == 2 {
        '2'
    } else if d == 3 {
        '3'
    } else if d == 4 {
        '4'
    } else if d == 5 {
        '5'
    } else if d == 6 {
        '6'
    } else if d == 7 {
        '7'
    } else if d == 8 {
        '8'
    } else {
        '9'
    }
}

/// The decimal representation of a non-negative number, most significant
/// digit first.
pub open spec fn spec_dec(n: int) -> Seq<char>
    decreases n,
{
    if n < 10 {
        seq![digit_char(n)]
    } else {
        spec_dec(n / 10).push(digit_char(n % 10))
    }
}

/// `n` in decimal, left-padded with one zero to at least two digits, as the
/// seconds half of a `minutes:seconds` display.
pub open spec fn spec_dec_pad2(n: int) -> Seq<char> {
    if n < 10 {
        seq!['0'] + spec_dec(n)
    } else {
        spec_dec(n)
    }
}

/// A duration in whole seconds rendered as `minutes:seconds`, seconds
/// zero-padded to two digits.
pub open spec fn spec_duration_text(secs: int) -> Seq<char> {
    spec_dec(secs / 60) + seq![':'] + spec_dec_pad2(secs % 60)
}

fn digit_str(d: u64) -> (r: &'static str)
    requires
        d < 10,
    ensures
        r@ == seq![digit_char(d as int)],
{
    if d == 0 {
        let r = "0";
        proof { reveal_strlit("0"); }
        r
    } else if d == 1 {
        let r = "1";
        proof { reveal_strlit("1"); }
        r
    } else if d == 2 {
        let r = "2";
        proof { reveal_strlit("2"); }
        r
    } else if d == 3 {
        let r = "3";
        proof { reveal_strlit("3"); }
        r
    } else if d == 4 {
        let r = "4";
        proof { reveal_strlit("4"); }
        r
    } else if d == 5 {
        let r = "5";
        proof { reveal_strlit("5"); }
        r
    } else if d == 6 {
        let r = "6";
        proof { reveal_strlit("6"); }
        r
    } else if d == 7 {
        let r = "7";
        proof { reveal_strlit("7"); }
        r
    } else if d == 8 {
        let r = "8";
        proof { reveal_strlit("8"); }
        r
    } else {
        let r = "9";
        proof { reveal_strlit("9"); }
        r
    }
}

/// Appends the decimal digits of `n` to `s`.
pub fn push_dec(s: String, n: u64) -> (r: String)
    ensures
        r@ == s@ + spec_dec(n as int),
    decreases n,
{
    let ghost s0 = s@;
    if n < 10 {
        s.concat(digit_str(n))
    } else {
        let high = push_dec(s, n / 10);
        let r = high.concat(digit_str(n % 10));
        proof {
            assert(r@ =~= s0 + spec_dec(n as int));
        }
        r
    }
}

/// Renders `n` in decimal.
pub fn format_u64(n: u64) -> (r: String)
    ensures
        r@ == spec_dec(n as int),
{
    let r = push_dec(String::new(), n);
    proof {
        assert(r@ =~= spec_dec(n as int));
    }
    r
}

/// Renders a duration in whole seconds as `minutes:seconds`, flooring to
/// seconds and zero-padding the seconds to two digits.
pub fn format_duration(secs: u64) -> (r: String)
    ensures
        r@ == spec_duration_text(secs as int),
{
    let minutes = secs / 60;
    let rem = secs % 60;
    let mut out = push_dec(String::new(), minutes);
    out = out.concat(":");
    proof { reveal_strlit(":"); }
    if rem < 10 {
        out = out.concat("0");
        proof { reveal_strlit("0"); }
    }
    let r = push_dec(out, rem);
    proof {
        assert(r@ =~= spec_duration_text(secs as int));
    }
    r
}

/// The heading for a playing track: `title by artist`.
pub open spec fn spec_heading(t: Track) -> Seq<char> {
    spec_title(t) + " by "@ + spec_artist(t)
}

/// Builds the `title by artist` heading of the now-playing view.
pub fn track_heading(t: &Track) -> (r: String)
    ensures
        r@ == spec_heading(*t),
{
    let mut out = get_title(t).to_owned();
    out = out.concat(" by ");
    let r = out.concat(get_artist(t));
    proof {
        assert(r@ =~= spec_heading(*t));
    }
    r
}

/// One numbered title cell of the queue embed: `**n.** title` and a newline.
pub open spec fn spec_title_cell(n: int, t: Track) -> Seq<char> {
    "**"@ + spec_dec(n) + ".** "@ + spec_title(t) + "\n"@
}

/// Builds the numbered title cell shown for queue entry number `n`.
pub fn title_cell(n: u64, t: &Track) -> (r: String)
    ensures
        r@ == spec_title_cell(n as int, *t),
{
    let mut out = push_dec(String::from_str("**"), n);
    out = out.concat(".** ");
    out = out.concat(get_title(t));
    let r = out.concat("\n");
    proof {
        assert(r@ =~= spec_title_cell(n as int, *t));
    }
    r
}

/// One artist cell of the queue embed: the artist and a newline.
pub open spec fn spec_artist_cell(t: Track) -> Seq<char> {
    spec_artist(t) + "\n"@
}

/// Builds the artist cell of a queue entry.
pub fn artist_cell(t: &Track) -> (r: String)
    ensures
        r@ == spec_artist_cell(*t),
{
    let out = get_artist(t).to_owned();
    let r = out.concat("\n");
    proof {
        assert(r@ =~= spec_artist_cell(*t));
    }
    r
}

/// One duration cell of the queue embed: `[minutes:seconds]` and a newline.
pub open spec fn spec_duration_cell(secs: int) -> Seq<char> {
    "["@ + spec_duration_text(secs) + "]\n"@
}

/// Builds the bracketed duration cell of a queue entry.
pub fn duration_cell(secs: u64) -> (r: String)
    ensures
        r@ == spec_duration_cell(secs as int),
{
    let out = String::from_str("[").concat(format_duration(secs).as_str());
    let r = out.concat("]\n");
    proof {
        assert(r@ =~= spec_duration_cell(secs as int));
    }
    r
}

/// The progress line of the now-playing view:
/// `**Current Time:** elapsed / total`.
pub open spec fn spec_progress_text(elapsed: int, total: int) -> Seq<char> {
    "**Current Time:** "@ + spec_duration_text(elapsed) + " / "@ + spec_duration_text(total)
}

/// Builds the progress line from the elapsed position and the track length,
/// both in whole seconds.
pub fn progress_text(elapsed_secs: u64, total_secs: u64) -> (r: String)
    ensures
        r@ == spec_progress_text(elapsed_secs as int, total_secs as int),
{
    let mut out = String::from_str("**Current Time:** ");
    out = out.concat(format_duration(elapsed_secs).as_str());
    out = out.concat(" / ");
    let r = out.concat(format_duration(total_secs).as_str());
    proof {
        assert(r@ =~= spec_progress_text(elapsed_secs as int, total_secs as int));
    }
    r
}

/// The up-next line: `**Up Next:** title by artist`.
pub open spec fn spec_up_next_text(t: Track) -> Seq<char> {
    "**Up Next:** "@ + spec_heading(t)
}

/// Builds the up-next line of the now-playing and queue views.
pub fn up_next_text(t: &Track) -> (r: String)
    ensures
        r@ == spec_up_next_text(*t),
{
    let r = String::from_str("**Up Next:** ").concat(track_heading(t).as_str());
    proof {
        assert(r@ =~= spec_up_next_text(*t));
    }
    r
}

fn push_pad2(s: String, n: u64) -> (r: String)
    ensures
        r@ == s@ + spec_dec_pad2(n as int),
{
    if n < 10 {
        let padded = s.concat("0");
        proof { reveal_strlit("0"); }
        let r = push_dec(padded, n);
        proof {
            assert(r@ =~= s@ + spec_dec_pad2(n as int));
        }
        r
    } else {
        push_dec(s, n)
    }
}

/// The footer of the queue view: the shown page, the page count, and the
/// whole queue's duration with both halves zero-padded to two digits.
pub open spec fn spec_page_footer(page: int, total_pages: int, total_secs: int) -> Seq<char> {
    "Page "@ + spec_dec(page + 1) + "/"@ + spec_dec(total_pages) + " | Total Duration: "@
        + spec_dec_pad2(total_secs / 60) + seq![':'] + spec_dec_pad2(total_secs % 60)
}

/// Builds the queue-view footer; pages are shown one-based.
pub fn page_footer(page: usize, total_pages: usize, total_secs: u64) -> (r: String)
    requires
        page < usize::MAX,
    ensures
        r@ == spec_page_footer(page as int, total_pages as int, total_secs as int),
{
    let mut out = push_dec(String::from_str("Page "), (page + 1) as u64);
    out = out.concat("/");
    out = push_dec(out, total_pages as u64);
    out = out.concat(" | Total Duration: ");
    out = push_pad2(out, total_secs / 60);
    out = out.concat(":");
    proof { reveal_strlit(":"); }
    let r = push_pad2(out, total_secs % 60);
    proof {
        assert(r@ =~= spec_page_footer(page as int, total_pages as int, total_secs as int));
    }
    r
}

/// Which paging buttons of the queue view are pressable.
pub struct NavState {
    pub prev_enabled: bool,
    pub next_enabled: bool,
}

/// Decides the button states for the queue view: a previous page exists
/// below the shown one, a next page exists above it.
pub fn nav_state(page: usize, queue_len: usize) -> (r: NavState)
    ensures
        r.prev_enabled == (page > 0),
        r.next_enabled == (queue_len / 10 >= 1 && page < queue_len / 10),
{
    NavState { prev_enabled: page > 0, next_enabled: queue_len / 10 >= 1 && page < queue_len / 10 }
}

/// A page-turn request from the interactive queue view.
pub enum PageInput {
    PrevPage,
    NextPage,
    Other,
}

/// Applies one page-turn request to the shown page number; `None` means the
/// request changes nothing and the view stays as it is.
pub fn page_turn(page: usize, input: PageInput) -> (r: Option<usize>)
    ensures
        match input {
            PageInput::NextPage => r == if page < usize::MAX {
                Some((page + 1) as usize)
            } else {
                None::<usize>
            },
            PageInput::PrevPage => r == if page > 0 {
                Some((page - 1) as usize)
            } else {
                None::<usize>
            },
            PageInput::Other => r is None,
        },
{
    match input {
        PageInput::NextPage => {
            if page < usize::MAX {
                Some(page + 1)
            } else {
                None
            }
        },
        PageInput::PrevPage => {
            if page > 0 {
                Some(page - 1)
            } else {
                None
            }
        },
        PageInput::Other => None,
    }
}

} // verus!
