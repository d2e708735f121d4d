//! What the status message of an upload says while the file is sent.

use crate::config::law_decimal_reads_back;
use crate::sizes::{format_file_size, is_file_size, law_file_size_form};
use crate::text::{
    after_first, before_first, decimal, decimal_text, first_of_joined, repeat, repeated,
};
use vstd::prelude::*;

verus! {

/// How many cells the progress bar has.
pub const BAR_WIDTH: usize = 10;

/// How far an upload has come.
pub struct Progress {
    /// The number of bytes that have been sent.
    pub sent: u64,
    /// The number of bytes of the file.
    pub total: u64,
    /// How many cells of the progress bar are filled.
    pub filled: usize,
    /// The percentage that has been sent, with two decimals.
    pub percent: String,
    /// The number of bytes that are sent in a second.
    pub speed: u64,
    /// The number of seconds that are left.
    pub eta: u64,
}

/// The number of seconds by which the speed is measured: those that have passed,
/// and at least one.
pub fn elapsed_seconds(passed: i64) -> (seconds: i64)
    ensures
        seconds == if passed < 1 {
            1
        } else {
            passed as int
        },
        seconds >= 1,
        passed >= 1 ==> seconds == passed,
{
    if passed < 1 {
        1
    } else {
        passed
    }
}

/// The number of bytes that are left to send.
pub fn remaining_bytes(total: u64, sent: u64) -> (left: u64)
    ensures
        left == if sent <= total {
            total - sent
        } else {
            0
        },
        sent <= total ==> left + sent == total,
        sent > total ==> left == 0,
{
    if sent <= total {
        total - sent
    } else {
        0
    }
}

/// A bar of `width` cells of which `filled` are filled; one that is filled beyond
/// its width grows.
pub open spec fn bar(filled: nat, width: nat) -> Seq<char> {
    repeated("▣"@, filled) + repeated(
        "□"@,
        if filled <= width {
            (width - filled) as nat
        } else {
            0
        },
    )
}

/// Draws a progress bar.
pub fn progress_bar(filled: usize, width: usize) -> (out: String)
    ensures
        out@ == bar(filled as nat, width as nat),
{
    let empty: usize = if filled <= width {
        width - filled
    } else {
        0
    };
    let mut out = repeat("▣", filled);
    out.append(repeat("□", empty).as_str());
    out
}

/// A time of `seconds` in minutes and seconds. Those of the two that are nothing
/// are left out, except for a time of no seconds at all.
pub open spec fn duration(seconds: nat) -> Seq<char> {
    if seconds < 60 {
        decimal(seconds) + " sec"@
    } else if seconds % 60 == 0 {
        decimal(seconds / 60) + " min"@
    } else {
        decimal(seconds / 60) + " min "@ + decimal(seconds % 60) + " sec"@
    }
}

/// Writes a time in minutes and seconds.
pub fn format_eta(seconds: u64) -> (out: String)
    ensures
        out@ == duration(seconds as nat),
{
    if seconds >= 60 {
        let minutes: u64 = seconds / 60;
        let secs: u64 = seconds % 60;
        let mut out = decimal_text(minutes);
        if secs > 0 {
            out.append(" min ");
            out.append(decimal_text(secs).as_str());
            out.append(" sec");
        } else {
            out.append(" min");
        }
        out
    } else {
        let mut out = decimal_text(seconds);
        out.append(" sec");
        out
    }
}

/// The status message of an upload, from its parts.
pub open spec fn progress_message(
    name: Seq<char>,
    total: Seq<char>,
    bar: Seq<char>,
    percent: Seq<char>,
    sent: Seq<char>,
    speed: Seq<char>,
    eta: Seq<char>,
) -> Seq<char> {
    "ㅤ<br> \n <blockquote>ㅤ\n <br><br> 𝐹𝑖𝑙𝑒 𝑛𝑎𝑚𝑒 :  <a href=\"https://example.com/file.zip\">"@ + name
        + "</a><br><br> \n\n ㅤㅤ𝑆𝑖𝑧𝑒 :  "@ + total
        + "<br><br><br></blockquote>\n\nDownload Completed ✓\n\n\n⏳ Uploading...\n\n[ "@ + bar
        + " ] "@ + percent
        + "%\n\n➩ "@ + sent
        + " of "@ + total
        + "\n\n➩ Speed : "@ + speed
        + "\n\n➩ Time Left : "@ + eta
}

/// Puts the status message of an upload together.
pub fn compose_progress(
    name: &str,
    total: &str,
    bar: &str,
    percent: &str,
    sent: &str,
    speed: &str,
    eta: &str,
) -> (out: String)
    ensures
        out@ == progress_message(name@, total@, bar@, percent@, sent@, speed@, eta@),
{
    let mut out = String::new();
    out.append("ㅤ<br> \n <blockquote>ㅤ\n <br><br> 𝐹𝑖𝑙𝑒 𝑛𝑎𝑚𝑒 :  <a href=\"https://example.com/file.zip\">");
    out.append(name);
    out.append("</a><br><br> \n\n ㅤㅤ𝑆𝑖𝑧𝑒 :  ");
    out.append(total);
    out.append("<br><br><br></blockquote>\n\nDownload Completed ✓\n\n\n⏳ Uploading...\n\n[ ");
    out.append(bar);
    out.append(" ] ");
    out.append(percent);
    out.append("%\n\n➩ ");
    out.append(sent);
    out.append(" of ");
    out.append(total);
    out.append("\n\n➩ Speed : ");
    out.append(speed);
    out.append("\n\n➩ Time Left : ");
    out.append(eta);
    assert(out@ =~= progress_message(name@, total@, bar@, percent@, sent@, speed@, eta@));
    out
}

/// Whether `text` tells how far the upload of the file `name` has come.
pub open spec fn tells_progress(name: Seq<char>, progress: Progress, text: Seq<char>) -> bool {
    exists|total: Seq<char>, sent: Seq<char>, speed: Seq<char>|
        {
            &&& #[trigger] is_file_size(progress.total, total)
            &&& #[trigger] is_file_size(progress.sent, sent)
            &&& #[trigger] is_file_size(progress.speed, speed)
            &&& text == progress_message(
                name,
                total,
                bar(progress.filled as nat, BAR_WIDTH as nat),
                progress.percent@,
                sent,
                speed + "/s"@,
                duration(progress.eta as nat),
            )
        }
}

/// Writes the status message of the upload of the file `name`.
pub fn progress_text(name: &str, progress: &Progress) -> (text: String)
    ensures
        tells_progress(name@, *progress, text@),
{
    let total = format_file_size(progress.total);
    let sent = format_file_size(progress.sent);
    let mut speed = format_file_size(progress.speed);
    let ghost rate = speed@;
    speed.append("/s");
    let bar = progress_bar(progress.filled, BAR_WIDTH);
    let eta = format_eta(progress.eta);
    let text = compose_progress(
        name,
        total.as_str(),
        bar.as_str(),
        progress.percent.as_str(),
        sent.as_str(),
        speed.as_str(),
        eta.as_str(),
    );
    assert(is_file_size(progress.total, total@));
    assert(is_file_size(progress.sent, sent@));
    assert(is_file_size(progress.speed, rate));
    text
}

/// Law: a bar has exactly as many cells as it is wide, or as are filled where these
/// are more, and the filled ones come first.
pub proof fn law_bar_keeps_its_width(filled: nat, width: nat)
    ensures
        bar(filled, width).len() == if filled <= width {
            width
        } else {
            filled
        },
        forall|i: int|
            0 <= i < bar(filled, width).len() ==> #[trigger] bar(filled, width)[i] == if i < filled {
                '▣'
            } else {
                '□'
            },
{
    reveal_strlit("▣");
    reveal_strlit("□");
    repeated_cells("▣"@, filled);
    repeated_cells(
        "□"@,
        if filled <= width {
            (width - filled) as nat
        } else {
            0
        },
    );
}

/// Law: as more cells are filled, a bar keeps its width and no filled cell becomes
/// empty again.
pub proof fn law_bar_never_goes_back(filled: nat, more: nat, width: nat)
    requires
        filled <= more <= width,
    ensures
        bar(filled, width).len() == bar(more, width).len(),
        forall|i: int|
            0 <= i < width && bar(filled, width)[i] == '▣' ==> #[trigger] bar(more, width)[i]
                == '▣',
        bar(filled, width).filter(|c: char| c == '▣').len() == filled,
        bar(more, width).filter(|c: char| c == '▣').len() == more,
{
    law_bar_keeps_its_width(filled, width);
    law_bar_keeps_its_width(more, width);
    filled_cells(bar(filled, width), filled);
    filled_cells(bar(more, width), more);
}

/// A text whose first `n` characters, and no others, are filled cells holds `n` of
/// them.
proof fn filled_cells(s: Seq<char>, n: nat)
    requires
        n <= s.len(),
        forall|i: int| 0 <= i < s.len() ==> (#[trigger] s[i] == '▣' <==> i < n),
    ensures
        s.filter(|c: char| c == '▣').len() == n,
    decreases s.len(),
{
    reveal(Seq::filter);
    if s.len() > 0 {
        if n == s.len() {
            filled_cells(s.drop_last(), (n - 1) as nat);
        } else {
            filled_cells(s.drop_last(), n);
        }
    }
}

proof fn repeated_cells(cell: Seq<char>, n: nat)
    requires
        cell.len() == 1,
    ensures
        repeated(cell, n).len() == n,
        forall|i: int| 0 <= i < n ==> #[trigger] repeated(cell, n)[i] == cell[0],
    decreases n,
{
    if n > 0 {
        repeated_cells(cell, (n - 1) as nat);
    }
}

/// Law: a time of whole minutes is written as their number, one of less than a minute
/// as the number of its seconds, and any other as both.
pub proof fn law_duration_is_written(minutes: nat, seconds: nat)
    requires
        seconds < 60,
    ensures
        duration(seconds) == decimal(seconds) + " sec"@,
        minutes >= 1 ==> duration(60 * minutes) == decimal(minutes) + " min"@,
        minutes >= 1 && seconds > 0 ==> duration(60 * minutes + seconds) == decimal(minutes)
            + " min "@ + decimal(seconds) + " sec"@,
{
}

/// Law: a time reads back from its text, so that two different times are never written
/// alike.
pub proof fn law_durations_differ(a: nat, b: nat)
    ensures
        duration(a) == duration(b) <==> a == b,
{
    if duration(a) == duration(b) {
        duration_parts(a);
        duration_parts(b);
        law_decimal_reads_back(a);
        law_decimal_reads_back(b);
        law_decimal_reads_back(a / 60);
        law_decimal_reads_back(b / 60);
        law_decimal_reads_back(a % 60);
        law_decimal_reads_back(b % 60);
        reveal_strlit("sec");
        reveal_strlit("min");
        reveal_strlit("min ");
        reveal_strlit(" sec");
        let x = after_first(duration(a), ' ')->0;
        let y = after_first(duration(b), ' ')->0;
        assert(x == y);
        assert(x[0] == y[0]);
        assert(x[0] == if a < 60 { 's' } else { 'm' });
        assert(y[0] == if b < 60 { 's' } else { 'm' });
        if a >= 60 {
            assert(x.len() == y.len());
            if a % 60 != 0 && b % 60 != 0 {
                let n = x.len() as int;
                assert(x.subrange(4, n - 4) =~= decimal(a % 60));
                assert(y.subrange(4, n - 4) =~= decimal(b % 60));
            }
        }
    }
}

/// What stands before the first space of a time, and behind it.
proof fn duration_parts(seconds: nat)
    ensures
        before_first(duration(seconds), ' ') == if seconds < 60 {
            decimal(seconds)
        } else {
            decimal(seconds / 60)
        },
        after_first(duration(seconds), ' ') == Some(
            if seconds < 60 {
                "sec"@
            } else if seconds % 60 == 0 {
                "min"@
            } else {
                "min "@ + decimal(seconds % 60) + " sec"@
            },
        ),
{
    reveal_strlit("sec");
    reveal_strlit(" sec");
    reveal_strlit("min");
    reveal_strlit("min ");
    reveal_strlit(" min");
    reveal_strlit(" min ");
    let number = if seconds < 60 {
        decimal(seconds)
    } else {
        decimal(seconds / 60)
    };
    let behind = if seconds < 60 {
        "sec"@
    } else if seconds % 60 == 0 {
        "min"@
    } else {
        "min "@ + decimal(seconds % 60) + " sec"@
    };
    law_decimal_reads_back(seconds);
    law_decimal_reads_back(seconds / 60);
    assert(duration(seconds) =~= number + seq![' '] + behind);
    first_of_joined(number, ' ', behind);
}

/// Law: the status message of an upload holds its parts as they are, in this order,
/// with the size of the file twice.
pub proof fn law_progress_message_holds_its_parts(
    name: Seq<char>,
    total: Seq<char>,
    bar: Seq<char>,
    percent: Seq<char>,
    sent: Seq<char>,
    speed: Seq<char>,
    eta: Seq<char>,
)
    ensures
        ({
            let head =
                "ㅤ<br> \n <blockquote>ㅤ\n <br><br> 𝐹𝑖𝑙𝑒 𝑛𝑎𝑚𝑒 :  <a href=\"https://example.com/file.zip\">"@
                + name;
            let size = "</a><br><br> \n\n ㅤㅤ𝑆𝑖𝑧𝑒 :  "@ + total
                + "<br><br><br></blockquote>\n\nDownload Completed ✓\n\n\n⏳ Uploading...\n\n[ "@;
            let share = bar + " ] "@ + percent + "%\n\n➩ "@;
            let count = sent + " of "@ + total + "\n\n➩ Speed : "@;
            let tail = speed + "\n\n➩ Time Left : "@ + eta;
            progress_message(name, total, bar, percent, sent, speed, eta) == head + (size + (share
                + (count + tail)))
        }),
{
}

/// Law: the status message of an upload gives the size of the file, the bytes that
/// have been sent and those that are sent in a second, each in whatever way it is
/// written, a bar of ten cells, the percentage and the time that is left.
pub proof fn law_progress_is_told(name: Seq<char>, progress: Progress, text: Seq<char>)
    requires
        tells_progress(name, progress, text),
    ensures
        exists|total: Seq<char>, sent: Seq<char>, speed: Seq<char>|
            {
                &&& #[trigger] is_file_size(progress.total, total)
                &&& #[trigger] is_file_size(progress.sent, sent)
                &&& #[trigger] is_file_size(progress.speed, speed)
                &&& text == progress_message(
                    name,
                    total,
                    bar(progress.filled as nat, 10),
                    progress.percent@,
                    sent,
                    speed + "/s"@,
                    duration(progress.eta as nat),
                )
            },
{
}

/// Law: where the file has fewer than 1024 bytes, and no more than that are sent in a
/// second, the status message counts the bytes.
pub proof fn law_progress_counts_bytes(name: Seq<char>, progress: Progress, text: Seq<char>)
    requires
        progress.total < 1024,
        progress.sent < 1024,
        progress.speed < 1024,
    ensures
        tells_progress(name, progress, text) <==> text == progress_message(
            name,
            decimal(progress.total as nat) + " B"@,
            bar(progress.filled as nat, 10),
            progress.percent@,
            decimal(progress.sent as nat) + " B"@,
            decimal(progress.speed as nat) + " B"@ + "/s"@,
            duration(progress.eta as nat),
        ),
{
    counts_bytes(progress.total);
    counts_bytes(progress.sent);
    counts_bytes(progress.speed);
}

proof fn counts_bytes(bytes: u64)
    requires
        bytes < 1024,
    ensures
        forall|text: Seq<char>| #[trigger]
            is_file_size(bytes, text) <==> text == decimal(bytes as nat) + " B"@,
        is_file_size(bytes, decimal(bytes as nat) + " B"@),
{
    assert forall|text: Seq<char>| #[trigger]
        is_file_size(bytes, text) <==> text == decimal(bytes as nat) + " B"@ by {
        law_file_size_form(bytes, text);
    }
    law_file_size_form(bytes, decimal(bytes as nat) + " B"@);
}

}
