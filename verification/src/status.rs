//! The host's status: what a report holds, and the text that reports it.
//!
//! The readings themselves come from the driver, which asks the host;
//! [`StatusRecord::from_readings`] makes a record of them.

use crate::text::bytes_of;
use crate::text::decimal;
use crate::text::lemma_decimal_on_one_line;
use crate::text::lemma_line_breaks_add;
use crate::text::lemma_no_line_breaks;
use crate::text::lemma_text_on_one_line;
use crate::text::line_breaks;
use crate::text::on_one_line;
use crate::text::push_decimal;
use crate::text::push_text;
use crate::text::LINE_BREAK;
use vstd::prelude::*;
use vstd::utf8::is_ascii_chars_encode_utf8;

verus! {

/// What a status report holds. Sizes are in kilobytes.
#[derive(Debug, Clone, PartialEq, Eq)]
pub struct StatusRecord {
    pub os_name: String,
    pub os_version: String,
    pub total_memory_kb: u64,
    pub used_memory_kb: u64,
    pub total_swap_kb: u64,
    pub used_swap_kb: u64,
}

/// A [`StatusRecord`] with its texts as sequences of characters.
pub struct StatusView {
    pub os_name: Seq<char>,
    pub os_version: Seq<char>,
    pub total_memory_kb: u64,
    pub used_memory_kb: u64,
    pub total_swap_kb: u64,
    pub used_swap_kb: u64,
}

impl View for StatusRecord {
    type V = StatusView;

    open spec fn view(&self) -> StatusView {
        StatusView {
            os_name: self.os_name@,
            os_version: self.os_version@,
            total_memory_kb: self.total_memory_kb,
            used_memory_kb: self.used_memory_kb,
            total_swap_kb: self.total_swap_kb,
            used_swap_kb: self.used_swap_kb,
        }
    }
}

/// The text of a reading that the host may not supply: `Unknown` stands in
/// for one that is missing.
pub open spec fn or_unknown(reading: Option<String>) -> Seq<char> {
    match reading {
        Some(text) => text@,
        None => "Unknown"@,
    }
}

/// A line that reports a text.
pub open spec fn text_line(label: Seq<char>, value: Seq<char>) -> Seq<u8> {
    bytes_of(label) + bytes_of(value) + bytes_of("\n"@)
}

/// A line that reports a size in kilobytes.
pub open spec fn size_line(label: Seq<char>, kilobytes: u64) -> Seq<u8> {
    bytes_of(label) + decimal(kilobytes as nat) + bytes_of(" kB\n"@)
}

/// The lines of a status report, in the order in which they are sent.
pub open spec fn status_lines(record: StatusView) -> Seq<Seq<u8>> {
    seq![
        text_line("Operating System Name: "@, record.os_name),
        text_line("Operating System Version: "@, record.os_version),
        size_line("Total Memory: "@, record.total_memory_kb),
        size_line("Used Memory: "@, record.used_memory_kb),
        size_line("Total Swap: "@, record.total_swap_kb),
        size_line("Used Swap: "@, record.used_swap_kb),
    ]
}

/// A status report as it goes over the wire: its lines, one after another.
pub open spec fn status_text(record: StatusView) -> Seq<u8> {
    let lines = status_lines(record);
    lines[0] + lines[1] + lines[2] + lines[3] + lines[4] + lines[5]
}

fn text_of(reading: Option<String>) -> (text: String)
    ensures
        text@ == or_unknown(reading),
{
    match reading {
        Some(text) => text,
        None => "Unknown".to_owned(),
    }
}

fn push_text_line(out: &mut Vec<u8>, label: &str, value: &str)
    ensures
        final(out)@ == old(out)@ + text_line(label@, value@),
{
    let ghost before = out@;
    push_text(out, label);
    push_text(out, value);
    push_text(out, "\n");
    assert(out@ == before + text_line(label@, value@));
}

fn push_size_line(out: &mut Vec<u8>, label: &str, kilobytes: u64)
    ensures
        final(out)@ == old(out)@ + size_line(label@, kilobytes),
{
    let ghost before = out@;
    push_text(out, label);
    push_decimal(out, kilobytes);
    push_text(out, " kB\n");
    assert(out@ == before + size_line(label@, kilobytes));
}

impl StatusRecord {
    /// Makes a record of what the host supplied. A name or a version that
    /// it could not supply reads `Unknown`.
    pub fn from_readings(
        os_name: Option<String>,
        os_version: Option<String>,
        total_memory_kb: u64,
        used_memory_kb: u64,
        total_swap_kb: u64,
        used_swap_kb: u64,
    ) -> (record: StatusRecord)
        ensures
            record@ == (StatusView {
                os_name: or_unknown(os_name),
                os_version: or_unknown(os_version),
                total_memory_kb,
                used_memory_kb,
                total_swap_kb,
                used_swap_kb,
            }),
    {
        StatusRecord {
            os_name: text_of(os_name),
            os_version: text_of(os_version),
            total_memory_kb,
            used_memory_kb,
            total_swap_kb,
            used_swap_kb,
        }
    }

    /// The report as it goes over the wire.
    pub fn render(&self) -> (text: Vec<u8>)
        ensures
            text@ == status_text(self@),
    {
        let mut out: Vec<u8> = Vec::new();
        push_text_line(&mut out, "Operating System Name: ", self.os_name.as_str());
        push_text_line(&mut out, "Operating System Version: ", self.os_version.as_str());
        push_size_line(&mut out, "Total Memory: ", self.total_memory_kb);
        push_size_line(&mut out, "Used Memory: ", self.used_memory_kb);
        push_size_line(&mut out, "Total Swap: ", self.total_swap_kb);
        push_size_line(&mut out, "Used Swap: ", self.used_swap_kb);
        assert(out@ == status_text(self@));
        out
    }
}

/// The bytes that end a line.
proof fn lemma_line_ends()
    ensures
        bytes_of("\n"@) == seq![LINE_BREAK],
        bytes_of(" kB\n"@) == seq![32u8, 107u8, 66u8, LINE_BREAK],
        line_breaks(bytes_of("\n"@)) == 1,
        line_breaks(bytes_of(" kB\n"@)) == 1,
{
    reveal_strlit("\n");
    reveal_strlit(" kB\n");
    is_ascii_chars_encode_utf8("\n"@);
    is_ascii_chars_encode_utf8(" kB\n"@);
    assert(bytes_of("\n"@) == seq![LINE_BREAK]);
    assert(bytes_of(" kB\n"@) == seq![32u8, 107u8, 66u8, LINE_BREAK]);
    let unit = seq![32u8, 107u8, 66u8];
    lemma_no_line_breaks(unit);
    assert(seq![32u8, 107u8, 66u8, LINE_BREAK].drop_last() == unit);
    lemma_no_line_breaks(Seq::<u8>::empty());
    assert(seq![LINE_BREAK].drop_last() == Seq::<u8>::empty());
}

/// None of the labels holds a line break.
proof fn lemma_labels_on_one_line()
    ensures
        on_one_line("Operating System Name: "@),
        on_one_line("Operating System Version: "@),
        on_one_line("Total Memory: "@),
        on_one_line("Used Memory: "@),
        on_one_line("Total Swap: "@),
        on_one_line("Used Swap: "@),
        on_one_line("Unknown"@),
{
    reveal_strlit("Operating System Name: ");
    reveal_strlit("Operating System Version: ");
    reveal_strlit("Total Memory: ");
    reveal_strlit("Used Memory: ");
    reveal_strlit("Total Swap: ");
    reveal_strlit("Used Swap: ");
    reveal_strlit("Unknown");
}

proof fn lemma_text_line(label: Seq<char>, value: Seq<char>)
    requires
        on_one_line(label),
    ensures
        text_line(label, value).len() > 0,
        text_line(label, value).last() == LINE_BREAK,
        on_one_line(value) ==> line_breaks(text_line(label, value)) == 1,
{
    lemma_line_ends();
    lemma_text_on_one_line(label);
    lemma_line_breaks_add(bytes_of(label), bytes_of(value));
    lemma_line_breaks_add(bytes_of(label) + bytes_of(value), bytes_of("\n"@));
    if on_one_line(value) {
        lemma_text_on_one_line(value);
    }
}

proof fn lemma_size_line(label: Seq<char>, kilobytes: u64)
    requires
        on_one_line(label),
    ensures
        size_line(label, kilobytes).len() > 0,
        size_line(label, kilobytes).last() == LINE_BREAK,
        line_breaks(size_line(label, kilobytes)) == 1,
{
    lemma_line_ends();
    lemma_text_on_one_line(label);
    lemma_decimal_on_one_line(kilobytes as nat);
    lemma_line_breaks_add(bytes_of(label), decimal(kilobytes as nat));
    lemma_line_breaks_add(bytes_of(label) + decimal(kilobytes as nat), bytes_of(" kB\n"@));
}

/// Whatever the host supplied, its report is made of six lines, and each
/// ends with a line break. Where neither the name nor the version holds a
/// line break of its own, the report holds six line breaks and no more.
pub proof fn law_report_has_six_lines(record: StatusView)
    ensures
        status_lines(record).len() == 6,
        forall|i: int|
            0 <= i < 6 ==> (#[trigger] status_lines(record)[i]).len() > 0 && status_lines(
                record,
            )[i].last() == LINE_BREAK,
        on_one_line(record.os_name) && on_one_line(record.os_version) ==> line_breaks(
            status_text(record),
        ) == 6,
{
    lemma_labels_on_one_line();
    let lines = status_lines(record);
    lemma_text_line("Operating System Name: "@, record.os_name);
    lemma_text_line("Operating System Version: "@, record.os_version);
    lemma_size_line("Total Memory: "@, record.total_memory_kb);
    lemma_size_line("Used Memory: "@, record.used_memory_kb);
    lemma_size_line("Total Swap: "@, record.total_swap_kb);
    lemma_size_line("Used Swap: "@, record.used_swap_kb);
    lemma_line_breaks_add(lines[0], lines[1]);
    lemma_line_breaks_add(lines[0] + lines[1], lines[2]);
    lemma_line_breaks_add(lines[0] + lines[1] + lines[2], lines[3]);
    lemma_line_breaks_add(lines[0] + lines[1] + lines[2] + lines[3], lines[4]);
    lemma_line_breaks_add(lines[0] + lines[1] + lines[2] + lines[3] + lines[4], lines[5]);
}

/// A host that supplies neither its name nor its version still gets a
/// report of six lines, on which both read `Unknown`.
pub proof fn law_report_of_unnamed_host(
    total_memory_kb: u64,
    used_memory_kb: u64,
    total_swap_kb: u64,
    used_swap_kb: u64,
)
    ensures
        ({
            let record = StatusView {
                os_name: or_unknown(None),
                os_version: or_unknown(None),
                total_memory_kb,
                used_memory_kb,
                total_swap_kb,
                used_swap_kb,
            };
            &&& status_lines(record)[0] == text_line("Operating System Name: "@, "Unknown"@)
            &&& status_lines(record)[1] == text_line("Operating System Version: "@, "Unknown"@)
            &&& line_breaks(status_text(record)) == 6
        }),
{
    lemma_labels_on_one_line();
    law_report_has_six_lines(
        StatusView {
            os_name: or_unknown(None),
            os_version: or_unknown(None),
            total_memory_kb,
            used_memory_kb,
            total_swap_kb,
            used_swap_kb,
        },
    );
}

} // verus!
