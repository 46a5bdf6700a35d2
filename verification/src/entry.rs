use vstd::prelude::*;
use vstd::string::*;
use crate::ansi::{decode, decode_ansi_color, segments_view};
use crate::chars::{decimal, hex_pair, push_decimal, push_hex_pair};
use crate::color::Color;
use crate::timestamp::Timestamp;

verus! {

/// One line of the history: when it happened, what to show and in which
/// colours. A background of `Color::Reset` means none.
#[derive(Debug)]
pub struct Entry {
    pub timestamp: Timestamp,
    pub text: String,
    pub foreground: Color,
    pub background: Color,
}

/// An entry as plain values.
pub struct EntryView {
    pub timestamp: Timestamp,
    pub text: Seq<char>,
    pub foreground: Color,
    pub background: Color,
}

impl View for Entry {
    type V = EntryView;

    open spec fn view(&self) -> EntryView {
        EntryView {
            timestamp: self.timestamp,
            text: self.text@,
            foreground: self.foreground,
            background: self.background,
        }
    }
}

/// What the device link and the user's commands report to the history.
#[derive(Debug)]
pub enum DataOut {
    /// Raw data that came in from the device.
    Data(Timestamp, String),
    /// Text that was sent.
    ConfirmData(Timestamp, String),
    /// A named command that was sent, with its text.
    ConfirmCommand(Timestamp, String, String),
    /// Bytes that were sent.
    ConfirmHexString(Timestamp, Vec<u8>),
    /// Text that could not be sent.
    FailData(Timestamp, String),
    /// A named command that could not be sent, with its text.
    FailCommand(Timestamp, String, String),
    /// Bytes that could not be sent.
    FailHexString(Timestamp, Vec<u8>),
}

/// The bytes in upper-case hexadecimal, two digits each.
pub open spec fn hex_upper(bytes: Seq<u8>) -> Seq<char>
    decreases bytes.len(),
{
    if bytes.len() == 0 {
        Seq::empty()
    } else {
        hex_upper(bytes.drop_last()) + hex_pair(bytes.last(), true)
    }
}

/// The bytes as decimal numbers with a comma and a space between them.
pub open spec fn decimal_items(bytes: Seq<u8>) -> Seq<char>
    decreases bytes.len(),
{
    if bytes.len() == 0 {
        Seq::empty()
    } else if bytes.len() == 1 {
        decimal(bytes[0] as nat)
    } else {
        decimal_items(bytes.drop_last()) + seq![',', ' '] + decimal(bytes.last() as nat)
    }
}

/// The bytes as a list in square brackets, such as `[10, 255]`.
pub open spec fn decimal_list(bytes: Seq<u8>) -> Seq<char> {
    seq!['['] + decimal_items(bytes) + seq![']']
}

/// The text of a command that was sent.
pub open spec fn command_text(name: Seq<char>, text: Seq<char>) -> Seq<char> {
    "</"@ + name + "> "@ + text
}

/// The text of bytes that were sent.
pub open spec fn hex_text(bytes: Seq<u8>) -> Seq<char> {
    "<$"@ + hex_upper(bytes) + "> "@ + decimal_list(bytes)
}

/// The text for a text that could not be sent.
pub open spec fn fail_text(text: Seq<char>) -> Seq<char> {
    "Cannot send \""@ + text + "\""@
}

/// The text for a command that could not be sent.
pub open spec fn fail_command_text(name: Seq<char>) -> Seq<char> {
    "Cannot send </"@ + name + ">"@
}

/// The text for bytes that could not be sent.
pub open spec fn fail_hex_text(bytes: Seq<u8>) -> Seq<char> {
    "Cannot send <$"@ + hex_upper(bytes) + ">"@
}

/// The entries of raw device data: one for each decoded segment, in the
/// segment's colour and without a background.
pub open spec fn data_entries(timestamp: Timestamp, segments: Seq<(Seq<char>, Color)>) -> Seq<
    EntryView,
> {
    segments.map_values(
        |seg: (Seq<char>, Color)|
            EntryView { timestamp, text: seg.0, foreground: seg.1, background: Color::Reset },
    )
}

/// The entries that an event adds to the history.
pub open spec fn entries_of(event: DataOut) -> Seq<EntryView> {
    match event {
        DataOut::Data(timestamp, text) => data_entries(timestamp, decode(text@)),
        DataOut::ConfirmData(timestamp, text) => seq![
            EntryView {
                timestamp,
                text: text@,
                foreground: Color::Black,
                background: Color::LightCyan,
            },
        ],
        DataOut::ConfirmCommand(timestamp, name, text) => seq![
            EntryView {
                timestamp,
                text: command_text(name@, text@),
                foreground: Color::Black,
                background: Color::LightGreen,
            },
        ],
        DataOut::ConfirmHexString(timestamp, bytes) => seq![
            EntryView {
                timestamp,
                text: hex_text(bytes@),
                foreground: Color::Black,
                background: Color::Yellow,
            },
        ],
        DataOut::FailData(timestamp, text) => seq![
            EntryView {
                timestamp,
                text: fail_text(text@),
                foreground: Color::White,
                background: Color::LightRed,
            },
        ],
        DataOut::FailCommand(timestamp, name, _text) => seq![
            EntryView {
                timestamp,
                text: fail_command_text(name@),
                foreground: Color::White,
                background: Color::LightRed,
            },
        ],
        DataOut::FailHexString(timestamp, bytes) => seq![
            EntryView {
                timestamp,
                text: fail_hex_text(bytes@),
                foreground: Color::White,
                background: Color::LightRed,
            },
        ],
    }
}

/// The timestamp that an event carries.
pub open spec fn timestamp_of(event: DataOut) -> Timestamp {
    match event {
        DataOut::Data(timestamp, _) => timestamp,
        DataOut::ConfirmData(timestamp, _) => timestamp,
        DataOut::ConfirmCommand(timestamp, _, _) => timestamp,
        DataOut::ConfirmHexString(timestamp, _) => timestamp,
        DataOut::FailData(timestamp, _) => timestamp,
        DataOut::FailCommand(timestamp, _, _) => timestamp,
        DataOut::FailHexString(timestamp, _) => timestamp,
    }
}

/// Every entry that an event adds carries the event's timestamp.
pub proof fn lemma_entries_carry_timestamp(event: DataOut)
    ensures
        forall|i: int|
            0 <= i < entries_of(event).len() ==> (#[trigger] entries_of(event)[i]).timestamp
                == timestamp_of(event),
{
    match event {
        DataOut::Data(timestamp, text) => {},
        DataOut::ConfirmData(timestamp, text) => {},
        DataOut::ConfirmCommand(timestamp, name, text) => {},
        DataOut::ConfirmHexString(timestamp, bytes) => {},
        DataOut::FailData(timestamp, text) => {},
        DataOut::FailCommand(timestamp, name, text) => {},
        DataOut::FailHexString(timestamp, bytes) => {},
    }
}

/// A list of entries as plain values.
pub open spec fn entries_view(v: Seq<Entry>) -> Seq<EntryView> {
    v.map_values(|e: Entry| e@)
}

/// Writes bytes in upper-case hexadecimal.
pub fn bytes_to_hex_string(bytes: &[u8]) -> (hex_string: String)
    ensures
        hex_string@ == hex_upper(bytes@),
{
    let mut hex_string = String::new();
    let mut i: usize = 0;
    while i < bytes.len()
        invariant
            i <= bytes@.len(),
            hex_string@ == hex_upper(bytes@.take(i as int)),
        decreases bytes@.len() - i,
    {
        push_hex_pair(&mut hex_string, bytes[i], true);
        assert(bytes@.take(i + 1).drop_last() =~= bytes@.take(i as int));
        i += 1;
    }
    assert(bytes@.take(bytes@.len() as int) =~= bytes@);
    hex_string
}

/// Writes bytes as a list of decimal numbers in square brackets.
pub fn bytes_to_decimal_list(bytes: &[u8]) -> (list: String)
    ensures
        list@ == decimal_list(bytes@),
{
    let mut items = String::new();
    let mut i: usize = 0;
    while i < bytes.len()
        invariant
            i <= bytes@.len(),
            items@ == decimal_items(bytes@.take(i as int)),
        decreases bytes@.len() - i,
    {
        if i > 0 {
            items.push(',');
            items.push(' ');
        }
        push_decimal(&mut items, bytes[i] as usize);
        assert(bytes@.take(i + 1).drop_last() =~= bytes@.take(i as int));
        assert(items@ =~= decimal_items(bytes@.take(i + 1)));
        i += 1;
    }
    assert(bytes@.take(bytes@.len() as int) =~= bytes@);
    let mut list = String::new();
    list.push('[');
    list.append(items.as_str());
    list.push(']');
    assert(list@ =~= decimal_list(bytes@));
    list
}

impl Entry {
    /// A copy of the entry.
    pub fn duplicate(&self) -> (e: Entry)
        ensures
            e@ == self@,
    {
        Entry {
            timestamp: self.timestamp,
            text: self.text.clone(),
            foreground: self.foreground,
            background: self.background,
        }
    }

    /// An entry for one segment of raw device data.
    pub fn if_data(timestamp: Timestamp, content: String, color: Color) -> (e: Entry)
        ensures
            e@ == (EntryView {
                timestamp,
                text: content@,
                foreground: color,
                background: Color::Reset,
            }),
    {
        Entry { timestamp, text: content, foreground: color, background: Color::Reset }
    }

    /// An entry for text that was sent.
    pub fn user_data(timestamp: Timestamp, content: String) -> (e: Entry)
        ensures
            seq![e@] == entries_of(DataOut::ConfirmData(timestamp, content)),
    {
        Entry {
            timestamp,
            text: content,
            foreground: Color::Black,
            background: Color::LightCyan,
        }
    }

    /// An entry for a named command that was sent.
    pub fn user_command(timestamp: Timestamp, cmd_name: String, content: String) -> (e: Entry)
        ensures
            seq![e@] == entries_of(DataOut::ConfirmCommand(timestamp, cmd_name, content)),
    {
        let mut text = String::from_str("</");
        text.append(cmd_name.as_str());
        text.append("> ");
        text.append(content.as_str());
        Entry { timestamp, text, foreground: Color::Black, background: Color::LightGreen }
    }

    /// An entry for bytes that were sent.
    pub fn user_hex_string(timestamp: Timestamp, bytes: Vec<u8>) -> (e: Entry)
        ensures
            seq![e@] == entries_of(DataOut::ConfirmHexString(timestamp, bytes)),
    {
        let mut text = String::from_str("<$");
        let hex = bytes_to_hex_string(bytes.as_slice());
        text.append(hex.as_str());
        text.append("> ");
        let list = bytes_to_decimal_list(bytes.as_slice());
        text.append(list.as_str());
        Entry { timestamp, text, foreground: Color::Black, background: Color::Yellow }
    }

    /// An entry for text that could not be sent.
    pub fn fail_data(timestamp: Timestamp, content: String) -> (e: Entry)
        ensures
            seq![e@] == entries_of(DataOut::FailData(timestamp, content)),
    {
        let mut text = String::from_str("Cannot send \"");
        text.append(content.as_str());
        text.append("\"");
        Entry { timestamp, text, foreground: Color::White, background: Color::LightRed }
    }

    /// An entry for a named command that could not be sent.
    pub fn fail_command(timestamp: Timestamp, cmd_name: String) -> (e: Entry)
        ensures
            e@ == (EntryView {
                timestamp,
                text: fail_command_text(cmd_name@),
                foreground: Color::White,
                background: Color::LightRed,
            }),
    {
        let mut text = String::from_str("Cannot send </");
        text.append(cmd_name.as_str());
        text.append(">");
        Entry { timestamp, text, foreground: Color::White, background: Color::LightRed }
    }

    /// An entry for bytes that could not be sent.
    pub fn fail_hex_string(timestamp: Timestamp, bytes: Vec<u8>) -> (e: Entry)
        ensures
            seq![e@] == entries_of(DataOut::FailHexString(timestamp, bytes)),
    {
        let mut text = String::from_str("Cannot send <$");
        let hex = bytes_to_hex_string(bytes.as_slice());
        text.append(hex.as_str());
        text.append(">");
        Entry { timestamp, text, foreground: Color::White, background: Color::LightRed }
    }
}

/// Turns an event into the entries that it adds to the history.
pub fn entries_for(event: DataOut) -> (entries: Vec<Entry>)
    ensures
        entries_view(entries@) == entries_of(event),
{
    let mut entries: Vec<Entry> = Vec::new();
    match event {
        DataOut::Data(timestamp, text) => {
            let contents = decode_ansi_color(text.as_str());
            let mut k: usize = 0;
            assert(entries_view(entries@) =~= data_entries(timestamp, decode(text@).take(0)));
            while k < contents.len()
                invariant
                    k <= contents@.len(),
                    segments_view(contents@) == decode(text@),
                    entries_view(entries@) == data_entries(
                        timestamp,
                        decode(text@).take(k as int),
                    ),
                decreases contents@.len() - k,
            {
                let content = contents[k].0.clone();
                let color = contents[k].1;
                let ghost before = entries_view(entries@);
                let entry = Entry::if_data(timestamp, content, color);
                let ghost added = entry@;
                entries.push(entry);
                assert(entries_view(entries@) =~= before.push(added));
                assert(segments_view(contents@)[k as int] == (contents@[k as int].0@, color));
                assert(decode(text@).take(k + 1) =~= decode(text@).take(k as int).push(
                    decode(text@)[k as int],
                ));
                assert(entries_view(entries@) =~= data_entries(
                    timestamp,
                    decode(text@).take(k + 1),
                ));
                k += 1;
            }
            assert(decode(text@).take(k as int) =~= decode(text@));
        },
        DataOut::ConfirmData(timestamp, text) => {
            entries.push(Entry::user_data(timestamp, text));
            assert(entries_view(entries@) =~= entries_of(event));
        },
        DataOut::ConfirmCommand(timestamp, name, text) => {
            entries.push(Entry::user_command(timestamp, name, text));
            assert(entries_view(entries@) =~= entries_of(event));
        },
        DataOut::ConfirmHexString(timestamp, bytes) => {
            entries.push(Entry::user_hex_string(timestamp, bytes));
            assert(entries_view(entries@) =~= entries_of(event));
        },
        DataOut::FailData(timestamp, text) => {
            entries.push(Entry::fail_data(timestamp, text));
            assert(entries_view(entries@) =~= entries_of(event));
        },
        DataOut::FailCommand(timestamp, name, _text) => {
            entries.push(Entry::fail_command(timestamp, name));
            assert(entries_view(entries@) =~= entries_of(event));
        },
        DataOut::FailHexString(timestamp, bytes) => {
            entries.push(Entry::fail_hex_string(timestamp, bytes));
            assert(entries_view(entries@) =~= entries_of(event));
        },
    }
    entries
}

} // verus!
