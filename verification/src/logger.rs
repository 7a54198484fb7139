//! The database logger: which events it records, how field names are
//! stored, and how a recorded event is laid out when printed.

use vstd::prelude::*;

use crate::cli::{level_name, text, LogLevel};
use crate::kernel::{has_prefix, starts_with};
use crate::text::push_str;

verus! {

/// The verbosity rank of a level: error is the least verbose.
pub open spec fn level_rank(l: LogLevel) -> int {
    match l {
        LogLevel::Error => 1,
        LogLevel::Warn => 2,
        LogLevel::Info => 3,
        LogLevel::Debug => 4,
        LogLevel::Trace => 5,
    }
}

fn rank(l: LogLevel) -> (r: u8)
    ensures
        r == level_rank(l),
{
    match l {
        LogLevel::Error => 1,
        LogLevel::Warn => 2,
        LogLevel::Info => 3,
        LogLevel::Debug => 4,
        LogLevel::Trace => 5,
    }
}

/// Whether an event at `level` is recorded by a logger whose maximum level
/// is `max`: it is when it is no more verbose.
pub fn level_enabled(level: LogLevel, max: LogLevel) -> (r: bool)
    ensures
        r == (level_rank(level) <= level_rank(max)),
{
    rank(level) <= rank(max)
}

/// The key a field named `name` is stored under: a raw identifier loses its
/// `r#` prefix.
pub open spec fn field_key(name: Seq<char>) -> Seq<char> {
    if has_prefix(name, "r#"@) {
        name.subrange(2, name.len() as int)
    } else {
        name
    }
}

/// The key a field named `name` is stored under.
pub fn field_key_of(name: &str) -> (k: String)
    ensures
        k@ == field_key(name@),
{
    if starts_with(name, "r#") {
        proof {
            reveal_strlit("r#");
        }
        let c = crate::text::str_chars(name);
        let mut k = String::new();
        let mut i: usize = 2;
        while i < c.len()
            invariant
                c@ == name@,
                2 <= i <= c@.len(),
                k@ == c@.subrange(2, i as int),
            decreases c@.len() - i,
        {
            crate::text::push_char(&mut k, c[i]);
            assert(k@ =~= c@.subrange(2, i + 1));
            i = i + 1;
        }
        k
    } else {
        text(name)
    }
}

/// What a database logger is made with.
#[derive(Clone, Copy, Debug, PartialEq, Eq, Structural)]
pub struct SubscriberSettings {
    /// Most verbose level recorded
    pub max_level: LogLevel,
    /// Device the recorded events belong to
    pub device_id: u128,
}

/// Builds the settings of a database logger.
#[derive(Clone, Copy, Debug)]
pub struct SqliteSubscriberBuilder {
    max_level: LogLevel,
    device_id: Option<u128>,
}

impl SqliteSubscriberBuilder {
    /// The most verbose level to record.
    pub closed spec fn spec_max_level(&self) -> LogLevel {
        self.max_level
    }

    /// The device, once set.
    pub closed spec fn spec_device_id(&self) -> Option<u128> {
        self.device_id
    }

    /// A builder recording errors only, with no device.
    pub fn new() -> (b: Self)
        ensures
            b.spec_max_level() == LogLevel::Error,
            b.spec_device_id() is None,
    {
        SqliteSubscriberBuilder { max_level: LogLevel::Error, device_id: None }
    }

    /// Sets the max level to record
    pub fn with_max_level(self, level: LogLevel) -> (b: Self)
        ensures
            b.spec_max_level() == level,
            b.spec_device_id() == self.spec_device_id(),
    {
        SqliteSubscriberBuilder { max_level: level, device_id: self.device_id }
    }

    /// Sets the device id associated with this logger
    pub fn with_device_id(self, id: u128) -> (b: Self)
        ensures
            b.spec_max_level() == self.spec_max_level(),
            b.spec_device_id() == Some(id),
    {
        SqliteSubscriberBuilder { max_level: self.max_level, device_id: Some(id) }
    }

    /// Finishes building: the device id is required.
    pub fn finish(self) -> (r: Result<SubscriberSettings, String>)
        ensures
            match self.spec_device_id() {
                Some(id) => r == Ok::<SubscriberSettings, String>(
                    SubscriberSettings { max_level: self.spec_max_level(), device_id: id },
                ),
                None => r matches Err(e) && e@ == "missing device id"@,
            },
    {
        match self.device_id {
            Some(id) => Ok(SubscriberSettings { max_level: self.max_level, device_id: id }),
            None => Err(text("missing device id")),
        }
    }
}

/// The texts of the fields of an event other than `message`, each as
/// `key = value`.
pub open spec fn field_lines(fields: Seq<(Seq<char>, Seq<char>)>) -> Seq<Seq<char>>
    decreases fields.len(),
{
    if fields.len() == 0 {
        Seq::empty()
    } else if fields.last().0 == "message"@ {
        field_lines(fields.drop_last())
    } else {
        field_lines(fields.drop_last()).push(
            "\u{251c} "@ + fields.last().0 + " = "@ + fields.last().1,
        )
    }
}

/// The lines printing a recorded event (without colours): its message (or
/// `<no log message>`), its other fields in order, its level, its target,
/// its time, and a blank line.
pub open spec fn event_lines(
    message: Option<Seq<char>>,
    fields: Seq<(Seq<char>, Seq<char>)>,
    level: LogLevel,
    target: Seq<char>,
    time: Seq<char>,
) -> Seq<Seq<char>> {
    seq![
        match message {
            Some(m) => m,
            None => "<no log message>"@,
        },
    ] + field_lines(fields) + seq![
        "\u{251c} level = "@ + level_name(level),
        "\u{251c} target = "@ + target,
        "\u{2514} datetime = "@ + time,
        ""@,
    ]
}

/// The key and the value of each field, as text.
pub open spec fn field_texts(fields: Seq<(String, String)>) -> Seq<(Seq<char>, Seq<char>)> {
    fields.map_values(|f: (String, String)| (f.0@, f.1@))
}

/// The lines printing a recorded event: `fields` are its fields in key
/// order with their values rendered, `time` its rendered timestamp.
pub fn event_lines_of(
    message: Option<&str>,
    fields: &[(String, String)],
    level: LogLevel,
    target: &str,
    time: &str,
) -> (lines: Vec<String>)
    ensures
        lines@.map_values(|l: String| l@) == event_lines(
            match message {
                Some(m) => Some(m@),
                None => None,
            },
            field_texts(fields@),
            level,
            target@,
            time@,
        ),
{
    let mut lines: Vec<String> = Vec::new();
    match message {
        Some(m) => lines.push(text(m)),
        None => lines.push(text("<no log message>")),
    }
    let mut i: usize = 0;
    while i < fields.len()
        invariant
            i <= fields@.len(),
            lines@.len() >= 1,
            lines@.map_values(|l: String| l@) == seq![
                match message {
                    Some(m) => m@,
                    None => "<no log message>"@,
                },
            ] + field_lines(field_texts(fields@).subrange(0, i as int)),
        decreases fields@.len() - i,
    {
        let ghost before = lines@.map_values(|l: String| l@);
        let ghost pre = field_texts(fields@).subrange(0, i as int);
        assert(field_texts(fields@).subrange(0, i + 1).drop_last() =~= pre);
        let (k, v) = &fields[i];
        if !crate::cli::str_eq(k.as_str(), "message") {
            let mut l = text("\u{251c} ");
            push_str(&mut l, k.as_str());
            push_str(&mut l, " = ");
            push_str(&mut l, v.as_str());
            lines.push(l);
            assert(lines@.map_values(|l: String| l@) =~= before.push(l@));
        } else {
            assert(lines@.map_values(|l: String| l@) =~= before);
        }
        i = i + 1;
    }
    let ghost body = lines@.map_values(|l: String| l@);
    let mut l1 = text("\u{251c} level = ");
    let name = level.to_string();
    push_str(&mut l1, name.as_str());
    lines.push(l1);
    let mut l2 = text("\u{251c} target = ");
    push_str(&mut l2, target);
    lines.push(l2);
    let mut l3 = text("\u{2514} datetime = ");
    push_str(&mut l3, time);
    lines.push(l3);
    lines.push(text(""));
    assert(field_texts(fields@).subrange(0, fields@.len() as int) =~= field_texts(fields@));
    assert(lines@.map_values(|l: String| l@) =~= event_lines(
        match message {
            Some(m) => Some(m@),
            None => None,
        },
        field_texts(fields@),
        level,
        target@,
        time@,
    ));
    lines
}

} // verus!
