//! The closed set of intents that every input source produces, with the
//! one-line text form used by the pipe protocol, the web panel and tag bindings.
use vstd::prelude::*;

use crate::tag::{hex_bytes, is_hex_id, lemma_hex_round_trip, tag_of, TagId};
use crate::text::{
    chars_of, equal_upper, is_space, push_char, push_str, spells_upper, string_of, trim, trim_bounds,
    trim_end, trim_start, upper_code, word_end, word_len,
};

verus! {

#[derive(Debug, PartialEq, Eq)]
pub enum Command {
    Play { filter: Option<String> },
    PlayPause { filter: Option<String> },
    Shuffle { filter: Option<String> },
    Stop,
    Next,
    Prev,
    TrackDone,
    VolumeUp,
    VolumeDown,
    Shutdown,
    AssignTag { id: TagId, command: Option<String> },
    Tag { id: TagId },
}

/// A command with its texts seen as character sequences.
pub enum CommandView {
    Play { filter: Option<Seq<char>> },
    PlayPause { filter: Option<Seq<char>> },
    Shuffle { filter: Option<Seq<char>> },
    Stop,
    Next,
    Prev,
    TrackDone,
    VolumeUp,
    VolumeDown,
    Shutdown,
    AssignTag { id: TagId, command: Option<Seq<char>> },
    Tag { id: TagId },
}

/// The characters of an optional text.
pub open spec fn text_opt(o: Option<String>) -> Option<Seq<char>> {
    match o {
        Some(s) => Some(s@),
        None => None,
    }
}

impl View for Command {
    type V = CommandView;

    open spec fn view(&self) -> CommandView {
        match self {
            Command::Play { filter } => CommandView::Play { filter: text_opt(*filter) },
            Command::PlayPause { filter } => CommandView::PlayPause { filter: text_opt(*filter) },
            Command::Shuffle { filter } => CommandView::Shuffle { filter: text_opt(*filter) },
            Command::Stop => CommandView::Stop,
            Command::Next => CommandView::Next,
            Command::Prev => CommandView::Prev,
            Command::TrackDone => CommandView::TrackDone,
            Command::VolumeUp => CommandView::VolumeUp,
            Command::VolumeDown => CommandView::VolumeDown,
            Command::Shutdown => CommandView::Shutdown,
            Command::AssignTag { id, command } => CommandView::AssignTag {
                id: *id,
                command: text_opt(*command),
            },
            Command::Tag { id } => CommandView::Tag { id: *id },
        }
    }
}

/// The view of an optional command.
pub open spec fn command_opt(o: Option<Command>) -> Option<CommandView> {
    match o {
        Some(c) => Some(c@),
        None => None,
    }
}

/// The verb that names a command.
pub open spec fn name_of(c: CommandView) -> Seq<char> {
    match c {
        CommandView::Play { .. } => "PLAY"@,
        CommandView::PlayPause { .. } => "PLAYPAUSE"@,
        CommandView::Shuffle { .. } => "SHUFFLE"@,
        CommandView::Stop => "STOP"@,
        CommandView::Next => "NEXT"@,
        CommandView::Prev => "PREV"@,
        CommandView::TrackDone => "TRACKDONE"@,
        CommandView::VolumeUp => "VOLUMEUP"@,
        CommandView::VolumeDown => "VOLUMEDOWN"@,
        CommandView::Shutdown => "SHUTDOWN"@,
        CommandView::AssignTag { .. } => "ASSIGN_TAG"@,
        CommandView::Tag { .. } => "TAG"@,
    }
}

/// The filter that a command carries, if it is one of the three that take one.
pub open spec fn filter_of(c: CommandView) -> Option<Seq<char>> {
    match c {
        CommandView::Play { filter } => filter,
        CommandView::PlayPause { filter } => filter,
        CommandView::Shuffle { filter } => filter,
        _ => None,
    }
}

/// `name`, then a space and the filter if there is one.
pub open spec fn with_filter(name: Seq<char>, filter: Option<Seq<char>>) -> Seq<char> {
    match filter {
        Some(f) => name + seq![' '] + f,
        None => name,
    }
}

/// The text form of a command.
pub open spec fn format_spec(c: CommandView) -> Seq<char> {
    match c {
        CommandView::Play { filter } => with_filter(name_of(c), filter),
        CommandView::PlayPause { filter } => with_filter(name_of(c), filter),
        CommandView::Shuffle { filter } => with_filter(name_of(c), filter),
        CommandView::AssignTag { id, .. } => name_of(c) + seq![' '] + id.hex(),
        CommandView::Tag { id } => name_of(c) + seq![' '] + id.hex(),
        _ => name_of(c),
    }
}

/// What follows the first word of `t`, trimmed; nothing if that is empty.
pub open spec fn filter_part(t: Seq<char>) -> Option<Seq<char>> {
    let k = word_len(t) as int;
    if k < t.len() {
        let f = trim(t.subrange(k + 1, t.len() as int));
        if f.len() == 0 {
            None
        } else {
            Some(f)
        }
    } else {
        None
    }
}

/// The command that a line of text stands for: its first word, in any case, is the
/// verb; the rest, trimmed, is the filter of the three verbs that take one, or the
/// hex text of the tag after `TAG`.
pub open spec fn parse_spec(s: Seq<char>) -> Option<CommandView> {
    let t = trim(s);
    let verb = t.subrange(0, word_len(t) as int);
    let filter = filter_part(t);
    if equal_upper(verb, "PLAY"@) {
        Some(CommandView::Play { filter })
    } else if equal_upper(verb, "PLAYPAUSE"@) {
        Some(CommandView::PlayPause { filter })
    } else if equal_upper(verb, "SHUFFLE"@) {
        Some(CommandView::Shuffle { filter })
    } else if equal_upper(verb, "STOP"@) {
        Some(CommandView::Stop)
    } else if equal_upper(verb, "NEXT"@) {
        Some(CommandView::Next)
    } else if equal_upper(verb, "PREV"@) || equal_upper(verb, "PREVIOUS"@) {
        Some(CommandView::Prev)
    } else if equal_upper(verb, "SHUTDOWN"@) {
        Some(CommandView::Shutdown)
    } else if equal_upper(verb, "VOLUMEUP"@) {
        Some(CommandView::VolumeUp)
    } else if equal_upper(verb, "VOLUMEDOWN"@) {
        Some(CommandView::VolumeDown)
    } else if equal_upper(verb, "TRACKDONE"@) {
        Some(CommandView::TrackDone)
    } else if equal_upper(verb, "TAG"@) {
        match filter {
            Some(f) => if is_hex_id(trim(f)) {
                Some(CommandView::Tag { id: tag_of(hex_bytes(trim(f))) })
            } else {
                None
            },
            None => None,
        }
    } else {
        None
    }
}

/// Reads a command from one line of text.
pub fn parse_command(input: &str) -> (r: Option<Command>)
    ensures
        command_opt(r) == parse_spec(input@),
{
    let v = chars_of(input);
    let (lo, hi) = trim_bounds(&v, 0, v.len());
    assert(v@.subrange(0, v.len() as int) =~= input@);
    let k = word_end(&v, lo, hi);
    let ghost t = v@.subrange(lo as int, hi as int);
    assert(t.subrange(0, k - lo) =~= v@.subrange(lo as int, k as int));
    let filter: Option<String> = if k < hi {
        let (a, b) = trim_bounds(&v, k + 1, hi);
        assert(t.subrange(k - lo + 1, t.len() as int) =~= v@.subrange(k + 1, hi as int));
        if a < b {
            Some(string_of(&v, a, b))
        } else {
            None
        }
    } else {
        None
    };
    assert(text_opt(filter) == filter_part(t));
    if spells_upper(&v, lo, k, "PLAY") {
        Some(Command::Play { filter })
    } else if spells_upper(&v, lo, k, "PLAYPAUSE") {
        Some(Command::PlayPause { filter })
    } else if spells_upper(&v, lo, k, "SHUFFLE") {
        Some(Command::Shuffle { filter })
    } else if spells_upper(&v, lo, k, "STOP") {
        Some(Command::Stop)
    } else if spells_upper(&v, lo, k, "NEXT") {
        Some(Command::Next)
    } else if spells_upper(&v, lo, k, "PREV") || spells_upper(&v, lo, k, "PREVIOUS") {
        Some(Command::Prev)
    } else if spells_upper(&v, lo, k, "SHUTDOWN") {
        Some(Command::Shutdown)
    } else if spells_upper(&v, lo, k, "VOLUMEUP") {
        Some(Command::VolumeUp)
    } else if spells_upper(&v, lo, k, "VOLUMEDOWN") {
        Some(Command::VolumeDown)
    } else if spells_upper(&v, lo, k, "TRACKDONE") {
        Some(Command::TrackDone)
    } else if spells_upper(&v, lo, k, "TAG") {
        match filter {
            Some(f) => match TagId::from_hex_str(f.as_str()) {
                Ok(id) => {
                    let ghost c = tag_of(id.bytes@);
                    assert(c.bytes =~= id.bytes);
                    Some(Command::Tag { id })
                },
                Err(_) => None,
            },
            None => None,
        }
    } else {
        None
    }
}

/// Appends `name` to `out`, then a space and the filter if there is one.
pub fn write_name_with_filter(out: &mut String, name: &str, filter: &Option<String>)
    ensures
        final(out)@ == old(out)@ + with_filter(name@, text_opt(*filter)),
{
    push_str(out, name);
    match filter {
        Some(f) => {
            push_char(out, ' ');
            push_str(out, f.as_str());
            assert(final(out)@ =~= old(out)@ + (name@ + seq![' '] + f@));
        },
        None => {},
    }
}

impl Command {
    pub fn has_filter(&self) -> (r: bool)
        ensures
            r == (self is Play || self is PlayPause || self is Shuffle),
    {
        match self {
            Command::Play { .. } | Command::PlayPause { .. } | Command::Shuffle { .. } => true,
            _ => false,
        }
    }

    pub fn name(&self) -> (r: &'static str)
        ensures
            r@ == name_of(self@),
    {
        match self {
            Command::Play { .. } => "PLAY",
            Command::PlayPause { .. } => "PLAYPAUSE",
            Command::Shuffle { .. } => "SHUFFLE",
            Command::Stop => "STOP",
            Command::Next => "NEXT",
            Command::Prev => "PREV",
            Command::TrackDone => "TRACKDONE",
            Command::VolumeUp => "VOLUMEUP",
            Command::VolumeDown => "VOLUMEDOWN",
            Command::Shutdown => "SHUTDOWN",
            Command::AssignTag { .. } => "ASSIGN_TAG",
            Command::Tag { .. } => "TAG",
        }
    }

    /// The text form of this command.
    pub fn to_string(&self) -> (r: String)
        ensures
            r@ == format_spec(self@),
    {
        let mut out = String::new();
        match self {
            Command::Play { filter } | Command::PlayPause { filter } | Command::Shuffle {
                filter,
            } => {
                write_name_with_filter(&mut out, self.name(), filter);
            },
            Command::AssignTag { id, .. } | Command::Tag { id } => {
                push_str(&mut out, self.name());
                push_char(&mut out, ' ');
                let hex = id.to_string();
                push_str(&mut out, hex.as_str());
            },
            _ => {
                push_str(&mut out, self.name());
            },
        }
        out
    }

    /// A copy of this command.
    pub fn duplicate(&self) -> (r: Command)
        ensures
            r@ == self@,
    {
        match self {
            Command::Play { filter } => Command::Play { filter: copy_text(filter) },
            Command::PlayPause { filter } => Command::PlayPause { filter: copy_text(filter) },
            Command::Shuffle { filter } => Command::Shuffle { filter: copy_text(filter) },
            Command::Stop => Command::Stop,
            Command::Next => Command::Next,
            Command::Prev => Command::Prev,
            Command::TrackDone => Command::TrackDone,
            Command::VolumeUp => Command::VolumeUp,
            Command::VolumeDown => Command::VolumeDown,
            Command::Shutdown => Command::Shutdown,
            Command::AssignTag { id, command } => Command::AssignTag {
                id: *id,
                command: copy_text(command),
            },
            Command::Tag { id } => Command::Tag { id: *id },
        }
    }
}

/// A copy of an optional text.
pub fn copy_text(o: &Option<String>) -> (r: Option<String>)
    ensures
        text_opt(r) == text_opt(*o),
{
    match o {
        Some(s) => Some(s.clone()),
        None => None,
    }
}

impl std::str::FromStr for Command {
    type Err = String;

    fn from_str(s: &str) -> Result<Command, String> {
        match parse_command(s) {
            Some(c) => Ok(c),
            None => {
                let mut msg = "Invalid command '".to_owned();
                push_str(&mut msg, s);
                push_str(&mut msg, "'");
                Err(msg)
            },
        }
    }
}


proof fn lemma_trim_start_shrinks(s: Seq<char>)
    ensures
        trim_start(s).len() <= s.len(),
        s.len() > 0 && is_space(s[0]) ==> trim_start(s).len() < s.len(),
    decreases s.len(),
{
    if s.len() > 0 && is_space(s[0]) {
        lemma_trim_start_shrinks(s.drop_first());
    }
}

proof fn lemma_trim_end_shrinks(s: Seq<char>)
    ensures
        trim_end(s).len() <= s.len(),
        s.len() > 0 && is_space(s.last()) ==> trim_end(s).len() < s.len(),
    decreases s.len(),
{
    if s.len() > 0 && is_space(s.last()) {
        lemma_trim_end_shrinks(s.drop_last());
    }
}

/// A non-empty trimmed text neither starts nor ends with white space.
proof fn lemma_trimmed_ends(f: Seq<char>)
    requires
        f.len() > 0,
        trim(f) == f,
    ensures
        !is_space(f[0]),
        !is_space(f.last()),
{
    lemma_trim_start_shrinks(f);
    lemma_trim_end_shrinks(trim_start(f));
    if !is_space(f[0]) {
        assert(trim_start(f) == f);
        lemma_trim_end_shrinks(f);
    }
}

/// The first word of `a + b` is `a` when `a` has no white space and `b` starts with some.
proof fn lemma_word_prefix(a: Seq<char>, b: Seq<char>)
    requires
        forall|i: int| 0 <= i < a.len() ==> !is_space(#[trigger] a[i]),
        b.len() == 0 || is_space(b[0]),
    ensures
        word_len(a + b) == a.len(),
    decreases a.len(),
{
    if a.len() == 0 {
        assert(a + b =~= b);
    } else {
        assert((a + b).drop_first() =~= a.drop_first() + b);
        lemma_word_prefix(a.drop_first(), b);
    }
}

/// A verb followed by a well-formed filter reads back as that verb and filter.
proof fn lemma_verb_and_filter(name: Seq<char>, filter: Option<Seq<char>>)
    requires
        name.len() > 0,
        forall|i: int| 0 <= i < name.len() ==> !is_space(#[trigger] name[i]),
        filter matches Some(f) ==> f.len() > 0 && trim(f) == f,
    ensures
        trim(with_filter(name, filter)) == with_filter(name, filter),
        word_len(with_filter(name, filter)) == name.len(),
        filter_part(with_filter(name, filter)) == filter,
{
    let t = with_filter(name, filter);
    assert(t[0] == name[0]);
    assert(trim_start(t) == t);
    match filter {
        Some(f) => {
            lemma_trimmed_ends(f);
            assert(t.last() == f.last());
            assert(trim_end(t) == t);
            assert(t =~= name + (seq![' '] + f));
            lemma_word_prefix(name, seq![' '] + f);
            assert(t.subrange(name.len() as int + 1, t.len() as int) =~= f);
        },
        None => {
            assert(t.last() == name.last());
            assert(trim_end(t) == t);
            lemma_word_prefix(name, Seq::empty());
            assert(name + Seq::<char>::empty() =~= name);
        },
    }
}

/// Reading back the text of a command gives the command again, for every command but
/// `AssignTag`, whose text leaves out the binding, and with a filter that is non-empty
/// and has no white space at either end (reading trims it, and drops it when empty).
pub proof fn lemma_parse_format_round_trip(cmd: Command)
    requires
        !(cmd is AssignTag),
        filter_of(cmd@) matches Some(f) ==> f.len() > 0 && trim(f) == f,
    ensures
        parse_spec(format_spec(cmd@)) == Some(cmd@),
{
    reveal_strlit("PLAY");
    reveal_strlit("PLAYPAUSE");
    reveal_strlit("SHUFFLE");
    reveal_strlit("STOP");
    reveal_strlit("NEXT");
    reveal_strlit("PREV");
    reveal_strlit("PREVIOUS");
    reveal_strlit("SHUTDOWN");
    reveal_strlit("VOLUMEUP");
    reveal_strlit("VOLUMEDOWN");
    reveal_strlit("TRACKDONE");
    reveal_strlit("TAG");
    let c = cmd@;
    let name = name_of(c);
    let filter = match c {
        CommandView::Tag { id } => Some(id.hex()),
        _ => filter_of(c),
    };
    if let CommandView::Tag { id } = c {
        lemma_hex_round_trip(id);
        assert(id.hex().len() == 8);
    }
    assert forall|i: int| 0 <= i < name.len() implies !is_space(#[trigger] name[i])
        && upper_code(name[i]) == name[i] as u32 by {}
    lemma_verb_and_filter(name, filter);
    let t = with_filter(name, filter);
    assert(format_spec(c) == t);
    assert(t.subrange(0, name.len() as int) =~= name);
    let verb = trim(t).subrange(0, word_len(trim(t)) as int);
    assert(verb == name);
    assert(equal_upper(name, name));
    assert(upper_code("PLAY"@[0]) == 'P' as u32);
    assert(upper_code("PLAY"@[1]) == 'L' as u32);
    assert(upper_code("SHUFFLE"@[0]) == 'S' as u32);
    assert(upper_code("STOP"@[0]) == 'S' as u32);
    assert(upper_code("NEXT"@[0]) == 'N' as u32);
    assert(upper_code("PREV"@[1]) == 'R' as u32);
    assert(upper_code("PREVIOUS"@[0]) == 'P' as u32);
    assert(upper_code("SHUTDOWN"@[0]) == 'S' as u32);
    assert(upper_code("VOLUMEUP"@[0]) == 'V' as u32);
    assert(upper_code("VOLUMEDOWN"@[0]) == 'V' as u32);
    assert(upper_code("TRACKDONE"@[0]) == 'T' as u32);
    assert(upper_code("PLAYPAUSE"@[0]) == 'P' as u32);
    assert(upper_code("TAG"@[0]) == 'T' as u32);
}

} // verus!
