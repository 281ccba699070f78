//! What the web control panel computes before it renders a page or sends a command:
//! escaping, upload destinations, and the command choices of the tag editor.
use vstd::prelude::*;

use crate::command::{copy_text, filter_of, name_of, text_opt, Command, CommandView};
use crate::text::{chars_of, push_char, push_str, string_of, trim, trim_bounds};

verus! {

/// The HTML text of one character: the five characters with a meaning in HTML
/// become entities.
pub open spec fn html_char(c: char) -> Seq<char> {
    if c == '&' {
        seq!['&', 'a', 'm', 'p', ';']
    } else if c == '<' {
        seq!['&', 'l', 't', ';']
    } else if c == '>' {
        seq!['&', 'g', 't', ';']
    } else if c == '"' {
        seq!['&', 'q', 'u', 'o', 't', ';']
    } else if c == '\'' {
        seq!['&', '#', '3', '9', ';']
    } else {
        seq![c]
    }
}

/// `s` as HTML text.
pub open spec fn html_text(s: Seq<char>) -> Seq<char>
    decreases s.len(),
{
    if s.len() == 0 {
        Seq::empty()
    } else {
        html_text(s.drop_last()) + html_char(s.last())
    }
}

/// Escapes `&`, `<`, `>`, `"` and `'` for use in HTML.
pub fn escape_html(input: &str) -> (r: String)
    ensures
        r@ == html_text(input@),
{
    let v = chars_of(input);
    let mut out = String::new();
    let mut i: usize = 0;
    assert(v@.subrange(0, 0) =~= Seq::<char>::empty());
    while i < v.len()
        invariant
            v@ == input@,
            i <= v.len(),
            out@ == html_text(v@.subrange(0, i as int)),
        decreases v.len() - i,
    {
        let c = v[i];
        if c == '&' {
            push_str(&mut out, "&amp;");
            proof { reveal_strlit("&amp;"); }
        } else if c == '<' {
            push_str(&mut out, "&lt;");
            proof { reveal_strlit("&lt;"); }
        } else if c == '>' {
            push_str(&mut out, "&gt;");
            proof { reveal_strlit("&gt;"); }
        } else if c == '"' {
            push_str(&mut out, "&quot;");
            proof { reveal_strlit("&quot;"); }
        } else if c == '\'' {
            push_str(&mut out, "&#39;");
            proof { reveal_strlit("&#39;"); }
        } else {
            push_char(&mut out, c);
        }
        assert(v@.subrange(0, i + 1).drop_last() =~= v@.subrange(0, i as int));
        i = i + 1;
        assert(out@ =~= html_text(v@.subrange(0, i as int)));
    }
    assert(v@.subrange(0, v.len() as int) =~= input@);
    out
}

/// The first of `directories` that is `selected`.
pub fn resolve_target_dir(directories: &Vec<String>, selected: Option<&str>) -> (r: Option<String>)
    ensures
        selected is None ==> r is None,
        selected matches Some(s) ==> match r {
            Some(d) => exists|i: int|
                0 <= i < directories@.len() && directories@[i] == d && d@ == s@ && forall|j: int|
                    0 <= j < i ==> (#[trigger] directories@[j])@ != s@,
            None => forall|j: int| 0 <= j < directories@.len() ==> (#[trigger] directories@[j])@ != s@,
        },
{
    let s = match selected {
        Some(s) => s.to_owned(),
        None => {
            return None;
        },
    };
    let mut i: usize = 0;
    while i < directories.len()
        invariant
            i <= directories@.len(),
            selected is Some,
            s@ == selected->0@,
            forall|j: int| 0 <= j < i ==> (#[trigger] directories@[j])@ != s@,
        decreases directories.len() - i,
    {
        if directories[i] == s {
            return Some(directories[i].clone());
        }
        i = i + 1;
    }
    None
}

/// The filter of a command that takes one.
pub fn command_filter(command: &Command) -> (r: Option<String>)
    ensures
        text_opt(r) == filter_of(command@),
{
    match command {
        Command::Play { filter } | Command::PlayPause { filter } | Command::Shuffle { filter } =>
            copy_text(filter),
        _ => None,
    }
}

/// Whether a verb is one of the three that take a filter.
pub fn command_requires_filter(name: &str) -> (r: bool)
    ensures
        r == (name@ == "PLAY"@ || name@ == "PLAYPAUSE"@ || name@ == "SHUFFLE"@),
{
    let n = name.to_owned();
    n == "PLAY".to_owned() || n == "PLAYPAUSE".to_owned() || n == "SHUFFLE".to_owned()
}

/// One choice in the tag editor's list of commands.
pub struct CommandOption {
    pub value: String,
    pub label: String,
    pub requires_filter: bool,
    pub selected: bool,
}

/// The commands that a tag can be bound to from the editor, in the order offered.
pub open spec fn offered() -> Seq<CommandView> {
    seq![
        CommandView::Play { filter: None },
        CommandView::PlayPause { filter: None },
        CommandView::Shuffle { filter: None },
        CommandView::Stop,
        CommandView::Next,
        CommandView::Prev,
        CommandView::VolumeUp,
        CommandView::VolumeDown,
        CommandView::Shutdown,
    ]
}

/// The editor's choices, with `selected_command` marked.
pub fn command_options(selected_command: &str) -> (r: Vec<CommandOption>)
    ensures
        r@.len() == offered().len(),
        forall|i: int|
            0 <= i < r@.len() ==> {
                let o = #[trigger] r@[i];
                &&& o.value@ == name_of(offered()[i])
                &&& o.label@ == name_of(offered()[i])
                &&& o.requires_filter == (offered()[i] is Play || offered()[i] is PlayPause
                    || offered()[i] is Shuffle)
                &&& o.selected == (name_of(offered()[i]) == selected_command@)
            },
{
    let commands = vec![
        Command::Play { filter: None },
        Command::PlayPause { filter: None },
        Command::Shuffle { filter: None },
        Command::Stop,
        Command::Next,
        Command::Prev,
        Command::VolumeUp,
        Command::VolumeDown,
        Command::Shutdown,
    ];
    assert(commands@.map_values(|c: Command| c@) =~= offered());
    let selected = selected_command.to_owned();
    let mut out: Vec<CommandOption> = Vec::new();
    let mut i: usize = 0;
    while i < commands.len()
        invariant
            commands@.map_values(|c: Command| c@) == offered(),
            commands@.len() == offered().len(),
            selected@ == selected_command@,
            i <= commands@.len(),
            out@.len() == i,
            forall|k: int|
                0 <= k < i ==> {
                    let o = #[trigger] out@[k];
                    &&& o.value@ == name_of(offered()[k])
                    &&& o.label@ == name_of(offered()[k])
                    &&& o.requires_filter == (offered()[k] is Play || offered()[k] is PlayPause
                        || offered()[k] is Shuffle)
                    &&& o.selected == (name_of(offered()[k]) == selected_command@)
                },
        decreases commands.len() - i,
    {
        let command = &commands[i];
        assert(command@ == offered()[i as int]);
        let name = command.name().to_owned();
        let is_selected = name == selected;
        out.push(
            CommandOption {
                requires_filter: command.has_filter(),
                selected: is_selected,
                label: name.clone(),
                value: name,
            },
        );
        i = i + 1;
    }
    out
}

/// `c` upper-cased in ASCII, as `char::to_ascii_uppercase` gives it.
pub open spec fn upper_char(c: char) -> char {
    if 0x61 <= (c as u32) <= 0x7A {
        ((((c as u32) - 0x20) as u8) as char)
    } else {
        c
    }
}

/// `s` upper-cased in ASCII.
pub open spec fn upper_text(s: Seq<char>) -> Seq<char> {
    s.map_values(|c: char| upper_char(c))
}

/// The characters of `v[lo..hi]`, upper-cased in ASCII.
fn upper_string(v: &Vec<char>, lo: usize, hi: usize) -> (r: String)
    requires
        lo <= hi <= v.len(),
    ensures
        r@ == upper_text(v@.subrange(lo as int, hi as int)),
{
    let mut r = String::new();
    let mut i: usize = lo;
    while i < hi
        invariant
            lo <= i <= hi <= v.len(),
            r@ == upper_text(v@.subrange(lo as int, i as int)),
        decreases hi - i,
    {
        let c = v[i];
        let u: char = if 0x61 <= (c as u32) && (c as u32) <= 0x7A {
            (((c as u32) - 0x20) as u8) as char
        } else {
            c
        };
        push_char(&mut r, u);
        i = i + 1;
        assert(r@ =~= upper_text(v@.subrange(lo as int, i as int)));
    }
    r
}

/// `text` with white space trimmed at both ends, if anything is left.
pub open spec fn trimmed_nonblank(text: Option<Seq<char>>) -> Option<Seq<char>> {
    match text {
        Some(t) => if trim(t).len() > 0 {
            Some(trim(t))
        } else {
            None
        },
        None => None,
    }
}

/// The command text that the tag editor's form asks to bind: none for the delete
/// action or a blank command; otherwise the command upper-cased, followed by the
/// filter when the command takes one and a filter was given.
pub open spec fn composed_command(
    action: Seq<char>,
    command: Option<Seq<char>>,
    filter: Option<Seq<char>>,
) -> Option<Seq<char>> {
    if action == "delete"@ {
        None
    } else {
        match trimmed_nonblank(command) {
            None => None,
            Some(c) => {
                let u = upper_text(c);
                if (u == "PLAY"@ || u == "PLAYPAUSE"@ || u == "SHUFFLE"@) && trimmed_nonblank(
                    filter,
                ) is Some {
                    Some(u + seq![' '] + trimmed_nonblank(filter)->0)
                } else {
                    Some(u)
                }
            },
        }
    }
}

fn trimmed_text(text: Option<&str>) -> (r: Option<String>)
    ensures
        text_opt(r) == trimmed_nonblank(
            match text {
                Some(t) => Some(t@),
                None => None,
            },
        ),
{
    match text {
        None => None,
        Some(t) => {
            let v = chars_of(t);
            let (a, b) = trim_bounds(&v, 0, v.len());
            assert(v@.subrange(0, v.len() as int) =~= t@);
            if a < b {
                Some(string_of(&v, a, b))
            } else {
                None
            }
        },
    }
}

/// The command text to bind from the tag editor's form.
pub fn compose_tag_command(action: &str, command: Option<&str>, filter: Option<&str>) -> (r:
    Option<String>)
    ensures
        text_opt(r) == composed_command(
            action@,
            match command {
                Some(c) => Some(c@),
                None => None,
            },
            match filter {
                Some(f) => Some(f@),
                None => None,
            },
        ),
{
    if action.to_owned() == "delete".to_owned() {
        return None;
    }
    let c = match command {
        Some(c) => c,
        None => {
            return None;
        },
    };
    let v = chars_of(c);
    let (a, b) = trim_bounds(&v, 0, v.len());
    assert(v@.subrange(0, v.len() as int) =~= c@);
    if a == b {
        return None;
    }
    let mut upper = upper_string(&v, a, b);
    if command_requires_filter(upper.as_str()) {
        match trimmed_text(filter) {
            Some(f) => {
                push_char(&mut upper, ' ');
                push_str(&mut upper, f.as_str());
            },
            None => {},
        }
    }
    Some(upper)
}

/// What the tag editor shows as chosen for a tag: the verb and filter of its
/// binding, or `PLAY` and no filter for an unbound tag.
pub fn tag_edit_selection(bound: &Option<Command>) -> (r: (String, Option<String>))
    ensures
        bound matches Some(c) ==> r.0@ == name_of(c@) && text_opt(r.1) == filter_of(c@),
        bound is None ==> r.0@ == "PLAY"@ && r.1 is None,
{
    match bound {
        Some(c) => (c.name().to_owned(), command_filter(c)),
        None => ("PLAY".to_owned(), None),
    }
}

/// A path segment that names something: not empty, `.` or `..`.
pub open spec fn normal_segment(seg: Seq<char>) -> bool {
    seg.len() > 0 && seg != seq!['.'] && seg != seq!['.', '.']
}

/// `out` with the segment `seg` added, if it names something.
pub open spec fn add_segment(out: Seq<char>, seg: Seq<char>) -> Seq<char> {
    if !normal_segment(seg) {
        out
    } else if out.len() == 0 {
        seg
    } else {
        out + seq!['/'] + seg
    }
}

/// Reading `s` from the start: the kept segments so far, and the segment being read.
pub open spec fn read_segments(s: Seq<char>) -> (Seq<char>, Seq<char>)
    decreases s.len(),
{
    if s.len() == 0 {
        (Seq::empty(), Seq::empty())
    } else {
        let (out, seg) = read_segments(s.drop_last());
        if s.last() == '/' {
            (add_segment(out, seg), Seq::empty())
        } else {
            (out, seg.push(s.last()))
        }
    }
}

/// The relative path made of the segments of `s` that name something, joined by
/// `/`: a root, `.` and `..` are dropped, so that the result stays below the
/// directory it is joined to.
pub open spec fn clean_relative(s: Seq<char>) -> Seq<char> {
    add_segment(read_segments(s).0, read_segments(s).1)
}

fn push_segment(out: &mut String, seg: &String)
    ensures
        final(out)@ == add_segment(old(out)@, seg@),
{
    let dot = ".".to_owned();
    let dots = "..".to_owned();
    proof {
        reveal_strlit(".");
        reveal_strlit("..");
    }
    assert(dot@ =~= seq!['.']);
    assert(dots@ =~= seq!['.', '.']);
    if seg.as_str().is_empty() || *seg == dot || *seg == dots {
        return ;
    }
    if out.as_str().is_empty() {
        push_str(out, seg.as_str());
        assert(out@ =~= seg@);
    } else {
        push_char(out, '/');
        push_str(out, seg.as_str());
    }
}

/// The part of an uploaded file's name that may be joined below a music directory;
/// none when nothing is left.
pub fn sanitize_relative_path(filename: &str) -> (r: Option<String>)
    ensures
        clean_relative(filename@).len() == 0 ==> r is None,
        clean_relative(filename@).len() > 0 ==> (r matches Some(p) && p@ == clean_relative(
            filename@,
        )),
{
    let v = chars_of(filename);
    let mut out = String::new();
    let mut seg = String::new();
    let mut i: usize = 0;
    assert(v@.subrange(0, 0) =~= Seq::<char>::empty());
    while i < v.len()
        invariant
            v@ == filename@,
            i <= v.len(),
            (out@, seg@) == read_segments(v@.subrange(0, i as int)),
        decreases v.len() - i,
    {
        assert(v@.subrange(0, i + 1).drop_last() =~= v@.subrange(0, i as int));
        if v[i] == '/' {
            push_segment(&mut out, &seg);
            seg = String::new();
        } else {
            push_char(&mut seg, v[i]);
        }
        i = i + 1;
    }
    assert(v@.subrange(0, v.len() as int) =~= filename@);
    push_segment(&mut out, &seg);
    if out.as_str().is_empty() {
        None
    } else {
        Some(out)
    }
}

/// A row of the queue as the index page lists it.
pub struct QueueItem {
    pub name: String,
    pub is_current: bool,
}

/// The queue's rows, the one under the cursor marked.
pub fn queue_items(queue: &Vec<String>, position: Option<usize>) -> (r: Vec<QueueItem>)
    ensures
        r@.len() == queue@.len(),
        forall|i: int|
            0 <= i < r@.len() ==> (#[trigger] r@[i]).name == queue@[i] && r@[i].is_current == (
            position == Some(i as usize)),
{
    let mut out: Vec<QueueItem> = Vec::new();
    let mut i: usize = 0;
    while i < queue.len()
        invariant
            i <= queue@.len(),
            out@.len() == i,
            forall|k: int|
                0 <= k < i ==> (#[trigger] out@[k]).name == queue@[k] && out@[k].is_current == (
                position == Some(k as usize)),
        decreases queue.len() - i,
    {
        let is_current = match position {
            Some(p) => p == i,
            None => false,
        };
        out.push(QueueItem { name: queue[i].clone(), is_current });
        i = i + 1;
    }
    out
}

} // verus!
