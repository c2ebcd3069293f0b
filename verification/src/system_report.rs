//! What the start-up report says about the machine: the graphics adapters
//! read from the output of `glxinfo` or `lspci -nn`.
use vstd::prelude::*;
use vstd::string::StringExecFns;
use crate::text::{
    char_views, chars_of, contains_chars, contains_run, copy_range, find_char, has_prefix,
    join_spaced, lemma_next_index, lemma_split_rejoins, lines, lines_of, next_index, opt_view,
    spaced, split, split_chars, split_from, starts_with_chars, string_of, string_views,
};

verus! {

broadcast use vstd::string::group_string_axioms;

/// The text that precedes the renderer's name in `glxinfo`'s output.
pub open spec fn renderer_prefix() -> Seq<char> {
    "OpenGL renderer string: "@
}

/// The text that marks a graphics adapter in the output of `lspci -nn`.
pub open spec fn vga_marker() -> Seq<char> {
    "VGA compatible controller"@
}

/// The renderer that a line of `glxinfo`'s output names, if it names one: what
/// follows the prefix.
pub open spec fn glxinfo_renderer(line: Seq<char>) -> Option<Seq<char>> {
    if has_prefix(line, renderer_prefix()) {
        Some(line.skip(renderer_prefix().len() as int))
    } else {
        None
    }
}

/// The adapter that a line of `lspci -nn` names, if it is a VGA controller with a
/// third `:`-separated field: that field from its first `[` on, split at spaces,
/// without the last word, each word followed by a space.
pub open spec fn lspci_adapter(line: Seq<char>) -> Option<Seq<char>> {
    if !contains_run(line, vga_marker()) {
        None
    } else {
        let fields = split(line, ':');
        if fields.len() < 3 {
            None
        } else {
            let field = fields[2];
            let tail = field.skip(next_index(field, '[', 0));
            Some(spaced(split(tail, ' ').drop_last()))
        }
    }
}

/// `glxinfo_renderer` as a function value.
pub open spec fn glxinfo_finder() -> spec_fn(Seq<char>) -> Option<Seq<char>> {
    |l: Seq<char>| glxinfo_renderer(l)
}

/// `lspci_adapter` as a function value.
pub open spec fn lspci_finder() -> spec_fn(Seq<char>) -> Option<Seq<char>> {
    |l: Seq<char>| lspci_adapter(l)
}

/// What `f` finds on the lines `ls`, in order.
pub open spec fn collect_found(
    ls: Seq<Seq<char>>,
    f: spec_fn(Seq<char>) -> Option<Seq<char>>,
) -> Seq<Seq<char>>
    decreases ls.len(),
{
    if ls.len() == 0 {
        Seq::empty()
    } else {
        let rest = collect_found(ls.drop_last(), f);
        match f(ls.last()) {
            Some(x) => rest.push(x),
            None => rest,
        }
    }
}

/// The adapters named in the output of `glxinfo` where it ran, else in that of
/// `lspci -nn` where it ran; `["Unknown"]` where neither names one.
pub open spec fn gpu_list(glxinfo: Option<Seq<char>>, lspci: Option<Seq<char>>) -> Seq<Seq<char>> {
    let found = match glxinfo {
        Some(out) => collect_found(lines(out), glxinfo_finder()),
        None => match lspci {
            Some(out) => collect_found(lines(out), lspci_finder()),
            None => Seq::empty(),
        },
    };
    if found.len() == 0 {
        seq!["Unknown"@]
    } else {
        found
    }
}

/// The renderer that `line` names, where it begins with `prefix`.
fn renderer_on_line(line: &Vec<char>, prefix: &Vec<char>) -> (r: Option<String>)
    requires
        prefix@ == renderer_prefix(),
    ensures
        match r {
            Some(s) => glxinfo_renderer(line@) == Some(s@),
            None => glxinfo_renderer(line@) is None,
        },
{
    if starts_with_chars(line, prefix) {
        let s = string_of(line, prefix.len(), line.len());
        assert(s@ == line@.skip(prefix.len() as int));
        Some(s)
    } else {
        None
    }
}

/// The adapter that `line` names, where it is a VGA controller of `lspci -nn`.
fn adapter_on_line(line: &Vec<char>, marker: &Vec<char>) -> (r: Option<String>)
    requires
        marker@ == vga_marker(),
    ensures
        match r {
            Some(s) => lspci_adapter(line@) == Some(s@),
            None => lspci_adapter(line@) is None,
        },
{
    if !contains_chars(line, marker) {
        return None;
    }
    let fields = split_chars(line, ':');
    if fields.len() < 3 {
        return None;
    }
    let field = &fields[2];
    let from: usize = find_char(field, '[', 0);
    proof {
        lemma_next_index(field@, '[', 0);
    }
    let tail = copy_range(field, from, field.len());
    assert(tail@ == field@.skip(from as int));
    let words = split_chars(&tail, ' ');
    assert(words.len() > 0) by {
        lemma_split_nonempty(tail@, ' ', 0);
    }
    let s = join_spaced(&words, words.len() - 1);
    assert(char_views(words@).take(words.len() - 1) == split(tail@, ' ').drop_last());
    Some(s)
}

/// Collecting over one more line adds what `f` finds on it.
proof fn lemma_collect_step(
    vs: Seq<Seq<char>>,
    i: int,
    f: spec_fn(Seq<char>) -> Option<Seq<char>>,
)
    requires
        0 <= i < vs.len(),
    ensures
        collect_found(vs.take(i + 1), f) == match f(vs[i]) {
            Some(x) => collect_found(vs.take(i), f).push(x),
            None => collect_found(vs.take(i), f),
        },
{
    assert(vs.take(i + 1).drop_last() == vs.take(i));
    assert(vs.take(i + 1).last() == vs[i]);
}

/// `split_from` always yields at least one piece.
proof fn lemma_split_nonempty(s: Seq<char>, c: char, start: int)
    requires
        0 <= start <= s.len(),
    ensures
        split_from(s, c, start).len() > 0,
    decreases s.len() - start,
{
    lemma_next_index(s, c, start);
}

/// The graphics adapters named in the output of `glxinfo` (where it ran), else
/// in that of `lspci -nn` (where it ran), or `["Unknown"]`.
pub fn get_gpus(glxinfo: Option<&str>, lspci: Option<&str>) -> (r: Vec<String>)
    ensures
        string_views(r@) == gpu_list(opt_view(glxinfo), opt_view(lspci)),
{
    let mut found: Vec<String> = Vec::new();
    match glxinfo {
        Some(out) => {
            let text = chars_of(out);
            let ls = lines_of(&text);
            let prefix = chars_of("OpenGL renderer string: ");
            let mut i: usize = 0;
            while i < ls.len()
                invariant
                    i <= ls.len(),
                    prefix@ == renderer_prefix(),
                    string_views(found@) == collect_found(char_views(ls@).take(i as int), glxinfo_finder()),
                decreases ls.len() - i,
            {
                let ghost prev = found@;
                let item = renderer_on_line(&ls[i], &prefix);
                match item {
                    Some(s) => {
                        found.push(s);
                        assert(string_views(found@) == string_views(prev).push(s@));
                    },
                    None => {},
                }
                proof {
                    let vs = char_views(ls@);
                    lemma_collect_step(vs, i as int, glxinfo_finder());
                    assert(vs[i as int] == ls@[i as int]@);
                }
                i = i + 1;
            }
            assert(char_views(ls@).take(ls.len() as int) == char_views(ls@));
        },
        None => match lspci {
            Some(out) => {
                let text = chars_of(out);
                let ls = lines_of(&text);
                let marker = chars_of("VGA compatible controller");
                let mut i: usize = 0;
                while i < ls.len()
                    invariant
                        i <= ls.len(),
                        marker@ == vga_marker(),
                        string_views(found@) == collect_found(
                            char_views(ls@).take(i as int),
                            lspci_finder(),
                        ),
                    decreases ls.len() - i,
                {
                    let ghost prev = found@;
                    let item = adapter_on_line(&ls[i], &marker);
                    match item {
                        Some(s) => {
                            found.push(s);
                            assert(string_views(found@) == string_views(prev).push(s@));
                        },
                        None => {},
                    }
                    proof {
                        let vs = char_views(ls@);
                        lemma_collect_step(vs, i as int, lspci_finder());
                        assert(vs[i as int] == ls@[i as int]@);
                    }
                    i = i + 1;
                }
                assert(char_views(ls@).take(ls.len() as int) == char_views(ls@));
            },
            None => {},
        },
    }
    if found.len() == 0 {
        found.push(String::from_str("Unknown"));
    }
    found
}

/// How the report names the distribution: its name and version separated by a
/// space, or `"Unknown"` where the release file could not be read.
pub fn distro_description(release: Option<(&str, &str)>) -> (r: String)
    ensures
        r@ == match release {
            Some((name, version)) => name@ + " "@ + version@,
            None => "Unknown"@,
        },
{
    match release {
        Some((name, version)) => {
            let mut r = String::from_str(name);
            r.append(" ");
            r.append(version);
            r
        },
        None => String::from_str("Unknown"),
    }
}

/// One line of the log: the time, then the level and the module path each in
/// square brackets, a space, and the message.
pub fn format_log_record(time: &str, level: &str, module: &str, message: &str) -> (r: String)
    ensures
        r@ == time@ + "["@ + level@ + "]["@ + module@ + "] "@ + message@,
{
    let mut r = String::from_str(time);
    r.append("[");
    r.append(level);
    r.append("][");
    r.append(module);
    r.append("] ");
    r.append(message);
    r
}

/// The report always names at least one adapter.
pub proof fn lemma_gpu_list_nonempty(glxinfo: Option<Seq<char>>, lspci: Option<Seq<char>>)
    ensures
        gpu_list(glxinfo, lspci).len() > 0,
{
}

/// Where `glxinfo` ran, what `lspci -nn` printed does not matter.
pub proof fn lemma_glxinfo_takes_precedence(
    glxinfo: Seq<char>,
    lspci1: Option<Seq<char>>,
    lspci2: Option<Seq<char>>,
)
    ensures
        gpu_list(Some(glxinfo), lspci1) == gpu_list(Some(glxinfo), lspci2),
{
}

/// The adapter that a VGA controller line of `lspci -nn` names (one with a
/// third `:`-separated field) is that field from its first `[` on, with its
/// last space-separated word cut off: the name is the start of that text, what
/// is cut off holds no space, and the name ends in a space unless it is empty.
/// Brackets inside the text make no difference.
pub proof fn lemma_adapter_is_tail_without_last_word(line: Seq<char>)
    requires
        contains_run(line, vga_marker()),
        split(line, ':').len() >= 3,
    ensures
        ({
            let field = split(line, ':')[2];
            let tail = field.skip(next_index(field, '[', 0));
            &&& lspci_adapter(line) is Some
            &&& lspci_adapter(line)->0.len() <= tail.len()
            &&& lspci_adapter(line)->0 == tail.take(lspci_adapter(line)->0.len() as int)
            &&& forall|i: int|
                lspci_adapter(line)->0.len() <= i < tail.len() ==> #[trigger] tail[i] != ' '
            &&& (lspci_adapter(line)->0.len() == 0 || lspci_adapter(line)->0.last() == ' ')
        }),
{
    let field = split(line, ':')[2];
    lemma_next_index(field, '[', 0);
    let tail = field.skip(next_index(field, '[', 0));
    lemma_split_rejoins(tail, 0);
    let ws = split(tail, ' ');
    let r = spaced(ws.drop_last());
    let w = ws.last();
    assert(tail.subrange(0, tail.len() as int) == tail);
    assert(r + w == tail);
    assert(r == tail.take(r.len() as int));
    assert forall|i: int| r.len() <= i < tail.len() implies #[trigger] tail[i] != ' ' by {
        assert(tail[i] == w[i - r.len()]);
    }
    if ws.drop_last().len() > 0 {
        assert(r == spaced(ws.drop_last().drop_last()) + ws.drop_last().last().push(' '));
    }
}

} // verus!
