//! Desktop entries (`.desktop` files) of the installed applications.
//!
//! A desktop entry file is read line by line.  Lines are trimmed; the
//! `[Desktop Entry]` header opens the section that matters and any other
//! `[...]` header closes it.  Inside that section, blank lines and `#`
//! comments are skipped and every `key=value` line sets a property, a later
//! line overriding an earlier one.  An entry needs a `Name`; `Categories` is a
//! `;`-separated list.

use crate::text::{
    append_range, chars_of, first_index_of, split_on, starts_with_at, string_from_chars, trim,
    trim_bounds,
};
use crate::util::{join_path, path_join};
use vstd::prelude::*;

verus! {

/// An application's desktop entry.
#[derive(Debug, Clone)]
pub struct DesktopEntry {
    pub name: String,
    pub exec_command: Option<String>,
    pub icon: Option<String>,
    pub comment: Option<String>,
    pub categories: Vec<String>,
}

/// The content of a desktop entry as plain values.
pub struct DesktopEntryView {
    pub name: Seq<char>,
    pub exec_command: Option<Seq<char>>,
    pub icon: Option<Seq<char>>,
    pub comment: Option<Seq<char>>,
    pub categories: Seq<Seq<char>>,
}

/// The characters of each string.
pub open spec fn strings_view(v: Seq<String>) -> Seq<Seq<char>> {
    v.map_values(|s: String| s@)
}

/// The characters of an optional string.
pub open spec fn opt_view(t: Option<String>) -> Option<Seq<char>> {
    match t {
        Some(t) => Some(t@),
        None => None,
    }
}

impl View for DesktopEntry {
    type V = DesktopEntryView;

    open spec fn view(&self) -> DesktopEntryView {
        DesktopEntryView {
            name: self.name@,
            exec_command: opt_view(self.exec_command),
            icon: opt_view(self.icon),
            comment: opt_view(self.comment),
            categories: strings_view(self.categories@),
        }
    }
}

/// Why a desktop entry file gives no entry.
#[derive(Debug, Clone, Copy, PartialEq, Eq, Structural)]
pub enum DesktopEntryError {
    /// The `[Desktop Entry]` section sets no `Name`.
    MissingName,
}

/// The value of property `k`, if it is set.
pub open spec fn property(m: Map<Seq<char>, Seq<char>>, k: Seq<char>) -> Option<Seq<char>> {
    if m.contains_key(k) {
        Some(m[k])
    } else {
        None
    }
}

/// The properties set so far, and whether the `[Desktop Entry]` section is open.
pub struct ParseState {
    pub properties: Map<Seq<char>, Seq<char>>,
    pub in_desktop_entry: bool,
}

/// The state after one more line of the file.
pub open spec fn parse_line(st: ParseState, raw: Seq<char>) -> ParseState {
    let line = trim(raw);
    if line == "[Desktop Entry]"@ {
        ParseState { properties: st.properties, in_desktop_entry: true }
    } else if line.len() > 0 && line[0] == '[' {
        ParseState { properties: st.properties, in_desktop_entry: false }
    } else if !st.in_desktop_entry || line.len() == 0 || line[0] == '#' {
        st
    } else {
        match crate::text::split_once(line, '=') {
            Some((k, v)) => ParseState {
                properties: st.properties.insert(trim(k), trim(v)),
                in_desktop_entry: true,
            },
            None => st,
        }
    }
}

/// The state after the given lines.
pub open spec fn parse_lines(lines: Seq<Seq<char>>) -> ParseState
    decreases lines.len(),
{
    if lines.len() == 0 {
        ParseState { properties: Map::empty(), in_desktop_entry: false }
    } else {
        parse_line(parse_lines(lines.drop_last()), lines.last())
    }
}

/// The properties of the `[Desktop Entry]` section of a file.
///
/// The lines are the pieces between newlines; a carriage return before a
/// newline and an empty last piece make no difference, as lines are trimmed
/// and blank lines skipped.
pub open spec fn desktop_properties(content: Seq<char>) -> Map<Seq<char>, Seq<char>> {
    parse_lines(split_on(content, '\n')).properties
}

/// The pieces that are not empty, in order.
pub open spec fn non_empty_pieces(ps: Seq<Seq<char>>) -> Seq<Seq<char>>
    decreases ps.len(),
{
    if ps.len() == 0 {
        Seq::empty()
    } else if ps.last().len() > 0 {
        non_empty_pieces(ps.drop_last()).push(ps.last())
    } else {
        non_empty_pieces(ps.drop_last())
    }
}

/// The categories of a `;`-separated list, without empty ones.
pub open spec fn categories_of(v: Seq<char>) -> Seq<Seq<char>> {
    non_empty_pieces(split_on(v, ';'))
}

/// The desktop entry that a file's content describes.
pub open spec fn desktop_entry_of(content: Seq<char>) -> Result<DesktopEntryView, DesktopEntryError> {
    let m = desktop_properties(content);
    match property(m, "Name"@) {
        None => Err(DesktopEntryError::MissingName),
        Some(name) => Ok(
            DesktopEntryView {
                name,
                exec_command: property(m, "Exec"@),
                icon: property(m, "Icon"@),
                comment: property(m, "Comment"@),
                categories: match property(m, "Categories"@) {
                    Some(c) => categories_of(c),
                    None => Seq::empty(),
                },
            },
        ),
    }
}

/// The characters of each piece.
pub open spec fn pieces_view(v: Seq<Vec<char>>) -> Seq<Seq<char>> {
    v.map_values(|p: Vec<char>| p@)
}

proof fn lemma_split_step(s: Seq<char>, i: int, sep: char)
    requires
        0 <= i < s.len(),
    ensures
        split_on(s.take(i + 1), sep) == (if s[i] == sep {
            split_on(s.take(i), sep).push(Seq::<char>::empty())
        } else {
            let pieces = split_on(s.take(i), sep);
            pieces.update(pieces.len() - 1, pieces.last().push(s[i]))
        }),
{
    assert(s.take(i + 1).drop_last() =~= s.take(i));
    assert(s.take(i + 1).last() == s[i]);
}

/// The pieces of `v[lo..hi]` between occurrences of `sep`.
fn split_chars(v: &Vec<char>, lo: usize, hi: usize, sep: char) -> (r: Vec<Vec<char>>)
    requires
        lo <= hi <= v.len(),
    ensures
        pieces_view(r@) == split_on(v@.subrange(lo as int, hi as int), sep),
{
    let ghost s = v@.subrange(lo as int, hi as int);
    let mut done: Vec<Vec<char>> = Vec::new();
    let mut start = lo;
    let mut i = lo;
    assert(s.take(0) =~= Seq::<char>::empty());
    assert(pieces_view(done@) =~= Seq::<Seq<char>>::empty());
    assert(v@.subrange(start as int, i as int) =~= Seq::<char>::empty());
    assert(pieces_view(done@).push(v@.subrange(start as int, i as int)) =~= seq![Seq::<char>::empty()]);
    while i < hi
        invariant
            lo <= start <= i <= hi <= v.len(),
            s == v@.subrange(lo as int, hi as int),
            split_on(s.take(i - lo), sep) == pieces_view(done@).push(
                v@.subrange(start as int, i as int),
            ),
        decreases hi - i,
    {
        proof {
            lemma_split_step(s, i - lo, sep);
            assert(s[i - lo] == v@[i as int]);
            assert(s.take(i - lo + 1) =~= s.take((i + 1) - lo));
        }
        if v[i] == sep {
            let mut piece: Vec<char> = Vec::new();
            append_range(&mut piece, v, start, i);
            let ghost d0 = done@;
            done.push(piece);
            assert(pieces_view(done@) =~= pieces_view(d0).push(v@.subrange(start as int, i as int)));
            start = i + 1;
            assert(v@.subrange(start as int, i + 1) =~= Seq::<char>::empty());
        } else {
            assert(v@.subrange(start as int, i + 1) =~= v@.subrange(start as int, i as int).push(
                v@[i as int],
            ));
        }
        i = i + 1;
    }
    let mut piece: Vec<char> = Vec::new();
    append_range(&mut piece, v, start, hi);
    let ghost d0 = done@;
    done.push(piece);
    assert(pieces_view(done@) =~= pieces_view(d0).push(v@.subrange(start as int, hi as int)));
    assert(s.take(hi - lo) =~= s);
    done
}

/// The non-empty pieces, as strings.
fn non_empty_strings(ps: &Vec<Vec<char>>) -> (r: Vec<String>)
    ensures
        strings_view(r@) == non_empty_pieces(pieces_view(ps@)),
{
    let ghost pv = pieces_view(ps@);
    let mut r: Vec<String> = Vec::new();
    let mut i: usize = 0;
    while i < ps.len()
        invariant
            i <= ps.len(),
            pv == pieces_view(ps@),
            strings_view(r@) == non_empty_pieces(pv.take(i as int)),
        decreases ps.len() - i,
    {
        assert(pv.take(i + 1).drop_last() =~= pv.take(i as int));
        assert(pv.take(i + 1).last() == ps@[i as int]@);
        if ps[i].len() > 0 {
            let s = string_from_chars(&ps[i]);
            let ghost r0 = r@;
            r.push(s);
            assert(strings_view(r@) =~= strings_view(r0).push(s@));
        }
        i = i + 1;
    }
    assert(pv.take(ps.len() as int) =~= pv);
    r
}

/// All pieces, as strings.
fn all_strings(ps: &Vec<Vec<char>>) -> (r: Vec<String>)
    ensures
        strings_view(r@) == pieces_view(ps@),
{
    let mut r: Vec<String> = Vec::new();
    let mut i: usize = 0;
    while i < ps.len()
        invariant
            i <= ps.len(),
            strings_view(r@) == pieces_view(ps@).take(i as int),
        decreases ps.len() - i,
    {
        let s = string_from_chars(&ps[i]);
        let ghost r0 = r@;
        r.push(s);
        assert(strings_view(r@) =~= strings_view(r0).push(s@));
        assert(pieces_view(ps@).take(i + 1) =~= pieces_view(ps@).take(i as int).push(ps@[i as int]@));
        assert(strings_view(r@) =~= pieces_view(ps@).take(i + 1));
        i = i + 1;
    }
    assert(pieces_view(ps@).take(ps.len() as int) =~= pieces_view(ps@));
    r
}

/// The properties kept while reading a file: the section flag and the values
/// of the five properties that an entry uses.
struct PropertySlots {
    in_desktop_entry: bool,
    name: Option<Vec<char>>,
    exec_line: Option<Vec<char>>,
    icon: Option<Vec<char>>,
    comment: Option<Vec<char>>,
    categories: Option<Vec<char>>,
}

spec fn chars_view(o: Option<Vec<char>>) -> Option<Seq<char>> {
    match o {
        Some(v) => Some(v@),
        None => None,
    }
}

spec fn slots_match(s: PropertySlots, st: ParseState) -> bool {
    &&& s.in_desktop_entry == st.in_desktop_entry
    &&& chars_view(s.name) == property(st.properties, "Name"@)
    &&& chars_view(s.exec_line) == property(st.properties, "Exec"@)
    &&& chars_view(s.icon) == property(st.properties, "Icon"@)
    &&& chars_view(s.comment) == property(st.properties, "Comment"@)
    &&& chars_view(s.categories) == property(st.properties, "Categories"@)
}

proof fn lemma_first_index(s: Seq<char>, c: char, e: int)
    requires
        0 <= e <= s.len(),
        forall|j: int| 0 <= j < e ==> s[j] != c,
        e < s.len() ==> s[e] == c,
    ensures
        first_index_of(s, c) == (if e < s.len() {
            Some(e)
        } else {
            None::<int>
        }),
    decreases e,
{
    if s.len() > 0 && e > 0 {
        lemma_first_index(s.drop_first(), c, e - 1);
    }
}

/// Whether `v[lo..hi]` is exactly `w`.
fn range_is(v: &Vec<char>, lo: usize, hi: usize, w: &Vec<char>) -> (r: bool)
    requires
        lo <= hi <= v.len(),
    ensures
        r == (v@.subrange(lo as int, hi as int) == w@),
{
    if hi - lo != w.len() {
        return false;
    }
    let r = starts_with_at(v, lo, hi, w);
    assert(r ==> v@.subrange(lo as int, hi as int) =~= w@);
    r
}

/// A copy of `v[lo..hi]`.
fn copy_range(v: &Vec<char>, lo: usize, hi: usize) -> (r: Vec<char>)
    requires
        lo <= hi <= v.len(),
    ensures
        r@ == v@.subrange(lo as int, hi as int),
{
    let mut r: Vec<char> = Vec::new();
    append_range(&mut r, v, lo, hi);
    r
}

/// Reads the line `v[lo..hi]` into the slots.
fn read_line(v: &Vec<char>, lo: usize, hi: usize, slots: &mut PropertySlots, Ghost(st): Ghost<ParseState>)
    requires
        lo <= hi <= v.len(),
        slots_match(*old(slots), st),
    ensures
        slots_match(*final(slots), parse_line(st, v@.subrange(lo as int, hi as int))),
{
    let ghost raw = v@.subrange(lo as int, hi as int);
    let (a, b) = trim_bounds(v, lo, hi);
    let ghost line = v@.subrange(a as int, b as int);
    assert(line == trim(raw));
    let header = chars_of("[Desktop Entry]");
    if range_is(v, a, b, &header) {
        slots.in_desktop_entry = true;
        return;
    }
    if a < b && v[a] == '[' {
        assert(line[0] == v@[a as int]);
        slots.in_desktop_entry = false;
        return;
    }
    if a < b {
        assert(line[0] == v@[a as int]);
    }
    if !slots.in_desktop_entry || a == b || v[a] == '#' {
        return;
    }
    let mut e = a;
    while e < b && v[e] != '='
        invariant
            a <= e <= b <= v.len(),
            forall|j: int| a <= j < e ==> v@[j] != '=',
        decreases b - e,
    {
        e = e + 1;
    }
    proof {
        assert forall|j: int| 0 <= j < e - a implies line[j] != '=' by {
            assert(line[j] == v@[a + j]);
        }
        if e < b {
            assert(line[e - a] == v@[e as int]);
        }
        lemma_first_index(line, '=', e - a);
    }
    if e == b {
        return;
    }
    let (ka, kb) = trim_bounds(v, a, e);
    let (va, vb) = trim_bounds(v, e + 1, b);
    proof {
        assert(line.take(e - a) =~= v@.subrange(a as int, e as int));
        assert(line.skip(e - a + 1) =~= v@.subrange(e + 1, b as int));
    }
    let ghost key = v@.subrange(ka as int, kb as int);
    let ghost value = v@.subrange(va as int, vb as int);
    let ghost m2 = st.properties.insert(key, value);
    if range_is(v, ka, kb, &chars_of("Name")) {
        slots.name = Some(copy_range(v, va, vb));
    } else if range_is(v, ka, kb, &chars_of("Exec")) {
        slots.exec_line = Some(copy_range(v, va, vb));
    } else if range_is(v, ka, kb, &chars_of("Icon")) {
        slots.icon = Some(copy_range(v, va, vb));
    } else if range_is(v, ka, kb, &chars_of("Comment")) {
        slots.comment = Some(copy_range(v, va, vb));
    } else if range_is(v, ka, kb, &chars_of("Categories")) {
        slots.categories = Some(copy_range(v, va, vb));
    }
    proof {
        reveal_strlit("Name");
        reveal_strlit("Exec");
        reveal_strlit("Icon");
        reveal_strlit("Comment");
        reveal_strlit("Categories");
        assert("Name"@[0] == 'N' && "Exec"@[0] == 'E' && "Icon"@[0] == 'I');
        assert("Comment"@.len() == 7 && "Categories"@.len() == 10 && "Name"@.len() == 4);
        assert("Name"@ != "Exec"@ && "Name"@ != "Icon"@ && "Name"@ != "Comment"@ && "Name"@ != "Categories"@);
        assert("Exec"@ != "Icon"@ && "Exec"@ != "Comment"@ && "Exec"@ != "Categories"@);
        assert("Icon"@ != "Comment"@ && "Icon"@ != "Categories"@ && "Comment"@ != "Categories"@);
        let ns = ParseState { properties: m2, in_desktop_entry: true };
        assert(slots.in_desktop_entry == ns.in_desktop_entry);
        assert(chars_view(slots.name) == property(m2, "Name"@));
        assert(chars_view(slots.exec_line) == property(m2, "Exec"@));
        assert(chars_view(slots.icon) == property(m2, "Icon"@));
        assert(chars_view(slots.comment) == property(m2, "Comment"@));
        assert(chars_view(slots.categories) == property(m2, "Categories"@));
        assert(slots_match(*slots, ParseState { properties: m2, in_desktop_entry: true }));
    }
}

fn optional_string(o: &Option<Vec<char>>) -> (r: Option<String>)
    ensures
        opt_view(r) == chars_view(*o),
{
    match o {
        Some(v) => Some(string_from_chars(v)),
        None => None,
    }
}

/// Parses the content of a desktop entry file.
pub fn parse_desktop_file(content: &str) -> (r: Result<DesktopEntry, DesktopEntryError>)
    ensures
        match r {
            Ok(e) => desktop_entry_of(content@) == Ok::<DesktopEntryView, DesktopEntryError>(e@),
            Err(err) => desktop_entry_of(content@) == Err::<DesktopEntryView, DesktopEntryError>(
                err,
            ),
        },
{
    let v = chars_of(content);
    let mut slots = PropertySlots {
        in_desktop_entry: false,
        name: None,
        exec_line: None,
        icon: None,
        comment: None,
        categories: None,
    };
    let ghost mut done: Seq<Seq<char>> = Seq::empty();
    let mut start: usize = 0;
    let mut i: usize = 0;
    assert(v@.take(0) =~= Seq::<char>::empty());
    assert(done.push(v@.subrange(0, 0)) =~= seq![Seq::<char>::empty()]);
    while i < v.len()
        invariant
            start <= i <= v.len(),
            split_on(v@.take(i as int), '\n') == done.push(v@.subrange(start as int, i as int)),
            slots_match(slots, parse_lines(done)),
        decreases v.len() - i,
    {
        proof {
            lemma_split_step(v@, i as int, '\n');
        }
        if v[i] == '\n' {
            read_line(&v, start, i, &mut slots, Ghost(parse_lines(done)));
            proof {
                let line = v@.subrange(start as int, i as int);
                assert(done.push(line).drop_last() =~= done);
                done = done.push(line);
                assert(v@.subrange(i + 1, i + 1) =~= Seq::<char>::empty());
            }
            start = i + 1;
        } else {
            assert(v@.subrange(start as int, i + 1) =~= v@.subrange(start as int, i as int).push(
                v@[i as int],
            ));
        }
        i = i + 1;
    }
    read_line(&v, start, v.len(), &mut slots, Ghost(parse_lines(done)));
    proof {
        let line = v@.subrange(start as int, v.len() as int);
        assert(done.push(line).drop_last() =~= done);
        assert(v@.take(v.len() as int) =~= v@);
    }
    let name = match &slots.name {
        Some(n) => string_from_chars(n),
        None => return Err(DesktopEntryError::MissingName),
    };
    let categories = match &slots.categories {
        Some(c) => {
            let pieces = split_chars(c, 0, c.len(), ';');
            assert(c@.subrange(0, c@.len() as int) =~= c@);
            non_empty_strings(&pieces)
        },
        None => Vec::new(),
    };
    let e = DesktopEntry {
        name,
        exec_command: optional_string(&slots.exec_line),
        icon: optional_string(&slots.icon),
        comment: optional_string(&slots.comment),
        categories,
    };
    proof {
        if slots.categories is None {
            assert(strings_view(e.categories@) =~= Seq::<Seq<char>>::empty());
        }
    }
    Ok(e)
}

/// The entries that the files give, in order, skipping files without one.
pub open spec fn parsed_entries(files: Seq<Seq<char>>) -> Seq<DesktopEntryView>
    decreases files.len(),
{
    if files.len() == 0 {
        Seq::empty()
    } else {
        match desktop_entry_of(files.last()) {
            Ok(e) => parsed_entries(files.drop_last()).push(e),
            Err(_) => parsed_entries(files.drop_last()),
        }
    }
}

/// The entries as plain values.
pub open spec fn entries_view(es: Seq<DesktopEntry>) -> Seq<DesktopEntryView> {
    es.map_values(|e: DesktopEntry| e@)
}

/// The desktop entries read so far.
pub struct ShortcutReader {
    entries: Vec<DesktopEntry>,
}

impl View for ShortcutReader {
    type V = Seq<DesktopEntryView>;

    closed spec fn view(&self) -> Seq<DesktopEntryView> {
        entries_view(self.entries@)
    }
}

/// The directories that hold application data: `$HOME/.local/share`, when
/// the home directory is known, then each directory of `$XDG_DATA_DIRS`
/// (`/usr/local/share:/usr/share` when it is unset).
pub open spec fn xdg_data_dirs(home: Option<Seq<char>>, data_dirs: Option<Seq<char>>) -> Seq<Seq<char>> {
    let user = match home {
        Some(h) => seq![path_join(h, ".local/share"@)],
        None => Seq::empty(),
    };
    let system = match data_dirs {
        Some(d) => d,
        None => "/usr/local/share:/usr/share"@,
    };
    user + split_on(system, ':')
}

/// `split_on` always gives at least one piece.
pub proof fn lemma_split_on_not_empty(s: Seq<char>, sep: char)
    ensures
        split_on(s, sep).len() >= 1,
    decreases s.len(),
{
    if s.len() > 0 {
        lemma_split_on_not_empty(s.drop_last(), sep);
    }
}

/// There is always at least one data directory to search.
pub proof fn lemma_xdg_data_dirs_not_empty(home: Option<Seq<char>>, data_dirs: Option<Seq<char>>)
    ensures
        xdg_data_dirs(home, data_dirs).len() >= 1,
{
    let system = match data_dirs {
        Some(d) => d,
        None => "/usr/local/share:/usr/share"@,
    };
    lemma_split_on_not_empty(system, ':');
}

impl ShortcutReader {
    /// A reader with no entries.
    pub fn new() -> (r: Self)
        ensures
            r@ == Seq::<DesktopEntryView>::empty(),
    {
        let r = ShortcutReader { entries: Vec::new() };
        assert(entries_view(r.entries@) =~= Seq::<DesktopEntryView>::empty());
        r
    }

    /// Adds the entries of the given desktop entry files (their contents), in
    /// order; files without an entry are skipped.
    pub fn load_shortcuts(&mut self, desktop_files: &Vec<String>)
        ensures
            final(self)@ == old(self)@ + parsed_entries(strings_view(desktop_files@)),
    {
        let ghost fv = strings_view(desktop_files@);
        let ghost start = self@;
        let mut i: usize = 0;
        assert(fv.take(0) =~= Seq::<Seq<char>>::empty());
        assert(start + parsed_entries(fv.take(0)) =~= start);
        while i < desktop_files.len()
            invariant
                i <= desktop_files.len(),
                fv == strings_view(desktop_files@),
                self@ == start + parsed_entries(fv.take(i as int)),
            decreases desktop_files.len() - i,
        {
            assert(fv.take(i + 1).drop_last() =~= fv.take(i as int));
            assert(fv.take(i + 1).last() == desktop_files@[i as int]@);
            match parse_desktop_file(desktop_files[i].as_str()) {
                Ok(e) => {
                    let ghost e0 = self.entries@;
                    self.entries.push(e);
                    assert(entries_view(self.entries@) =~= entries_view(e0).push(e@));
                },
                Err(_) => {},
            }
            i = i + 1;
        }
        assert(fv.take(desktop_files.len() as int) =~= fv);
    }

    /// The entries read so far.
    pub fn get_entries(&self) -> (r: &[DesktopEntry])
        ensures
            entries_view(r@) == self@,
    {
        self.entries.as_slice()
    }

    /// The data directories to search (see `xdg_data_dirs`), given the home
    /// directory and the value of `XDG_DATA_DIRS` (each `None` when unknown).
    pub fn get_xdg_data_dirs(home: Option<&str>, xdg_data_dirs_var: Option<&str>) -> (r: Vec<String>)
        ensures
            strings_view(r@) == xdg_data_dirs(
                match home {
                    Some(h) => Some(h@),
                    None => None,
                },
                match xdg_data_dirs_var {
                    Some(d) => Some(d@),
                    None => None,
                },
            ),
            r.len() >= 1,
    {
        let mut dirs: Vec<String> = Vec::new();
        match home {
            Some(h) => {
                dirs.push(join_path(h, ".local/share"));
            },
            None => {},
        }
        let system = match xdg_data_dirs_var {
            Some(d) => chars_of(d),
            None => chars_of("/usr/local/share:/usr/share"),
        };
        let pieces = split_chars(&system, 0, system.len(), ':');
        assert(system@.subrange(0, system@.len() as int) =~= system@);
        let rest = all_strings(&pieces);
        let ghost d0 = dirs@;
        let mut i: usize = 0;
        while i < rest.len()
            invariant
                i <= rest.len(),
                strings_view(dirs@) == strings_view(d0) + strings_view(rest@).take(i as int),
            decreases rest.len() - i,
        {
            let s = string_from_chars(&chars_of(rest[i].as_str()));
            let ghost dd = dirs@;
            dirs.push(s);
            assert(strings_view(dirs@) =~= strings_view(d0) + strings_view(rest@).take(i + 1)) by {
                assert(strings_view(dirs@) =~= strings_view(dd).push(s@));
            }
            i = i + 1;
        }
        assert(strings_view(rest@).take(rest.len() as int) =~= strings_view(rest@));
        proof {
            lemma_split_on_not_empty(system@, ':');
        }
        dirs
    }
}

proof fn lemma_non_empty_pieces_are_not_empty(ps: Seq<Seq<char>>)
    ensures
        forall|k: int|
            0 <= k < non_empty_pieces(ps).len() ==> #[trigger] non_empty_pieces(ps)[k].len() > 0,
    decreases ps.len(),
{
    if ps.len() > 0 {
        lemma_non_empty_pieces_are_not_empty(ps.drop_last());
        let prev = non_empty_pieces(ps.drop_last());
        if ps.last().len() > 0 {
            assert forall|k: int| 0 <= k < prev.push(ps.last()).len() implies #[trigger] prev.push(
                ps.last(),
            )[k].len() > 0 by {
                if k < prev.len() {
                    assert(prev.push(ps.last())[k] == prev[k]);
                }
            }
        }
    }
}

/// No category of an entry is empty.
pub proof fn lemma_categories_not_empty(content: Seq<char>)
    ensures
        desktop_entry_of(content) matches Ok(e) ==> forall|k: int|
            0 <= k < e.categories.len() ==> #[trigger] e.categories[k].len() > 0,
{
    let m = desktop_properties(content);
    match property(m, "Categories"@) {
        Some(c) => lemma_non_empty_pieces_are_not_empty(split_on(c, ';')),
        None => {},
    }
}

} // verus!
