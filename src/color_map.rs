use vstd::prelude::*;

use itertools::Itertools;

use crate::color::{hex_color, Color, ColorError, ErrorKind};

verus! {

/// The table that a list of `(name, color)` entries stands for: entries are
/// applied in order, so a later entry for a name replaces an earlier one.
pub open spec fn entries_map(s: Seq<(String, Color)>) -> Map<Seq<char>, Color>
    decreases s.len(),
{
    if s.len() == 0 {
        Map::empty()
    } else {
        entries_map(s.drop_last()).insert(s.last().0@, s.last().1)
    }
}

/// What looking `name` up in the table `m` gives.
pub open spec fn lookup(m: Map<Seq<char>, Color>, name: Seq<char>) -> Option<Color> {
    if m.contains_key(name) {
        Some(m[name])
    } else {
        None
    }
}

/// `s[i]` is the last entry of `s` for the name `k`.
pub open spec fn is_last_entry(s: Seq<(String, Color)>, i: int, k: Seq<char>) -> bool {
    &&& 0 <= i < s.len()
    &&& s[i].0@ == k
    &&& forall|j: int| i < j < s.len() ==> s[j].0@ != k
}

proof fn lemma_absent(s: Seq<(String, Color)>, k: Seq<char>)
    requires
        forall|j: int| 0 <= j < s.len() ==> s[j].0@ != k,
    ensures
        !entries_map(s).contains_key(k),
    decreases s.len(),
{
    if s.len() > 0 {
        lemma_absent(s.drop_last(), k);
    }
}

proof fn lemma_last_entry(s: Seq<(String, Color)>, i: int, k: Seq<char>)
    requires
        is_last_entry(s, i, k),
    ensures
        entries_map(s).contains_key(k),
        entries_map(s)[k] == s[i].1,
    decreases s.len(),
{
    if i < s.len() - 1 {
        lemma_last_entry(s.drop_last(), i, k);
    }
}

proof fn lemma_replace_last_entry(s: Seq<(String, Color)>, i: int, e: (String, Color))
    requires
        is_last_entry(s, i, e.0@),
    ensures
        entries_map(s.update(i, e)) == entries_map(s).insert(e.0@, e.1),
    decreases s.len(),
{
    let t = s.update(i, e);
    if i == s.len() - 1 {
        assert(t.drop_last() == s.drop_last());
        assert(entries_map(t) =~= entries_map(s).insert(e.0@, e.1));
    } else {
        assert(t.drop_last() == s.drop_last().update(i, e));
        lemma_replace_last_entry(s.drop_last(), i, e);
        assert(entries_map(t) =~= entries_map(s).insert(e.0@, e.1));
    }
}

/// The pattern that separates a name from its color on a configuration line: a
/// run of whitespace.
pub const SEPARATOR: &'static str = "([\\s\\t]+)";

/// The lines of `rest`, where `cur` holds the characters read so far of a line
/// not yet ended: a `\n` ends a line and is dropped, with a `\r` just before it;
/// the last line needs no `\n` and keeps a bare `\r` at its end.
pub open spec fn lines_after(cur: Seq<char>, rest: Seq<char>) -> Seq<Seq<char>>
    decreases rest.len(),
{
    if rest.len() == 0 {
        if cur.len() == 0 {
            Seq::empty()
        } else {
            seq![cur]
        }
    } else if rest[0] == '\n' {
        let line = if cur.len() > 0 && cur.last() == '\r' {
            cur.drop_last()
        } else {
            cur
        };
        seq![line] + lines_after(Seq::empty(), rest.drop_first())
    } else {
        lines_after(cur.push(rest[0]), rest.drop_first())
    }
}

/// The lines of a text, split at `\n` or `\r\n`, without their line endings.
/// A text that ends in a line ending has no empty line after it; an empty text
/// has no lines.
pub open spec fn lines_of(text: Seq<char>) -> Seq<Seq<char>> {
    lines_after(Seq::empty(), text)
}

/// What splitting `haystack` at the matches of the regular expression `pattern` gives.
pub uninterp spec fn regex_split(pattern: Seq<char>, haystack: Seq<char>) -> Seq<Seq<char>>;

/// Relies on `str::lines`, documented to split at `\n` or `\r\n`, to drop the
/// line endings, to give no empty line after a final line ending, and to keep a
/// bare `\r` at the end of the last line.
#[verifier::external_body]
fn text_lines(text: &str) -> (r: Vec<String>)
    ensures
        r.deep_view() == lines_of(text@),
{
    text.lines().map(String::from).collect()
}

/// Relies on `regex::Regex::new` and `regex::Regex::split`: `None` where `pattern`
/// does not compile, else the pieces of `haystack` between the matches of
/// `pattern`, in order. `Regex::new` fails only on an invalid pattern or one over
/// the default size limit of 10 MiB; `SEPARATOR` is neither.
#[verifier::external_body]
fn split_fields(pattern: &str, haystack: &str) -> (r: Option<Vec<String>>)
    ensures
        pattern@ == SEPARATOR@ ==> r is Some,
        r matches Some(v) ==> v.deep_view() == regex_split(pattern@, haystack@),
{
    match regex::Regex::new(pattern) {
        Ok(re) => Some(re.split(haystack).map(String::from).collect()),
        Err(_) => None,
    }
}

/// Relies on itertools' `collect_tuple`, which gives `Some` exactly when the
/// iterator yields as many items as the tuple has places: here the two fields.
#[verifier::external_body]
fn as_pair(fields: &Vec<String>) -> (r: Option<(&String, &String)>)
    ensures
        r is Some <==> fields@.len() == 2,
        r matches Some(p) ==> *p.0 == fields@[0] && *p.1 == fields@[1],
{
    fields.iter().collect_tuple()
}

/// The table that lines already split into fields stand for, in order. A line
/// counts where it has exactly two fields, a name and a color that parses;
/// any other line is skipped.
pub open spec fn records_map(recs: Seq<Seq<Seq<char>>>) -> Map<Seq<char>, Color>
    decreases recs.len(),
{
    if recs.len() == 0 {
        Map::empty()
    } else {
        let m = records_map(recs.drop_last());
        let rec = recs.last();
        if rec.len() == 2 && hex_color(rec[1]) is Ok {
            m.insert(rec[0], hex_color(rec[1])->Ok_0)
        } else {
            m
        }
    }
}

/// The lines of a configuration text, each split into fields at `SEPARATOR`.
pub open spec fn text_records(text: Seq<char>) -> Seq<Seq<Seq<char>>> {
    lines_of(text).map_values(|l: Seq<char>| regex_split(SEPARATOR@, l))
}

/// Of a malformed line and a well-formed one, in either order, only the
/// well-formed line makes an entry.
pub proof fn lemma_malformed_line_skipped(bad: Seq<Seq<char>>, name: Seq<char>, hex: Seq<char>)
    requires
        !(bad.len() == 2 && hex_color(bad[1]) is Ok),
        hex_color(hex) is Ok,
    ensures
        records_map(seq![bad, seq![name, hex]]) == map![name => hex_color(hex)->Ok_0],
        records_map(seq![seq![name, hex], bad]) == map![name => hex_color(hex)->Ok_0],
{
    let good = seq![name, hex];
    let one = seq![bad, good];
    let other = seq![good, bad];
    assert(one.drop_last() == seq![bad]);
    assert(seq![bad].drop_last() == Seq::<Seq<Seq<char>>>::empty());
    assert(other.drop_last() == seq![good]);
    assert(seq![good].drop_last() == Seq::<Seq<Seq<char>>>::empty());
    let c = hex_color(hex)->Ok_0;
    assert(good.len() == 2 && good[0] == name && good[1] == hex);
    assert(records_map(Seq::<Seq<Seq<char>>>::empty()) == Map::<Seq<char>, Color>::empty());
    assert(records_map(seq![bad]) == Map::<Seq<char>, Color>::empty());
    assert(records_map(seq![good]) == Map::<Seq<char>, Color>::empty().insert(name, c));
    assert(records_map(one) == Map::<Seq<char>, Color>::empty().insert(name, c));
    assert(records_map(other) == Map::<Seq<char>, Color>::empty().insert(name, c));
    assert(map![name => c] =~= Map::<Seq<char>, Color>::empty().insert(name, c));
}

/// A name that the table lacks looks up to `None`; a name looks up to the color
/// last inserted for it; inserting for one name leaves the others as they were.
pub proof fn lemma_lookup_after_insert(
    m: Map<Seq<char>, Color>,
    name: Seq<char>,
    other: Seq<char>,
    c1: Color,
    c2: Color,
)
    ensures
        !m.contains_key(name) ==> lookup(m, name) is None,
        lookup(m.insert(name, c1), name) == Some(c1),
        lookup(m.insert(name, c1).insert(name, c2), name) == Some(c2),
        other != name ==> lookup(m.insert(name, c1), other) == lookup(m, other),
{
}

/// A table from color names to colors. Names are compared exactly, case included.
/// The entries are kept in a `Vec`: vstd models a `HashMap`'s contents only for
/// key types it knows to hash and compare by value, and `String` is not one, so
/// with a `HashMap<String, Color>` not even the length after one insert is proved.
pub struct ColorMap {
    entries: Vec<(String, Color)>,
}

impl View for ColorMap {
    type V = Map<Seq<char>, Color>;

    closed spec fn view(&self) -> Map<Seq<char>, Color> {
        entries_map(self.entries@)
    }
}

impl Default for ColorMap {
    /// An empty table.
    fn default() -> (m: ColorMap)
        ensures
            m@ == Map::<Seq<char>, Color>::empty(),
    {
        ColorMap::new()
    }
}

impl ColorMap {
    /// An empty table.
    pub fn new() -> (m: ColorMap)
        ensures
            m@ == Map::<Seq<char>, Color>::empty(),
    {
        ColorMap { entries: Vec::new() }
    }

    /// The position of the last entry for `name`, if there is one.
    fn find(&self, name: &String) -> (r: Option<usize>)
        ensures
            match r {
                Some(i) => is_last_entry(self.entries@, i as int, name@),
                None => forall|j: int|
                    0 <= j < self.entries@.len() ==> self.entries@[j].0@ != name@,
            },
    {
        let mut i: usize = self.entries.len();
        while i > 0
            invariant
                i <= self.entries@.len(),
                forall|j: int| i <= j < self.entries@.len() ==> self.entries@[j].0@ != name@,
            decreases i,
        {
            i = i - 1;
            if self.entries[i].0 == *name {
                return Some(i);
            }
        }
        None
    }

    /// Sets the color of `name`, replacing the one it had.
    pub fn insert(&mut self, name: &str, c: Color)
        ensures
            final(self)@ == old(self)@.insert(name@, c),
    {
        let key = name.to_owned();
        match self.find(&key) {
            Some(i) => {
                proof {
                    lemma_replace_last_entry(self.entries@, i as int, (key, c));
                }
                self.entries.set(i, (key, c));
            },
            None => {
                let ghost s = self.entries@;
                self.entries.push((key, c));
                assert(self.entries@.drop_last() == s);
            },
        }
    }

    /// Builds a table from lines already split into fields: a line with a name
    /// and a hex color adds that entry, a later line for a name wins, and any
    /// other line is skipped.
    pub fn from_records(records: &Vec<Vec<String>>) -> (m: ColorMap)
        ensures
            m@ == records_map(records.deep_view()),
    {
        let mut m = ColorMap::new();
        let mut i: usize = 0;
        while i < records.len()
            invariant
                i <= records@.len(),
                m@ == records_map(records.deep_view().take(i as int)),
            decreases records@.len() - i,
        {
            let ghost done = records.deep_view().take(i as int);
            assert(records.deep_view().take(i + 1).drop_last() == done);
            match as_pair(&records[i]) {
                Some((name, hex)) => {
                    match Color::from_hex(hex.as_str()) {
                        Ok(c) => m.insert(name.as_str(), c),
                        Err(_) => {},
                    }
                },
                None => {},
            }
            i = i + 1;
        }
        assert(records.deep_view().take(records@.len() as int) == records.deep_view());
        m
    }

    /// Builds a table from the text of a configuration: one `name color` entry per
    /// line, split at `SEPARATOR`, as `from_records` reads them.
    pub fn from_text(text: &str) -> (m: ColorMap)
        ensures
            m@ == records_map(text_records(text@)),
            text@.len() == 0 ==> m@ == Map::<Seq<char>, Color>::empty(),
    {
        let lines = text_lines(text);
        let mut records: Vec<Vec<String>> = Vec::new();
        let mut i: usize = 0;
        while i < lines.len()
            invariant
                i <= lines@.len(),
                lines.deep_view() == lines_of(text@),
                records.deep_view() == text_records(text@).take(i as int),
            decreases lines@.len() - i,
        {
            let fields = split_fields(SEPARATOR, lines[i].as_str()).unwrap();
            let ghost before = records.deep_view();
            records.push(fields);
            assert(records.deep_view() =~= before.push(fields.deep_view()));
            assert(text_records(text@).take(i + 1) =~= text_records(text@).take(i as int).push(
                regex_split(SEPARATOR@, lines_of(text@)[i as int]),
            ));
            i = i + 1;
        }
        assert(text_records(text@).take(lines@.len() as int) =~= text_records(text@));
        proof {
            if text@.len() == 0 {
                assert(text_records(text@) =~= Seq::<Seq<Seq<char>>>::empty());
            }
        }
        ColorMap::from_records(&records)
    }

    /// Builds a table from a configuration that may have been read: `None`, a
    /// source that could not be read, is `SourceNotFound`; a text always loads,
    /// as `from_text` reads it.
    pub fn from_source(contents: Option<&str>) -> (r: Result<ColorMap, ColorError>)
        ensures
            contents is None ==> (r matches Err(e) && e.kind == ErrorKind::SourceNotFound),
            contents matches Some(t) ==> (r matches Ok(m) && m@ == records_map(text_records(t@))),
    {
        match contents {
            Some(t) => Ok(ColorMap::from_text(t)),
            None => Err(ColorError::new(ErrorKind::SourceNotFound)),
        }
    }

    /// The color of `name`, or `None` where the table has no entry for it.
    pub fn get(&self, name: &str) -> (r: Option<Color>)
        ensures
            r == lookup(self@, name@),
    {
        let key = name.to_owned();
        match self.find(&key) {
            Some(i) => {
                proof {
                    lemma_last_entry(self.entries@, i as int, key@);
                }
                Some(self.entries[i].1)
            },
            None => {
                proof {
                    lemma_absent(self.entries@, key@);
                }
                None
            },
        }
    }
}

} // verus!
