//! The ordered list of template names a prototype inherits from.
//!
//! Insertion order is significant: it is the tie-break order for merge
//! conflicts during resolution. A template list can be built from an explicit
//! ordered sequence of names, or from a single comma-delimited string whose
//! segments are trimmed of surrounding whitespace.

use vstd::prelude::*;

verus! {

/// Whitespace that is trimmed from the ends of a comma-delimited segment:
/// every character with the Unicode `White_Space` property, the same set
/// `char::is_whitespace` recognizes.
pub open spec fn is_blank(c: char) -> bool {
    c == ' ' || c == '\t' || c == '\n' || c == '\u{000B}' || c == '\u{000C}' || c == '\r'
        || c == '\u{0085}' || c == '\u{00A0}' || c == '\u{1680}' || c == '\u{2000}'
        || c == '\u{2001}' || c == '\u{2002}' || c == '\u{2003}' || c == '\u{2004}'
        || c == '\u{2005}' || c == '\u{2006}' || c == '\u{2007}' || c == '\u{2008}'
        || c == '\u{2009}' || c == '\u{200A}' || c == '\u{2028}' || c == '\u{2029}'
        || c == '\u{202F}' || c == '\u{205F}' || c == '\u{3000}'
}

/// `s` without its leading blanks.
pub open spec fn trim_front(s: Seq<char>) -> Seq<char>
    decreases s.len(),
{
    if s.len() > 0 && is_blank(s[0]) {
        trim_front(s.drop_first())
    } else {
        s
    }
}

/// `s` without its trailing blanks.
pub open spec fn trim_back(s: Seq<char>) -> Seq<char>
    decreases s.len(),
{
    if s.len() > 0 && is_blank(s.last()) {
        trim_back(s.drop_last())
    } else {
        s
    }
}

/// `s` without leading and trailing blanks.
pub open spec fn trimmed(s: Seq<char>) -> Seq<char> {
    trim_back(trim_front(s))
}

/// The position of the first comma of `s`, or `s.len()` if there is none.
pub open spec fn first_comma(s: Seq<char>) -> int
    decreases s.len(),
{
    if s.len() == 0 {
        0
    } else if s[0] == ',' {
        0
    } else {
        1 + first_comma(s.drop_first())
    }
}

pub proof fn lemma_first_comma(s: Seq<char>)
    ensures
        0 <= first_comma(s) <= s.len(),
        first_comma(s) < s.len() ==> s[first_comma(s)] == ',',
        forall|j: int| 0 <= j < first_comma(s) ==> s[j] != ',',
    decreases s.len(),
{
    if s.len() > 0 && s[0] != ',' {
        let ss = s.drop_first();
        lemma_first_comma(ss);
        let k = first_comma(ss);
        assert forall|j: int| 0 <= j < 1 + k implies s[j] != ',' by {
            if j > 0 {
                assert(s[j] == ss[j - 1]);
            }
        }
        if k < ss.len() {
            assert(s[1 + k] == ss[k]);
        }
    }
}

/// The comma-separated segments of `s`, in order; a string without commas is
/// one segment, and every comma separates two segments.
pub open spec fn comma_split(s: Seq<char>) -> Seq<Seq<char>>
    decreases s.len(),
{
    let i = first_comma(s);
    if i >= s.len() {
        seq![s]
    } else {
        proof {
            lemma_first_comma(s);
        }
        seq![s.take(i)] + comma_split(s.skip(i + 1))
    }
}

/// What parsing a comma-delimited template string yields: its segments,
/// each trimmed of surrounding whitespace.
pub open spec fn parse_template_names(s: Seq<char>) -> Seq<Seq<char>> {
    comma_split(s).map_values(|t: Seq<char>| trimmed(t))
}

/// A name as the explicit-sequence form carries it: free of commas and of
/// surrounding whitespace.
pub open spec fn clean_name(s: Seq<char>) -> bool {
    &&& forall|i: int| 0 <= i < s.len() ==> s[i] != ','
    &&& trimmed(s) == s
}

/// The names joined into one comma-delimited string.
pub open spec fn join_commas(names: Seq<Seq<char>>) -> Seq<char>
    decreases names.len(),
{
    if names.len() == 0 {
        Seq::empty()
    } else if names.len() == 1 {
        names[0]
    } else {
        names[0] + seq![','] + join_commas(names.drop_first())
    }
}

/// The two accepted encodings agree: parsing the comma-joined form of any
/// non-empty sequence of clean names yields exactly that sequence, the
/// same template list the explicit-sequence form constructs.
pub proof fn lemma_parse_of_join(names: Seq<Seq<char>>)
    requires
        names.len() > 0,
        forall|i: int| 0 <= i < names.len() ==> clean_name(#[trigger] names[i]),
    ensures
        parse_template_names(join_commas(names)) == names,
    decreases names.len(),
{
    let tr = |t: Seq<char>| trimmed(t);
    if names.len() == 1 {
        let s = names[0];
        lemma_first_comma_none(s);
        assert(parse_template_names(s) =~= seq![s]);
    } else {
        let head = names[0];
        let rest = names.drop_first();
        let joined = join_commas(names);
        let rest_joined = join_commas(rest);
        assert(joined == head + seq![','] + rest_joined);
        assert forall|j: int| 0 <= j < head.len() implies joined[j] != ',' by {
            assert(joined[j] == head[j]);
        }
        assert(joined[head.len() as int] == ',');
        lemma_first_comma_at(joined, head.len() as int);
        assert(joined.take(head.len() as int) =~= head);
        assert(joined.skip(head.len() as int + 1) =~= rest_joined);
        assert forall|i: int| 0 <= i < rest.len() implies clean_name(#[trigger] rest[i]) by {
            assert(rest[i] == names[i + 1]);
        }
        lemma_parse_of_join(rest);
        assert(comma_split(joined) == seq![head] + comma_split(rest_joined));
        assert(parse_template_names(joined) =~= seq![trimmed(head)] + comma_split(
            rest_joined,
        ).map_values(tr));
        assert(parse_template_names(rest_joined) == comma_split(rest_joined).map_values(tr));
        assert(parse_template_names(joined) =~= names);
    }
}

/// Whether `c` is whitespace that segment trimming removes.
pub fn is_blank_char(c: char) -> (r: bool)
    ensures
        r == is_blank(c),
{
    c == ' ' || c == '\t' || c == '\n' || c == '\u{000B}' || c == '\u{000C}' || c == '\r'
        || c == '\u{0085}' || c == '\u{00A0}' || c == '\u{1680}' || c == '\u{2000}'
        || c == '\u{2001}' || c == '\u{2002}' || c == '\u{2003}' || c == '\u{2004}'
        || c == '\u{2005}' || c == '\u{2006}' || c == '\u{2007}' || c == '\u{2008}'
        || c == '\u{2009}' || c == '\u{200A}' || c == '\u{2028}' || c == '\u{2029}'
        || c == '\u{202F}' || c == '\u{205F}' || c == '\u{3000}'
}

/// The characters of `src` between `start` and `end`, trimmed of surrounding
/// whitespace.
fn trim_segment(src: &str, start: usize, end: usize) -> (t: String)
    requires
        start <= end <= src@.len(),
    ensures
        t@ == trimmed(src@.subrange(start as int, end as int)),
{
    let ghost seg = src@.subrange(start as int, end as int);
    let mut a = start;
    while a < end && is_blank_char(src.get_char(a))
        invariant
            start <= a <= end <= src@.len(),
            trim_front(seg) == trim_front(src@.subrange(a as int, end as int)),
        decreases end - a,
    {
        proof {
            let cur = src@.subrange(a as int, end as int);
            assert(cur.drop_first() =~= src@.subrange(a as int + 1, end as int));
        }
        a += 1;
    }
    proof {
        let cur = src@.subrange(a as int, end as int);
        assert(trim_front(cur) == cur);
    }
    let mut b = end;
    while b > a && is_blank_char(src.get_char(b - 1))
        invariant
            a <= b <= end <= src@.len(),
            trim_front(seg) == src@.subrange(a as int, end as int),
            trim_back(src@.subrange(a as int, end as int)) == trim_back(
                src@.subrange(a as int, b as int),
            ),
        decreases b,
    {
        proof {
            let cur = src@.subrange(a as int, b as int);
            assert(cur.last() == src@[b - 1]);
            assert(cur.drop_last() =~= src@.subrange(a as int, b as int - 1));
        }
        b -= 1;
    }
    proof {
        let cur = src@.subrange(a as int, b as int);
        assert(trim_back(cur) == cur);
    }
    let piece = src.substring_char(a, b);
    piece.to_owned()
}

/// An ordered sequence of template names.
#[derive(Debug, PartialEq, Eq)]
pub struct TemplateList {
    names: Vec<String>,
}

impl View for TemplateList {
    type V = Seq<Seq<char>>;

    closed spec fn view(&self) -> Seq<Seq<char>> {
        self.names.deep_view()
    }
}

impl Clone for TemplateList {
    fn clone(&self) -> (r: Self)
        ensures
            r@ == self@,
    {
        let mut names: Vec<String> = Vec::new();
        let n = self.names.len();
        let mut i: usize = 0;
        while i < n
            invariant
                0 <= i <= n,
                n == self.names@.len(),
                names@.len() == i,
                forall|j: int| 0 <= j < i ==> names@[j]@ == self.names@[j]@,
            decreases n - i,
        {
            names.push(self.names[i].clone());
            i += 1;
        }
        let r = TemplateList { names };
        proof {
            assert(r@ =~= self@);
        }
        r
    }
}

impl Default for TemplateList {
    /// An empty template list.
    fn default() -> (r: Self)
        ensures
            r@ == Seq::<Seq<char>>::empty(),
    {
        let r = TemplateList { names: Vec::new() };
        proof {
            assert(r@ =~= Seq::<Seq<char>>::empty());
        }
        r
    }
}

impl TemplateList {
    /// A template list holding exactly `names`, in that order.
    pub fn new(names: Vec<String>) -> (r: TemplateList)
        ensures
            r@ == names.deep_view(),
    {
        TemplateList { names }
    }

    /// Parses one comma-delimited string: the string is split on commas and
    /// each segment is trimmed of surrounding whitespace.
    pub fn from_comma_separated(src: &str) -> (r: TemplateList)
        ensures
            r@ == parse_template_names(src@),
    {
        let n = src.unicode_len();
        let mut names: Vec<String> = Vec::new();
        let mut start: usize = 0;
        let mut i: usize = 0;
        proof {
            assert(src@.skip(0) =~= src@);
        }
        while i < n
            invariant
                0 <= start <= i <= n,
                n == src@.len(),
                forall|j: int| start <= j < i ==> src@[j] != ',',
                parse_template_names(src@) =~= names.deep_view() + comma_split(
                    src@.skip(start as int),
                ).map_values(|t: Seq<char>| trimmed(t)),
            decreases n - i,
        {
            if src.get_char(i) == ',' {
                let ghost rest = src@.skip(start as int);
                let ghost prev = names.deep_view();
                proof {
                    assert forall|j: int| 0 <= j < i - start implies rest[j] != ',' by {
                        assert(rest[j] == src@[start + j]);
                    }
                    assert(rest[i - start] == src@[i as int]);
                    lemma_first_comma_at(rest, i - start);
                    assert(rest.take(i - start) =~= src@.subrange(start as int, i as int));
                    assert(rest.skip(i - start + 1) =~= src@.skip(i as int + 1));
                    assert(comma_split(rest) == seq![src@.subrange(start as int, i as int)]
                        + comma_split(src@.skip(i as int + 1)));
                }
                let seg = trim_segment(src, start, i);
                names.push(seg);
                proof {
                    let tr = |t: Seq<char>| trimmed(t);
                    assert(comma_split(rest).map_values(tr) =~= seq![
                        trimmed(src@.subrange(start as int, i as int)),
                    ] + comma_split(src@.skip(i as int + 1)).map_values(tr));
                    assert(names.deep_view() =~= prev.push(
                        trimmed(src@.subrange(start as int, i as int)),
                    ));
                    assert(parse_template_names(src@) =~= names.deep_view() + comma_split(
                        src@.skip(i as int + 1),
                    ).map_values(tr));
                }
                start = i + 1;
            }
            i += 1;
        }
        let ghost prev = names.deep_view();
        proof {
            let rest = src@.skip(start as int);
            assert forall|j: int| 0 <= j < rest.len() implies rest[j] != ',' by {
                assert(rest[j] == src@[start + j]);
            }
            lemma_first_comma_none(rest);
            assert(rest =~= src@.subrange(start as int, n as int));
            let tr = |t: Seq<char>| trimmed(t);
            assert(comma_split(rest).map_values(tr) =~= seq![trimmed(rest)]);
        }
        let seg = trim_segment(src, start, n);
        names.push(seg);
        let r = TemplateList { names };
        proof {
            assert(r@ =~= prev.push(trimmed(src@.subrange(start as int, n as int))));
            assert(r@ =~= parse_template_names(src@));
        }
        r
    }

    /// Whether the list holds no names.
    pub fn is_empty(&self) -> (r: bool)
        ensures
            r == (self@.len() == 0),
    {
        self.names.len() == 0
    }

    /// How many names the list holds.
    pub fn len(&self) -> (n: usize)
        ensures
            n == self@.len(),
    {
        self.names.len()
    }

    /// The name at position `i`, in defined order.
    pub fn get(&self, i: usize) -> (r: &String)
        requires
            i < self@.len(),
        ensures
            r@ == self@[i as int],
    {
        &self.names[i]
    }

    /// The names in original insertion order, as a restartable sequence.
    pub fn iter_defined_order(&self) -> (r: &Vec<String>)
        ensures
            r.deep_view() == self@,
    {
        &self.names
    }
}

/// If `s` has no comma before `i` and a comma at `i`, then `i` is the first.
proof fn lemma_first_comma_at(s: Seq<char>, i: int)
    requires
        0 <= i < s.len(),
        s[i] == ',',
        forall|j: int| 0 <= j < i ==> s[j] != ',',
    ensures
        first_comma(s) == i,
{
    lemma_first_comma(s);
    let f = first_comma(s);
    if f < i {
        assert(s[f] == ',');
    }
}

/// A string without commas is a single segment.
proof fn lemma_first_comma_none(s: Seq<char>)
    requires
        forall|j: int| 0 <= j < s.len() ==> s[j] != ',',
    ensures
        first_comma(s) == s.len(),
        comma_split(s) == seq![s],
{
    lemma_first_comma(s);
    let f = first_comma(s);
    if f < s.len() {
        assert(s[f] == ',');
    }
}

} // verus!
