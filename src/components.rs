//! The registry of custom components: elements of the markdown source that
//! the embedding application renders itself, looked up by tag name, and the
//! reading of such elements.
use vstd::prelude::*;
use crate::textmap::TextMap;
use crate::token::{chars_of, push_char};

verus! {

/// Components by name.
#[derive(Clone)]
pub struct CustomComponents<C> {
    map: TextMap<C>,
}

impl<C> View for CustomComponents<C> {
    type V = Map<Seq<char>, C>;

    closed spec fn view(&self) -> Map<Seq<char>, C> {
        self.map@
    }
}

impl<C> CustomComponents<C> {
    /// An empty registry.
    pub fn new() -> (r: CustomComponents<C>)
        ensures
            r@ == Map::<Seq<char>, C>::empty(),
    {
        CustomComponents { map: TextMap::new() }
    }

    /// Registers `component` under `name`; a later registration under the
    /// same name replaces an earlier one.
    pub fn register(&mut self, name: &str, component: C)
        ensures
            final(self)@ == old(self)@.insert(name@, component),
    {
        self.map.insert(name, component);
    }

    /// Whether a component is registered under `name`.
    pub fn has_custom_component(&self, name: &str) -> (r: bool)
        ensures
            r == self@.contains_key(name@),
    {
        self.map.contains_key(name)
    }

    /// The component registered under `name`, if any.
    pub fn get(&self, name: &str) -> (r: Option<&C>)
        ensures
            match r {
                Some(c) => self@.contains_key(name@) && *c == self@[name@],
                None => !self@.contains_key(name@),
            },
    {
        self.map.get(name)
    }

    /// The names under which components are registered.
    pub fn names(&self) -> (r: Vec<String>)
        ensures
            forall|n: Seq<char>|
                r@.map_values(|x: String| x@).contains(n) <==> #[trigger] self@.contains_key(n),
    {
        self.map.keys()
    }
}

/// Blank characters between the parts of a tag.
pub open spec fn is_space(c: char) -> bool {
    c == ' ' || c == '\t' || c == '\n' || c == '\r'
}

/// Characters that may start a tag name.
pub open spec fn is_name_start(c: char) -> bool {
    ('a' <= c && c <= 'z') || ('A' <= c && c <= 'Z')
}

/// Characters of tag and attribute names.
pub open spec fn is_name_char(c: char) -> bool {
    is_name_start(c) || ('0' <= c && c <= '9') || c == '-' || c == '_' || c == ':' || c == '.'
}

/// The first index from `i` on where `s` holds no blank.
pub open spec fn skip_spaces(s: Seq<char>, i: int) -> int
    decreases s.len() - i,
{
    if i < 0 || i >= s.len() || !is_space(s[i]) {
        i
    } else {
        skip_spaces(s, i + 1)
    }
}

/// The first index from `i` on where `s` holds no name character.
pub open spec fn skip_name(s: Seq<char>, i: int) -> int
    decreases s.len() - i,
{
    if i < 0 || i >= s.len() || !is_name_char(s[i]) {
        i
    } else {
        skip_name(s, i + 1)
    }
}

/// The first index from `i` on where `s` holds a double quote, or its length.
pub open spec fn skip_to_quote(s: Seq<char>, i: int) -> int
    decreases s.len() - i,
{
    if i < 0 || i >= s.len() || s[i] == '"' {
        i
    } else {
        skip_to_quote(s, i + 1)
    }
}

/// The attributes written in `s` from index `i` up to the end of the tag
/// and the blanks after it, and whether the tag closes itself (`/>`) or
/// not (`>`): each attribute a name, with a value in double quotes after
/// `=`, or with an empty value where none is written.
pub open spec fn attributes_from(s: Seq<char>, i: int) -> Option<(Seq<(Seq<char>, Seq<char>)>, bool)>
    decreases s.len() - i,
{
    let j = skip_spaces(s, i);
    if i < 0 || j < i || j > s.len() {
        None
    } else if j + 2 <= s.len() && s[j] == '/' && s[j + 1] == '>' && skip_spaces(s, j + 2) == s.len() {
        Some((seq![], true))
    } else if j + 1 <= s.len() && s[j] == '>' && skip_spaces(s, j + 1) == s.len() {
        Some((seq![], false))
    } else {
        let e = skip_name(s, j);
        if e <= j || e > s.len() {
            None
        } else if e + 1 < s.len() && s[e] == '=' && s[e + 1] == '"' {
            let q = skip_to_quote(s, e + 2);
            if q < e + 2 || q >= s.len() {
                None
            } else {
                match attributes_from(s, q + 1) {
                    Some((rest, c)) => Some((seq![(s.subrange(j, e), s.subrange(e + 2, q))] + rest, c)),
                    None => None,
                }
            }
        } else {
            match attributes_from(s, e) {
                Some((rest, c)) => Some((seq![(s.subrange(j, e), Seq::<char>::empty())] + rest, c)),
                None => None,
            }
        }
    }
}

/// The name and attributes of `s` where it is one tag such as
/// `<Counter initial="5"/>` or `<Box>`, blanks around it allowed, and
/// whether it closes itself.
pub open spec fn component_tag(s: Seq<char>) -> Option<(Seq<char>, Seq<(Seq<char>, Seq<char>)>, bool)> {
    let b = skip_spaces(s, 0);
    if 0 <= b && b + 1 < s.len() && s[b] == '<' && is_name_start(s[b + 1]) {
        let e = skip_name(s, b + 1);
        if b + 1 < e && e <= s.len() {
            match attributes_from(s, e) {
                Some((a, c)) => Some((s.subrange(b + 1, e), a, c)),
                None => None,
            }
        } else {
            None
        }
    } else {
        None
    }
}

/// The name of `s` where it is one closing tag such as `</Box>`, blanks
/// around it allowed.
pub open spec fn closing_tag(s: Seq<char>) -> Option<Seq<char>> {
    let b = skip_spaces(s, 0);
    if 0 <= b && b + 2 < s.len() && s[b] == '<' && s[b + 1] == '/' && is_name_start(s[b + 2]) {
        let e = skip_name(s, b + 2);
        let k = skip_spaces(s, e);
        if b + 2 < e && e <= k && k < s.len() && s[k] == '>' && skip_spaces(s, k + 1) == s.len() {
            Some(s.subrange(b + 2, e))
        } else {
            None
        }
    } else {
        None
    }
}

proof fn lemma_skip_bounds(s: Seq<char>, i: int)
    requires
        0 <= i <= s.len(),
    ensures
        i <= skip_spaces(s, i) <= s.len(),
        i <= skip_name(s, i) <= s.len(),
        i <= skip_to_quote(s, i) <= s.len(),
    decreases s.len() - i,
{
    if i < s.len() {
        lemma_skip_bounds(s, i + 1);
    }
}

fn skip_spaces_exec(s: &Vec<char>, i: usize) -> (r: usize)
    requires
        i <= s@.len(),
    ensures
        r == skip_spaces(s@, i as int),
        i <= r <= s@.len(),
{
    let mut j = i;
    while j < s.len() && (s[j] == ' ' || s[j] == '\t' || s[j] == '\n' || s[j] == '\r')
        invariant
            i <= j <= s@.len(),
            skip_spaces(s@, i as int) == skip_spaces(s@, j as int),
        decreases s@.len() - j,
    {
        j = j + 1;
    }
    j
}

fn name_char(c: char) -> (r: bool)
    ensures
        r == is_name_char(c),
{
    ('a' <= c && c <= 'z') || ('A' <= c && c <= 'Z') || ('0' <= c && c <= '9') || c == '-' || c == '_'
        || c == ':' || c == '.'
}

fn skip_name_exec(s: &Vec<char>, i: usize) -> (r: usize)
    requires
        i <= s@.len(),
    ensures
        r == skip_name(s@, i as int),
        i <= r <= s@.len(),
{
    let mut j = i;
    while j < s.len() && name_char(s[j])
        invariant
            i <= j <= s@.len(),
            skip_name(s@, i as int) == skip_name(s@, j as int),
        decreases s@.len() - j,
    {
        j = j + 1;
    }
    j
}

fn skip_to_quote_exec(s: &Vec<char>, i: usize) -> (r: usize)
    requires
        i <= s@.len(),
    ensures
        r == skip_to_quote(s@, i as int),
        i <= r <= s@.len(),
{
    let mut j = i;
    while j < s.len() && s[j] != '"'
        invariant
            i <= j <= s@.len(),
            skip_to_quote(s@, i as int) == skip_to_quote(s@, j as int),
        decreases s@.len() - j,
    {
        j = j + 1;
    }
    j
}

/// The characters `s[from..to]` as a string.
fn string_of(s: &Vec<char>, from: usize, to: usize) -> (r: String)
    requires
        from <= to <= s@.len(),
    ensures
        r@ == s@.subrange(from as int, to as int),
{
    let mut r = String::new();
    let mut j = from;
    while j < to
        invariant
            from <= j <= to,
            to <= s@.len(),
            r@ == s@.subrange(from as int, j as int),
        decreases to - j,
    {
        push_char(&mut r, s[j]);
        j = j + 1;
        proof {
            assert(r@ =~= s@.subrange(from as int, j as int));
        }
    }
    r
}

/// The mathematical value of parsed attributes.
pub open spec fn pairs_view(a: Seq<(String, String)>) -> Seq<(Seq<char>, Seq<char>)> {
    a.map_values(|p: (String, String)| (p.0@, p.1@))
}

fn attributes_exec(s: &Vec<char>, i: usize) -> (r: Option<(Vec<(String, String)>, bool)>)
    requires
        i <= s@.len(),
    ensures
        match r {
            Some((a, c)) => attributes_from(s@, i as int) == Some((pairs_view(a@), c)),
            None => attributes_from(s@, i as int) is None,
        },
    decreases s@.len() - i,
{
    let j = skip_spaces_exec(s, i);
    if j < s.len() && s.len() - j >= 2 && s[j] == '/' && s[j + 1] == '>' && skip_spaces_exec(s, j + 2) == s.len() {
        let v: Vec<(String, String)> = Vec::new();
        proof {
            assert(pairs_view(v@) =~= Seq::<(Seq<char>, Seq<char>)>::empty());
        }
        return Some((v, true));
    }
    if j < s.len() && s[j] == '>' && skip_spaces_exec(s, j + 1) == s.len() {
        let v: Vec<(String, String)> = Vec::new();
        proof {
            assert(pairs_view(v@) =~= Seq::<(Seq<char>, Seq<char>)>::empty());
        }
        return Some((v, false));
    }
    let e = skip_name_exec(s, j);
    if e <= j {
        return None;
    }
    let key = string_of(s, j, e);
    let (value, next) = if e < s.len() && s.len() - e > 1 && s[e] == '=' && s[e + 1] == '"' {
        let q = skip_to_quote_exec(s, e + 2);
        if q >= s.len() {
            return None;
        }
        (string_of(s, e + 2, q), q + 1)
    } else {
        let v = String::new();
        (v, e)
    };
    match attributes_exec(s, next) {
        Some((rest, c)) => {
            let mut out = rest;
            out.insert(0, (key, value));
            proof {
                let first = seq![(key@, value@)];
                assert(pairs_view(out@) =~= first + pairs_view(rest@));
            }
            Some((out, c))
        },
        None => None,
    }
}

/// Reads `s` as one tag: its name, its attributes in order, and whether it
/// closes itself.
pub fn parse_component(s: &str) -> (r: Option<(String, Vec<(String, String)>, bool)>)
    ensures
        match r {
            Some((n, a, c)) => component_tag(s@) == Some((n@, pairs_view(a@), c)),
            None => component_tag(s@) is None,
        },
{
    let cs = chars_of(s);
    let b = skip_spaces_exec(&cs, 0);
    if b < cs.len() && cs.len() - b > 1 && cs[b] == '<' && (('a' <= cs[b + 1] && cs[b + 1] <= 'z') || ('A' <= cs[b + 1]
        && cs[b + 1] <= 'Z')) {
        let e = skip_name_exec(&cs, b + 1);
        if b + 1 < e {
            match attributes_exec(&cs, e) {
                Some((a, c)) => Some((string_of(&cs, b + 1, e), a, c)),
                None => None,
            }
        } else {
            None
        }
    } else {
        None
    }
}

/// Reads `s` as one closing tag: its name.
pub fn parse_closing_tag(s: &str) -> (r: Option<String>)
    ensures
        match r {
            Some(n) => closing_tag(s@) == Some(n@),
            None => closing_tag(s@) is None,
        },
{
    let cs = chars_of(s);
    let b = skip_spaces_exec(&cs, 0);
    if b < cs.len() && cs.len() - b > 2 && cs[b] == '<' && cs[b + 1] == '/' && (('a' <= cs[b + 2] && cs[b + 2]
        <= 'z') || ('A' <= cs[b + 2] && cs[b + 2] <= 'Z')) {
        let e = skip_name_exec(&cs, b + 2);
        let k = skip_spaces_exec(&cs, e);
        if b + 2 < e && k < cs.len() && cs[k] == '>' && skip_spaces_exec(&cs, k + 1) == cs.len() {
            Some(string_of(&cs, b + 2, e))
        } else {
            None
        }
    } else {
        None
    }
}

} // verus!
