//! Macro definitions handed to the preprocessor.
//!
//! A definition is written `NAME` or `NAME=VALUE`. The text is split at the
//! first `=`. What stands behind it is a quoted literal: a value that
//! starts and ends with the same quote character loses that pair, and what
//! is left is unescaped. A value with an escape sequence that cannot be
//! read leaves the name defined without text.

use crate::text::str_equal;
use vstd::prelude::*;

verus! {

/// What unescaping makes of `s`: the text with each escape sequence
/// replaced, or `None` where one of them cannot be read.
pub uninterp spec fn unescaped(s: Seq<char>) -> Option<Seq<char>>;

/// Calls `enquote::unescape` with no illegal character.
///
/// Trusted: the result is a function of the text alone, and a text without
/// a backslash comes back unchanged (every character but a backslash is
/// copied as it is).
#[verifier::external_body]
fn unescape(s: &str) -> (r: Option<String>)
    ensures
        r.deep_view() == unescaped(s@),
        !s@.contains('\\') ==> r.deep_view() == Some(s@),
{
    enquote::unescape(s, None).ok()
}

/// One macro definition: a name, and the text it stands for if it has one.
pub struct Define {
    pub identifier: String,
    pub text: Option<String>,
}

/// Mathematical value of a [`Define`].
pub struct DefineView {
    pub identifier: Seq<char>,
    pub text: Option<Seq<char>>,
}

impl View for Define {
    type V = DefineView;

    open spec fn view(&self) -> DefineView {
        DefineView { identifier: self.identifier@, text: self.text.deep_view() }
    }
}

impl DeepView for Define {
    type V = DefineView;

    open spec fn deep_view(&self) -> DefineView {
        self@
    }
}

/// Index of the first `=` of `s` at or behind `from`; the length of `s`
/// where there is none.
pub open spec fn first_equals(s: Seq<char>, from: int) -> int
    decreases s.len() - from,
{
    if from >= s.len() {
        s.len() as int
    } else if s[from] == '=' {
        from
    } else {
        first_equals(s, from + 1)
    }
}

/// Whether `s` has a value part: whether it holds a `=`.
pub open spec fn has_value(s: Seq<char>) -> bool {
    first_equals(s, 0) < s.len()
}

/// What stands before the first `=` of `s`; all of `s` where it holds
/// none.
pub open spec fn written_name(s: Seq<char>) -> Seq<char> {
    s.subrange(0, first_equals(s, 0))
}

/// What stands behind the first `=` of `s`, as written.
pub open spec fn written_value(s: Seq<char>) -> Seq<char> {
    s.subrange(first_equals(s, 0) + 1, s.len() as int)
}

/// Whether `c` is a quote character: one of those that the unescaping
/// knows as quotes.
pub open spec fn is_quote(c: char) -> bool {
    c == '"' || c == '\'' || c == '`'
}

/// Whether `value` stands in quotes: whether it starts with a quote
/// character and ends with the same one.
pub open spec fn is_quoted(value: Seq<char>) -> bool {
    value.len() >= 2 && is_quote(value[0]) && value[value.len() - 1] == value[0]
}

/// The inside of the literal `value`: the value without its pair of
/// quotes, where it stands in quotes; else the value.
pub open spec fn literal_inside(value: Seq<char>) -> Seq<char> {
    if is_quoted(value) {
        value.subrange(1, value.len() - 1)
    } else {
        value
    }
}

/// The text that the value `value` stands for: the inside of the literal,
/// unescaped; `None` where it cannot be unescaped.
pub open spec fn value_text(value: Seq<char>) -> Option<Seq<char>> {
    unescaped(literal_inside(value))
}

/// The definition that the string `s` declares.
pub open spec fn define_of(s: Seq<char>) -> DefineView {
    DefineView {
        identifier: written_name(s),
        text: if has_value(s) {
            value_text(written_value(s))
        } else {
            None
        },
    }
}

/// `first_equals` finds the least index from `from` on that holds `=`.
pub proof fn lemma_first_equals(s: Seq<char>, from: int)
    requires
        0 <= from <= s.len(),
    ensures
        from <= first_equals(s, from) <= s.len(),
        forall|i: int| from <= i < first_equals(s, from) ==> s[i] != '=',
        first_equals(s, from) < s.len() ==> s[first_equals(s, from)] == '=',
    decreases s.len() - from,
{
    if from < s.len() && s[from] != '=' {
        lemma_first_equals(s, from + 1);
    }
}

/// Index of the first `=` of `s`, counted in characters; the length of `s`
/// where it holds none.
fn find_equals(s: &str) -> (cut: usize)
    ensures
        cut == first_equals(s@, 0),
        cut <= s@.len(),
{
    let n: usize = s.unicode_len();
    let mut cut: usize = 0;
    let mut found = false;
    for c in it: s.chars()
        invariant
            n == s@.len(),
            it.seq() == s@,
            found ==> cut == first_equals(s@, 0) && cut < it.index(),
            !found ==> cut == it.index() && first_equals(s@, cut as int) == first_equals(s@, 0),
    {
        if !found {
            if c == '=' {
                found = true;
            } else {
                cut += 1;
            }
        }
    }
    cut
}

/// Splits a definition string at its first `=` into the name and, where
/// there is a `=`, the value as written.
pub fn split_define(s: &str) -> (r: (&str, Option<&str>))
    ensures
        r.0@ == written_name(s@),
        match r.1 {
            Some(value) => has_value(s@) && value@ == written_value(s@),
            None => !has_value(s@),
        },
{
    let n: usize = s.unicode_len();
    let cut = find_equals(s);
    if cut >= n {
        (s.substring_char(0, n), None)
    } else {
        (s.substring_char(0, cut), Some(s.substring_char(cut + 1, n)))
    }
}

/// Takes a value out of its quotes, where it stands in quotes.
pub fn strip_quotes(value: &str) -> (r: &str)
    ensures
        r@ == literal_inside(value@),
{
    let n: usize = value.unicode_len();
    if n >= 2 {
        let first = value.get_char(0);
        let last = value.get_char(n - 1);
        if (first == '"' || first == '\'' || first == '`') && last == first {
            return value.substring_char(1, n - 1);
        }
    }
    value
}

/// Reads the value of a definition: takes it out of its quotes and
/// unescapes what is left.
///
/// A value without a backslash stands for what is written inside the
/// quotes.
pub fn read_value(value: &str) -> (r: Option<String>)
    ensures
        r.deep_view() == value_text(value@),
        !literal_inside(value@).contains('\\') ==> r.deep_view() == Some(literal_inside(value@)),
{
    unescape(strip_quotes(value))
}

/// Reads one definition string.
///
/// The text of a value without a backslash is what is written inside its
/// quotes, or the value as written where it stands in none.
pub fn parse_define(s: &str) -> (d: Define)
    ensures
        d@ == define_of(s@),
        has_value(s@) && !literal_inside(written_value(s@)).contains('\\') ==> d@.text == Some(
            literal_inside(written_value(s@)),
        ),
{
    let (name, value) = split_define(s);
    let text = match value {
        Some(written) => read_value(written),
        None => None,
    };
    Define { identifier: name.to_owned(), text }
}

/// A definition without `=` declares the whole string as a name without
/// text.
pub proof fn lemma_define_without_value(s: Seq<char>)
    requires
        !s.contains('='),
    ensures
        define_of(s) == (DefineView { identifier: s, text: None }),
{
    lemma_first_equals(s, 0);
    let cut = first_equals(s, 0);
    if cut < s.len() {
        assert(s.contains(s[cut]));
    }
    assert(s.subrange(0, s.len() as int) == s);
}

/// A definition `NAME=VALUE` whose name holds no `=` declares `NAME` with
/// the text of the value: the name stays defined, without text, where the
/// value cannot be unescaped.
pub proof fn lemma_define_with_value(name: Seq<char>, value: Seq<char>)
    requires
        !name.contains('='),
    ensures
        has_value(name + seq!['='] + value),
        written_value(name + seq!['='] + value) == value,
        define_of(name + seq!['='] + value).identifier == name,
        define_of(name + seq!['='] + value).text == value_text(value),
{
    let s = name + seq!['='] + value;
    lemma_first_equals(s, 0);
    let cut = first_equals(s, 0);
    assert(s[name.len() as int] == '=');
    if cut < name.len() {
        assert(s[cut] == name[cut]);
        assert(name.contains(name[cut]));
    }
    assert(cut == name.len());
    assert(s.subrange(0, cut) == name);
    assert(s.subrange(cut + 1, s.len() as int) == value);
}

/// A value in quotes stands for what is written between them, unescaped;
/// a value in no quotes, for the whole of it, unescaped.
pub proof fn lemma_quoted_value(quote: char, inside: Seq<char>, plain: Seq<char>)
    requires
        is_quote(quote),
        !is_quoted(plain),
    ensures
        value_text(seq![quote] + inside + seq![quote]) == unescaped(inside),
        value_text(plain) == unescaped(plain),
{
    let value = seq![quote] + inside + seq![quote];
    assert(value.subrange(1, value.len() - 1) == inside);
}

/// Whether `entries` lists the table `table`: every name of the table
/// once, with its text, and nothing else.
pub open spec fn lists(entries: Seq<DefineView>, table: Map<Seq<char>, Option<Seq<char>>>) -> bool {
    &&& forall|i: int, j: int|
        0 <= i < j < entries.len() ==> entries[i].identifier != entries[j].identifier
    &&& forall|i: int|
        0 <= i < entries.len() ==> table.contains_key(#[trigger] entries[i].identifier)
            && table[entries[i].identifier] == entries[i].text
    &&& forall|k: Seq<char>|
        table.contains_key(k) ==> exists|i: int|
            0 <= i < entries.len() && #[trigger] entries[i].identifier == k
}

/// Whether no name is defined twice in `entries`.
spec fn unique_names(entries: Seq<Define>) -> bool {
    forall|i: int, j: int|
        0 <= i < j < entries.len() ==> entries[i].identifier@ != entries[j].identifier@
}

/// The table that `entries` spell out.
spec fn table_view(entries: Seq<Define>) -> Map<Seq<char>, Option<Seq<char>>> {
    Map::new(
        |k: Seq<char>| exists|i: int| 0 <= i < entries.len() && entries[i].identifier@ == k,
        |k: Seq<char>|
            entries[choose|i: int| 0 <= i < entries.len() && entries[i].identifier@ == k]@.text,
    )
}

/// The entry at index `i` is what the table holds for its name.
proof fn lemma_lookup(entries: Seq<Define>, i: int)
    requires
        unique_names(entries),
        0 <= i < entries.len(),
    ensures
        table_view(entries).contains_key(entries[i].identifier@),
        table_view(entries)[entries[i].identifier@] == entries[i]@.text,
{
    let k = entries[i].identifier@;
    let j = choose|j: int| 0 <= j < entries.len() && entries[j].identifier@ == k;
    assert(j == i);
}

/// Changing entries into `after`, which defines `d` and otherwise what
/// `before` defines, is an insertion into the table.
proof fn lemma_insert(before: Seq<Define>, after: Seq<Define>, d: Define)
    requires
        unique_names(before),
        unique_names(after),
        exists|i: int| 0 <= i < after.len() && after[i] == d,
        forall|i: int|
            0 <= i < after.len() && after[i] != d ==> i < before.len() && before[i] == after[i],
        forall|i: int|
            0 <= i < before.len() && before[i].identifier@ != d.identifier@ ==> i < after.len()
                && after[i] == before[i],
    ensures
        table_view(after) == table_view(before).insert(d.identifier@, d@.text),
{
    let target = table_view(before).insert(d.identifier@, d@.text);
    let at = choose|i: int| 0 <= i < after.len() && after[i] == d;
    assert forall|k: Seq<char>| table_view(after).contains_key(k) <==> target.contains_key(k) by {
        if table_view(after).contains_key(k) {
            let j = choose|j: int| 0 <= j < after.len() && after[j].identifier@ == k;
            if after[j] != d {
                assert(before[j].identifier@ == k);
            }
        }
        if target.contains_key(k) {
            if k == d.identifier@ {
                assert(after[at].identifier@ == k);
            } else {
                let j = choose|j: int| 0 <= j < before.len() && before[j].identifier@ == k;
                assert(after[j].identifier@ == k);
            }
        }
    }
    assert forall|k: Seq<char>| table_view(after).contains_key(k) implies table_view(after)[k]
        == target[k] by {
        let j = choose|j: int| 0 <= j < after.len() && after[j].identifier@ == k;
        lemma_lookup(after, j);
        if k == d.identifier@ {
            lemma_lookup(after, at);
        } else {
            lemma_lookup(before, j);
        }
    }
    assert(table_view(after) =~= target);
}

/// The definitions in force, by name: each name once.
pub struct DefineTable {
    entries: Vec<Define>,
}

impl View for DefineTable {
    type V = Map<Seq<char>, Option<Seq<char>>>;

    closed spec fn view(&self) -> Map<Seq<char>, Option<Seq<char>>> {
        table_view(self.entries@)
    }
}

impl DefineTable {
    /// Well-formedness: no name is stored twice.
    pub closed spec fn wf(&self) -> bool {
        unique_names(self.entries@)
    }

    /// An empty table.
    pub fn new() -> (t: DefineTable)
        ensures
            t.wf(),
            t@ == Map::<Seq<char>, Option<Seq<char>>>::empty(),
    {
        let t = DefineTable { entries: Vec::new() };
        assert(t@ =~= Map::<Seq<char>, Option<Seq<char>>>::empty());
        t
    }

    /// The definitions, each name once, in the order in which the names
    /// first came in.
    pub fn entries(&self) -> (r: &Vec<Define>)
        requires
            self.wf(),
        ensures
            lists(r.deep_view(), self@),
    {
        proof {
            let listed = self.entries.deep_view();
            assert forall|i: int| 0 <= i < listed.len() implies self@.contains_key(
                #[trigger] listed[i].identifier,
            ) && self@[listed[i].identifier] == listed[i].text by {
                lemma_lookup(self.entries@, i);
            }
            assert forall|k: Seq<char>| self@.contains_key(k) implies exists|i: int|
                0 <= i < listed.len() && #[trigger] listed[i].identifier == k by {
                let i = choose|i: int|
                    0 <= i < self.entries@.len() && self.entries@[i].identifier@ == k;
                assert(listed[i].identifier == k);
            }
        }
        &self.entries
    }

    /// Number of names defined.
    pub fn len(&self) -> (n: usize)
        requires
            self.wf(),
        ensures
            self@.dom().finite(),
            n == self@.dom().len(),
    {
        proof {
            let names = self.entries@.map_values(|d: Define| d.identifier@);
            assert(names.no_duplicates());
            assert(names.to_set() =~= self@.dom()) by {
                assert forall|k: Seq<char>| names.to_set().contains(k) implies self@.dom().contains(
                    k,
                ) by {
                    let i = choose|i: int| 0 <= i < names.len() && names[i] == k;
                    assert(self.entries@[i].identifier@ == k);
                }
                assert forall|k: Seq<char>| self@.dom().contains(k) implies names.to_set().contains(
                    k,
                ) by {
                    let i = choose|i: int|
                        0 <= i < self.entries@.len() && self.entries@[i].identifier@ == k;
                    assert(names[i] == k);
                }
            }
            names.unique_seq_to_set();
            vstd::seq_lib::seq_to_set_is_finite(names);
        }
        self.entries.len()
    }

    /// The definition of `identifier`, if it has one.
    pub fn get(&self, identifier: &str) -> (r: Option<&Define>)
        requires
            self.wf(),
        ensures
            match r {
                Some(d) => self@.contains_key(identifier@) && d@.identifier == identifier@
                    && d@.text == self@[identifier@],
                None => !self@.contains_key(identifier@),
            },
    {
        let mut i: usize = 0;
        while i < self.entries.len()
            invariant
                self.wf(),
                i <= self.entries@.len(),
                forall|j: int| 0 <= j < i ==> self.entries@[j].identifier@ != identifier@,
            decreases self.entries@.len() - i,
        {
            if str_equal(self.entries[i].identifier.as_str(), identifier) {
                proof {
                    lemma_lookup(self.entries@, i as int);
                }
                return Some(&self.entries[i]);
            }
            i += 1;
        }
        None
    }

    /// Defines `d.identifier` as `d.text`, in place of what the name stood
    /// for before.
    pub fn insert(&mut self, d: Define)
        requires
            old(self).wf(),
        ensures
            final(self).wf(),
            final(self)@ == old(self)@.insert(d@.identifier, d@.text),
    {
        let ghost before = self.entries@;
        let mut i: usize = 0;
        while i < self.entries.len()
            invariant
                i <= self.entries@.len(),
                self.entries@ == before,
                before == old(self).entries@,
                unique_names(before),
                forall|j: int| 0 <= j < i ==> before[j].identifier@ != d.identifier@,
            decreases self.entries@.len() - i,
        {
            if str_equal(self.entries[i].identifier.as_str(), d.identifier.as_str()) {
                self.entries.set(i, d);
                proof {
                    let after = self.entries@;
                    assert(after[i as int] == d);
                    assert forall|a: int, b: int| 0 <= a < b < after.len() implies after[a].identifier@
                        != after[b].identifier@ by {
                        assert(after[a].identifier@ == before[a].identifier@);
                        assert(after[b].identifier@ == before[b].identifier@);
                    }
                    lemma_insert(before, after, d);
                }
                return ;
            }
            i += 1;
        }
        self.entries.push(d);
        proof {
            let after = self.entries@;
            assert(after[before.len() as int] == d);
            lemma_insert(before, after, d);
        }
    }
}

/// The table that a list of definition strings declares: each string
/// defines its name, a later one in place of an earlier one of that name.
pub open spec fn table_of(defines: Seq<Seq<char>>) -> Map<Seq<char>, Option<Seq<char>>>
    decreases defines.len(),
{
    if defines.len() == 0 {
        Map::empty()
    } else {
        let d = define_of(defines.last());
        table_of(defines.drop_last()).insert(d.identifier, d.text)
    }
}

/// Builds the table of the configured definition strings.
pub fn resolve_defines(defines: &Vec<String>) -> (t: DefineTable)
    ensures
        t.wf(),
        t@ == table_of(defines.deep_view()),
{
    let mut t = DefineTable::new();
    let mut i: usize = 0;
    while i < defines.len()
        invariant
            i <= defines@.len(),
            t.wf(),
            t@ == table_of(defines.deep_view().take(i as int)),
        decreases defines@.len() - i,
    {
        let d = parse_define(defines[i].as_str());
        t.insert(d);
        proof {
            let all = defines.deep_view();
            assert(all.take(i + 1).drop_last() == all.take(i as int));
            assert(all.take(i + 1).last() == defines@[i as int]@);
        }
        i += 1;
    }
    assert(defines.deep_view().take(defines@.len() as int) == defines.deep_view());
    t
}

} // verus!
